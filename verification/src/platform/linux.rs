//! The Linux integration: the GNOME proxy settings, read and written with
//! `gsettings`, are saved before the local proxy is applied and put back when
//! it is cleared.
//!
//! Every `gsettings` run, and every read or write of the saved settings on
//! disk, is outside work. [`LinuxProxy`] holds the decisions: each call
//! returns the next [`ProxyAction`] to perform, and [`LinuxProxy::resume`]
//! takes the [`ProxyEvent`] that performing it produced.

use vstd::prelude::*;
use crate::text::{
    decimal, decimal_string, trim, trim_str, str_equals, parse_u32, parse_u32_str,
    int_parse_error_message, lemma_trim_unchanged,
};
use crate::platform::{ProxySetupResult, SetupView, proxy_address, proxy_address_string, proxy_host_string};

verus! {

/// One of the GNOME proxy settings the proxy setup touches.
#[derive(Clone, Copy, Debug, PartialEq, Eq, Structural)]
pub enum ProxyKey {
    Mode,
    HttpHost,
    HttpPort,
    HttpsHost,
    HttpsPort,
}

impl ProxyKey {
    /// The `gsettings` schema that holds the setting.
    pub open spec fn schema_name(self) -> Seq<char> {
        match self {
            ProxyKey::Mode => "org.gnome.system.proxy"@,
            ProxyKey::HttpHost => "org.gnome.system.proxy.http"@,
            ProxyKey::HttpPort => "org.gnome.system.proxy.http"@,
            ProxyKey::HttpsHost => "org.gnome.system.proxy.https"@,
            ProxyKey::HttpsPort => "org.gnome.system.proxy.https"@,
        }
    }

    /// The key of the setting within its schema.
    pub open spec fn key_name(self) -> Seq<char> {
        match self {
            ProxyKey::Mode => "mode"@,
            ProxyKey::HttpHost => "host"@,
            ProxyKey::HttpPort => "port"@,
            ProxyKey::HttpsHost => "host"@,
            ProxyKey::HttpsPort => "port"@,
        }
    }

    /// The `gsettings` schema that holds the setting.
    pub fn schema(&self) -> (s: &'static str)
        ensures
            s@ == self.schema_name(),
    {
        match self {
            ProxyKey::Mode => "org.gnome.system.proxy",
            ProxyKey::HttpHost => "org.gnome.system.proxy.http",
            ProxyKey::HttpPort => "org.gnome.system.proxy.http",
            ProxyKey::HttpsHost => "org.gnome.system.proxy.https",
            ProxyKey::HttpsPort => "org.gnome.system.proxy.https",
        }
    }

    /// The key of the setting within its schema.
    pub fn key(&self) -> (s: &'static str)
        ensures
            s@ == self.key_name(),
    {
        match self {
            ProxyKey::Mode => "mode",
            ProxyKey::HttpHost => "host",
            ProxyKey::HttpPort => "port",
            ProxyKey::HttpsHost => "host",
            ProxyKey::HttpsPort => "port",
        }
    }
}

/// The values the proxy settings had before the local proxy was applied;
/// `None` where a value could not be read.
#[derive(Debug)]
pub struct ProxyBackup {
    pub mode: Option<String>,
    pub http_host: Option<String>,
    pub http_port: Option<String>,
    pub https_host: Option<String>,
    pub https_port: Option<String>,
}

/// The text held in `o`, if any.
pub open spec fn opt_view(o: &Option<String>) -> Option<Seq<char>> {
    match o {
        Some(s) => Some(s@),
        None => None,
    }
}

/// `m` with the value of `k` set to `v`, or removed where `v` is `None`.
pub open spec fn assign(m: Map<ProxyKey, Seq<char>>, k: ProxyKey, v: Option<Seq<char>>) -> Map<
    ProxyKey,
    Seq<char>,
> {
    match v {
        Some(s) => m.insert(k, s),
        None => m.remove(k),
    }
}

impl ProxyBackup {
    /// The saved value of `k`.
    pub open spec fn field(self, k: ProxyKey) -> Option<String> {
        match k {
            ProxyKey::Mode => self.mode,
            ProxyKey::HttpHost => self.http_host,
            ProxyKey::HttpPort => self.http_port,
            ProxyKey::HttpsHost => self.https_host,
            ProxyKey::HttpsPort => self.https_port,
        }
    }

    /// A backup that holds no value.
    pub fn empty() -> (b: ProxyBackup)
        ensures
            b@ == Map::<ProxyKey, Seq<char>>::empty(),
    {
        let b = ProxyBackup {
            mode: None,
            http_host: None,
            http_port: None,
            https_host: None,
            https_port: None,
        };
        assert(b@ =~= Map::<ProxyKey, Seq<char>>::empty());
        b
    }

    /// Whether a value of `k` is saved.
    pub fn has(&self, k: ProxyKey) -> (r: bool)
        ensures
            r == self@.contains_key(k),
    {
        match k {
            ProxyKey::Mode => self.mode.is_some(),
            ProxyKey::HttpHost => self.http_host.is_some(),
            ProxyKey::HttpPort => self.http_port.is_some(),
            ProxyKey::HttpsHost => self.https_host.is_some(),
            ProxyKey::HttpsPort => self.https_port.is_some(),
        }
    }

    /// A copy of the saved value of `k`.
    pub fn value(&self, k: ProxyKey) -> (s: String)
        requires
            self@.contains_key(k),
        ensures
            s@ == self@[k],
    {
        let v = match k {
            ProxyKey::Mode => &self.mode,
            ProxyKey::HttpHost => &self.http_host,
            ProxyKey::HttpPort => &self.http_port,
            ProxyKey::HttpsHost => &self.https_host,
            ProxyKey::HttpsPort => &self.https_port,
        };
        match v {
            Some(s) => s.clone(),
            None => String::new(),
        }
    }

    /// Saves `v` as the value of `k`, or forgets the value of `k` where `v`
    /// is `None`.
    pub fn set(&mut self, k: ProxyKey, v: Option<String>)
        ensures
            final(self)@ == assign(old(self)@, k, opt_view(&v)),
    {
        let ghost expected = assign(old(self)@, k, opt_view(&v));
        match k {
            ProxyKey::Mode => self.mode = v,
            ProxyKey::HttpHost => self.http_host = v,
            ProxyKey::HttpPort => self.http_port = v,
            ProxyKey::HttpsHost => self.https_host = v,
            ProxyKey::HttpsPort => self.https_port = v,
        }
        assert(self@ =~= expected);
    }

    /// A copy of the backup.
    pub fn duplicate(&self) -> (b: ProxyBackup)
        ensures
            b@ == self@,
    {
        let mut b = ProxyBackup::empty();
        if self.has(ProxyKey::Mode) { b.set(ProxyKey::Mode, Some(self.value(ProxyKey::Mode))); }
        if self.has(ProxyKey::HttpHost) { b.set(ProxyKey::HttpHost, Some(self.value(ProxyKey::HttpHost))); }
        if self.has(ProxyKey::HttpPort) { b.set(ProxyKey::HttpPort, Some(self.value(ProxyKey::HttpPort))); }
        if self.has(ProxyKey::HttpsHost) { b.set(ProxyKey::HttpsHost, Some(self.value(ProxyKey::HttpsHost))); }
        if self.has(ProxyKey::HttpsPort) { b.set(ProxyKey::HttpsPort, Some(self.value(ProxyKey::HttpsPort))); }
        assert(b@ =~= self@);
        b
    }
}

impl View for ProxyBackup {
    type V = Map<ProxyKey, Seq<char>>;

    /// The saved values, by setting.
    open spec fn view(&self) -> Map<ProxyKey, Seq<char>> {
        Map::new(|k: ProxyKey| self.field(k) is Some, |k: ProxyKey| self.field(k)->0@)
    }
}


/// The name of the platform.
pub fn name() -> (s: &'static str)
    ensures
        s@ == "linux"@,
{
    "linux"
}

/// Whether the proxy is shared on the local network in game mode: never on
/// Linux.
pub fn should_bind_lan_for_game_mode(_enable_game_mode: bool) -> (b: bool)
    ensures
        !b,
{
    false
}

/// Firewall rules are managed only on Windows; on Linux there is nothing to
/// do.
pub fn manage_firewall_rules(_enable: bool, _proxy_port: u16, _pac_port: u16) {
}

/// Whether the program runs with the rights it needs: Linux asks for none.
pub fn check_admin() -> (b: bool)
    ensures
        b,
{
    true
}

/// Whether the packet capture driver is present: it is a Windows driver.
pub fn check_driver() -> (b: bool)
    ensures
        !b,
{
    false
}

/// Installing the packet capture driver fails on Linux.
pub fn install_driver() -> (r: Result<(), String>)
    ensures
        r matches Err(msg) && msg@ == "Npcap driver installation is only supported on Windows."@,
{
    Err(String::from_str("Npcap driver installation is only supported on Windows."))
}

/// The result reported when the GNOME proxy settings were applied.
pub open spec fn applied_result(port: u16) -> SetupView {
    SetupView {
        platform: "linux"@,
        host: "127.0.0.1"@,
        port: port,
        automatic: true,
        message: "Linux GNOME proxy applied at "@ + proxy_address(port),
    }
}

/// The result reported when the user has to set the proxy by hand, for the
/// given reason.
pub open spec fn fallback_result(port: u16, reason: Seq<char>) -> SetupView {
    SetupView {
        platform: "linux"@,
        host: "127.0.0.1"@,
        port: port,
        automatic: false,
        message: "Manual proxy fallback ("@ + reason + "): set HTTP/HTTPS proxy to "@
            + proxy_address(port),
    }
}

/// The reason given when `gsettings` cannot change the proxy mode.
pub open spec fn unavailable_reason() -> Seq<char> {
    "gsettings is unavailable"@
}

/// The reason given when a setting could not be applied.
pub open spec fn failed_reason() -> Seq<char> {
    "gsettings proxy setup failed"@
}

fn applied(port: u16) -> (r: ProxySetupResult)
    ensures
        r@ == applied_result(port),
{
    let mut message = String::from_str("Linux GNOME proxy applied at ");
    message.append(proxy_address_string(port).as_str());
    ProxySetupResult {
        platform: name(),
        host: proxy_host_string(),
        port: port,
        automatic: true,
        message: message,
    }
}

/// The setup the user has to make by hand when the GNOME settings cannot be
/// applied, with the reason why.
pub fn manual_fallback(port: u16, reason: &str) -> (r: ProxySetupResult)
    ensures
        r@ == fallback_result(port, reason@),
{
    let mut message = String::from_str("Manual proxy fallback (");
    message.append(reason);
    message.append("): set HTTP/HTTPS proxy to ");
    message.append(proxy_address_string(port).as_str());
    ProxySetupResult {
        platform: name(),
        host: proxy_host_string(),
        port: port,
        automatic: false,
        message: message,
    }
}

/// Which part of applying one setting is under way.
#[derive(Clone, Copy, Debug, PartialEq, Eq, Structural)]
pub enum ApplyStep {
    /// Asking whether an optional setting can be written at all.
    CheckOptional,
    /// Asking whether the setting can be written, just before writing it.
    Check,
    /// Writing the setting.
    Write,
}

/// What follows once the saved settings have been put back.
#[derive(Clone, Copy, Debug, PartialEq, Eq, Structural)]
pub enum Resume {
    /// A setup that failed: the user is told to set the proxy by hand.
    SetupFailed { port: u16 },
    /// Clearing the proxy.
    Clear,
}

/// The operation under way.
#[derive(Clone, Copy, Debug, PartialEq, Eq, Structural)]
pub enum Task {
    /// Nothing is under way.
    Idle,
    /// Setup: asking whether the proxy mode can be written.
    Probe { port: u16 },
    /// Setup with nothing saved in memory: reading the settings an earlier
    /// run saved on disk and did not put back.
    Recover { port: u16 },
    /// Setup: reading the current value of setting `next` (in reading order).
    Snapshot { port: u16, next: usize },
    /// Setup: the settings read are being saved to disk.
    Persist { port: u16 },
    /// Setup: applying setting `item` of the setup plan; `failed` says
    /// whether an earlier step has failed.
    Apply { port: u16, item: usize, step: ApplyStep, failed: bool },
    /// Restoring: the saved settings are being read from disk.
    Load { then: Resume },
    /// Restoring: putting back setting `item` (in restoring order); the
    /// check is done when `writing`.
    Restore { then: Resume, item: usize, writing: bool },
    /// Restoring: the saved settings are being removed from disk.
    Forget { then: Resume },
    /// Clearing: asking whether the proxy mode can be written.
    ClearProbe,
    /// Clearing with nothing saved: turning the proxy mode off; the check is
    /// done when `writing`.
    Reset { writing: bool },
}

/// What the outside work of the last action produced.
#[derive(Debug)]
pub enum ProxyEvent {
    /// The standard output of a `gsettings` query that exited successfully;
    /// `None` where it could not run or failed.
    Output(Option<String>),
    /// Whether a `gsettings set` exited successfully.
    Status(bool),
    /// The settings saved on disk; `None` where there are none or they
    /// cannot be read.
    Loaded(Option<ProxyBackup>),
    /// The action was performed and reports nothing.
    Done,
}

/// The next piece of outside work.
#[derive(Debug)]
pub enum ProxyAction {
    /// Nothing is under way.
    Nothing,
    /// Run `gsettings writable <schema> <key>` and report its output.
    QueryWritable(ProxyKey),
    /// Run `gsettings get <schema> <key>` and report its output.
    QueryValue(ProxyKey),
    /// Run `gsettings set <schema> <key> <value>` and report its status.
    Write(ProxyKey, String),
    /// Save these settings to disk; report `Done`.
    SaveBackup(ProxyBackup),
    /// Read the settings saved on disk and report them.
    LoadBackup,
    /// Remove the settings saved on disk; report `Done`.
    DeleteBackup,
    /// The setup is over, with this result.
    Configured(ProxySetupResult),
    /// The proxy has been cleared.
    Cleared,
}

/// The mathematical content of a [`ProxyEvent`].
pub enum EventView {
    Output(Option<Seq<char>>),
    Status(bool),
    Loaded(Option<Map<ProxyKey, Seq<char>>>),
    Done,
}

/// The mathematical content of a [`ProxyAction`].
#[verifier::ext_equal]
pub enum ActionView {
    Nothing,
    QueryWritable(ProxyKey),
    QueryValue(ProxyKey),
    Write(ProxyKey, Seq<char>),
    SaveBackup(Map<ProxyKey, Seq<char>>),
    LoadBackup,
    DeleteBackup,
    Configured(SetupView),
    Cleared,
}

impl View for ProxyEvent {
    type V = EventView;

    open spec fn view(&self) -> EventView {
        match self {
            ProxyEvent::Output(o) => EventView::Output(opt_view(o)),
            ProxyEvent::Status(b) => EventView::Status(*b),
            ProxyEvent::Loaded(b) => EventView::Loaded(
                match b {
                    Some(b) => Some(b@),
                    None => None,
                },
            ),
            ProxyEvent::Done => EventView::Done,
        }
    }
}

impl View for ProxyAction {
    type V = ActionView;

    open spec fn view(&self) -> ActionView {
        match self {
            ProxyAction::Nothing => ActionView::Nothing,
            ProxyAction::QueryWritable(k) => ActionView::QueryWritable(*k),
            ProxyAction::QueryValue(k) => ActionView::QueryValue(*k),
            ProxyAction::Write(k, v) => ActionView::Write(*k, v@),
            ProxyAction::SaveBackup(b) => ActionView::SaveBackup(b@),
            ProxyAction::LoadBackup => ActionView::LoadBackup,
            ProxyAction::DeleteBackup => ActionView::DeleteBackup,
            ProxyAction::Configured(r) => ActionView::Configured(r@),
            ProxyAction::Cleared => ActionView::Cleared,
        }
    }
}

/// The number of settings the setup reads, applies and restores.
pub const SETTING_COUNT: usize = 5;

/// The order in which the current settings are read before a setup.
pub open spec fn read_key(i: int) -> ProxyKey {
    if i == 0 {
        ProxyKey::Mode
    } else if i == 1 {
        ProxyKey::HttpHost
    } else if i == 2 {
        ProxyKey::HttpPort
    } else if i == 3 {
        ProxyKey::HttpsHost
    } else {
        ProxyKey::HttpsPort
    }
}

/// The order in which saved settings are put back.
pub open spec fn restore_key(i: int) -> ProxyKey {
    if i == 0 {
        ProxyKey::HttpHost
    } else if i == 1 {
        ProxyKey::HttpPort
    } else if i == 2 {
        ProxyKey::HttpsHost
    } else if i == 3 {
        ProxyKey::HttpsPort
    } else {
        ProxyKey::Mode
    }
}

/// The setting written by step `i` of the setup plan.
pub open spec fn plan_key(i: int) -> ProxyKey {
    if i == 0 {
        ProxyKey::HttpHost
    } else if i == 1 {
        ProxyKey::HttpPort
    } else if i == 2 {
        ProxyKey::Mode
    } else if i == 3 {
        ProxyKey::HttpsHost
    } else {
        ProxyKey::HttpsPort
    }
}

/// The value written by step `i` of the setup plan for the proxy at `port`.
pub open spec fn plan_value(i: int, port: u16) -> Seq<char> {
    if i == 0 || i == 3 {
        "'127.0.0.1'"@
    } else if i == 2 {
        "'manual'"@
    } else {
        decimal(port as nat)
    }
}

/// Whether step `i` of the setup plan must succeed for the setup to be
/// automatic. The HTTPS settings are optional: one that cannot be written at
/// all is left alone.
pub open spec fn plan_required(i: int) -> bool {
    i < 3
}

/// The value the proxy mode is given when a clear finds nothing saved.
pub open spec fn mode_off() -> Seq<char> {
    "'none'"@
}

/// Whether the output reported says the setting can be written.
pub open spec fn reports_writable(e: EventView) -> bool {
    e matches EventView::Output(Some(o)) && trim(o) == "true"@
}

/// The value of a setting the output reported holds, if any.
pub open spec fn reported_value(e: EventView) -> Option<Seq<char>> {
    match e {
        EventView::Output(Some(o)) => Some(trim(o)),
        _ => None,
    }
}

/// Whether the event reports a successful write.
pub open spec fn reports_success(e: EventView) -> bool {
    e == EventView::Status(true)
}

/// The saved settings the event reports, if any.
pub open spec fn reported_backup(e: EventView) -> Option<Map<ProxyKey, Seq<char>>> {
    match e {
        EventView::Loaded(b) => b,
        _ => None,
    }
}

/// The mathematical content of a [`LinuxProxy`].
#[verifier::ext_equal]
pub struct ProxyState {
    /// The settings saved in memory before the proxy was applied.
    pub backup: Option<Map<ProxyKey, Seq<char>>>,
    /// The settings being read, or being restored.
    pub scratch: Map<ProxyKey, Seq<char>>,
    /// The operation under way.
    pub task: Task,
}

/// The step of the setup plan taken after step `i` fails: a failed HTTP or
/// mode setting skips the other required settings, whose result is already
/// decided, but the optional HTTPS settings are still applied; a failed HTTPS
/// setting skips the rest of the plan.
pub open spec fn after_failure(i: int) -> int {
    if plan_required(i) {
        3
    } else {
        SETTING_COUNT as int
    }
}

/// Starts applying step `i` of the setup plan, `failed` saying whether an
/// earlier step has failed. Once the plan is done, the setup is reported
/// applied, or, after a failure, the saved settings are put back.
pub open spec fn item_start(s: ProxyState, port: u16, i: int, failed: bool) -> (
    ProxyState,
    ActionView,
) {
    if i >= SETTING_COUNT {
        if failed {
            restore_start(s, Resume::SetupFailed { port })
        } else {
            (ProxyState { task: Task::Idle, ..s }, ActionView::Configured(applied_result(port)))
        }
    } else {
        (
            ProxyState {
                task: Task::Apply {
                    port,
                    item: i as usize,
                    step: if plan_required(i) {
                        ApplyStep::Check
                    } else {
                        ApplyStep::CheckOptional
                    },
                    failed,
                },
                ..s
            },
            ActionView::QueryWritable(plan_key(i)),
        )
    }
}

/// The first position from `i` on, in restoring order, whose setting holds a
/// saved value (`SETTING_COUNT` where there is none).
pub open spec fn next_saved(saved: Map<ProxyKey, Seq<char>>, i: int) -> int
    decreases SETTING_COUNT - i,
{
    if i >= SETTING_COUNT {
        SETTING_COUNT as int
    } else if saved.contains_key(restore_key(i)) {
        i
    } else {
        next_saved(saved, i + 1)
    }
}

/// Puts back the saved settings from position `i` on, in restoring order;
/// once all are back, the saved settings are forgotten.
pub open spec fn restore_from(s: ProxyState, then: Resume, i: int) -> (ProxyState, ActionView) {
    let j = next_saved(s.scratch, i);
    if j >= SETTING_COUNT {
        (ProxyState { backup: None, task: Task::Forget { then }, ..s }, ActionView::DeleteBackup)
    } else {
        (
            ProxyState { task: Task::Restore { then, item: j as usize, writing: false }, ..s },
            ActionView::QueryWritable(restore_key(j)),
        )
    }
}

/// Starts putting back the saved settings: those in memory, or else those on
/// disk.
pub open spec fn restore_start(s: ProxyState, then: Resume) -> (ProxyState, ActionView) {
    match s.backup {
        Some(b) => restore_from(ProxyState { scratch: b, ..s }, then, 0),
        None => (ProxyState { task: Task::Load { then }, ..s }, ActionView::LoadBackup),
    }
}

/// What follows a restore; `restored` says whether saved settings were found.
pub open spec fn restore_done(s: ProxyState, then: Resume, restored: bool) -> (
    ProxyState,
    ActionView,
) {
    match then {
        Resume::SetupFailed { port } => (
            ProxyState { task: Task::Idle, ..s },
            ActionView::Configured(fallback_result(port, failed_reason())),
        ),
        Resume::Clear => if restored {
            (ProxyState { task: Task::Idle, ..s }, ActionView::Cleared)
        } else {
            (
                ProxyState { task: Task::Reset { writing: false }, ..s },
                ActionView::QueryWritable(ProxyKey::Mode),
            )
        },
    }
}

/// The state after `port` setup begins, and its first action.
pub open spec fn setup_start(s: ProxyState, port: u16) -> (ProxyState, ActionView) {
    (ProxyState { task: Task::Probe { port }, ..s }, ActionView::QueryWritable(ProxyKey::Mode))
}

/// The state after a clear begins, and its first action.
pub open spec fn clear_start(s: ProxyState) -> (ProxyState, ActionView) {
    (ProxyState { task: Task::ClearProbe, ..s }, ActionView::QueryWritable(ProxyKey::Mode))
}

/// Starts reading the current settings, in reading order.
pub open spec fn snapshot_start(s: ProxyState, port: u16) -> (ProxyState, ActionView) {
    (
        ProxyState { scratch: Map::empty(), task: Task::Snapshot { port, next: 0 }, ..s },
        ActionView::QueryValue(read_key(0)),
    )
}

/// The state and the action that follow event `e` in state `s`.
pub open spec fn next(s: ProxyState, e: EventView) -> (ProxyState, ActionView) {
    match s.task {
        Task::Idle => (s, ActionView::Nothing),
        Task::Probe { port } => if reports_writable(e) {
            if s.backup is None {
                (ProxyState { task: Task::Recover { port }, ..s }, ActionView::LoadBackup)
            } else {
                snapshot_start(s, port)
            }
        } else {
            (
                ProxyState { task: Task::Idle, ..s },
                ActionView::Configured(fallback_result(port, unavailable_reason())),
            )
        },
        Task::Recover { port } => match reported_backup(e) {
            Some(b) => if s.backup is None {
                snapshot_start(ProxyState { backup: Some(b), ..s }, port)
            } else {
                snapshot_start(s, port)
            },
            None => snapshot_start(s, port),
        },
        Task::Snapshot { port, next } => {
            let scratch = assign(s.scratch, read_key(next as int), reported_value(e));
            if next + 1 < SETTING_COUNT {
                (
                    ProxyState {
                        scratch,
                        task: Task::Snapshot { port, next: (next + 1) as usize },
                        ..s
                    },
                    ActionView::QueryValue(read_key(next + 1)),
                )
            } else if s.backup is None {
                (
                    ProxyState { backup: Some(scratch), scratch, task: Task::Persist { port } },
                    ActionView::SaveBackup(scratch),
                )
            } else {
                item_start(ProxyState { scratch, ..s }, port, 0, false)
            }
        },
        Task::Persist { port } => item_start(s, port, 0, false),
        Task::Apply { port, item, step, failed } => match step {
            ApplyStep::CheckOptional => if reports_writable(e) {
                (
                    ProxyState {
                        task: Task::Apply { port, item, step: ApplyStep::Check, failed },
                        ..s
                    },
                    ActionView::QueryWritable(plan_key(item as int)),
                )
            } else {
                item_start(s, port, item + 1, failed)
            },
            ApplyStep::Check => if reports_writable(e) {
                (
                    ProxyState {
                        task: Task::Apply { port, item, step: ApplyStep::Write, failed },
                        ..s
                    },
                    ActionView::Write(plan_key(item as int), plan_value(item as int, port)),
                )
            } else {
                item_start(s, port, after_failure(item as int), true)
            },
            ApplyStep::Write => if reports_success(e) {
                item_start(s, port, item + 1, failed)
            } else {
                item_start(s, port, after_failure(item as int), true)
            },
        },
        Task::Load { then } => match reported_backup(e) {
            Some(b) => restore_from(ProxyState { scratch: b, ..s }, then, 0),
            None => restore_done(s, then, false),
        },
        Task::Restore { then, item, writing } => if !writing && reports_writable(e) && item
            < SETTING_COUNT && s.scratch.contains_key(restore_key(item as int)) {
            (
                ProxyState { task: Task::Restore { then, item, writing: true }, ..s },
                ActionView::Write(restore_key(item as int), s.scratch[restore_key(item as int)]),
            )
        } else {
            restore_from(s, then, item + 1)
        },
        Task::Forget { then } => restore_done(s, then, true),
        Task::ClearProbe => if reports_writable(e) {
            restore_start(s, Resume::Clear)
        } else {
            (ProxyState { task: Task::Idle, ..s }, ActionView::Cleared)
        },
        Task::Reset { writing } => if !writing && reports_writable(e) {
            (
                ProxyState { task: Task::Reset { writing: true }, ..s },
                ActionView::Write(ProxyKey::Mode, mode_off()),
            )
        } else {
            (ProxyState { task: Task::Idle, ..s }, ActionView::Cleared)
        },
    }
}


fn read_key_at(i: usize) -> (k: ProxyKey)
    ensures
        k == read_key(i as int),
{
    if i == 0 {
        ProxyKey::Mode
    } else if i == 1 {
        ProxyKey::HttpHost
    } else if i == 2 {
        ProxyKey::HttpPort
    } else if i == 3 {
        ProxyKey::HttpsHost
    } else {
        ProxyKey::HttpsPort
    }
}

fn restore_key_at(i: usize) -> (k: ProxyKey)
    ensures
        k == restore_key(i as int),
{
    if i == 0 {
        ProxyKey::HttpHost
    } else if i == 1 {
        ProxyKey::HttpPort
    } else if i == 2 {
        ProxyKey::HttpsHost
    } else if i == 3 {
        ProxyKey::HttpsPort
    } else {
        ProxyKey::Mode
    }
}

fn plan_key_at(i: usize) -> (k: ProxyKey)
    ensures
        k == plan_key(i as int),
{
    if i == 0 {
        ProxyKey::HttpHost
    } else if i == 1 {
        ProxyKey::HttpPort
    } else if i == 2 {
        ProxyKey::Mode
    } else if i == 3 {
        ProxyKey::HttpsHost
    } else {
        ProxyKey::HttpsPort
    }
}

fn plan_value_at(i: usize, port: u16) -> (v: String)
    ensures
        v@ == plan_value(i as int, port),
{
    if i == 0 || i == 3 {
        String::from_str("'127.0.0.1'")
    } else if i == 2 {
        String::from_str("'manual'")
    } else {
        decimal_string(port as u64)
    }
}

fn skip_after_failure(i: usize) -> (j: usize)
    ensures
        j == after_failure(i as int),
        j <= SETTING_COUNT,
{
    if i < 3 {
        3
    } else {
        SETTING_COUNT
    }
}

fn event_writable(e: &ProxyEvent) -> (b: bool)
    ensures
        b == reports_writable(e@),
{
    match e {
        ProxyEvent::Output(Some(o)) => str_equals(trim_str(o.as_str()), "true"),
        _ => false,
    }
}

fn event_value(e: ProxyEvent) -> (v: Option<String>)
    ensures
        opt_view(&v) == reported_value(e@),
{
    match e {
        ProxyEvent::Output(Some(o)) => Some(String::from_str(trim_str(o.as_str()))),
        _ => None,
    }
}

fn event_success(e: &ProxyEvent) -> (b: bool)
    ensures
        b == reports_success(e@),
{
    match e {
        ProxyEvent::Status(ok) => *ok,
        _ => false,
    }
}

fn event_backup(e: ProxyEvent) -> (b: Option<ProxyBackup>)
    ensures
        (match b {
            Some(b) => Some(b@),
            None => None,
        }) == reported_backup(e@),
{
    match e {
        ProxyEvent::Loaded(b) => b,
        _ => None,
    }
}

/// The Linux proxy integration: the settings saved before the proxy was
/// applied, and the operation under way.
pub struct LinuxProxy {
    backup: Option<ProxyBackup>,
    scratch: ProxyBackup,
    task: Task,
}

impl View for LinuxProxy {
    type V = ProxyState;

    closed spec fn view(&self) -> ProxyState {
        ProxyState {
            backup: match self.backup {
                Some(b) => Some(b@),
                None => None,
            },
            scratch: self.scratch@,
            task: self.task,
        }
    }
}

impl LinuxProxy {
    /// An integration with nothing saved and nothing under way.
    pub fn new() -> (p: LinuxProxy)
        ensures
            p@.backup is None,
            p@.scratch == Map::<ProxyKey, Seq<char>>::empty(),
            p@.task == Task::Idle,
    {
        LinuxProxy { backup: None, scratch: ProxyBackup::empty(), task: Task::Idle }
    }

    /// Whether an operation is under way.
    pub fn is_busy(&self) -> (b: bool)
        ensures
            b == (self@.task != Task::Idle),
    {
        match self.task {
            Task::Idle => false,
            _ => true,
        }
    }

    /// Starts pointing the GNOME proxy settings at the local proxy on
    /// `port`: the settings are first saved, unless settings saved earlier
    /// have not been put back yet, in memory or, from a run that ended
    /// without clearing, on disk; where a setting cannot be applied, the
    /// plan goes on as [`after_failure`] says, then the saved settings are
    /// put back and the user is told to set the proxy by hand. The result is
    /// always a setup, never an error.
    pub fn set_system_proxy(&mut self, port: u16, _enable_winhttp: bool) -> (a: ProxyAction)
        ensures
            (final(self)@, a@) == setup_start(old(self)@, port),
    {
        self.task = Task::Probe { port };
        ProxyAction::QueryWritable(ProxyKey::Mode)
    }

    /// Starts clearing the system proxy: the saved settings are put back, or,
    /// where none are saved, the proxy mode is turned off.
    pub fn clear_system_proxy(&mut self) -> (a: ProxyAction)
        ensures
            (final(self)@, a@) == clear_start(old(self)@),
    {
        self.task = Task::ClearProbe;
        ProxyAction::QueryWritable(ProxyKey::Mode)
    }

    fn start_snapshot(&mut self, port: u16) -> (a: ProxyAction)
        ensures
            (final(self)@, a@) == snapshot_start(old(self)@, port),
    {
        self.scratch = ProxyBackup::empty();
        self.task = Task::Snapshot { port, next: 0 };
        ProxyAction::QueryValue(ProxyKey::Mode)
    }

    fn start_item(&mut self, port: u16, i: usize, failed: bool) -> (a: ProxyAction)
        requires
            i <= SETTING_COUNT,
        ensures
            (final(self)@, a@) == item_start(old(self)@, port, i as int, failed),
    {
        if i >= SETTING_COUNT {
            if failed {
                self.begin_restore(Resume::SetupFailed { port })
            } else {
                self.task = Task::Idle;
                ProxyAction::Configured(applied(port))
            }
        } else {
            let step = if i < 3 {
                ApplyStep::Check
            } else {
                ApplyStep::CheckOptional
            };
            self.task = Task::Apply { port, item: i, step, failed };
            ProxyAction::QueryWritable(plan_key_at(i))
        }
    }

    fn restore_from_position(&mut self, then: Resume, i: usize) -> (a: ProxyAction)
        requires
            i <= SETTING_COUNT,
        ensures
            (final(self)@, a@) == restore_from(old(self)@, then, i as int),
    {
        let mut j = i;
        while j < SETTING_COUNT && !self.scratch.has(restore_key_at(j))
            invariant
                i <= j <= SETTING_COUNT,
                next_saved(self.scratch@, i as int) == next_saved(self.scratch@, j as int),
            decreases SETTING_COUNT - j,
        {
            j = j + 1;
        }
        if j >= SETTING_COUNT {
            self.backup = None;
            self.task = Task::Forget { then };
            ProxyAction::DeleteBackup
        } else {
            self.task = Task::Restore { then, item: j, writing: false };
            ProxyAction::QueryWritable(restore_key_at(j))
        }
    }

    fn begin_restore(&mut self, then: Resume) -> (a: ProxyAction)
        ensures
            (final(self)@, a@) == restore_start(old(self)@, then),
    {
        match &self.backup {
            Some(b) => {
                self.scratch = b.duplicate();
                self.restore_from_position(then, 0)
            },
            None => {
                self.task = Task::Load { then };
                ProxyAction::LoadBackup
            },
        }
    }

    fn finish_restore(&mut self, then: Resume, restored: bool) -> (a: ProxyAction)
        ensures
            (final(self)@, a@) == restore_done(old(self)@, then, restored),
    {
        match then {
            Resume::SetupFailed { port } => {
                self.task = Task::Idle;
                ProxyAction::Configured(manual_fallback(port, "gsettings proxy setup failed"))
            },
            Resume::Clear => {
                if restored {
                    self.task = Task::Idle;
                    ProxyAction::Cleared
                } else {
                    self.task = Task::Reset { writing: false };
                    ProxyAction::QueryWritable(ProxyKey::Mode)
                }
            },
        }
    }

    /// Takes what the outside work of the last action produced, and returns
    /// the next action.
    pub fn resume(&mut self, event: ProxyEvent) -> (a: ProxyAction)
        ensures
            (final(self)@, a@) == next(old(self)@, event@),
    {
        match self.task {
            Task::Idle => ProxyAction::Nothing,
            Task::Probe { port } => {
                if event_writable(&event) {
                    if self.backup.is_none() {
                        self.task = Task::Recover { port };
                        ProxyAction::LoadBackup
                    } else {
                        self.start_snapshot(port)
                    }
                } else {
                    self.task = Task::Idle;
                    ProxyAction::Configured(manual_fallback(port, "gsettings is unavailable"))
                }
            },
            Task::Recover { port } => {
                match event_backup(event) {
                    Some(b) => {
                        if self.backup.is_none() {
                            self.backup = Some(b);
                        }
                        self.start_snapshot(port)
                    },
                    None => self.start_snapshot(port),
                }
            },
            Task::Snapshot { port, next } => {
                let k = read_key_at(next);
                self.scratch.set(k, event_value(event));
                if next < SETTING_COUNT - 1 {
                    self.task = Task::Snapshot { port, next: next + 1 };
                    ProxyAction::QueryValue(read_key_at(next + 1))
                } else if self.backup.is_none() {
                    let saved = self.scratch.duplicate();
                    let copy = self.scratch.duplicate();
                    self.backup = Some(saved);
                    self.task = Task::Persist { port };
                    ProxyAction::SaveBackup(copy)
                } else {
                    self.start_item(port, 0, false)
                }
            },
            Task::Persist { port } => self.start_item(port, 0, false),
            Task::Apply { port, item, step, failed } => {
                match step {
                    ApplyStep::CheckOptional => {
                        if event_writable(&event) {
                            self.task = Task::Apply { port, item, step: ApplyStep::Check, failed };
                            ProxyAction::QueryWritable(plan_key_at(item))
                        } else if item < SETTING_COUNT {
                            self.start_item(port, item + 1, failed)
                        } else {
                            self.start_item(port, SETTING_COUNT, failed)
                        }
                    },
                    ApplyStep::Check => {
                        if event_writable(&event) {
                            self.task = Task::Apply { port, item, step: ApplyStep::Write, failed };
                            ProxyAction::Write(plan_key_at(item), plan_value_at(item, port))
                        } else {
                            self.start_item(port, skip_after_failure(item), true)
                        }
                    },
                    ApplyStep::Write => {
                        if !event_success(&event) {
                            self.start_item(port, skip_after_failure(item), true)
                        } else if item < SETTING_COUNT {
                            self.start_item(port, item + 1, failed)
                        } else {
                            self.start_item(port, SETTING_COUNT, failed)
                        }
                    },
                }
            },
            Task::Load { then } => {
                match event_backup(event) {
                    Some(b) => {
                        self.scratch = b;
                        self.restore_from_position(then, 0)
                    },
                    None => self.finish_restore(then, false),
                }
            },
            Task::Restore { then, item, writing } => {
                if !writing && event_writable(&event) && item < SETTING_COUNT
                    && self.scratch.has(restore_key_at(item)) {
                    let k = restore_key_at(item);
                    self.task = Task::Restore { then, item, writing: true };
                    ProxyAction::Write(k, self.scratch.value(k))
                } else if item < SETTING_COUNT {
                    self.restore_from_position(then, item + 1)
                } else {
                    self.restore_from_position(then, SETTING_COUNT)
                }
            },
            Task::Forget { then } => self.finish_restore(then, true),
            Task::ClearProbe => {
                if event_writable(&event) {
                    self.begin_restore(Resume::Clear)
                } else {
                    self.task = Task::Idle;
                    ProxyAction::Cleared
                }
            },
            Task::Reset { writing } => {
                if !writing && event_writable(&event) {
                    self.task = Task::Reset { writing: true };
                    ProxyAction::Write(ProxyKey::Mode, String::from_str("'none'"))
                } else {
                    self.task = Task::Idle;
                    ProxyAction::Cleared
                }
            },
        }
    }
}


/// What stopping a sidecar left over from an earlier run comes to, once its
/// PID file has been read.
#[derive(Debug)]
pub enum ZombieStep {
    /// Nothing more to do: report this.
    Report(Result<String, String>),
    /// Remove the PID file, then report this.
    RemoveThenReport(Result<String, String>),
    /// Send `SIGTERM` to `pid` (see [`terminate_args`]), remove the PID file,
    /// then report what [`zombie_outcome`] makes of the signal's status.
    Terminate { pid: u32 },
}

/// The message reported when there is no PID file.
pub open spec fn pid_file_missing_message() -> Seq<char> {
    "Zombie PID file was not found."@
}

/// The message reported when the PID file holds no process.
pub open spec fn pid_file_empty_message() -> Seq<char> {
    "Zombie PID file was empty."@
}

/// The error reported when the PID file does not hold a number.
pub open spec fn invalid_pid_file_message(reason: Seq<char>) -> Seq<char> {
    "Invalid zombie PID file: "@ + reason
}

/// Decides what to do about a sidecar left over from an earlier run, from
/// the text of its PID file (`None` where it cannot be read). The file holds
/// the process id in decimal, with any whitespace around it.
pub fn kill_zombie_sidecar(pid_file: Option<&str>) -> (r: ZombieStep)
    ensures
        match pid_file {
            None => r matches ZombieStep::Report(Ok(m)) && m@ == pid_file_missing_message(),
            Some(text) => match parse_u32(trim(text@)) {
                Err(e) => r matches ZombieStep::Report(Err(m)) && m@ == invalid_pid_file_message(
                    int_parse_error_message(e),
                ),
                Ok(pid) => if pid == 0 {
                    r matches ZombieStep::RemoveThenReport(Ok(m)) && m@ == pid_file_empty_message()
                } else {
                    r == ZombieStep::Terminate { pid }
                },
            },
        },
{
    match pid_file {
        None => ZombieStep::Report(Ok(String::from_str("Zombie PID file was not found."))),
        Some(text) => match parse_u32_str(trim_str(text)) {
            Err(e) => {
                let mut m = String::from_str("Invalid zombie PID file: ");
                m.append(e.message().as_str());
                ZombieStep::Report(Err(m))
            },
            Ok(pid) => {
                if pid == 0 {
                    ZombieStep::RemoveThenReport(Ok(String::from_str("Zombie PID file was empty.")))
                } else {
                    ZombieStep::Terminate { pid }
                }
            },
        },
    }
}

/// The arguments of the `kill` command that stops process `pid`.
pub fn terminate_args(pid: u32) -> (args: Vec<String>)
    ensures
        args@.len() == 2,
        args@[0]@ == "-TERM"@,
        args@[1]@ == decimal(pid as nat),
{
    let mut args: Vec<String> = Vec::new();
    args.push(String::from_str("-TERM"));
    args.push(decimal_string(pid as u64));
    args
}

/// What is reported once `SIGTERM` was sent to `pid`: `Ok(true)` where
/// `kill` succeeded, `Ok(false)` where it ran and failed, `Err` with the
/// reason where it could not run.
pub open spec fn zombie_report(pid: u32, status: Result<bool, Seq<char>>) -> Result<
    Seq<char>,
    Seq<char>,
> {
    match status {
        Ok(true) => Ok("Zombie sidecar process (PID "@ + decimal(pid as nat) + ") stopped."@),
        Ok(false) => Ok(
            "Zombie sidecar process (PID "@ + decimal(pid as nat) + ") was not running."@,
        ),
        Err(e) => Err("Failed to stop zombie sidecar PID "@ + decimal(pid as nat) + ": "@ + e),
    }
}

/// Reports how sending `SIGTERM` to the left-over sidecar `pid` went.
pub fn zombie_outcome(pid: u32, status: Result<bool, String>) -> (r: Result<String, String>)
    ensures
        match (r, status) {
            (Ok(m), Ok(b)) => zombie_report(pid, Ok(b)) == Ok::<Seq<char>, Seq<char>>(m@),
            (Err(m), Err(e)) => zombie_report(pid, Err(e@)) == Err::<Seq<char>, Seq<char>>(m@),
            _ => false,
        },
{
    let number = decimal_string(pid as u64);
    match status {
        Ok(stopped) => {
            let mut m = String::from_str("Zombie sidecar process (PID ");
            m.append(number.as_str());
            if stopped {
                m.append(") stopped.");
            } else {
                m.append(") was not running.");
            }
            Ok(m)
        },
        Err(e) => {
            let mut m = String::from_str("Failed to stop zombie sidecar PID ");
            m.append(number.as_str());
            m.append(": ");
            m.append(e.as_str());
            Err(m)
        },
    }
}


/// Whether the action ends the operation under way.
pub open spec fn terminal(a: ActionView) -> bool {
    a is Nothing || a is Configured || a is Cleared
}

/// Runs the integration from state `s` and pending action `a`, answering
/// each action with `env`, for at most `fuel` answers: the state reached and
/// every action issued, `a` first.
pub open spec fn drive(
    s: ProxyState,
    a: ActionView,
    env: spec_fn(ActionView) -> EventView,
    fuel: nat,
) -> (ProxyState, Seq<ActionView>)
    decreases fuel,
{
    if fuel == 0 || terminal(a) {
        (s, seq![a])
    } else {
        let (t, b) = next(s, env(a));
        let (u, rest) = drive(t, b, env, (fuel - 1) as nat);
        (u, seq![a] + rest)
    }
}

/// The output `gsettings writable` prints for a setting that can be written.
pub open spec fn writable_output() -> Seq<char> {
    "true"@
}

/// A desktop where every setting can be written, every write succeeds, and
/// `current` holds what `gsettings get` prints for each setting that can be
/// read; nothing is saved on disk.
pub open spec fn agreeable(current: Map<ProxyKey, Seq<char>>) -> spec_fn(ActionView) -> EventView {
    |a: ActionView|
        match a {
            ActionView::QueryWritable(_) => EventView::Output(Some(writable_output())),
            ActionView::QueryValue(k) => EventView::Output(
                if current.contains_key(k) {
                    Some(current[k])
                } else {
                    None
                },
            ),
            ActionView::Write(_, _) => EventView::Status(true),
            ActionView::LoadBackup => EventView::Loaded(None),
            _ => EventView::Done,
        }
}

/// The settings a setup saves when `gsettings get` prints `current`.
pub open spec fn read_back(current: Map<ProxyKey, Seq<char>>) -> Map<ProxyKey, Seq<char>> {
    Map::new(|k: ProxyKey| current.contains_key(k), |k: ProxyKey| trim(current[k]))
}

/// The five settings read before a setup, in reading order.
pub open spec fn setting_reads() -> Seq<ActionView> {
    seq![
        ActionView::QueryValue(ProxyKey::Mode),
        ActionView::QueryValue(ProxyKey::HttpHost),
        ActionView::QueryValue(ProxyKey::HttpPort),
        ActionView::QueryValue(ProxyKey::HttpsHost),
        ActionView::QueryValue(ProxyKey::HttpsPort),
    ]
}

/// The actions that open a first setup where nothing is saved on disk
/// either: the proxy mode is probed, the disk is searched, the five settings
/// are read, and what was read is saved.
pub open spec fn setup_prelude(saved: Map<ProxyKey, Seq<char>>) -> Seq<ActionView> {
    seq![ActionView::QueryWritable(ProxyKey::Mode), ActionView::LoadBackup] + setting_reads()
        + seq![ActionView::SaveBackup(saved)]
}

/// The settings a setup from state `s` keeps as saved, where `env` answers
/// and `gsettings get` prints `current`: those saved in memory, else those
/// an earlier run left on disk, else those it reads.
pub open spec fn setup_saved(
    s: ProxyState,
    env: spec_fn(ActionView) -> EventView,
    current: Map<ProxyKey, Seq<char>>,
) -> Map<ProxyKey, Seq<char>> {
    match s.backup {
        Some(b) => b,
        None => match reported_backup(env(ActionView::LoadBackup)) {
            Some(d) => d,
            None => read_back(current),
        },
    }
}

/// The actions that open a setup from state `s` where `env` answers: the
/// proxy mode is probed; with nothing saved in memory the disk is searched;
/// the five settings are read; and where nothing was saved anywhere, what
/// was read is saved.
pub open spec fn setup_opening(
    s: ProxyState,
    env: spec_fn(ActionView) -> EventView,
    current: Map<ProxyKey, Seq<char>>,
) -> Seq<ActionView> {
    if s.backup is Some {
        seq![ActionView::QueryWritable(ProxyKey::Mode)] + setting_reads()
    } else if reported_backup(env(ActionView::LoadBackup)) is Some {
        seq![ActionView::QueryWritable(ProxyKey::Mode), ActionView::LoadBackup] + setting_reads()
    } else {
        setup_prelude(read_back(current))
    }
}

/// Every action of the setup plan for the proxy at `port` where every
/// setting can be written and every write succeeds: each required setting is
/// checked and written, each optional one checked twice and written.
pub open spec fn plan_writes(port: u16) -> Seq<ActionView> {
    seq![
        ActionView::QueryWritable(ProxyKey::HttpHost),
        ActionView::Write(ProxyKey::HttpHost, "'127.0.0.1'"@),
        ActionView::QueryWritable(ProxyKey::HttpPort),
        ActionView::Write(ProxyKey::HttpPort, decimal(port as nat)),
        ActionView::QueryWritable(ProxyKey::Mode),
        ActionView::Write(ProxyKey::Mode, "'manual'"@),
        ActionView::QueryWritable(ProxyKey::HttpsHost),
        ActionView::QueryWritable(ProxyKey::HttpsHost),
        ActionView::Write(ProxyKey::HttpsHost, "'127.0.0.1'"@),
        ActionView::QueryWritable(ProxyKey::HttpsPort),
        ActionView::QueryWritable(ProxyKey::HttpsPort),
        ActionView::Write(ProxyKey::HttpsPort, decimal(port as nat)),
    ]
}

/// Every action of a first setup on a desktop where everything succeeds:
/// the prelude, the whole plan, and an automatic result.
pub open spec fn full_setup_actions(port: u16, saved: Map<ProxyKey, Seq<char>>) -> Seq<ActionView> {
    setup_prelude(saved) + plan_writes(port) + seq![ActionView::Configured(applied_result(port))]
}

/// The actions of the setup plan where every setting can be written and only
/// the writes of `refused` fail. A failed HTTP or mode setting skips the other
/// required settings, but the HTTPS settings are still applied; a failed HTTPS
/// host skips the HTTPS port.
pub open spec fn attempted_plan(port: u16, refused: ProxyKey) -> Seq<ActionView> {
    let plan = plan_writes(port);
    match refused {
        ProxyKey::HttpHost => plan.subrange(0, 2) + plan.subrange(6, 12),
        ProxyKey::HttpPort => plan.subrange(0, 4) + plan.subrange(6, 12),
        ProxyKey::HttpsHost => plan.subrange(0, 9),
        _ => plan,
    }
}

proof fn lemma_writable_output()
    ensures
        trim(writable_output()) == writable_output(),
        reports_writable(EventView::Output(Some(writable_output()))),
{
    reveal_strlit("true");
    lemma_trim_unchanged(writable_output());
}

/// The actions step `i` of the setup plan issues where `env` answers: a
/// required setting is checked and, where it can be written, written; an
/// optional one is checked and, where it can be written, checked again and
/// written.
pub open spec fn plan_step_actions(env: spec_fn(ActionView) -> EventView, port: u16, i: int) -> Seq<
    ActionView,
> {
    let k = plan_key(i);
    let write = ActionView::Write(k, plan_value(i, port));
    if !reports_writable(env(ActionView::QueryWritable(k))) {
        seq![ActionView::QueryWritable(k)]
    } else if plan_required(i) {
        seq![ActionView::QueryWritable(k), write]
    } else {
        seq![ActionView::QueryWritable(k), ActionView::QueryWritable(k), write]
    }
}

/// Whether step `i` of the setup plan fails where `env` answers.
pub open spec fn plan_step_fails(env: spec_fn(ActionView) -> EventView, port: u16, i: int) -> bool {
    let k = plan_key(i);
    if reports_writable(env(ActionView::QueryWritable(k))) {
        !reports_success(env(ActionView::Write(k, plan_value(i, port))))
    } else {
        plan_required(i)
    }
}

/// The step of the plan taken after step `i` where `env` answers.
pub open spec fn plan_next(env: spec_fn(ActionView) -> EventView, port: u16, i: int) -> int {
    if plan_step_fails(env, port, i) {
        after_failure(i)
    } else {
        i + 1
    }
}

/// The actions of the setup plan from step `i` on where `env` answers.
pub open spec fn plan_actions(env: spec_fn(ActionView) -> EventView, port: u16, i: int) -> Seq<ActionView>
    decreases SETTING_COUNT - i,
{
    if i < 0 || i >= SETTING_COUNT {
        Seq::empty()
    } else {
        plan_step_actions(env, port, i) + plan_actions(env, port, plan_next(env, port, i))
    }
}

/// Whether a step of the setup plan from step `i` on fails where `env`
/// answers.
pub open spec fn plan_fails(env: spec_fn(ActionView) -> EventView, port: u16, i: int) -> bool
    decreases SETTING_COUNT - i,
{
    if i < 0 || i >= SETTING_COUNT {
        false
    } else {
        plan_step_fails(env, port, i) || plan_fails(env, port, plan_next(env, port, i))
    }
}

/// One step of the setup plan: step `i` issues `plan_step_actions` and
/// then the plan goes on at `plan_next`.
proof fn lemma_plan_step(
    s: ProxyState,
    port: u16,
    i: int,
    failed: bool,
    env: spec_fn(ActionView) -> EventView,
    fuel: nat,
)
    requires
        0 <= i < SETTING_COUNT,
        fuel >= 3,
    ensures
        ({
            let (s0, a0) = item_start(s, port, i, failed);
            let m = plan_step_actions(env, port, i).len();
            let (sj, aj) = item_start(
                s,
                port,
                plan_next(env, port, i),
                failed || plan_step_fails(env, port, i),
            );
            let (v, rest) = drive(sj, aj, env, (fuel - m) as nat);
            &&& 1 <= m <= (if plan_required(i) {
                2int
            } else {
                3int
            })
            &&& i < plan_next(env, port, i) <= SETTING_COUNT
            &&& drive(s0, a0, env, fuel) == (v, plan_step_actions(env, port, i) + rest)
        }),
{
    let k = plan_key(i);
    let step = plan_step_actions(env, port, i);
    let m = step.len();
    let (sj, aj) = item_start(
        s,
        port,
        plan_next(env, port, i),
        failed || plan_step_fails(env, port, i),
    );
    let (v, rest) = drive(sj, aj, env, (fuel - m) as nat);
    let (s0, a0) = item_start(s, port, i, failed);
    let (s1, a1) = next(s0, env(a0));
    if !reports_writable(env(ActionView::QueryWritable(k))) {
        assert((s1, a1) == (sj, aj));
        assert(drive(s0, a0, env, fuel) == (v, seq![a0] + rest));
    } else if plan_required(i) {
        let (s2, a2) = next(s1, env(a1));
        assert((s2, a2) == (sj, aj));
        assert(drive(s1, a1, env, (fuel - 1) as nat) == (v, seq![a1] + rest));
        assert(drive(s0, a0, env, fuel) == (v, seq![a0] + (seq![a1] + rest)));
    } else {
        let (s2, a2) = next(s1, env(a1));
        let (s3, a3) = next(s2, env(a2));
        assert((s3, a3) == (sj, aj));
        assert(drive(s2, a2, env, (fuel - 2) as nat) == (v, seq![a2] + rest));
        assert(drive(s1, a1, env, (fuel - 1) as nat) == (v, seq![a1] + (seq![a2] + rest)));
        assert(drive(s0, a0, env, fuel) == (v, seq![a0] + (seq![a1] + (seq![a2] + rest))));
    }
    assert(drive(s0, a0, env, fuel).1 =~= step + rest);
}

/// Running the setup plan from step `i` issues `plan_actions` and then goes
/// on as the end of the plan does.
proof fn lemma_plan_run(
    s: ProxyState,
    port: u16,
    i: int,
    failed: bool,
    env: spec_fn(ActionView) -> EventView,
    fuel: nat,
)
    requires
        0 <= i <= SETTING_COUNT,
        fuel >= plan_left(i),
    ensures
        ({
            let (s0, a0) = item_start(s, port, i, failed);
            let (u, b) = item_start(
                s,
                port,
                SETTING_COUNT as int,
                failed || plan_fails(env, port, i),
            );
            let n = plan_actions(env, port, i).len();
            let (v, rest) = drive(u, b, env, (fuel - n) as nat);
            &&& n <= plan_left(i)
            &&& drive(s0, a0, env, fuel) == (v, plan_actions(env, port, i) + rest)
        }),
    decreases SETTING_COUNT - i,
{
    if i >= SETTING_COUNT {
        let (u, b) = item_start(s, port, SETTING_COUNT as int, failed);
        assert(plan_actions(env, port, i) =~= Seq::<ActionView>::empty());
        assert(drive(u, b, env, fuel).1 =~= plan_actions(env, port, i) + drive(u, b, env, fuel).1);
    } else {
        let step = plan_step_actions(env, port, i);
        let m = step.len();
        let j = plan_next(env, port, i);
        let f2 = failed || plan_step_fails(env, port, i);
        lemma_plan_step(s, port, i, failed, env, fuel);
        lemma_plan_run(s, port, j, f2, env, (fuel - m) as nat);
        assert(plan_fails(env, port, i) == (plan_step_fails(env, port, i) || plan_fails(
            env,
            port,
            j,
        )));
        assert(plan_actions(env, port, i) == step + plan_actions(env, port, j));
        let (u, b) = item_start(s, port, SETTING_COUNT as int, f2 || plan_fails(env, port, j));
        let n2 = plan_actions(env, port, j).len();
        let (v, rest) = drive(u, b, env, (fuel - m - n2) as nat);
        let (s0, a0) = item_start(s, port, i, failed);
        assert(drive(s0, a0, env, fuel).1 =~= plan_actions(env, port, i) + rest);
    }
}

/// Reading the five settings: each is read in turn; then, where nothing is
/// saved, what was read is saved; then the plan starts.
proof fn lemma_snapshot_run(
    s: ProxyState,
    port: u16,
    current: Map<ProxyKey, Seq<char>>,
    env: spec_fn(ActionView) -> EventView,
    fuel: nat,
)
    requires
        fuel >= 6,
        forall|k: ProxyKey| #[trigger]
            env(ActionView::QueryValue(k)) == agreeable(current)(ActionView::QueryValue(k)),
    ensures
        ({
            let saved = match s.backup {
                Some(b) => b,
                None => read_back(current),
            };
            let p = ProxyState { backup: Some(saved), scratch: read_back(current), task: Task::Idle };
            let (s0, a0) = snapshot_start(s, port);
            let (u, b) = item_start(p, port, 0, false);
            let tail = if s.backup is Some {
                Seq::empty()
            } else {
                seq![ActionView::SaveBackup(saved)]
            };
            let (v, rest) = drive(u, b, env, (fuel - 5 - tail.len()) as nat);
            drive(s0, a0, env, fuel) == (v, setting_reads() + tail + rest)
        }),
{
    let saved = match s.backup {
        Some(b) => b,
        None => read_back(current),
    };
    let p = ProxyState { backup: Some(saved), scratch: read_back(current), task: Task::Idle };
    let (s0, a0) = snapshot_start(s, port);
    let (s1, a1) = next(s0, env(a0));
    let (s2, a2) = next(s1, env(a1));
    let (s3, a3) = next(s2, env(a2));
    let (s4, a4) = next(s3, env(a3));
    let (s5, a5) = next(s4, env(a4));
    let (u, b) = item_start(p, port, 0, false);
    if s.backup is Some {
        assert(s5.scratch =~= read_back(current));
        assert((s5, a5) == (u, b));
        let (v, rest) = drive(u, b, env, (fuel - 5) as nat);
        assert(drive(s4, a4, env, (fuel - 4) as nat).1 =~= seq![a4] + rest);
        assert(drive(s3, a3, env, (fuel - 3) as nat).1 =~= seq![a3, a4] + rest);
        assert(drive(s2, a2, env, (fuel - 2) as nat).1 =~= seq![a2, a3, a4] + rest);
        assert(drive(s1, a1, env, (fuel - 1) as nat).1 =~= seq![a1, a2, a3, a4] + rest);
        assert(drive(s0, a0, env, fuel).1 =~= setting_reads() + Seq::<ActionView>::empty()
            + rest);
        assert(drive(s0, a0, env, fuel).0 == v);
    } else {
        assert(s5.scratch =~= read_back(current));
        assert(a5 == ActionView::SaveBackup(saved));
        assert(next(s5, env(a5)) == (u, b));
        let (v, rest) = drive(u, b, env, (fuel - 6) as nat);
        assert(drive(s5, a5, env, (fuel - 5) as nat).1 =~= seq![a5] + rest);
        assert(drive(s4, a4, env, (fuel - 4) as nat).1 =~= seq![a4, a5] + rest);
        assert(drive(s3, a3, env, (fuel - 3) as nat).1 =~= seq![a3, a4, a5] + rest);
        assert(drive(s2, a2, env, (fuel - 2) as nat).1 =~= seq![a2, a3, a4, a5] + rest);
        assert(drive(s1, a1, env, (fuel - 1) as nat).1 =~= seq![a1, a2, a3, a4, a5] + rest);
        assert(drive(s0, a0, env, fuel).1 =~= setting_reads() + seq![a5] + rest);
        assert(drive(s0, a0, env, fuel).0 == v);
    }
}

/// The opening of a setup: once the mode is found writable, the saved
/// settings are found or taken, and the plan starts.
proof fn lemma_setup_prelude(
    s: ProxyState,
    port: u16,
    current: Map<ProxyKey, Seq<char>>,
    env: spec_fn(ActionView) -> EventView,
    fuel: nat,
)
    requires
        fuel >= 8,
        reports_writable(env(ActionView::QueryWritable(ProxyKey::Mode))),
        forall|k: ProxyKey| #[trigger]
            env(ActionView::QueryValue(k)) == agreeable(current)(ActionView::QueryValue(k)),
    ensures
        ({
            let saved = setup_saved(s, env, current);
            let opening = setup_opening(s, env, current);
            let p = ProxyState { backup: Some(saved), scratch: read_back(current), task: Task::Idle };
            let (s0, a0) = setup_start(s, port);
            let (u, b) = item_start(p, port, 0, false);
            let (v, rest) = drive(u, b, env, (fuel - opening.len()) as nat);
            &&& 6 <= opening.len() <= 8
            &&& drive(s0, a0, env, fuel) == (v, opening + rest)
        }),
{
    let saved = setup_saved(s, env, current);
    let opening = setup_opening(s, env, current);
    let p = ProxyState { backup: Some(saved), scratch: read_back(current), task: Task::Idle };
    let (s0, a0) = setup_start(s, port);
    let (s1, a1) = next(s0, env(a0));
    let (u, b) = item_start(p, port, 0, false);
    if s.backup is Some {
        assert((s1, a1) == snapshot_start(s0, port));
        lemma_snapshot_run(s0, port, current, env, (fuel - 1) as nat);
        let (v, rest) = drive(u, b, env, (fuel - 6) as nat);
        assert(drive(s0, a0, env, fuel) == (v, seq![a0] + (setting_reads()
            + Seq::<ActionView>::empty() + rest)));
        assert(drive(s0, a0, env, fuel).1 =~= opening + rest);
    } else {
        assert(a1 == ActionView::LoadBackup);
        let (s2, a2) = next(s1, env(a1));
        let r = match reported_backup(env(a1)) {
            Some(d) => ProxyState { backup: Some(d), ..s1 },
            None => s1,
        };
        assert((s2, a2) == snapshot_start(r, port));
        lemma_snapshot_run(r, port, current, env, (fuel - 2) as nat);
        if reported_backup(env(a1)) is Some {
            let (v, rest) = drive(u, b, env, (fuel - 7) as nat);
            assert(drive(s1, a1, env, (fuel - 1) as nat) == (v, seq![a1] + (setting_reads()
                + Seq::<ActionView>::empty() + rest)));
            assert(drive(s0, a0, env, fuel) == (v, seq![a0] + drive(
                s1,
                a1,
                env,
                (fuel - 1) as nat,
            ).1));
            assert(drive(s0, a0, env, fuel).1 =~= opening + rest);
        } else {
            let (v, rest) = drive(u, b, env, (fuel - 8) as nat);
            assert(drive(s1, a1, env, (fuel - 1) as nat) == (v, seq![a1] + (setting_reads()
                + seq![ActionView::SaveBackup(saved)] + rest)));
            assert(drive(s0, a0, env, fuel) == (v, seq![a0] + drive(
                s1,
                a1,
                env,
                (fuel - 1) as nat,
            ).1));
            assert(drive(s0, a0, env, fuel).1 =~= opening + rest);
        }
    }
}

/// Where every setting can be written and only the writes of `refused` (if
/// any) fail, the plan issues [`attempted_plan`], or [`plan_writes`] where no
/// write fails, and fails exactly where a write does.
proof fn lemma_plan_writable(
    env: spec_fn(ActionView) -> EventView,
    port: u16,
    refused: Option<ProxyKey>,
)
    requires
        all_writable(env),
        forall|k: ProxyKey, v: Seq<char>| #[trigger]
            env(ActionView::Write(k, v)) == EventView::Status(refused != Some(k)),
    ensures
        plan_actions(env, port, 0) == match refused {
            Some(k) => attempted_plan(port, k),
            None => plan_writes(port),
        },
        plan_fails(env, port, 0) == refused is Some,
{
    lemma_writable_output();
    reveal_with_fuel(plan_actions, 6);
    reveal_with_fuel(plan_fails, 6);
    let plan = plan_writes(port);
    assert(plan_step_actions(env, port, 0) =~= plan.subrange(0, 2));
    assert(plan_step_actions(env, port, 1) =~= plan.subrange(2, 4));
    assert(plan_step_actions(env, port, 2) =~= plan.subrange(4, 6));
    assert(plan_step_actions(env, port, 3) =~= plan.subrange(6, 9));
    assert(plan_step_actions(env, port, 4) =~= plan.subrange(9, 12));
    assert(plan_actions(env, port, 5) =~= Seq::<ActionView>::empty());
    match refused {
        Some(ProxyKey::HttpHost) => {
            assert(plan_next(env, port, 0) == 3);
            assert(plan_actions(env, port, 0) =~= attempted_plan(port, ProxyKey::HttpHost));
        },
        Some(ProxyKey::HttpPort) => {
            assert(plan_next(env, port, 1) == 3);
            assert(plan_actions(env, port, 0) =~= attempted_plan(port, ProxyKey::HttpPort));
        },
        Some(ProxyKey::HttpsHost) => {
            assert(plan_next(env, port, 3) == 5);
            assert(plan_actions(env, port, 0) =~= attempted_plan(port, ProxyKey::HttpsHost));
        },
        _ => {
            assert(plan_actions(env, port, 0) =~= plan);
        },
    }
}

/// Where every setting can be written and every write succeeds, a first
/// setup saves the settings it read, points the HTTP and HTTPS proxy at the
/// local address and `port`, turns the proxy mode to manual, and reports an
/// automatic setup.
pub proof fn lemma_setup_applies_settings(s: ProxyState, port: u16, current: Map<ProxyKey, Seq<char>>)
    requires
        s.backup is None,
    ensures
        ({
            let (s0, a0) = setup_start(s, port);
            let (t, actions) = drive(s0, a0, agreeable(current), 31);
            &&& t.task == Task::Idle
            &&& t.backup == Some(read_back(current))
            &&& actions == full_setup_actions(port, read_back(current))
        }),
{
    lemma_writable_output();
    let env = agreeable(current);
    lemma_plan_writable(env, port, None);
    lemma_setup_outcome(s, port, current, env);
    assert(setup_saved(s, env, current) == read_back(current));
    assert(setup_opening(s, env, current) == setup_prelude(read_back(current)));
    assert(full_setup_actions(port, read_back(current)) =~= setup_prelude(read_back(current))
        + plan_writes(port) + seq![ActionView::Configured(applied_result(port))]);
}

/// Whatever the desktop answers, once the proxy mode can be written and the
/// settings are read: a setup keeps as saved the settings saved in memory,
/// else those an earlier run left on disk, else those it reads (and saves
/// them), then takes the steps of its plan; where a step fails, it checks
/// every saved setting, writes back each one that can be written, forgets
/// them, and tells the user to set the proxy by hand; otherwise it keeps
/// them and reports an automatic setup.
pub proof fn lemma_setup_outcome(
    s: ProxyState,
    port: u16,
    current: Map<ProxyKey, Seq<char>>,
    env: spec_fn(ActionView) -> EventView,
)
    requires
        reports_writable(env(ActionView::QueryWritable(ProxyKey::Mode))),
        forall|k: ProxyKey| #[trigger]
            env(ActionView::QueryValue(k)) == agreeable(current)(ActionView::QueryValue(k)),
    ensures
        ({
            let saved = setup_saved(s, env, current);
            let opening = setup_opening(s, env, current);
            let (s0, a0) = setup_start(s, port);
            let (t, actions) = drive(s0, a0, env, 31);
            &&& t.task == Task::Idle
            &&& if plan_fails(env, port, 0) {
                &&& t.backup is None
                &&& actions == opening + plan_actions(env, port, 0) + restore_actions_in(
                    env,
                    saved,
                ) + seq![ActionView::Configured(fallback_result(port, failed_reason()))]
            } else {
                &&& t.backup == Some(saved)
                &&& actions == opening + plan_actions(env, port, 0) + seq![
                    ActionView::Configured(applied_result(port)),
                ]
            }
        }),
{
    let saved = setup_saved(s, env, current);
    let opening = setup_opening(s, env, current);
    let p = ProxyState { backup: Some(saved), scratch: read_back(current), task: Task::Idle };
    lemma_setup_prelude(s, port, current, env, 31);
    let f = (31 - opening.len()) as nat;
    lemma_plan_run(p, port, 0, false, env, f);
    let n = plan_actions(env, port, 0).len();
    let plan = plan_actions(env, port, 0);
    if plan_fails(env, port, 0) {
        let then = Resume::SetupFailed { port };
        let r = ProxyState { scratch: saved, ..p };
        assert(item_start(p, port, SETTING_COUNT as int, true) == restore_from(r, then, 0));
        lemma_restore_segment(r, then, 0, env, (f - n) as nat);
        lemma_restore_tail(env, saved);
        let (u, b) = restore_done(
            ProxyState { backup: None, task: Task::Forget { then }, ..r },
            then,
            true,
        );
        let m = restore_tail(env, saved, 0).len();
        assert(drive(u, b, env, (f - n - m) as nat) == (u, seq![b]));
        assert(opening + plan + restore_actions_in(env, saved) + seq![b] =~= opening + (plan + (
        restore_actions_in(env, saved) + seq![b])));
    } else {
        let (u, b) = item_start(p, port, SETTING_COUNT as int, false);
        assert(drive(u, b, env, (f - n) as nat) == (u, seq![b]));
        assert(opening + plan + seq![b] =~= opening + (plan + seq![b]));
    }
}

/// The actions that put back the saved value of `k`, if one is saved, where
/// `env` answers: the setting is checked, and written where it can be.
pub open spec fn restore_pair_in(
    env: spec_fn(ActionView) -> EventView,
    saved: Map<ProxyKey, Seq<char>>,
    k: ProxyKey,
) -> Seq<ActionView> {
    if !saved.contains_key(k) {
        Seq::empty()
    } else if reports_writable(env(ActionView::QueryWritable(k))) {
        seq![ActionView::QueryWritable(k), ActionView::Write(k, saved[k])]
    } else {
        seq![ActionView::QueryWritable(k)]
    }
}

/// Every action that puts back `saved` where `env` answers: the HTTP host
/// and port, the HTTPS host and port, then the proxy mode, each only where a
/// value was saved and written only where it can be; then the saved settings
/// are removed from disk.
pub open spec fn restore_actions_in(
    env: spec_fn(ActionView) -> EventView,
    saved: Map<ProxyKey, Seq<char>>,
) -> Seq<ActionView> {
    restore_pair_in(env, saved, ProxyKey::HttpHost) + restore_pair_in(env, saved, ProxyKey::HttpPort)
        + restore_pair_in(env, saved, ProxyKey::HttpsHost) + restore_pair_in(
        env,
        saved,
        ProxyKey::HttpsPort,
    ) + restore_pair_in(env, saved, ProxyKey::Mode) + seq![ActionView::DeleteBackup]
}

/// The actions that put back the saved value of `k`, if one is saved, where
/// every setting can be written: check, then write.
pub open spec fn restore_pair(saved: Map<ProxyKey, Seq<char>>, k: ProxyKey) -> Seq<ActionView> {
    if saved.contains_key(k) {
        seq![ActionView::QueryWritable(k), ActionView::Write(k, saved[k])]
    } else {
        Seq::empty()
    }
}

/// Every action that puts back `saved` where every setting can be written:
/// every saved value is written back, the proxy mode last; then the saved
/// settings are removed from disk.
pub open spec fn restore_actions(saved: Map<ProxyKey, Seq<char>>) -> Seq<ActionView> {
    restore_pair(saved, ProxyKey::HttpHost) + restore_pair(saved, ProxyKey::HttpPort)
        + restore_pair(saved, ProxyKey::HttpsHost) + restore_pair(saved, ProxyKey::HttpsPort)
        + restore_pair(saved, ProxyKey::Mode) + seq![ActionView::DeleteBackup]
}

/// Whether `env` answers that every setting can be written.
pub open spec fn all_writable(env: spec_fn(ActionView) -> EventView) -> bool {
    forall|k: ProxyKey| #[trigger] env(ActionView::QueryWritable(k)) == EventView::Output(
        Some(writable_output()),
    )
}

/// Where every setting can be written, every saved value is written back.
pub proof fn lemma_restore_all_writable(
    env: spec_fn(ActionView) -> EventView,
    saved: Map<ProxyKey, Seq<char>>,
)
    requires
        all_writable(env),
    ensures
        restore_actions_in(env, saved) == restore_actions(saved),
{
    lemma_writable_output();
    assert(restore_pair_in(env, saved, ProxyKey::HttpHost) == restore_pair(saved, ProxyKey::HttpHost));
    assert(restore_pair_in(env, saved, ProxyKey::HttpPort) == restore_pair(saved, ProxyKey::HttpPort));
    assert(restore_pair_in(env, saved, ProxyKey::HttpsHost) == restore_pair(
        saved,
        ProxyKey::HttpsHost,
    ));
    assert(restore_pair_in(env, saved, ProxyKey::HttpsPort) == restore_pair(
        saved,
        ProxyKey::HttpsPort,
    ));
    assert(restore_pair_in(env, saved, ProxyKey::Mode) == restore_pair(saved, ProxyKey::Mode));
}

spec fn restore_tail(
    env: spec_fn(ActionView) -> EventView,
    saved: Map<ProxyKey, Seq<char>>,
    i: int,
) -> Seq<ActionView>
    decreases SETTING_COUNT - i,
{
    if i >= SETTING_COUNT {
        seq![ActionView::DeleteBackup]
    } else {
        restore_pair_in(env, saved, restore_key(i)) + restore_tail(env, saved, i + 1)
    }
}

proof fn lemma_restore_tail(env: spec_fn(ActionView) -> EventView, saved: Map<ProxyKey, Seq<char>>)
    ensures
        restore_tail(env, saved, 0) == restore_actions_in(env, saved),
{
    reveal_with_fuel(restore_tail, 6);
    assert(restore_tail(env, saved, 0) =~= restore_actions_in(env, saved));
}

proof fn lemma_restore_tail_skips(
    env: spec_fn(ActionView) -> EventView,
    saved: Map<ProxyKey, Seq<char>>,
    i: int,
)
    requires
        0 <= i <= SETTING_COUNT,
    ensures
        next_saved(saved, i) >= i,
        next_saved(saved, i) <= SETTING_COUNT,
        next_saved(saved, i) < SETTING_COUNT ==> saved.contains_key(
            restore_key(next_saved(saved, i)),
        ),
        restore_tail(env, saved, i) == restore_tail(env, saved, next_saved(saved, i)),
    decreases SETTING_COUNT - i,
{
    if i < SETTING_COUNT && !saved.contains_key(restore_key(i)) {
        lemma_restore_tail_skips(env, saved, i + 1);
        assert(restore_pair_in(env, saved, restore_key(i)) =~= Seq::<ActionView>::empty());
        assert(restore_tail(env, saved, i) =~= restore_tail(env, saved, i + 1));
    }
}

/// Putting back the saved settings from position `i` on issues
/// `restore_tail` and then goes on as the end of the restore does.
proof fn lemma_restore_segment(
    s: ProxyState,
    then: Resume,
    i: int,
    env: spec_fn(ActionView) -> EventView,
    fuel: nat,
)
    requires
        0 <= i <= SETTING_COUNT,
        fuel >= 2 * (SETTING_COUNT - i) + 1,
    ensures
        ({
            let (s0, a0) = restore_from(s, then, i);
            let (u, b) = restore_done(
                ProxyState { backup: None, task: Task::Forget { then }, ..s },
                then,
                true,
            );
            let n = restore_tail(env, s.scratch, i).len();
            let (v, rest) = drive(u, b, env, (fuel - n) as nat);
            &&& n <= 2 * (SETTING_COUNT - i) + 1
            &&& drive(s0, a0, env, fuel) == (v, restore_tail(env, s.scratch, i) + rest)
        }),
    decreases SETTING_COUNT - i,
{
    lemma_restore_tail_skips(env, s.scratch, i);
    let j = next_saved(s.scratch, i);
    let (s0, a0) = restore_from(s, then, i);
    let (u, b) = restore_done(
        ProxyState { backup: None, task: Task::Forget { then }, ..s },
        then,
        true,
    );
    if j >= SETTING_COUNT {
        reveal_with_fuel(restore_tail, 2);
        assert(next(s0, env(a0)) == (u, b));
        let (v, rest) = drive(u, b, env, (fuel - 1) as nat);
        assert(restore_tail(env, s.scratch, i) == seq![ActionView::DeleteBackup]);
        assert(a0 == ActionView::DeleteBackup);
        assert(drive(s0, a0, env, fuel) == (v, seq![a0] + rest));
        assert(drive(s0, a0, env, fuel).1 =~= restore_tail(env, s.scratch, i) + rest);
    } else {
        let k = restore_key(j);
        lemma_restore_segment(s, then, j + 1, env, (fuel - 2) as nat);
        let n2 = restore_tail(env, s.scratch, j + 1).len();
        assert(restore_tail(env, s.scratch, j) =~= restore_pair_in(env, s.scratch, k) + restore_tail(
            env,
            s.scratch,
            j + 1,
        ));
        let (s1, a1) = next(s0, env(a0));
        let (r0, c0) = restore_from(s, then, j + 1);
        if reports_writable(env(a0)) {
            assert(a1 == ActionView::Write(k, s.scratch[k]));
            let (s2, a2) = next(s1, env(a1));
            assert((s2, a2) == (r0, c0));
            let (v, rest) = drive(u, b, env, (fuel - 2 - n2) as nat);
            assert(drive(r0, c0, env, (fuel - 2) as nat) == (v, restore_tail(env, s.scratch, j + 1)
                + rest));
            assert(drive(s1, a1, env, (fuel - 1) as nat) == (v, seq![a1] + drive(
                r0,
                c0,
                env,
                (fuel - 2) as nat,
            ).1));
            assert(drive(s0, a0, env, fuel) == (v, seq![a0] + drive(
                s1,
                a1,
                env,
                (fuel - 1) as nat,
            ).1));
            assert(drive(s0, a0, env, fuel).1 =~= restore_tail(env, s.scratch, i) + rest);
        } else {
            assert((s1, a1) == (r0, c0));
            lemma_restore_segment(s, then, j + 1, env, (fuel - 1) as nat);
            let (v, rest) = drive(u, b, env, (fuel - 1 - n2) as nat);
            assert(drive(s0, a0, env, fuel) == (v, seq![a0] + drive(
                r0,
                c0,
                env,
                (fuel - 1) as nat,
            ).1));
            assert(drive(s0, a0, env, fuel).1 =~= restore_tail(env, s.scratch, i) + rest);
        }
    }
}

/// Clearing the proxy while settings are saved checks every saved setting,
/// HTTP settings first and the proxy mode last, and writes back the saved
/// value of each one that can be written, whether or not the writes
/// succeed; then the saved settings are forgotten, in memory and on disk.
pub proof fn lemma_clear_restores_saved(
    s: ProxyState,
    saved: Map<ProxyKey, Seq<char>>,
    env: spec_fn(ActionView) -> EventView,
)
    requires
        s.backup == Some(saved),
        reports_writable(env(ActionView::QueryWritable(ProxyKey::Mode))),
    ensures
        ({
            let (s0, a0) = clear_start(s);
            let (t, actions) = drive(s0, a0, env, 13);
            &&& t.task == Task::Idle
            &&& t.backup is None
            &&& actions == seq![ActionView::QueryWritable(ProxyKey::Mode)] + restore_actions_in(
                env,
                saved,
            ) + seq![ActionView::Cleared]
        }),
{
    let (s0, a0) = clear_start(s);
    let (s1, a1) = next(s0, env(a0));
    let r = ProxyState { scratch: saved, ..s0 };
    assert((s1, a1) == restore_from(r, Resume::Clear, 0));
    lemma_restore_segment(r, Resume::Clear, 0, env, 12);
    lemma_restore_tail(env, saved);
    let (u, b) = restore_done(
        ProxyState { backup: None, task: Task::Forget { then: Resume::Clear }, ..r },
        Resume::Clear,
        true,
    );
    let n = restore_tail(env, saved, 0).len();
    assert(drive(u, b, env, (12 - n) as nat) == (u, seq![ActionView::Cleared]));
    assert(drive(s1, a1, env, 12) == (u, restore_actions_in(env, saved) + seq![ActionView::Cleared]));
    assert(drive(s0, a0, env, 13).1 =~= seq![ActionView::QueryWritable(ProxyKey::Mode)]
        + restore_actions_in(env, saved) + seq![ActionView::Cleared]);
}

/// Clearing the proxy when no settings are saved, in memory or on disk,
/// turns the proxy mode off.
pub proof fn lemma_clear_without_backup(s: ProxyState, current: Map<ProxyKey, Seq<char>>)
    requires
        s.backup is None,
    ensures
        ({
            let (s0, a0) = clear_start(s);
            let (t, actions) = drive(s0, a0, agreeable(current), 13);
            &&& t.task == Task::Idle
            &&& t.backup is None
            &&& actions == seq![
                ActionView::QueryWritable(ProxyKey::Mode),
                ActionView::LoadBackup,
                ActionView::QueryWritable(ProxyKey::Mode),
                ActionView::Write(ProxyKey::Mode, "'none'"@),
                ActionView::Cleared,
            ]
        }),
{
    lemma_writable_output();
    let env = agreeable(current);
    let (s0, a0) = clear_start(s);
    let (s1, a1) = next(s0, env(a0));
    let (s2, a2) = next(s1, env(a1));
    let (s3, a3) = next(s2, env(a2));
    let (s4, a4) = next(s3, env(a3));
    assert(a4 == ActionView::Cleared);
    assert(drive(s4, a4, env, 9) == (s4, seq![a4]));
    assert(drive(s3, a3, env, 10).1 =~= seq![a3, a4]);
    assert(drive(s2, a2, env, 11).1 =~= seq![a2, a3, a4]);
    assert(drive(s1, a1, env, 12).1 =~= seq![a1, a2, a3, a4]);
    assert(drive(s0, a0, env, 13).1 =~= seq![a0, a1, a2, a3, a4]);
}

/// Clearing the proxy after a first setup writes back every setting the
/// setup found, with the value it found, and forgets them.
pub proof fn lemma_clear_undoes_setup(s: ProxyState, port: u16, current: Map<ProxyKey, Seq<char>>)
    requires
        s.backup is None,
    ensures
        ({
            let env = agreeable(current);
            let (s0, a0) = setup_start(s, port);
            let (t, _) = drive(s0, a0, env, 31);
            let (c0, b0) = clear_start(t);
            let (u, actions) = drive(c0, b0, env, 13);
            &&& u.task == Task::Idle
            &&& u.backup is None
            &&& actions == seq![ActionView::QueryWritable(ProxyKey::Mode)] + restore_actions(
                read_back(current),
            ) + seq![ActionView::Cleared]
        }),
{
    lemma_writable_output();
    lemma_setup_applies_settings(s, port, current);
    let env = agreeable(current);
    let (s0, a0) = setup_start(s, port);
    let (t, _) = drive(s0, a0, env, 31);
    lemma_clear_restores_saved(t, read_back(current), env);
    lemma_restore_all_writable(env, read_back(current));
}

/// A desktop like [`agreeable`], except that an earlier run that ended
/// without clearing left `disk` saved on disk.
pub open spec fn after_crash(current: Map<ProxyKey, Seq<char>>, disk: Map<ProxyKey, Seq<char>>) -> spec_fn(
    ActionView,
) -> EventView {
    |a: ActionView|
        match a {
            ActionView::LoadBackup => EventView::Loaded(Some(disk)),
            _ => agreeable(current)(a),
        }
}

/// Where an earlier run saved `disk` and ended without clearing, a setup by a
/// new run keeps `disk` as the saved settings, without saving what it reads
/// (the earlier run's proxy) over it; a clear then writes back every setting
/// of `disk` and forgets them.
pub proof fn lemma_clear_after_crash_restores_disk_backup(
    s: ProxyState,
    port: u16,
    current: Map<ProxyKey, Seq<char>>,
    disk: Map<ProxyKey, Seq<char>>,
)
    requires
        s.backup is None,
    ensures
        ({
            let env = after_crash(current, disk);
            let (s0, a0) = setup_start(s, port);
            let (t, setup) = drive(s0, a0, env, 31);
            let (c0, b0) = clear_start(t);
            let (u, actions) = drive(c0, b0, env, 13);
            &&& t.backup == Some(disk)
            &&& !setup.contains(ActionView::SaveBackup(read_back(current)))
            &&& setup.last() == ActionView::Configured(applied_result(port))
            &&& u.task == Task::Idle
            &&& u.backup is None
            &&& actions == seq![ActionView::QueryWritable(ProxyKey::Mode)] + restore_actions(disk)
                + seq![ActionView::Cleared]
        }),
{
    lemma_writable_output();
    let env = after_crash(current, disk);
    lemma_plan_writable(env, port, None);
    lemma_setup_outcome(s, port, current, env);
    let (s0, a0) = setup_start(s, port);
    let (t, setup) = drive(s0, a0, env, 31);
    let opening = setup_opening(s, env, current);
    assert(setup == opening + plan_writes(port) + seq![ActionView::Configured(applied_result(port))]);
    assert forall|i: int| 0 <= i < setup.len() implies setup[i] != ActionView::SaveBackup(
        read_back(current),
    ) by {
        if i < opening.len() {
            assert(setup[i] == opening[i]);
        } else if i < opening.len() + 12 {
            assert(setup[i] == plan_writes(port)[i - opening.len()]);
        }
    }
    lemma_clear_restores_saved(t, disk, env);
    lemma_restore_all_writable(env, disk);
}

/// Where every saved value is written back, the write of each setting holds
/// exactly its saved value, and the proxy mode is written last.
pub proof fn lemma_restore_actions_write_saved(saved: Map<ProxyKey, Seq<char>>, k: ProxyKey)
    requires
        saved.contains_key(k),
    ensures
        restore_actions(saved).contains(ActionView::Write(k, saved[k])),
        saved.contains_key(ProxyKey::Mode) ==> restore_actions(saved)[restore_actions(saved).len()
            - 2] == ActionView::Write(ProxyKey::Mode, saved[ProxyKey::Mode]),
{
    let p1 = restore_pair(saved, ProxyKey::HttpHost);
    let p2 = restore_pair(saved, ProxyKey::HttpPort);
    let p3 = restore_pair(saved, ProxyKey::HttpsHost);
    let p4 = restore_pair(saved, ProxyKey::HttpsPort);
    let p5 = restore_pair(saved, ProxyKey::Mode);
    let r = restore_actions(saved);
    assert(r =~= p1 + p2 + p3 + p4 + p5 + seq![ActionView::DeleteBackup]);
    let w = ActionView::Write(k, saved[k]);
    match k {
        ProxyKey::HttpHost => assert(r[1] == w),
        ProxyKey::HttpPort => assert(r[(p1.len() + 1) as int] == w),
        ProxyKey::HttpsHost => assert(r[(p1.len() + p2.len() + 1) as int] == w),
        ProxyKey::HttpsPort => assert(r[(p1.len() + p2.len() + p3.len() + 1) as int] == w),
        ProxyKey::Mode => assert(r[(p1.len() + p2.len() + p3.len() + p4.len() + 1) as int] == w),
    }
    if saved.contains_key(ProxyKey::Mode) {
        assert(r[r.len() - 2] == ActionView::Write(ProxyKey::Mode, saved[ProxyKey::Mode]));
    }
}

/// A clear by a run with nothing saved in memory puts back the settings an
/// earlier run left on disk: where everything can be written, each saved
/// setting, the proxy mode included and last, is written with exactly the
/// value saved on disk; then the disk copy is removed.
pub proof fn lemma_clear_from_disk_restores_saved(
    s: ProxyState,
    current: Map<ProxyKey, Seq<char>>,
    disk: Map<ProxyKey, Seq<char>>,
)
    requires
        s.backup is None,
    ensures
        ({
            let env = after_crash(current, disk);
            let (c0, b0) = clear_start(s);
            let (u, actions) = drive(c0, b0, env, 13);
            &&& u.task == Task::Idle
            &&& u.backup is None
            &&& actions == seq![ActionView::QueryWritable(ProxyKey::Mode), ActionView::LoadBackup]
                + restore_actions(disk) + seq![ActionView::Cleared]
            &&& forall|k: ProxyKey|
                disk.contains_key(k) ==> #[trigger] actions.contains(ActionView::Write(k, disk[k]))
        }),
{
    lemma_writable_output();
    let env = after_crash(current, disk);
    let (c0, b0) = clear_start(s);
    let (c1, b1) = next(c0, env(b0));
    assert(b1 == ActionView::LoadBackup);
    let then = Resume::Clear;
    let r = ProxyState { scratch: disk, ..c1 };
    assert(next(c1, env(b1)) == restore_from(r, then, 0));
    let (c2, b2) = next(c1, env(b1));
    lemma_restore_segment(r, then, 0, env, 11);
    lemma_restore_tail(env, disk);
    lemma_restore_all_writable(env, disk);
    let (u, b) = restore_done(ProxyState { backup: None, task: Task::Forget { then }, ..r }, then, true);
    let n = restore_tail(env, disk, 0).len();
    assert(drive(u, b, env, (11 - n) as nat) == (u, seq![ActionView::Cleared]));
    assert(drive(c2, b2, env, 11) == (u, restore_actions(disk) + seq![ActionView::Cleared]));
    assert(drive(c1, b1, env, 12) == (u, seq![b1] + (restore_actions(disk) + seq![
        ActionView::Cleared,
    ])));
    let actions = drive(c0, b0, env, 13).1;
    assert(actions =~= seq![ActionView::QueryWritable(ProxyKey::Mode), ActionView::LoadBackup]
        + restore_actions(disk) + seq![ActionView::Cleared]);
    assert forall|k: ProxyKey| disk.contains_key(k) implies #[trigger] actions.contains(
        ActionView::Write(k, disk[k]),
    ) by {
        lemma_restore_actions_write_saved(disk, k);
        let ra = restore_actions(disk);
        let i = choose|i: int| 0 <= i < ra.len() && ra[i] == ActionView::Write(k, disk[k]);
        assert(actions[i + 2] == ra[i]);
    }
}

/// A second setup keeps the settings saved by the first: after two setups
/// where everything succeeds, whatever the desktop shows at the second, a
/// clear writes back the settings found before the first, and forgets them.
pub proof fn lemma_two_setups_then_clear(
    s: ProxyState,
    first_port: u16,
    second_port: u16,
    current: Map<ProxyKey, Seq<char>>,
    later: Map<ProxyKey, Seq<char>>,
)
    requires
        s.backup is None,
    ensures
        ({
            let (s0, a0) = setup_start(s, first_port);
            let (t1, _) = drive(s0, a0, agreeable(current), 31);
            let (s1, a1) = setup_start(t1, second_port);
            let (t2, _) = drive(s1, a1, agreeable(later), 31);
            let (c0, b0) = clear_start(t2);
            let (u, actions) = drive(c0, b0, agreeable(later), 13);
            &&& u.task == Task::Idle
            &&& u.backup is None
            &&& actions == seq![ActionView::QueryWritable(ProxyKey::Mode)] + restore_actions(
                read_back(current),
            ) + seq![ActionView::Cleared]
        }),
{
    lemma_writable_output();
    let env1 = agreeable(current);
    let env2 = agreeable(later);
    lemma_plan_writable(env1, first_port, None);
    lemma_setup_outcome(s, first_port, current, env1);
    let (s0, a0) = setup_start(s, first_port);
    let (t1, _) = drive(s0, a0, env1, 31);
    lemma_plan_writable(env2, second_port, None);
    lemma_setup_outcome(t1, second_port, later, env2);
    let (s1, a1) = setup_start(t1, second_port);
    let (t2, _) = drive(s1, a1, env2, 31);
    assert(t2.backup == Some(read_back(current)));
    lemma_clear_restores_saved(t2, read_back(current), env2);
    lemma_restore_all_writable(env2, read_back(current));
}

/// Where gsettings cannot write the proxy mode, a setup reads and writes
/// nothing, keeps what is saved, and tells the user to set the proxy by hand.
pub proof fn lemma_setup_unavailable(s: ProxyState, port: u16, e: EventView)
    requires
        !reports_writable(e),
    ensures
        ({
            let (s0, _) = setup_start(s, port);
            next(s0, e) == (
                ProxyState { task: Task::Idle, ..s },
                ActionView::Configured(fallback_result(port, unavailable_reason())),
            )
        }),
{
}

/// Where gsettings cannot write the proxy mode, a clear changes nothing.
pub proof fn lemma_clear_unavailable(s: ProxyState, e: EventView)
    requires
        !reports_writable(e),
    ensures
        next(clear_start(s).0, e) == (ProxyState { task: Task::Idle, ..s }, ActionView::Cleared),
{
}

/// The saved settings are never replaced: they are taken only when none are
/// saved, either from those an earlier run left on disk or from what was
/// read, which are saved to disk at once; once taken they stay until they
/// have been put back, when they are forgotten and removed from disk.
pub proof fn lemma_backup_kept(s: ProxyState, e: EventView)
    ensures
        ({
            let (t, a) = next(s, e);
            &&& s.backup is Some ==> (t.backup == s.backup || (t.backup is None && a
                == ActionView::DeleteBackup))
            &&& (s.backup is None && t.backup is Some) ==> (a == ActionView::SaveBackup(
                t.backup->0,
            ) || (s.task is Recover && t.backup == reported_backup(e)))
        }),
{
}

/// A desktop like [`agreeable`], except that every write of `refused`
/// fails.
pub open spec fn refusing(current: Map<ProxyKey, Seq<char>>, refused: ProxyKey) -> spec_fn(
    ActionView,
) -> EventView {
    |a: ActionView|
        match a {
            ActionView::Write(k, _) => EventView::Status(k != refused),
            _ => agreeable(current)(a),
        }
}

/// Where every write of one setting of the plan fails, a first setup still
/// takes the steps the plan leaves after that failure ([`attempted_plan`]),
/// then writes back every setting it saved, forgets them, and tells the user
/// to set the proxy by hand.
pub proof fn lemma_setup_failure_restores(
    s: ProxyState,
    port: u16,
    current: Map<ProxyKey, Seq<char>>,
    refused: ProxyKey,
)
    requires
        s.backup is None,
    ensures
        ({
            let (s0, a0) = setup_start(s, port);
            let (t, actions) = drive(s0, a0, refusing(current, refused), 31);
            &&& t.task == Task::Idle
            &&& t.backup is None
            &&& actions == setup_prelude(read_back(current)) + attempted_plan(port, refused)
                + restore_actions(read_back(current)) + seq![
                ActionView::Configured(fallback_result(port, failed_reason())),
            ]
        }),
{
    lemma_writable_output();
    let env = refusing(current, refused);
    lemma_plan_writable(env, port, Some(refused));
    lemma_setup_outcome(s, port, current, env);
    assert(setup_saved(s, env, current) == read_back(current));
    assert(setup_opening(s, env, current) == setup_prelude(read_back(current)));
    lemma_restore_all_writable(env, read_back(current));
}

/// A desktop like [`agreeable`], except that the HTTPS settings cannot be
/// written.
pub open spec fn https_locked(current: Map<ProxyKey, Seq<char>>) -> spec_fn(ActionView) -> EventView {
    |a: ActionView|
        match a {
            ActionView::QueryWritable(ProxyKey::HttpsHost) => EventView::Output(None),
            ActionView::QueryWritable(ProxyKey::HttpsPort) => EventView::Output(None),
            _ => agreeable(current)(a),
        }
}

/// The HTTPS settings are optional: where they cannot be written, a first
/// setup leaves them alone and still reports an automatic setup.
pub proof fn lemma_setup_skips_locked_https(s: ProxyState, port: u16, current: Map<ProxyKey, Seq<char>>)
    requires
        s.backup is None,
    ensures
        ({
            let (s0, a0) = setup_start(s, port);
            let (t, actions) = drive(s0, a0, https_locked(current), 31);
            &&& t.task == Task::Idle
            &&& t.backup == Some(read_back(current))
            &&& actions == setup_prelude(read_back(current)) + plan_writes(port).subrange(0, 7)
                + seq![
                ActionView::QueryWritable(ProxyKey::HttpsPort),
                ActionView::Configured(applied_result(port)),
            ]
        }),
{
    lemma_writable_output();
    let env = https_locked(current);
    reveal_with_fuel(plan_actions, 6);
    reveal_with_fuel(plan_fails, 6);
    let plan = plan_writes(port);
    assert(plan_step_actions(env, port, 0) =~= plan.subrange(0, 2));
    assert(plan_step_actions(env, port, 1) =~= plan.subrange(2, 4));
    assert(plan_step_actions(env, port, 2) =~= plan.subrange(4, 6));
    assert(plan_actions(env, port, 5) =~= Seq::<ActionView>::empty());
    assert(plan_actions(env, port, 0) =~= plan.subrange(0, 7) + seq![
        ActionView::QueryWritable(ProxyKey::HttpsPort),
    ]);
    assert(!plan_fails(env, port, 0));
    lemma_setup_outcome(s, port, current, env);
    assert(setup_saved(s, env, current) == read_back(current));
    assert(setup_opening(s, env, current) == setup_prelude(read_back(current)));
    assert(setup_prelude(read_back(current)) + plan.subrange(0, 7) + seq![
        ActionView::QueryWritable(ProxyKey::HttpsPort),
        ActionView::Configured(applied_result(port)),
    ] =~= setup_prelude(read_back(current)) + plan_actions(env, port, 0) + seq![
        ActionView::Configured(applied_result(port)),
    ]);
}


/// The port of the setup under way, if a setup is under way.
pub open spec fn setup_port(t: Task) -> Option<u16> {
    match t {
        Task::Probe { port } => Some(port),
        Task::Recover { port } => Some(port),
        Task::Snapshot { port, .. } => Some(port),
        Task::Persist { port } => Some(port),
        Task::Apply { port, .. } => Some(port),
        Task::Load { then: Resume::SetupFailed { port } } => Some(port),
        Task::Restore { then: Resume::SetupFailed { port }, .. } => Some(port),
        Task::Forget { then: Resume::SetupFailed { port } } => Some(port),
        _ => None,
    }
}

/// A setup ends only with a result, and every result names the Linux
/// platform, the local address and the port the setup was asked for; it is
/// automatic exactly when it reports the GNOME settings applied. A clear never
/// reports a setup result.
pub proof fn lemma_results_name_the_proxy(s: ProxyState, e: EventView)
    ensures
        ({
            let (t, a) = next(s, e);
            &&& a matches ActionView::Configured(r) ==> {
                &&& setup_port(s.task) == Some(r.port)
                &&& r.platform == "linux"@
                &&& r.host == "127.0.0.1"@
                &&& r == applied_result(r.port) || r == fallback_result(r.port, unavailable_reason())
                    || r == fallback_result(r.port, failed_reason())
            }
            &&& (a is Cleared ==> setup_port(s.task) is None)
        }),
{
}


/// Whether a clear is under way.
pub open spec fn clearing(t: Task) -> bool {
    match t {
        Task::ClearProbe => true,
        Task::Reset { .. } => true,
        Task::Load { then: Resume::Clear } => true,
        Task::Restore { then: Resume::Clear, .. } => true,
        Task::Forget { then: Resume::Clear } => true,
        _ => false,
    }
}

/// The answers the setup plan from step `i` on awaits at most.
pub open spec fn plan_left(i: int) -> nat {
    if i >= 5 {
        0
    } else if i == 4 {
        3
    } else if i == 3 {
        6
    } else if i == 2 {
        8
    } else if i == 1 {
        10
    } else {
        12
    }
}

/// The answers a step of applying a setting awaits at most.
pub open spec fn step_cost(step: ApplyStep) -> nat {
    match step {
        ApplyStep::CheckOptional => 3,
        ApplyStep::Check => 2,
        ApplyStep::Write => 1,
    }
}

/// The answers putting back the saved settings awaits at most, less one:
/// more where they must first be read from disk.
pub open spec fn restore_left(s: ProxyState) -> nat {
    if s.backup is Some {
        10
    } else {
        11
    }
}

/// A bound on the answers the operation under way in `s` awaits: it reaches
/// a final action after at most one answer more than this.
pub open spec fn answers_left(s: ProxyState) -> nat {
    match s.task {
        Task::Idle => 0,
        Task::Probe { .. } => 30,
        Task::Recover { .. } => 29,
        Task::Snapshot { next, .. } => if next >= 4 {
            24
        } else {
            (28 - next) as nat
        },
        Task::Persist { .. } => restore_left(s) + 13,
        Task::Apply { item, step, .. } => restore_left(s) + plan_left(item + 1) + step_cost(step),
        Task::Load { .. } => 11,
        Task::Restore { item, writing, .. } => if item >= SETTING_COUNT {
            1
        } else if writing {
            (2 * (SETTING_COUNT - item) - 1) as nat
        } else {
            (2 * (SETTING_COUNT - item)) as nat
        },
        Task::Forget { .. } => 0,
        Task::ClearProbe => restore_left(s) + 1,
        Task::Reset { writing } => if writing {
            0
        } else {
            1
        },
    }
}

proof fn lemma_next_saved(saved: Map<ProxyKey, Seq<char>>, i: int)
    ensures
        next_saved(saved, i) <= SETTING_COUNT,
        i <= SETTING_COUNT ==> next_saved(saved, i) >= i,
        i >= SETTING_COUNT ==> next_saved(saved, i) == SETTING_COUNT,
    decreases SETTING_COUNT - i,
{
    if i < SETTING_COUNT {
        lemma_next_saved(saved, i + 1);
    }
}

/// Each answer brings the operation under way nearer its end: what follows
/// is a final action, which leaves nothing under way, or a state with fewer
/// answers left. A setup ends with a setup result, a clear with the proxy
/// cleared.
pub proof fn lemma_answers_decrease(s: ProxyState, e: EventView)
    ensures
        ({
            let (t, a) = next(s, e);
            &&& terminal(a) ==> t.task == Task::Idle
            &&& terminal(a) || answers_left(t) < answers_left(s)
            &&& setup_port(s.task) is Some ==> if terminal(a) {
                a is Configured
            } else {
                setup_port(t.task) is Some
            }
            &&& clearing(s.task) ==> if terminal(a) {
                a is Cleared
            } else {
                clearing(t.task)
            }
        }),
{
    match s.task {
        Task::Apply { item, .. } => {
            lemma_next_saved(s.scratch, 0);
            if let Some(b) = s.backup {
                lemma_next_saved(b, 0);
            }
        },
        Task::Restore { item, .. } => {
            lemma_next_saved(s.scratch, item + 1);
        },
        Task::Load { .. } => {
            if let Some(b) = reported_backup(e) {
                lemma_next_saved(b, 0);
            }
        },
        Task::Snapshot { .. } => {
            lemma_next_saved(s.scratch, 0);
            if let Some(b) = s.backup {
                lemma_next_saved(b, 0);
            }
        },
        Task::Persist { .. } => {
            lemma_next_saved(s.scratch, 0);
            if let Some(b) = s.backup {
                lemma_next_saved(b, 0);
            }
        },
        Task::ClearProbe => {
            if let Some(b) = s.backup {
                lemma_next_saved(b, 0);
            }
        },
        _ => {},
    }
}

/// Running from state `s` and its pending action `a` reaches a final action
/// where fewer answers are left than `fuel`; a setup's is a setup result,
/// a clear's says the proxy is cleared.
pub proof fn lemma_drive_ends(
    s: ProxyState,
    a: ActionView,
    env: spec_fn(ActionView) -> EventView,
    fuel: nat,
)
    requires
        terminal(a) ==> s.task == Task::Idle,
        terminal(a) || answers_left(s) < fuel,
    ensures
        ({
            let (t, actions) = drive(s, a, env, fuel);
            &&& t.task == Task::Idle
            &&& terminal(actions.last())
            &&& (setup_port(s.task) is Some && !terminal(a)) ==> actions.last() is Configured
            &&& (clearing(s.task) && !terminal(a)) ==> actions.last() is Cleared
        }),
    decreases fuel,
{
    if !terminal(a) {
        let (t, b) = next(s, env(a));
        lemma_answers_decrease(s, env(a));
        lemma_drive_ends(t, b, env, (fuel - 1) as nat);
        let (u, rest) = drive(t, b, env, (fuel - 1) as nat);
        assert((seq![a] + rest).last() == rest.last());
    }
}

/// Whatever the desktop answers, a setup ends within 31 answers with a setup
/// result, and a clear within 13 with the proxy cleared; either way nothing
/// is left under way.
pub proof fn lemma_operations_end(s: ProxyState, port: u16, env: spec_fn(ActionView) -> EventView)
    ensures
        ({
            let (s0, a0) = setup_start(s, port);
            let (t, actions) = drive(s0, a0, env, 31);
            &&& t.task == Task::Idle
            &&& actions.last() is Configured
        }),
        ({
            let (c0, b0) = clear_start(s);
            let (u, actions) = drive(c0, b0, env, 13);
            &&& u.task == Task::Idle
            &&& actions.last() is Cleared
        }),
{
    let (s0, a0) = setup_start(s, port);
    lemma_drive_ends(s0, a0, env, 31);
    let (c0, b0) = clear_start(s);
    lemma_drive_ends(c0, b0, env, 13);
}

} // verus!

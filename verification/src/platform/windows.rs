//! The Windows integration: the proxy settings of the current user in the
//! registry, the WinHTTP proxy, the firewall rules that share the proxy on
//! the local network, and the cleanup of a crashed run.
//!
//! Registry access, commands and system calls are outside work.
//! [`WindowsProxy`] holds the decisions: each call returns the next
//! [`WinAction`] to perform, and [`WindowsProxy::resume`] takes the
//! [`WinEvent`] that performing it produced.

use vstd::prelude::*;
use crate::text::{
    decimal, decimal_string, join, join_strs, views_of, trim, trim_str, parse_u32, parse_u32_str,
    str_starts_with,
};
use crate::platform::{ProxySetupResult, SetupView, proxy_address, proxy_address_string, proxy_host_string};

verus! {

/// The registry key, under the current user, that holds the proxy settings.
pub const INTERNET_SETTINGS: &'static str =
    "Software\\Microsoft\\Windows\\CurrentVersion\\Internet Settings";

/// The name of the platform.
pub fn name() -> (s: &'static str)
    ensures
        s@ == "windows"@,
{
    "windows"
}

/// Whether the proxy is shared on the local network: on Windows, exactly when
/// game mode is on.
pub fn should_bind_lan_for_game_mode(enable_game_mode: bool) -> (b: bool)
    ensures
        b == enable_game_mode,
{
    enable_game_mode
}

/// A program to run with its arguments, without a console window.
#[derive(Debug)]
pub struct CommandLine {
    pub program: String,
    pub args: Vec<String>,
}

/// The mathematical content of a [`CommandLine`].
pub struct CommandView {
    pub program: Seq<char>,
    pub args: Seq<Seq<char>>,
}

/// The character sequences of `strings`.
pub open spec fn strings_view(strings: Seq<String>) -> Seq<Seq<char>> {
    strings.map_values(|s: String| s@)
}

impl View for CommandLine {
    type V = CommandView;

    open spec fn view(&self) -> CommandView {
        CommandView { program: self.program@, args: strings_view(self.args@) }
    }
}

/// The mathematical content of a list of commands.
pub open spec fn commands_view(commands: Seq<CommandLine>) -> Seq<CommandView> {
    commands.map_values(|c: CommandLine| c@)
}

fn push_str(v: &mut Vec<String>, s: &str)
    ensures
        strings_view(final(v)@) == strings_view(old(v)@).push(s@),
{
    v.push(String::from_str(s));
    assert(strings_view(v@) =~= strings_view(old(v)@).push(s@));
}

fn strings_of(parts: &Vec<&str>) -> (v: Vec<String>)
    ensures
        strings_view(v@) == views_of(parts@),
{
    let mut v: Vec<String> = Vec::new();
    let n = parts.len();
    for i in 0..n
        invariant
            n == parts@.len(),
            strings_view(v@) == views_of(parts@).take(i as int),
    {
        push_str(&mut v, parts[i]);
        assert(views_of(parts@).take(i + 1) =~= views_of(parts@).take(i as int).push(
            parts@[i as int]@,
        ));
    }
    assert(views_of(parts@).take(n as int) =~= views_of(parts@));
    v
}

fn command(program: &str, args: Vec<String>) -> (c: CommandLine)
    ensures
        c@ == (CommandView { program: program@, args: strings_view(args@) }),
{
    CommandLine { program: String::from_str(program), args: args }
}

/// The hosts that bypass the system proxy: the local network, the
/// connectivity checks of the operating systems, and the game launchers and
/// their downloads.
pub open spec fn proxy_bypass_hosts() -> Seq<Seq<char>> {
    seq![
        "<local>"@,
        "10.*"@,
        "172.16.*"@,
        "172.17.*"@,
        "172.18.*"@,
        "172.19.*"@,
        "172.20.*"@,
        "172.21.*"@,
        "172.22.*"@,
        "172.23.*"@,
        "172.24.*"@,
        "172.25.*"@,
        "172.26.*"@,
        "172.27.*"@,
        "172.28.*"@,
        "172.29.*"@,
        "172.30.*"@,
        "172.31.*"@,
        "192.168.*"@,
        "*.msftconnecttest.com"@,
        "*.msftncsi.com"@,
        "dns.msn.com"@,
        "ipv6.msftconnecttest.com"@,
        "connectivitycheck.gstatic.com"@,
        "connectivitycheck.android.com"@,
        "clients3.google.com"@,
        "play.googleapis.com"@,
        "captive.apple.com"@,
        "gsp1.apple.com"@,
        "connectivitycheck.samsung.com"@,
        "*.windowsupdate.com"@,
        "*.delivery.mp.microsoft.com"@,
        "*.steamcontent.com"@,
        "*.steamstatic.com"@,
        "clientconfig.akamai.steamstatic.com"@,
        "*.cm.steampowered.com"@,
        "*.epicgames.com"@,
        "*.unrealengine.com"@,
        "download.epicgames.com"@,
        "launcher-public-service-prod06.ol.epicgames.com"@,
        "*.riotgames.com"@,
        "*.leagueoflegends.com"@,
        "riotgames-update.akamaized.net"@,
        "*.ea.com"@,
        "*.origin.com"@,
        "*.blizzard.com"@,
        "*.battle.net"@,
        "blzddist1-a.akamaihd.net"@,
        "*.ubisoft.com"@,
        "*.ubi.com"@,
        "*.xboxlive.com"@,
        "*.xbox.com"@,
        "*.microsoft.com"@,
        "*.cachefly.net"@,
    ]
}

fn proxy_bypass_host_list() -> (v: Vec<&'static str>)
    ensures
        views_of(v@) == proxy_bypass_hosts(),
{
    let v: Vec<&'static str> = vec![
        "<local>",
        "10.*",
        "172.16.*",
        "172.17.*",
        "172.18.*",
        "172.19.*",
        "172.20.*",
        "172.21.*",
        "172.22.*",
        "172.23.*",
        "172.24.*",
        "172.25.*",
        "172.26.*",
        "172.27.*",
        "172.28.*",
        "172.29.*",
        "172.30.*",
        "172.31.*",
        "192.168.*",
        "*.msftconnecttest.com",
        "*.msftncsi.com",
        "dns.msn.com",
        "ipv6.msftconnecttest.com",
        "connectivitycheck.gstatic.com",
        "connectivitycheck.android.com",
        "clients3.google.com",
        "play.googleapis.com",
        "captive.apple.com",
        "gsp1.apple.com",
        "connectivitycheck.samsung.com",
        "*.windowsupdate.com",
        "*.delivery.mp.microsoft.com",
        "*.steamcontent.com",
        "*.steamstatic.com",
        "clientconfig.akamai.steamstatic.com",
        "*.cm.steampowered.com",
        "*.epicgames.com",
        "*.unrealengine.com",
        "download.epicgames.com",
        "launcher-public-service-prod06.ol.epicgames.com",
        "*.riotgames.com",
        "*.leagueoflegends.com",
        "riotgames-update.akamaized.net",
        "*.ea.com",
        "*.origin.com",
        "*.blizzard.com",
        "*.battle.net",
        "blzddist1-a.akamaihd.net",
        "*.ubisoft.com",
        "*.ubi.com",
        "*.xboxlive.com",
        "*.xbox.com",
        "*.microsoft.com",
        "*.cachefly.net",
    ];
    assert(views_of(v@) =~= proxy_bypass_hosts());
    v
}

/// The value of `ProxyOverride`: the bypassed hosts, separated by `;`.
pub open spec fn proxy_override() -> Seq<char> {
    join(proxy_bypass_hosts(), ";"@)
}

/// Renders [`proxy_override`].
pub fn proxy_override_value() -> (s: String)
    ensures
        s@ == proxy_override(),
{
    join_strs(&proxy_bypass_host_list(), ";")
}

/// The bypass list given to the WinHTTP proxy.
pub open spec fn winhttp_bypass_argument() -> Seq<char> {
    "bypass-list=\"<local>;"@ + "127.0.0.1"@ + ";*.steamcontent.com;*.steamstatic.com;*.cm.steampowered.com;*.epicgames.com;*.unrealengine.com;*.riotgames.com;*.leagueoflegends.com;*.ea.com;*.origin.com;*.blizzard.com;*.battle.net;*.ubisoft.com;*.ubi.com;*.xboxlive.com;*.xbox.com;*.microsoft.com;*.cachefly.net;*.msftconnecttest.com;*.windowsupdate.com\""@
}

/// The command that points the WinHTTP proxy at the local proxy on `port`.
pub open spec fn winhttp_set_command(port: u16) -> CommandView {
    CommandView {
        program: "netsh"@,
        args: seq!["winhttp"@, "set"@, "proxy"@, proxy_address(port), winhttp_bypass_argument()],
    }
}

/// Builds [`winhttp_set_command`].
pub fn winhttp_set_command_line(port: u16) -> (c: CommandLine)
    ensures
        c@ == winhttp_set_command(port),
{
    let mut bypass = String::from_str("bypass-list=\"<local>;");
    bypass.append(crate::platform::PROXY_HOST);
    bypass.append(";*.steamcontent.com;*.steamstatic.com;*.cm.steampowered.com;*.epicgames.com;*.unrealengine.com;*.riotgames.com;*.leagueoflegends.com;*.ea.com;*.origin.com;*.blizzard.com;*.battle.net;*.ubisoft.com;*.ubi.com;*.xboxlive.com;*.xbox.com;*.microsoft.com;*.cachefly.net;*.msftconnecttest.com;*.windowsupdate.com\"");
    let mut args = strings_of(&vec!["winhttp", "set", "proxy"]);
    push_str(&mut args, proxy_address_string(port).as_str());
    push_str(&mut args, bypass.as_str());
    let c = command("netsh", args);
    assert(c@.args =~= winhttp_set_command(port).args);
    c
}

/// The command that resets the WinHTTP proxy.
pub open spec fn winhttp_reset_command() -> CommandView {
    CommandView { program: "netsh"@, args: seq!["winhttp"@, "reset"@, "proxy"@] }
}

/// Builds [`winhttp_reset_command`].
pub fn winhttp_reset_command_line() -> (c: CommandLine)
    ensures
        c@ == winhttp_reset_command(),
{
    let c = command("netsh", strings_of(&vec!["winhttp", "reset", "proxy"]));
    assert(c@.args =~= winhttp_reset_command().args);
    c
}

/// The command that empties the DNS cache.
pub open spec fn flush_dns_command() -> CommandView {
    CommandView { program: "ipconfig"@, args: seq!["/flushdns"@] }
}

/// Builds [`flush_dns_command`].
pub fn flush_dns_command_line() -> (c: CommandLine)
    ensures
        c@ == flush_dns_command(),
{
    let c = command("ipconfig", strings_of(&vec!["/flushdns"]));
    assert(c@.args =~= flush_dns_command().args);
    c
}

/// The PowerShell script that lets every installed UWP app reach the local
/// proxy through the loopback interface.
pub open spec fn uwp_exemption_script() -> Seq<char> {
    "\n            try {\n                $packages = Get-AppxPackage -ErrorAction SilentlyContinue\n                foreach ($pkg in $packages) {\n                    if ($pkg.PackageFamilyName) {\n                        CheckNetIsolation.exe LoopbackExempt -a \"-n=$($pkg.PackageFamilyName)\"\n                    }\n                }\n            } catch {}\n        "@
}

/// The command that runs [`uwp_exemption_script`] in a hidden window.
pub open spec fn uwp_exemption_command() -> CommandView {
    CommandView {
        program: "powershell"@,
        args: seq![
            "-NoProfile"@,
            "-WindowStyle"@,
            "Hidden"@,
            "-Command"@,
            uwp_exemption_script(),
        ],
    }
}

/// Builds [`uwp_exemption_command`].
pub fn uwp_exemption_command_line() -> (c: CommandLine)
    ensures
        c@ == uwp_exemption_command(),
{
    let c = command(
        "powershell",
        strings_of(
            &vec![
                "-NoProfile",
                "-WindowStyle",
                "Hidden",
                "-Command",
                "\n            try {\n                $packages = Get-AppxPackage -ErrorAction SilentlyContinue\n                foreach ($pkg in $packages) {\n                    if ($pkg.PackageFamilyName) {\n                        CheckNetIsolation.exe LoopbackExempt -a \"-n=$($pkg.PackageFamilyName)\"\n                    }\n                }\n            } catch {}\n        ",
            ],
        ),
    );
    assert(c@.args =~= uwp_exemption_command().args);
    c
}

/// The command that removes the firewall rule named `rule`.
pub open spec fn firewall_delete_command(rule: Seq<char>) -> CommandView {
    CommandView {
        program: "netsh"@,
        args: seq!["advfirewall"@, "firewall"@, "delete"@, "rule"@, rule],
    }
}

/// The command that adds the firewall rule named `rule`, letting in TCP
/// connections to `port`.
pub open spec fn firewall_add_command(rule: Seq<char>, port: u16) -> CommandView {
    CommandView {
        program: "netsh"@,
        args: seq![
            "advfirewall"@,
            "firewall"@,
            "add"@,
            "rule"@,
            rule,
            "dir=in"@,
            "action=allow"@,
            "protocol=TCP"@,
            "localport="@ + decimal(port as nat),
        ],
    }
}

/// The commands that manage the firewall rules of the proxy and of the PAC
/// server: both rules are removed, then, where `enable`, added again for the
/// given ports.
pub open spec fn firewall_commands(enable: bool, proxy_port: u16, pac_port: u16) -> Seq<CommandView> {
    let removed = seq![
        firewall_delete_command("name=BypaxDPI_Proxy"@),
        firewall_delete_command("name=BypaxDPI_PAC"@),
    ];
    if enable {
        removed + seq![
            firewall_add_command("name=BypaxDPI_Proxy"@, proxy_port),
            firewall_add_command("name=BypaxDPI_PAC"@, pac_port),
        ]
    } else {
        removed
    }
}

fn firewall_delete(rule: &str) -> (c: CommandLine)
    ensures
        c@ == firewall_delete_command(rule@),
{
    let mut args = strings_of(&vec!["advfirewall", "firewall", "delete", "rule"]);
    push_str(&mut args, rule);
    let c = command("netsh", args);
    assert(c@.args =~= firewall_delete_command(rule@).args);
    c
}

fn firewall_add(rule: &str, port: u16) -> (c: CommandLine)
    ensures
        c@ == firewall_add_command(rule@, port),
{
    let mut args = strings_of(&vec!["advfirewall", "firewall", "add", "rule"]);
    push_str(&mut args, rule);
    push_str(&mut args, "dir=in");
    push_str(&mut args, "action=allow");
    push_str(&mut args, "protocol=TCP");
    let mut local_port = String::from_str("localport=");
    local_port.append(decimal_string(port as u64).as_str());
    push_str(&mut args, local_port.as_str());
    let c = command("netsh", args);
    assert(c@.args =~= firewall_add_command(rule@, port).args);
    c
}

/// The commands that manage the firewall rules of the proxy and of the PAC
/// server (see [`firewall_commands`]); they are run one after another in the
/// background.
pub fn manage_firewall_rules(enable: bool, proxy_port: u16, pac_port: u16) -> (commands: Vec<
    CommandLine,
>)
    ensures
        commands_view(commands@) == firewall_commands(enable, proxy_port, pac_port),
{
    let mut commands: Vec<CommandLine> = Vec::new();
    commands.push(firewall_delete("name=BypaxDPI_Proxy"));
    commands.push(firewall_delete("name=BypaxDPI_PAC"));
    if enable {
        commands.push(firewall_add("name=BypaxDPI_Proxy", proxy_port));
        commands.push(firewall_add("name=BypaxDPI_PAC", pac_port));
    }
    assert(commands_view(commands@) =~= firewall_commands(enable, proxy_port, pac_port));
    commands
}


fn registry_add_command(value_name: &str, value_type: &str, data: &str) -> (c: CommandLine)
    ensures
        c@ == reg_add_command(value_name@, value_type@, data@),
{
    let mut args = strings_of(
        &vec!["add", "HKCU\\Software\\Microsoft\\Windows\\CurrentVersion\\Internet Settings", "/v"],
    );
    push_str(&mut args, value_name);
    push_str(&mut args, "/t");
    push_str(&mut args, value_type);
    push_str(&mut args, "/d");
    push_str(&mut args, data);
    push_str(&mut args, "/f");
    let c = command("reg", args);
    assert(c@.args =~= reg_add_command(value_name@, value_type@, data@).args);
    c
}

/// The `reg add` command that sets a value of the proxy settings key.
pub open spec fn reg_add_command(value_name: Seq<char>, value_type: Seq<char>, data: Seq<char>) -> CommandView {
    CommandView {
        program: "reg"@,
        args: seq![
            "add"@,
            "HKCU\\Software\\Microsoft\\Windows\\CurrentVersion\\Internet Settings"@,
            "/v"@,
            value_name,
            "/t"@,
            value_type,
            "/d"@,
            data,
            "/f"@,
        ],
    }
}

/// The commands run after a crash, one after another: the system proxy is
/// turned off and emptied with `reg`, and the proxy process is killed.
pub open spec fn panic_cleanup_commands() -> Seq<CommandView> {
    seq![
        reg_add_command("ProxyEnable"@, "REG_DWORD"@, "0"@),
        reg_add_command("ProxyServer"@, "REG_SZ"@, ""@),
        CommandView {
            program: "taskkill"@,
            args: seq!["/F"@, "/IM"@, "bypax-proxy.exe"@],
        },
    ]
}

/// The commands that undo the proxy after a crash (see
/// [`panic_cleanup_commands`]); each is run to its end, its status ignored.
pub fn cleanup_on_panic() -> (commands: Vec<CommandLine>)
    ensures
        commands_view(commands@) == panic_cleanup_commands(),
{
    let mut commands: Vec<CommandLine> = Vec::new();
    commands.push(registry_add_command("ProxyEnable", "REG_DWORD", "0"));
    commands.push(registry_add_command("ProxyServer", "REG_SZ", ""));
    let kill = command("taskkill", strings_of(&vec!["/F", "/IM", "bypax-proxy.exe"]));
    assert(kill@.args =~= seq!["/F"@, "/IM"@, "bypax-proxy.exe"@]);
    commands.push(kill);
    assert(commands_view(commands@) =~= panic_cleanup_commands());
    commands
}

/// The process a left-over sidecar PID file names, if any: the file must
/// hold a positive decimal number, with any whitespace around it.
pub open spec fn zombie_pid(pid_file: Option<Seq<char>>) -> Option<u32> {
    match pid_file {
        Some(text) => match parse_u32(trim(text)) {
            Ok(pid) => if pid > 0 {
                Some(pid)
            } else {
                None
            },
            Err(_) => None,
        },
        None => None,
    }
}

/// The message reported when no left-over sidecar was stopped.
pub open spec fn zombie_not_found_message() -> Seq<char> {
    "Zombi PID dosyası bulunamadı."@
}

/// The message reported when the left-over sidecar `pid` was stopped.
pub open spec fn zombie_stopped_message(pid: u32) -> Seq<char> {
    "Zombi süreç (PID "@ + decimal(pid as nat) + ") durduruldu."@
}

/// What stopping a sidecar left over from an earlier run comes to, once its
/// PID file has been read.
#[derive(Debug)]
pub enum WinZombieStep {
    /// Nothing to stop: report this, leaving the PID file alone.
    Report(Result<String, String>),
    /// Run `taskkill` on `pid` (see [`taskkill_command_line`]), remove the
    /// PID file, then report what [`zombie_outcome`] makes of it.
    Terminate { pid: u32 },
}

/// Decides what to do about a sidecar left over from an earlier run, from
/// the text of its PID file (`None` where it cannot be read): the process is
/// killed where the file names one, otherwise there is nothing to stop.
pub fn kill_zombie_sidecar(pid_file: Option<&str>) -> (r: WinZombieStep)
    ensures
        match zombie_pid(
            match pid_file {
                Some(t) => Some(t@),
                None => None,
            },
        ) {
            Some(pid) => r == WinZombieStep::Terminate { pid },
            None => r matches WinZombieStep::Report(Ok(m)) && m@ == zombie_not_found_message(),
        },
{
    let pid = match pid_file {
        None => None,
        Some(text) => match parse_u32_str(trim_str(text)) {
            Ok(pid) => if pid > 0 {
                Some(pid)
            } else {
                None
            },
            Err(_) => None,
        },
    };
    match pid {
        Some(pid) => WinZombieStep::Terminate { pid },
        None => WinZombieStep::Report(Ok(String::from_str("Zombi PID dosyası bulunamadı."))),
    }
}

/// The command that kills process `pid`.
pub open spec fn taskkill_command(pid: u32) -> CommandView {
    CommandView { program: "taskkill"@, args: seq!["/F"@, "/PID"@, decimal(pid as nat)] }
}

/// Builds [`taskkill_command`].
pub fn taskkill_command_line(pid: u32) -> (c: CommandLine)
    ensures
        c@ == taskkill_command(pid),
{
    let mut args = strings_of(&vec!["/F", "/PID"]);
    push_str(&mut args, decimal_string(pid as u64).as_str());
    let c = command("taskkill", args);
    assert(c@.args =~= taskkill_command(pid).args);
    c
}

/// The report once `taskkill` was run on `pid`; `stopped` says whether it
/// ran and succeeded.
pub fn zombie_outcome(pid: u32, stopped: bool) -> (r: Result<String, String>)
    ensures
        r matches Ok(m) && m@ == (if stopped {
            zombie_stopped_message(pid)
        } else {
            zombie_not_found_message()
        }),
{
    if stopped {
        let mut m = String::from_str("Zombi süreç (PID ");
        m.append(decimal_string(pid as u64).as_str());
        m.append(") durduruldu.");
        Ok(m)
    } else {
        Ok(String::from_str("Zombi PID dosyası bulunamadı."))
    }
}

/// The error reported when the driver installer is missing.
pub open spec fn installer_missing_message() -> Seq<char> {
    "Sürücü dosyası bulunamadı. Lütfen uygulamayı yeniden yükleyin."@
}

/// The error reported when the driver installer did not succeed.
pub open spec fn installer_failed_message() -> Seq<char> {
    "Kurulum kullanıcı tarafından iptal edildi veya başarısız oldu."@
}

/// Whether the packet capture driver installer can be run: `installer` is
/// whether it exists among the resources, or why the resource directory
/// could not be found. `Ok` means: run it, then report
/// [`installer_outcome`].
pub fn install_driver(installer: Result<bool, String>) -> (r: Result<(), String>)
    ensures
        match installer {
            Ok(true) => r is Ok,
            Ok(false) => r matches Err(m) && m@ == installer_missing_message(),
            Err(e) => r matches Err(m) && m@ == e@,
        },
{
    match installer {
        Ok(true) => Ok(()),
        Ok(false) => Err(
            String::from_str("Sürücü dosyası bulunamadı. Lütfen uygulamayı yeniden yükleyin."),
        ),
        Err(e) => Err(e),
    }
}

/// How running the driver installer went: whether it exited successfully,
/// or why it could not run.
pub fn installer_outcome(status: Result<bool, String>) -> (r: Result<(), String>)
    ensures
        match status {
            Ok(true) => r is Ok,
            Ok(false) => r matches Err(m) && m@ == installer_failed_message(),
            Err(e) => r matches Err(m) && m@ == e@,
        },
{
    match status {
        Ok(true) => Ok(()),
        Ok(false) => Err(
            String::from_str("Kurulum kullanıcı tarafından iptal edildi veya başarısız oldu."),
        ),
        Err(e) => Err(e),
    }
}


/// A value of the proxy settings key.
#[derive(Clone, Copy, Debug, PartialEq, Eq, Structural)]
pub enum RegistryValue {
    ProxyServer,
    ProxyEnable,
    ProxyOverride,
    AutoConfigUrl,
}

impl RegistryValue {
    /// The name of the value in the registry.
    pub open spec fn name_view(self) -> Seq<char> {
        match self {
            RegistryValue::ProxyServer => "ProxyServer"@,
            RegistryValue::ProxyEnable => "ProxyEnable"@,
            RegistryValue::ProxyOverride => "ProxyOverride"@,
            RegistryValue::AutoConfigUrl => "AutoConfigURL"@,
        }
    }

    /// The name of the value in the registry.
    pub fn name(&self) -> (s: &'static str)
        ensures
            s@ == self.name_view(),
    {
        match self {
            RegistryValue::ProxyServer => "ProxyServer",
            RegistryValue::ProxyEnable => "ProxyEnable",
            RegistryValue::ProxyOverride => "ProxyOverride",
            RegistryValue::AutoConfigUrl => "AutoConfigURL",
        }
    }
}

/// One operation on the proxy settings key of the current user.
#[derive(Debug)]
pub enum RegistryOp {
    /// Open the key, creating it where it is missing.
    OpenSettings,
    /// Set a string value.
    SetString(RegistryValue, String),
    /// Set a 32-bit value.
    SetDword(RegistryValue, u32),
    /// Delete a value.
    Delete(RegistryValue),
}

/// The mathematical content of a [`RegistryOp`].
pub enum RegistryOpView {
    OpenSettings,
    SetString(RegistryValue, Seq<char>),
    SetDword(RegistryValue, u32),
    Delete(RegistryValue),
}

impl View for RegistryOp {
    type V = RegistryOpView;

    open spec fn view(&self) -> RegistryOpView {
        match self {
            RegistryOp::OpenSettings => RegistryOpView::OpenSettings,
            RegistryOp::SetString(v, s) => RegistryOpView::SetString(*v, s@),
            RegistryOp::SetDword(v, d) => RegistryOpView::SetDword(*v, *d),
            RegistryOp::Delete(v) => RegistryOpView::Delete(*v),
        }
    }
}

/// The proxy settings found in the registry before the local proxy was
/// applied; `None` where a value could not be read.
#[derive(Debug)]
pub struct RegistryBackup {
    pub proxy_enable: Option<u32>,
    pub proxy_server: Option<String>,
    pub proxy_override: Option<String>,
}

/// The mathematical content of a [`RegistryBackup`].
pub struct RegistryBackupView {
    pub proxy_enable: Option<u32>,
    pub proxy_server: Option<Seq<char>>,
    pub proxy_override: Option<Seq<char>>,
}

/// The text held in `o`, if any.
pub open spec fn opt_text(o: &Option<String>) -> Option<Seq<char>> {
    match o {
        Some(s) => Some(s@),
        None => None,
    }
}

impl View for RegistryBackup {
    type V = RegistryBackupView;

    open spec fn view(&self) -> RegistryBackupView {
        RegistryBackupView {
            proxy_enable: self.proxy_enable,
            proxy_server: opt_text(&self.proxy_server),
            proxy_override: opt_text(&self.proxy_override),
        }
    }
}

/// Whether the saved settings point at another proxy, one that the clear
/// puts back: a server is saved, and it is neither empty nor the local proxy.
pub open spec fn restorable(b: RegistryBackupView) -> bool {
    b.proxy_server matches Some(server) && server.len() > 0 && !(server.len() >= 10
        && server.subrange(0, 10) == "127.0.0.1:"@)
}

fn is_restorable(b: &RegistryBackup) -> (r: bool)
    ensures
        r == restorable(b@),
{
    match &b.proxy_server {
        Some(server) => {
            proof {
                reveal_strlit("127.0.0.1:");
            }
            server.as_str().unicode_len() > 0 && !str_starts_with(server.as_str(), "127.0.0.1:")
        },
        None => false,
    }
}

/// The number of registry operations that apply the proxy.
pub const SET_OPS: usize = 4;

/// The number of registry operations that turn the proxy off.
pub const RESET_OPS: usize = 5;

/// Registry operation `i` of applying the proxy on `port`: open the key,
/// then set the server, enable the proxy, and set the bypass list.
pub open spec fn set_op(i: int, port: u16) -> RegistryOpView {
    if i == 0 {
        RegistryOpView::OpenSettings
    } else if i == 1 {
        RegistryOpView::SetString(RegistryValue::ProxyServer, proxy_address(port))
    } else if i == 2 {
        RegistryOpView::SetDword(RegistryValue::ProxyEnable, 1)
    } else {
        RegistryOpView::SetString(RegistryValue::ProxyOverride, proxy_override())
    }
}

/// What an error of registry operation `i` of applying the proxy is
/// prefixed with.
pub open spec fn set_error_prefix(i: int) -> Seq<char> {
    if i == 0 {
        "Registry açılamadı: "@
    } else if i == 1 {
        "ProxyServer: "@
    } else if i == 2 {
        "ProxyEnable: "@
    } else {
        "ProxyOverride: "@
    }
}

/// Registry operation `i` of turning the proxy off: open the key, disable the
/// proxy, then delete the server, the bypass list and the automatic
/// configuration script. Only the first two must succeed for the rest to be
/// done.
pub open spec fn reset_op(i: int) -> RegistryOpView {
    if i == 0 {
        RegistryOpView::OpenSettings
    } else if i == 1 {
        RegistryOpView::SetDword(RegistryValue::ProxyEnable, 0)
    } else if i == 2 {
        RegistryOpView::Delete(RegistryValue::ProxyServer)
    } else if i == 3 {
        RegistryOpView::Delete(RegistryValue::ProxyOverride)
    } else {
        RegistryOpView::Delete(RegistryValue::AutoConfigUrl)
    }
}

/// The number of registry operations that put back the saved settings `b`.
pub open spec fn restore_op_count(b: RegistryBackupView) -> int {
    if b.proxy_override is Some {
        4
    } else {
        3
    }
}

/// Registry operation `i` of putting back the saved settings `b`: open the
/// key, then set the saved server, the saved enable flag (0 where none was
/// saved), and the saved bypass list where one was saved. Each must succeed
/// for the next to be done.
pub open spec fn restore_op(b: RegistryBackupView, i: int) -> RegistryOpView {
    if i == 0 {
        RegistryOpView::OpenSettings
    } else if i == 1 {
        RegistryOpView::SetString(RegistryValue::ProxyServer, b.proxy_server->0)
    } else if i == 2 {
        RegistryOpView::SetDword(
            RegistryValue::ProxyEnable,
            match b.proxy_enable {
                Some(e) => e,
                None => 0,
            },
        )
    } else {
        RegistryOpView::SetString(RegistryValue::ProxyOverride, b.proxy_override->0)
    }
}

/// The error reported when the registry cannot be written.
pub open spec fn access_denied_message() -> Seq<char> {
    "Registry yazma izni yok. Uygulamayı yönetici olarak çalıştırın."@
}

/// The error reported when applying the proxy failed with `failure`, after
/// the proxy was turned off again.
pub open spec fn rolled_back_message(failure: Seq<char>) -> Seq<char> {
    "Registry güncelleme başarısız, geri alındı: "@ + failure
}

/// The result reported when the system proxy was applied.
pub open spec fn applied_result(port: u16) -> SetupView {
    SetupView {
        platform: "windows"@,
        host: "127.0.0.1"@,
        port: port,
        automatic: true,
        message: "Windows system proxy applied at "@ + proxy_address(port),
    }
}

fn applied(port: u16) -> (r: ProxySetupResult)
    ensures
        r@ == applied_result(port),
{
    let mut message = String::from_str("Windows system proxy applied at ");
    message.append(proxy_address_string(port).as_str());
    ProxySetupResult {
        platform: name(),
        host: proxy_host_string(),
        port: port,
        automatic: true,
        message: message,
    }
}

/// The operation under way.
#[derive(Clone, Copy, Debug, PartialEq, Eq, Structural)]
pub enum WinTask {
    /// Nothing is under way.
    Idle,
    /// Setup: asking whether the registry can be written.
    Probe { port: u16, winhttp: bool },
    /// Setup: reading the current settings.
    Snapshot { port: u16, winhttp: bool },
    /// Setup: registry operation `step` of applying the proxy.
    Apply { port: u16, winhttp: bool, step: usize },
    /// Setup failed: registry operation `step` of turning the proxy off.
    Revert { step: usize },
    /// Setup: telling the system (`stage` 0), exempting the UWP apps (1),
    /// setting the WinHTTP proxy (2).
    Announce { port: u16, winhttp: bool, stage: usize },
    /// Clear: registry operation `step` of putting back the saved settings.
    Restore { step: usize },
    /// Clear: registry operation `step` of turning the proxy off.
    Reset { step: usize },
    /// Clear: emptying the DNS cache (`stage` 0), telling the system (1),
    /// resetting the WinHTTP proxy (2), removing the firewall rules (3).
    Cleanup { stage: usize },
}

/// What the outside work of the last action produced.
#[derive(Debug)]
pub enum WinEvent {
    /// Whether the proxy settings key can be opened.
    Access(bool),
    /// The settings read.
    Original(RegistryBackup),
    /// How a registry operation went: `Err` with the error it displays.
    Registry(Result<(), String>),
    /// The action was performed and reports nothing.
    Done,
}

/// The next piece of outside work.
#[derive(Debug)]
pub enum WinAction {
    /// Nothing is under way.
    Nothing,
    /// Report whether the proxy settings key can be opened.
    CheckAccess,
    /// Read `ProxyEnable`, `ProxyServer` and `ProxyOverride`, and report them.
    ReadOriginal,
    /// Perform this registry operation and report how it went.
    Registry(RegistryOp),
    /// Tell the system that the internet settings changed; report `Done`.
    NotifyChange,
    /// Run these commands one after another in the background; report
    /// `Done` at once.
    Background(Vec<CommandLine>),
    /// Run this command to its end, ignoring its status; report `Done`.
    Run(CommandLine),
    /// The setup is over, with this result.
    Configured(Result<ProxySetupResult, String>),
    /// The proxy has been cleared.
    Cleared,
}

/// The mathematical content of a [`WinEvent`].
pub enum WinEventView {
    Access(bool),
    Original(RegistryBackupView),
    Registry(Result<(), Seq<char>>),
    Done,
}

/// The mathematical content of a [`WinAction`].
#[verifier::ext_equal]
pub enum WinActionView {
    Nothing,
    CheckAccess,
    ReadOriginal,
    Registry(RegistryOpView),
    NotifyChange,
    Background(Seq<CommandView>),
    Run(CommandView),
    Configured(Result<SetupView, Seq<char>>),
    Cleared,
}

impl View for WinEvent {
    type V = WinEventView;

    open spec fn view(&self) -> WinEventView {
        match self {
            WinEvent::Access(b) => WinEventView::Access(*b),
            WinEvent::Original(b) => WinEventView::Original(b@),
            WinEvent::Registry(r) => WinEventView::Registry(
                match r {
                    Ok(()) => Ok(()),
                    Err(e) => Err(e@),
                },
            ),
            WinEvent::Done => WinEventView::Done,
        }
    }
}

impl View for WinAction {
    type V = WinActionView;

    open spec fn view(&self) -> WinActionView {
        match self {
            WinAction::Nothing => WinActionView::Nothing,
            WinAction::CheckAccess => WinActionView::CheckAccess,
            WinAction::ReadOriginal => WinActionView::ReadOriginal,
            WinAction::Registry(op) => WinActionView::Registry(op@),
            WinAction::NotifyChange => WinActionView::NotifyChange,
            WinAction::Background(cs) => WinActionView::Background(commands_view(cs@)),
            WinAction::Run(c) => WinActionView::Run(c@),
            WinAction::Configured(r) => WinActionView::Configured(
                match r {
                    Ok(res) => Ok(res@),
                    Err(e) => Err(e@),
                },
            ),
            WinAction::Cleared => WinActionView::Cleared,
        }
    }
}

/// The error a registry event reports, if any; an event of another kind is
/// an error with no message.
pub open spec fn reported_error(e: WinEventView) -> Option<Seq<char>> {
    match e {
        WinEventView::Registry(Ok(())) => None,
        WinEventView::Registry(Err(m)) => Some(m),
        _ => Some(Seq::empty()),
    }
}

/// The settings an event reports as read; an event of another kind reads
/// nothing.
pub open spec fn reported_original(e: WinEventView) -> RegistryBackupView {
    match e {
        WinEventView::Original(b) => b,
        _ => RegistryBackupView { proxy_enable: None, proxy_server: None, proxy_override: None },
    }
}

/// The mathematical content of a [`WindowsProxy`].
#[verifier::ext_equal]
pub struct WinState {
    /// The settings saved before the proxy was applied.
    pub original: Option<RegistryBackupView>,
    /// The error of a failed setup, while the proxy is turned off again.
    pub failure: Seq<char>,
    /// The operation under way.
    pub task: WinTask,
}

/// Starts turning the proxy off again after a failed setup.
pub open spec fn revert_start(s: WinState, failure: Seq<char>) -> (WinState, WinActionView) {
    (
        WinState { failure, task: WinTask::Revert { step: 0 }, ..s },
        WinActionView::Registry(reset_op(0)),
    )
}

/// The steps of a clear that follow the registry: the DNS cache is emptied
/// first.
pub open spec fn cleanup_start(s: WinState) -> (WinState, WinActionView) {
    (
        WinState { task: WinTask::Cleanup { stage: 0 }, ..s },
        WinActionView::Background(seq![flush_dns_command()]),
    )
}

/// The state after a setup of `port` begins, and its first action.
pub open spec fn setup_start(s: WinState, port: u16, winhttp: bool) -> (WinState, WinActionView) {
    (WinState { task: WinTask::Probe { port, winhttp }, ..s }, WinActionView::CheckAccess)
}

/// The state after a clear begins, and its first action: the saved settings
/// are put back where they point at another proxy; otherwise the proxy is
/// turned off.
pub open spec fn clear_start(s: WinState) -> (WinState, WinActionView) {
    if s.original matches Some(b) && restorable(b) {
        (
            WinState { task: WinTask::Restore { step: 0 }, ..s },
            WinActionView::Registry(RegistryOpView::OpenSettings),
        )
    } else {
        (
            WinState { task: WinTask::Reset { step: 0 }, ..s },
            WinActionView::Registry(RegistryOpView::OpenSettings),
        )
    }
}

/// The state and the action that follow event `e` in state `s`.
pub open spec fn next(s: WinState, e: WinEventView) -> (WinState, WinActionView) {
    match s.task {
        WinTask::Idle => (s, WinActionView::Nothing),
        WinTask::Probe { port, winhttp } => if e == WinEventView::Access(true) {
            (WinState { task: WinTask::Snapshot { port, winhttp }, ..s }, WinActionView::ReadOriginal)
        } else {
            (
                WinState { task: WinTask::Idle, ..s },
                WinActionView::Configured(Err(access_denied_message())),
            )
        },
        WinTask::Snapshot { port, winhttp } => {
            let original = if s.original is None {
                Some(reported_original(e))
            } else {
                s.original
            };
            (
                WinState { original, task: WinTask::Apply { port, winhttp, step: 0 }, ..s },
                WinActionView::Registry(set_op(0, port)),
            )
        },
        WinTask::Apply { port, winhttp, step } => match reported_error(e) {
            Some(m) => revert_start(s, set_error_prefix(step as int) + m),
            None => if step + 1 < SET_OPS {
                (
                    WinState {
                        task: WinTask::Apply { port, winhttp, step: (step + 1) as usize },
                        ..s
                    },
                    WinActionView::Registry(set_op(step + 1, port)),
                )
            } else {
                (
                    WinState { task: WinTask::Announce { port, winhttp, stage: 0 }, ..s },
                    WinActionView::NotifyChange,
                )
            },
        },
        WinTask::Revert { step } => if (reported_error(e) is Some && step < 2) || step + 1
            >= RESET_OPS {
            (
                WinState { task: WinTask::Idle, ..s },
                WinActionView::Configured(Err(rolled_back_message(s.failure))),
            )
        } else {
            (
                WinState { task: WinTask::Revert { step: (step + 1) as usize }, ..s },
                WinActionView::Registry(reset_op(step + 1)),
            )
        },
        WinTask::Announce { port, winhttp, stage } => if stage == 0 {
            (
                WinState { task: WinTask::Announce { port, winhttp, stage: 1 }, ..s },
                WinActionView::Background(seq![uwp_exemption_command()]),
            )
        } else if stage == 1 && winhttp {
            (
                WinState { task: WinTask::Announce { port, winhttp, stage: 2 }, ..s },
                WinActionView::Run(winhttp_set_command(port)),
            )
        } else {
            (
                WinState { task: WinTask::Idle, ..s },
                WinActionView::Configured(Ok(applied_result(port))),
            )
        },
        WinTask::Restore { step } => match s.original {
            Some(b) => if reported_error(e) is None && step + 1 < restore_op_count(b)
                && b.proxy_server is Some {
                (
                    WinState { task: WinTask::Restore { step: (step + 1) as usize }, ..s },
                    WinActionView::Registry(restore_op(b, step + 1)),
                )
            } else {
                cleanup_start(s)
            },
            None => cleanup_start(s),
        },
        WinTask::Reset { step } => if (reported_error(e) is Some && step < 2) || step + 1
            >= RESET_OPS {
            cleanup_start(s)
        } else {
            (
                WinState { task: WinTask::Reset { step: (step + 1) as usize }, ..s },
                WinActionView::Registry(reset_op(step + 1)),
            )
        },
        WinTask::Cleanup { stage } => if stage == 0 {
            (WinState { task: WinTask::Cleanup { stage: 1 }, ..s }, WinActionView::NotifyChange)
        } else if stage == 1 {
            (
                WinState { task: WinTask::Cleanup { stage: 2 }, ..s },
                WinActionView::Run(winhttp_reset_command()),
            )
        } else if stage == 2 {
            (
                WinState { task: WinTask::Cleanup { stage: 3 }, ..s },
                WinActionView::Background(firewall_commands(false, 0, 0)),
            )
        } else {
            (WinState { original: None, task: WinTask::Idle, ..s }, WinActionView::Cleared)
        },
    }
}


fn set_op_at(i: usize, port: u16) -> (op: RegistryOp)
    ensures
        op@ == set_op(i as int, port),
{
    if i == 0 {
        RegistryOp::OpenSettings
    } else if i == 1 {
        RegistryOp::SetString(RegistryValue::ProxyServer, proxy_address_string(port))
    } else if i == 2 {
        RegistryOp::SetDword(RegistryValue::ProxyEnable, 1)
    } else {
        RegistryOp::SetString(RegistryValue::ProxyOverride, proxy_override_value())
    }
}

fn set_error_prefix_at(i: usize) -> (s: &'static str)
    ensures
        s@ == set_error_prefix(i as int),
{
    if i == 0 {
        "Registry açılamadı: "
    } else if i == 1 {
        "ProxyServer: "
    } else if i == 2 {
        "ProxyEnable: "
    } else {
        "ProxyOverride: "
    }
}

fn reset_op_at(i: usize) -> (op: RegistryOp)
    ensures
        op@ == reset_op(i as int),
{
    if i == 0 {
        RegistryOp::OpenSettings
    } else if i == 1 {
        RegistryOp::SetDword(RegistryValue::ProxyEnable, 0)
    } else if i == 2 {
        RegistryOp::Delete(RegistryValue::ProxyServer)
    } else if i == 3 {
        RegistryOp::Delete(RegistryValue::ProxyOverride)
    } else {
        RegistryOp::Delete(RegistryValue::AutoConfigUrl)
    }
}

fn copy_text(o: &Option<String>) -> (r: String)
    requires
        o is Some,
    ensures
        r@ == o->0@,
{
    match o {
        Some(s) => s.clone(),
        None => String::new(),
    }
}

fn restore_op_at(b: &RegistryBackup, i: usize) -> (op: RegistryOp)
    requires
        b.proxy_server is Some,
        i >= 3 ==> b.proxy_override is Some,
    ensures
        op@ == restore_op(b@, i as int),
{
    if i == 0 {
        RegistryOp::OpenSettings
    } else if i == 1 {
        RegistryOp::SetString(RegistryValue::ProxyServer, copy_text(&b.proxy_server))
    } else if i == 2 {
        let enable = match b.proxy_enable {
            Some(e) => e,
            None => 0,
        };
        RegistryOp::SetDword(RegistryValue::ProxyEnable, enable)
    } else {
        RegistryOp::SetString(RegistryValue::ProxyOverride, copy_text(&b.proxy_override))
    }
}

fn event_error(e: WinEvent) -> (m: Option<String>)
    ensures
        opt_text(&m) == reported_error(e@),
{
    match e {
        WinEvent::Registry(Ok(())) => None,
        WinEvent::Registry(Err(m)) => Some(m),
        _ => Some(String::new()),
    }
}

fn event_original(e: WinEvent) -> (b: RegistryBackup)
    ensures
        b@ == reported_original(e@),
{
    match e {
        WinEvent::Original(b) => b,
        _ => RegistryBackup { proxy_enable: None, proxy_server: None, proxy_override: None },
    }
}

/// The Windows proxy integration: the settings saved before the proxy was
/// applied, and the operation under way.
pub struct WindowsProxy {
    original: Option<RegistryBackup>,
    failure: String,
    task: WinTask,
}

impl View for WindowsProxy {
    type V = WinState;

    closed spec fn view(&self) -> WinState {
        WinState {
            original: match self.original {
                Some(b) => Some(b@),
                None => None,
            },
            failure: self.failure@,
            task: self.task,
        }
    }
}

impl WindowsProxy {
    /// An integration with nothing saved and nothing under way.
    pub fn new() -> (p: WindowsProxy)
        ensures
            p@.original is None,
            p@.task == WinTask::Idle,
    {
        WindowsProxy { original: None, failure: String::new(), task: WinTask::Idle }
    }

    /// Whether an operation is under way.
    pub fn is_busy(&self) -> (b: bool)
        ensures
            b == (self@.task != WinTask::Idle),
    {
        match self.task {
            WinTask::Idle => false,
            _ => true,
        }
    }

    /// Starts pointing the system proxy of the current user at the local
    /// proxy on `port`, and, where `enable_winhttp`, the WinHTTP proxy too.
    /// The settings found are saved first, unless settings saved earlier have
    /// not been put back yet. Where the registry cannot be written the result
    /// is an error and nothing changes; where a write fails, the proxy is
    /// turned off again and the result is that error.
    pub fn set_system_proxy(&mut self, port: u16, enable_winhttp: bool) -> (a: WinAction)
        ensures
            (final(self)@, a@) == setup_start(old(self)@, port, enable_winhttp),
    {
        self.task = WinTask::Probe { port, winhttp: enable_winhttp };
        WinAction::CheckAccess
    }

    /// Starts clearing the system proxy: the saved settings are put back
    /// where they point at another proxy, otherwise the proxy is turned off;
    /// then the DNS cache is emptied, the system told, the WinHTTP proxy
    /// reset and the firewall rules removed, and the saved settings
    /// forgotten.
    pub fn clear_system_proxy(&mut self) -> (a: WinAction)
        ensures
            (final(self)@, a@) == clear_start(old(self)@),
    {
        let restore = match &self.original {
            Some(b) => is_restorable(b),
            None => false,
        };
        if restore {
            self.task = WinTask::Restore { step: 0 };
        } else {
            self.task = WinTask::Reset { step: 0 };
        }
        WinAction::Registry(RegistryOp::OpenSettings)
    }

    fn start_revert(&mut self, failure: String) -> (a: WinAction)
        ensures
            (final(self)@, a@) == revert_start(old(self)@, failure@),
    {
        self.failure = failure;
        self.task = WinTask::Revert { step: 0 };
        WinAction::Registry(reset_op_at(0))
    }

    fn start_cleanup(&mut self) -> (a: WinAction)
        ensures
            (final(self)@, a@) == cleanup_start(old(self)@),
    {
        self.task = WinTask::Cleanup { stage: 0 };
        let mut commands: Vec<CommandLine> = Vec::new();
        commands.push(flush_dns_command_line());
        assert(commands_view(commands@) =~= seq![flush_dns_command()]);
        WinAction::Background(commands)
    }

    /// Takes what the outside work of the last action produced, and returns
    /// the next action.
    pub fn resume(&mut self, event: WinEvent) -> (a: WinAction)
        ensures
            (final(self)@, a@) == next(old(self)@, event@),
    {
        match self.task {
            WinTask::Idle => WinAction::Nothing,
            WinTask::Probe { port, winhttp } => {
                let granted = match event {
                    WinEvent::Access(b) => b,
                    _ => false,
                };
                if granted {
                    self.task = WinTask::Snapshot { port, winhttp };
                    WinAction::ReadOriginal
                } else {
                    self.task = WinTask::Idle;
                    WinAction::Configured(
                        Err(
                            String::from_str(
                                "Registry yazma izni yok. Uygulamayı yönetici olarak çalıştırın.",
                            ),
                        ),
                    )
                }
            },
            WinTask::Snapshot { port, winhttp } => {
                let b = event_original(event);
                if self.original.is_none() {
                    self.original = Some(b);
                }
                self.task = WinTask::Apply { port, winhttp, step: 0 };
                WinAction::Registry(set_op_at(0, port))
            },
            WinTask::Apply { port, winhttp, step } => {
                match event_error(event) {
                    Some(m) => {
                        let mut failure = String::from_str(set_error_prefix_at(step));
                        failure.append(m.as_str());
                        self.start_revert(failure)
                    },
                    None => {
                        if step < SET_OPS - 1 {
                            self.task = WinTask::Apply { port, winhttp, step: step + 1 };
                            WinAction::Registry(set_op_at(step + 1, port))
                        } else {
                            self.task = WinTask::Announce { port, winhttp, stage: 0 };
                            WinAction::NotifyChange
                        }
                    },
                }
            },
            WinTask::Revert { step } => {
                let failed = event_error(event).is_some();
                if (failed && step < 2) || step >= RESET_OPS - 1 {
                    self.task = WinTask::Idle;
                    let mut m = String::from_str("Registry güncelleme başarısız, geri alındı: ");
                    m.append(self.failure.as_str());
                    WinAction::Configured(Err(m))
                } else {
                    self.task = WinTask::Revert { step: step + 1 };
                    WinAction::Registry(reset_op_at(step + 1))
                }
            },
            WinTask::Announce { port, winhttp, stage } => {
                if stage == 0 {
                    self.task = WinTask::Announce { port, winhttp, stage: 1 };
                    let mut commands: Vec<CommandLine> = Vec::new();
                    commands.push(uwp_exemption_command_line());
                    assert(commands_view(commands@) =~= seq![uwp_exemption_command()]);
                    WinAction::Background(commands)
                } else if stage == 1 && winhttp {
                    self.task = WinTask::Announce { port, winhttp, stage: 2 };
                    WinAction::Run(winhttp_set_command_line(port))
                } else {
                    self.task = WinTask::Idle;
                    WinAction::Configured(Ok(applied(port)))
                }
            },
            WinTask::Restore { step } => {
                let ok = event_error(event).is_none();
                match &self.original {
                    Some(b) => {
                        let count: usize = if b.proxy_override.is_some() {
                            4
                        } else {
                            3
                        };
                        if ok && step < count - 1 && b.proxy_server.is_some() {
                            let op = restore_op_at(b, step + 1);
                            self.task = WinTask::Restore { step: step + 1 };
                            WinAction::Registry(op)
                        } else {
                            self.start_cleanup()
                        }
                    },
                    None => self.start_cleanup(),
                }
            },
            WinTask::Reset { step } => {
                let failed = event_error(event).is_some();
                if (failed && step < 2) || step >= RESET_OPS - 1 {
                    self.start_cleanup()
                } else {
                    self.task = WinTask::Reset { step: step + 1 };
                    WinAction::Registry(reset_op_at(step + 1))
                }
            },
            WinTask::Cleanup { stage } => {
                if stage == 0 {
                    self.task = WinTask::Cleanup { stage: 1 };
                    WinAction::NotifyChange
                } else if stage == 1 {
                    self.task = WinTask::Cleanup { stage: 2 };
                    WinAction::Run(winhttp_reset_command_line())
                } else if stage == 2 {
                    self.task = WinTask::Cleanup { stage: 3 };
                    WinAction::Background(manage_firewall_rules(false, 0, 0))
                } else {
                    self.original = None;
                    self.task = WinTask::Idle;
                    WinAction::Cleared
                }
            },
        }
    }
}


/// Whether the action ends the operation under way.
pub open spec fn terminal(a: WinActionView) -> bool {
    a is Nothing || a is Configured || a is Cleared
}

/// Runs the integration from state `s` and pending action `a`, answering
/// each action with `env`, for at most `fuel` answers: the state reached and
/// every action issued, `a` first.
pub open spec fn drive(
    s: WinState,
    a: WinActionView,
    env: spec_fn(WinActionView) -> WinEventView,
    fuel: nat,
) -> (WinState, Seq<WinActionView>)
    decreases fuel,
{
    if fuel == 0 || terminal(a) {
        (s, seq![a])
    } else {
        let (t, b) = next(s, env(a));
        let (u, rest) = drive(t, b, env, (fuel - 1) as nat);
        (u, seq![a] + rest)
    }
}

/// A system where the registry can be written, every registry operation
/// succeeds, and `found` are the proxy settings read.
pub open spec fn agreeable(found: RegistryBackupView) -> spec_fn(WinActionView) -> WinEventView {
    |a: WinActionView|
        match a {
            WinActionView::CheckAccess => WinEventView::Access(true),
            WinActionView::ReadOriginal => WinEventView::Original(found),
            WinActionView::Registry(_) => WinEventView::Registry(Ok(())),
            _ => WinEventView::Done,
        }
}

/// Every action of a first setup of `port` where everything succeeds.
pub open spec fn full_setup_actions(port: u16, winhttp: bool) -> Seq<WinActionView> {
    seq![
        WinActionView::CheckAccess,
        WinActionView::ReadOriginal,
        WinActionView::Registry(RegistryOpView::OpenSettings),
        WinActionView::Registry(
            RegistryOpView::SetString(RegistryValue::ProxyServer, proxy_address(port)),
        ),
        WinActionView::Registry(RegistryOpView::SetDword(RegistryValue::ProxyEnable, 1)),
        WinActionView::Registry(
            RegistryOpView::SetString(RegistryValue::ProxyOverride, proxy_override()),
        ),
        WinActionView::NotifyChange,
        WinActionView::Background(seq![uwp_exemption_command()]),
    ] + (if winhttp {
        seq![WinActionView::Run(winhttp_set_command(port))]
    } else {
        Seq::empty()
    }) + seq![WinActionView::Configured(Ok(applied_result(port)))]
}

/// Whether `env` answers that every registry operation succeeds.
pub open spec fn registry_ok(env: spec_fn(WinActionView) -> WinEventView) -> bool {
    forall|op: RegistryOpView| #[trigger] env(WinActionView::Registry(op)) == WinEventView::Registry(
        Ok(()),
    )
}

/// The registry operations of applying the proxy from `j` on, where each
/// succeeds; then the system is told.
proof fn lemma_apply_run(
    s: WinState,
    port: u16,
    winhttp: bool,
    j: int,
    env: spec_fn(WinActionView) -> WinEventView,
    fuel: nat,
)
    requires
        0 <= j < SET_OPS,
        registry_ok(env),
        fuel >= SET_OPS - j,
        s.task == (WinTask::Apply { port, winhttp, step: j as usize }),
    ensures
        ({
            let u = WinState { task: WinTask::Announce { port, winhttp, stage: 0 }, ..s };
            let (v, rest) = drive(u, WinActionView::NotifyChange, env, (fuel - (SET_OPS - j)) as nat);
            drive(s, WinActionView::Registry(set_op(j, port)), env, fuel) == (v, Seq::new(
                (SET_OPS - j) as nat,
                |x: int| WinActionView::Registry(set_op(j + x, port)),
            ) + rest)
        }),
    decreases SET_OPS - j,
{
    let a = WinActionView::Registry(set_op(j, port));
    let (t, c) = next(s, env(a));
    let u = WinState { task: WinTask::Announce { port, winhttp, stage: 0 }, ..s };
    let n = (SET_OPS - j) as nat;
    if j + 1 == SET_OPS {
        assert((t, c) == (u, WinActionView::NotifyChange));
        let (v, rest) = drive(u, WinActionView::NotifyChange, env, (fuel - 1) as nat);
        assert(drive(s, a, env, fuel).1 =~= Seq::new(
            n,
            |x: int| WinActionView::Registry(set_op(j + x, port)),
        ) + rest);
    } else {
        lemma_apply_run(t, port, winhttp, j + 1, env, (fuel - 1) as nat);
        assert(WinState { task: WinTask::Announce { port, winhttp, stage: 0 }, ..t } == u);
        let (v, rest) = drive(u, WinActionView::NotifyChange, env, (fuel - n) as nat);
        assert(drive(s, a, env, fuel).1 =~= Seq::new(
            n,
            |x: int| WinActionView::Registry(set_op(j + x, port)),
        ) + rest);
    }
}

/// The steps that follow a successful registry update: the system is told,
/// the UWP apps exempted, the WinHTTP proxy set where asked to, and the setup
/// reported applied.
proof fn lemma_announce_run(
    s: WinState,
    port: u16,
    winhttp: bool,
    env: spec_fn(WinActionView) -> WinEventView,
    fuel: nat,
)
    requires
        fuel >= 3,
        s.task == (WinTask::Announce { port, winhttp, stage: 0 }),
    ensures
        drive(s, WinActionView::NotifyChange, env, fuel) == (
            WinState { task: WinTask::Idle, ..s },
            seq![
                WinActionView::NotifyChange,
                WinActionView::Background(seq![uwp_exemption_command()]),
            ] + (if winhttp {
                seq![WinActionView::Run(winhttp_set_command(port))]
            } else {
                Seq::empty()
            }) + seq![WinActionView::Configured(Ok(applied_result(port)))],
        ),
{
    let a0 = WinActionView::NotifyChange;
    let (s1, a1) = next(s, env(a0));
    let (s2, a2) = next(s1, env(a1));
    let end = WinActionView::Configured(Ok(applied_result(port)));
    if winhttp {
        let (s3, a3) = next(s2, env(a2));
        assert(a3 == end);
        assert(drive(s3, a3, env, (fuel - 3) as nat) == (s3, seq![a3]));
        assert(drive(s2, a2, env, (fuel - 2) as nat) == (s3, seq![a2] + seq![a3]));
        assert(drive(s1, a1, env, (fuel - 1) as nat) == (s3, seq![a1] + (seq![a2] + seq![a3])));
        assert(drive(s, a0, env, fuel) == (s3, seq![a0] + (seq![a1] + (seq![a2] + seq![a3]))));
        assert(s3 == WinState { task: WinTask::Idle, ..s });
        assert(drive(s, a0, env, fuel).1 =~= seq![a0, a1, a2, a3]);
    } else {
        assert(a2 == end);
        assert(drive(s2, a2, env, (fuel - 2) as nat) == (s2, seq![a2]));
        assert(drive(s1, a1, env, (fuel - 1) as nat) == (s2, seq![a1] + seq![a2]));
        assert(drive(s, a0, env, fuel) == (s2, seq![a0] + (seq![a1] + seq![a2])));
        assert(s2 == WinState { task: WinTask::Idle, ..s });
        assert(drive(s, a0, env, fuel).1 =~= seq![a0, a1] + Seq::<WinActionView>::empty()
            + seq![a2]);
    }
}

/// The cleanup that ends every clear, whatever is answered.
proof fn lemma_cleanup_run(s: WinState, env: spec_fn(WinActionView) -> WinEventView, fuel: nat)
    requires
        fuel >= 4,
    ensures
        ({
            let (c0, b0) = cleanup_start(s);
            drive(c0, b0, env, fuel) == (
                WinState { original: None, task: WinTask::Idle, ..s },
                cleanup_actions(),
            )
        }),
{
    let (c0, b0) = cleanup_start(s);
    let (c1, b1) = next(c0, env(b0));
    let (c2, b2) = next(c1, env(b1));
    let (c3, b3) = next(c2, env(b2));
    let (c4, b4) = next(c3, env(b3));
    assert(b4 == WinActionView::Cleared);
    assert(drive(c4, b4, env, (fuel - 4) as nat) == (c4, seq![b4]));
    assert(drive(c3, b3, env, (fuel - 3) as nat) == (c4, seq![b3] + seq![b4]));
    assert(drive(c2, b2, env, (fuel - 2) as nat) == (c4, seq![b2] + (seq![b3] + seq![b4])));
    assert(drive(c1, b1, env, (fuel - 1) as nat) == (c4, seq![b1] + (seq![b2] + (seq![b3]
        + seq![b4]))));
    assert(drive(c0, b0, env, fuel) == (c4, seq![b0] + (seq![b1] + (seq![b2] + (seq![b3]
        + seq![b4])))));
    assert(c4 == WinState { original: None, task: WinTask::Idle, ..s });
    assert(drive(c0, b0, env, fuel).1 =~= cleanup_actions());
}

/// The registry operations that turn the proxy off from `j` on, where each
/// succeeds; then the cleanup.
proof fn lemma_reset_run(s: WinState, j: int, env: spec_fn(WinActionView) -> WinEventView, fuel: nat)
    requires
        0 <= j < RESET_OPS,
        registry_ok(env),
        fuel >= RESET_OPS - j,
        s.task == (WinTask::Reset { step: j as usize }),
    ensures
        ({
            let (c0, b0) = cleanup_start(s);
            let (v, rest) = drive(c0, b0, env, (fuel - (RESET_OPS - j)) as nat);
            drive(s, WinActionView::Registry(reset_op(j)), env, fuel) == (v, reset_actions().subrange(
                j,
                RESET_OPS as int,
            ) + rest)
        }),
    decreases RESET_OPS - j,
{
    let a = WinActionView::Registry(reset_op(j));
    let (t, c) = next(s, env(a));
    let (c0, b0) = cleanup_start(s);
    if j + 1 == RESET_OPS {
        assert((t, c) == (c0, b0));
        let (v, rest) = drive(c0, b0, env, (fuel - 1) as nat);
        assert(drive(s, a, env, fuel).1 =~= reset_actions().subrange(j, RESET_OPS as int) + rest);
    } else {
        lemma_reset_run(t, j + 1, env, (fuel - 1) as nat);
        assert(cleanup_start(t) == (c0, b0));
        let (v, rest) = drive(c0, b0, env, (fuel - (RESET_OPS - j)) as nat);
        assert(drive(s, a, env, fuel).1 =~= reset_actions().subrange(j, RESET_OPS as int) + rest);
    }
}

/// The registry operations that put back the saved settings `b` from `j`
/// on, where each succeeds; then the cleanup.
proof fn lemma_restore_run(
    s: WinState,
    b: RegistryBackupView,
    j: int,
    env: spec_fn(WinActionView) -> WinEventView,
    fuel: nat,
)
    requires
        0 <= j < restore_op_count(b),
        s.original == Some(b),
        b.proxy_server is Some,
        registry_ok(env),
        fuel >= restore_op_count(b) - j,
        s.task == (WinTask::Restore { step: j as usize }),
    ensures
        ({
            let n = restore_op_count(b);
            let (c0, b0) = cleanup_start(s);
            let (v, rest) = drive(c0, b0, env, (fuel - (n - j)) as nat);
            drive(s, WinActionView::Registry(restore_op(b, j)), env, fuel) == (v, restore_actions(
                b,
            ).subrange(j, n) + rest)
        }),
    decreases restore_op_count(b) - j,
{
    let n = restore_op_count(b);
    let a = WinActionView::Registry(restore_op(b, j));
    let (t, c) = next(s, env(a));
    let (c0, b0) = cleanup_start(s);
    assert(restore_actions(b).len() == n);
    if j + 1 == n {
        assert((t, c) == (c0, b0));
        let (v, rest) = drive(c0, b0, env, (fuel - 1) as nat);
        assert(drive(s, a, env, fuel).1 =~= restore_actions(b).subrange(j, n) + rest);
    } else {
        lemma_restore_run(t, b, j + 1, env, (fuel - 1) as nat);
        assert(cleanup_start(t) == (c0, b0));
        let (v, rest) = drive(c0, b0, env, (fuel - (n - j)) as nat);
        assert(drive(s, a, env, fuel).1 =~= restore_actions(b).subrange(j, n) + rest);
    }
}

/// Where the registry can be written and every write succeeds, a setup
/// saves the settings it found where none are saved (and keeps those saved
/// otherwise), points the system proxy at the local
/// address and `port` with the bypass list, tells the system, exempts the UWP
/// apps, sets the WinHTTP proxy where asked to, and reports an automatic
/// setup.
pub proof fn lemma_setup_applies_settings(s: WinState, port: u16, winhttp: bool, found: RegistryBackupView)
    ensures
        ({
            let (s0, a0) = setup_start(s, port, winhttp);
            let (t, actions) = drive(s0, a0, agreeable(found), 20);
            &&& t.task == WinTask::Idle
            &&& t.original == Some(
                match s.original {
                    Some(o) => o,
                    None => found,
                },
            )
            &&& actions == full_setup_actions(port, winhttp)
        }),
{
    let env = agreeable(found);
    let (s0, a0) = setup_start(s, port, winhttp);
    let (s1, a1) = next(s0, env(a0));
    let (s2, a2) = next(s1, env(a1));
    assert(a2 == WinActionView::Registry(set_op(0, port)));
    lemma_apply_run(s2, port, winhttp, 0, env, 18);
    let u = WinState { task: WinTask::Announce { port, winhttp, stage: 0 }, ..s2 };
    lemma_announce_run(u, port, winhttp, env, 14);
    let ops = Seq::new(4, |x: int| WinActionView::Registry(set_op(0 + x, port)));
    let (v, rest) = drive(u, WinActionView::NotifyChange, env, 14);
    assert(drive(s1, a1, env, 19) == (v, seq![a1] + (ops + rest)));
    assert(drive(s0, a0, env, 20) == (v, seq![a0] + (seq![a1] + (ops + rest))));
    assert(drive(s0, a0, env, 20).1 =~= full_setup_actions(port, winhttp));
}

/// The cleanup actions that end every clear.
pub open spec fn cleanup_actions() -> Seq<WinActionView> {
    seq![
        WinActionView::Background(seq![flush_dns_command()]),
        WinActionView::NotifyChange,
        WinActionView::Run(winhttp_reset_command()),
        WinActionView::Background(firewall_commands(false, 0, 0)),
        WinActionView::Cleared,
    ]
}

/// The registry actions that put back the saved settings `b`.
pub open spec fn restore_actions(b: RegistryBackupView) -> Seq<WinActionView> {
    seq![
        WinActionView::Registry(restore_op(b, 0)),
        WinActionView::Registry(restore_op(b, 1)),
        WinActionView::Registry(restore_op(b, 2)),
    ] + (if b.proxy_override is Some {
        seq![WinActionView::Registry(restore_op(b, 3))]
    } else {
        Seq::empty()
    })
}

/// The registry actions that turn the proxy off.
pub open spec fn reset_actions() -> Seq<WinActionView> {
    seq![
        WinActionView::Registry(reset_op(0)),
        WinActionView::Registry(reset_op(1)),
        WinActionView::Registry(reset_op(2)),
        WinActionView::Registry(reset_op(3)),
        WinActionView::Registry(reset_op(4)),
    ]
}

/// Clearing the proxy where the saved settings point at another proxy puts
/// that proxy back: its server, its enable flag (0 where none was saved),
/// and its bypass list where one was saved; then the DNS cache is emptied,
/// the system told, the WinHTTP proxy reset, the firewall rules removed, and
/// the saved settings forgotten.
pub proof fn lemma_clear_restores_other_proxy(s: WinState, b: RegistryBackupView, found: RegistryBackupView)
    requires
        s.original == Some(b),
        restorable(b),
    ensures
        ({
            let (s0, a0) = clear_start(s);
            let (t, actions) = drive(s0, a0, agreeable(found), 20);
            &&& t.task == WinTask::Idle
            &&& t.original is None
            &&& actions == restore_actions(b) + cleanup_actions()
        }),
{
    let env = agreeable(found);
    let n = restore_op_count(b);
    let (s0, a0) = clear_start(s);
    assert(a0 == WinActionView::Registry(restore_op(b, 0)));
    lemma_restore_run(s0, b, 0, env, 20);
    lemma_cleanup_run(s0, env, (20 - n) as nat);
    assert(restore_actions(b).subrange(0, n) =~= restore_actions(b));
}

/// Clearing the proxy where no saved settings point at another proxy turns
/// the proxy off: it is disabled, and the server, the bypass list and the
/// automatic configuration script are deleted; then the cleanup of every
/// clear follows.
pub proof fn lemma_clear_turns_proxy_off(s: WinState, found: RegistryBackupView)
    requires
        !(s.original matches Some(b) && restorable(b)),
    ensures
        ({
            let (s0, a0) = clear_start(s);
            let (t, actions) = drive(s0, a0, agreeable(found), 20);
            &&& t.task == WinTask::Idle
            &&& t.original is None
            &&& actions == reset_actions() + cleanup_actions()
        }),
{
    let env = agreeable(found);
    let (s0, a0) = clear_start(s);
    assert(a0 == WinActionView::Registry(reset_op(0)));
    lemma_reset_run(s0, 0, env, 20);
    lemma_cleanup_run(s0, env, 15);
    assert(reset_actions().subrange(0, RESET_OPS as int) =~= reset_actions());
}

/// Clearing after a first setup that found another proxy puts that proxy
/// back.
pub proof fn lemma_clear_undoes_setup(s: WinState, port: u16, winhttp: bool, found: RegistryBackupView)
    requires
        s.original is None,
        restorable(found),
    ensures
        ({
            let env = agreeable(found);
            let (s0, a0) = setup_start(s, port, winhttp);
            let (t, _) = drive(s0, a0, env, 20);
            let (c0, b0) = clear_start(t);
            let (u, actions) = drive(c0, b0, env, 20);
            &&& u.original is None
            &&& actions == restore_actions(found) + cleanup_actions()
        }),
{
    lemma_setup_applies_settings(s, port, winhttp, found);
    let env = agreeable(found);
    let (s0, a0) = setup_start(s, port, winhttp);
    let (t, _) = drive(s0, a0, env, 20);
    lemma_clear_restores_other_proxy(t, found, found);
}

/// A second setup keeps the settings saved by the first: after two setups
/// where everything succeeds, whatever the registry holds at the second, a
/// clear acts on the settings found before the first, putting back another
/// proxy found then or else turning the proxy off.
pub proof fn lemma_two_setups_then_clear(
    s: WinState,
    first: (u16, bool),
    second: (u16, bool),
    found: RegistryBackupView,
    later: RegistryBackupView,
)
    requires
        s.original is None,
    ensures
        ({
            let (s0, a0) = setup_start(s, first.0, first.1);
            let (t1, _) = drive(s0, a0, agreeable(found), 20);
            let (s1, a1) = setup_start(t1, second.0, second.1);
            let (t2, _) = drive(s1, a1, agreeable(later), 20);
            let (c0, b0) = clear_start(t2);
            let (u, actions) = drive(c0, b0, agreeable(later), 20);
            &&& u.task == WinTask::Idle
            &&& u.original is None
            &&& actions == (if restorable(found) {
                restore_actions(found)
            } else {
                reset_actions()
            }) + cleanup_actions()
        }),
{
    lemma_setup_applies_settings(s, first.0, first.1, found);
    let (s0, a0) = setup_start(s, first.0, first.1);
    let (t1, _) = drive(s0, a0, agreeable(found), 20);
    lemma_setup_applies_settings(t1, second.0, second.1, later);
    let (s1, a1) = setup_start(t1, second.0, second.1);
    let (t2, _) = drive(s1, a1, agreeable(later), 20);
    assert(t2.original == Some(found));
    if restorable(found) {
        lemma_clear_restores_other_proxy(t2, found, later);
    } else {
        lemma_clear_turns_proxy_off(t2, later);
    }
}

/// Where the registry cannot be written, a setup changes nothing and reports
/// the error.
pub proof fn lemma_setup_denied(s: WinState, port: u16, winhttp: bool, e: WinEventView)
    requires
        e != WinEventView::Access(true),
    ensures
        next(setup_start(s, port, winhttp).0, e) == (
            WinState { task: WinTask::Idle, ..s },
            WinActionView::Configured(Err(access_denied_message())),
        ),
{
}

/// The saved settings are never replaced: they are taken only when none are
/// saved, and forgotten only at the end of a clear.
pub proof fn lemma_original_kept(s: WinState, e: WinEventView)
    ensures
        ({
            let (t, a) = next(s, e);
            &&& s.original is Some ==> (t.original == s.original || (t.original is None && a
                == WinActionView::Cleared))
            &&& (s.original is None && t.original is Some) ==> s.task is Snapshot
        }),
{
}


/// A system like [`agreeable`], except that the registry operation `op`
/// fails with the error `m`.
pub open spec fn failing(found: RegistryBackupView, op: RegistryOpView, m: Seq<char>) -> spec_fn(
    WinActionView,
) -> WinEventView {
    |a: WinActionView|
        match a {
            WinActionView::Registry(o) => WinEventView::Registry(
                if o == op {
                    Err(m)
                } else {
                    Ok(())
                },
            ),
            _ => agreeable(found)(a),
        }
}

/// Every action of a first setup of `port` where registry operation `i` of
/// applying the proxy fails with `m`: the operations up to `i`, then those
/// that turn the proxy off (only the first, where it fails too), then the
/// error.
pub open spec fn failed_setup_actions(port: u16, i: int, m: Seq<char>) -> Seq<WinActionView> {
    seq![WinActionView::CheckAccess, WinActionView::ReadOriginal] + Seq::new(
        (i + 1) as nat,
        |j: int| WinActionView::Registry(set_op(j, port)),
    ) + (if i == 0 {
        seq![WinActionView::Registry(reset_op(0))]
    } else {
        reset_actions()
    }) + seq![
        WinActionView::Configured(Err(rolled_back_message(set_error_prefix(i) + m))),
    ]
}

/// The registry operations of applying the proxy from `j` up to the failing
/// operation `i` are issued in order; then the proxy is turned off again.
proof fn lemma_apply_until_failure(
    s: WinState,
    port: u16,
    winhttp: bool,
    found: RegistryBackupView,
    j: int,
    i: int,
    m: Seq<char>,
    fuel: nat,
)
    requires
        0 <= j <= i < SET_OPS,
        fuel >= i - j + 1,
        s.task == (WinTask::Apply { port, winhttp, step: j as usize }),
    ensures
        ({
            let env = failing(found, set_op(i, port), m);
            let (r, b) = revert_start(s, set_error_prefix(i) + m);
            let (v, rest) = drive(r, b, env, (fuel - (i - j + 1)) as nat);
            drive(s, WinActionView::Registry(set_op(j, port)), env, fuel) == (v, Seq::new(
                (i - j + 1) as nat,
                |x: int| WinActionView::Registry(set_op(j + x, port)),
            ) + rest)
        }),
    decreases i - j,
{
    let env = failing(found, set_op(i, port), m);
    let a = WinActionView::Registry(set_op(j, port));
    let (r, b) = revert_start(s, set_error_prefix(i) + m);
    let (t, c) = next(s, env(a));
    if j == i {
        assert((t, c) == (r, b));
        let (v, rest) = drive(r, b, env, (fuel - 1) as nat);
        assert(drive(s, a, env, fuel).1 =~= Seq::new(
            1,
            |x: int| WinActionView::Registry(set_op(j + x, port)),
        ) + rest);
    } else {
        assert(set_op(j, port) != set_op(i, port));
        lemma_apply_until_failure(t, port, winhttp, found, j + 1, i, m, (fuel - 1) as nat);
        assert(revert_start(t, set_error_prefix(i) + m) == (r, b));
        let (v, rest) = drive(r, b, env, (fuel - (i - j + 1)) as nat);
        assert(drive(s, a, env, fuel).1 =~= Seq::new(
            (i - j + 1) as nat,
            |x: int| WinActionView::Registry(set_op(j + x, port)),
        ) + rest);
    }
}

/// Turning the proxy off again after a setup whose operation `i` failed: the
/// first operation, opening the key, fails too where it is the one that
/// failed; otherwise every operation is done. Then the error is reported.
proof fn lemma_revert_run(
    s: WinState,
    port: u16,
    found: RegistryBackupView,
    i: int,
    f: Seq<char>,
    m: Seq<char>,
    fuel: nat,
)
    requires
        0 <= i < SET_OPS,
        fuel >= RESET_OPS,
    ensures
        ({
            let env = failing(found, set_op(i, port), m);
            let (r, b) = revert_start(s, f);
            let (t, actions) = drive(r, b, env, fuel);
            &&& t == WinState { failure: f, task: WinTask::Idle, ..s }
            &&& actions == (if i == 0 {
                seq![WinActionView::Registry(reset_op(0))]
            } else {
                reset_actions()
            }) + seq![WinActionView::Configured(Err(rolled_back_message(f)))]
        }),
{
    let env = failing(found, set_op(i, port), m);
    let (r0, b0) = revert_start(s, f);
    let end = WinActionView::Configured(Err(rolled_back_message(f)));
    let (r1, b1) = next(r0, env(b0));
    if i == 0 {
        assert(b1 == end);
        assert(drive(r1, b1, env, (fuel - 1) as nat) == (r1, seq![end]));
        assert(drive(r0, b0, env, fuel).1 =~= seq![b0, end]);
        assert(r1 == WinState { failure: f, task: WinTask::Idle, ..s });
    } else {
        let (r2, b2) = next(r1, env(b1));
        let (r3, b3) = next(r2, env(b2));
        let (r4, b4) = next(r3, env(b3));
        let (r5, b5) = next(r4, env(b4));
        assert(b5 == end);
        assert(r5 == WinState { failure: f, task: WinTask::Idle, ..s });
        assert(drive(r5, b5, env, (fuel - 5) as nat) == (r5, seq![end]));
        assert(drive(r4, b4, env, (fuel - 4) as nat).1 =~= seq![b4, end]);
        assert(drive(r3, b3, env, (fuel - 3) as nat).1 =~= seq![b3, b4, end]);
        assert(drive(r2, b2, env, (fuel - 2) as nat).1 =~= seq![b2, b3, b4, end]);
        assert(drive(r1, b1, env, (fuel - 1) as nat).1 =~= seq![b1, b2, b3, b4, end]);
        assert(drive(r0, b0, env, fuel).1 =~= reset_actions() + seq![end]);
    }
}

/// Where a registry operation of applying the proxy fails, a first setup
/// turns the proxy off again and reports that operation's error; the
/// settings it found stay saved.
pub proof fn lemma_setup_failure_rolls_back(
    s: WinState,
    port: u16,
    winhttp: bool,
    found: RegistryBackupView,
    i: int,
    m: Seq<char>,
)
    requires
        s.original is None,
        0 <= i < SET_OPS,
    ensures
        ({
            let (s0, a0) = setup_start(s, port, winhttp);
            let (t, actions) = drive(s0, a0, failing(found, set_op(i, port), m), 20);
            &&& t.task == WinTask::Idle
            &&& t.original == Some(found)
            &&& actions == failed_setup_actions(port, i, m)
        }),
{
    let env = failing(found, set_op(i, port), m);
    let f = set_error_prefix(i) + m;
    let (s0, a0) = setup_start(s, port, winhttp);
    let (s1, a1) = next(s0, env(a0));
    let (s2, a2) = next(s1, env(a1));
    assert(a2 == WinActionView::Registry(set_op(0, port)));
    assert(s2.original == Some(found));
    lemma_apply_until_failure(s2, port, winhttp, found, 0, i, m, 18);
    let (r, b) = revert_start(s2, f);
    lemma_revert_run(s2, port, found, i, f, m, (18 - (i + 1)) as nat);
    let (v, rest) = drive(r, b, env, (18 - (i + 1)) as nat);
    let ops = Seq::new((i + 1) as nat, |x: int| WinActionView::Registry(set_op(0 + x, port)));
    assert(drive(s1, a1, env, 19) == (v, seq![a1] + (ops + rest)));
    assert(drive(s0, a0, env, 20) == (v, seq![a0] + (seq![a1] + (ops + rest))));
    assert(ops =~= Seq::new((i + 1) as nat, |j: int| WinActionView::Registry(set_op(j, port))));
    assert(drive(s0, a0, env, 20).1 =~= failed_setup_actions(port, i, m));
}


/// The port of the setup under way, if a setup is under way.
pub open spec fn setup_port(t: WinTask) -> Option<u16> {
    match t {
        WinTask::Probe { port, .. } => Some(port),
        WinTask::Snapshot { port, .. } => Some(port),
        WinTask::Apply { port, .. } => Some(port),
        WinTask::Announce { port, .. } => Some(port),
        _ => None,
    }
}

/// A successful setup reports the Windows platform, the local address and
/// the port it was asked for, applied automatically; a clear never reports a
/// setup result, and a setup never reports a clear.
pub proof fn lemma_results_name_the_proxy(s: WinState, e: WinEventView)
    ensures
        ({
            let (t, a) = next(s, e);
            &&& a matches WinActionView::Configured(Ok(r)) ==> setup_port(s.task) == Some(r.port)
                && r == applied_result(r.port)
            &&& a is Cleared ==> s.task is Cleanup
        }),
{
}


/// Whether a setup is under way, turning the proxy off again included.
pub open spec fn setting_up(t: WinTask) -> bool {
    setup_port(t) is Some || t is Revert
}

/// Whether a clear is under way.
pub open spec fn clearing(t: WinTask) -> bool {
    t is Restore || t is Reset || t is Cleanup
}

/// A bound on the answers the operation under way in `s` awaits: it reaches
/// a final action after at most one answer more than this.
pub open spec fn answers_left(s: WinState) -> nat {
    match s.task {
        WinTask::Idle => 0,
        WinTask::Probe { .. } => 10,
        WinTask::Snapshot { .. } => 9,
        WinTask::Apply { step, .. } => if step >= 3 {
            5
        } else {
            (8 - step) as nat
        },
        WinTask::Revert { step } => if step >= 4 {
            0
        } else {
            (4 - step) as nat
        },
        WinTask::Announce { stage, .. } => if stage >= 2 {
            0
        } else {
            (2 - stage) as nat
        },
        WinTask::Restore { step } => if step >= 3 {
            4
        } else {
            (7 - step) as nat
        },
        WinTask::Reset { step } => if step >= 4 {
            4
        } else {
            (8 - step) as nat
        },
        WinTask::Cleanup { stage } => if stage >= 3 {
            0
        } else {
            (3 - stage) as nat
        },
    }
}

/// Each answer brings the operation under way nearer its end: what follows
/// is a final action, which leaves nothing under way, or a state with fewer
/// answers left. A setup ends with a setup result, a clear with the proxy
/// cleared.
pub proof fn lemma_answers_decrease(s: WinState, e: WinEventView)
    ensures
        ({
            let (t, a) = next(s, e);
            &&& terminal(a) ==> t.task == WinTask::Idle
            &&& terminal(a) || answers_left(t) < answers_left(s)
            &&& setting_up(s.task) ==> if terminal(a) {
                a is Configured
            } else {
                setting_up(t.task)
            }
            &&& clearing(s.task) ==> if terminal(a) {
                a is Cleared
            } else {
                clearing(t.task)
            }
        }),
{
}

/// Running from state `s` and its pending action `a` reaches a final action
/// where fewer answers are left than `fuel`; a setup's is a setup result,
/// a clear's says the proxy is cleared.
pub proof fn lemma_drive_ends(
    s: WinState,
    a: WinActionView,
    env: spec_fn(WinActionView) -> WinEventView,
    fuel: nat,
)
    requires
        terminal(a) ==> s.task == WinTask::Idle,
        terminal(a) || answers_left(s) < fuel,
    ensures
        ({
            let (t, actions) = drive(s, a, env, fuel);
            &&& t.task == WinTask::Idle
            &&& terminal(actions.last())
            &&& (setting_up(s.task) && !terminal(a)) ==> actions.last() is Configured
            &&& (clearing(s.task) && !terminal(a)) ==> actions.last() is Cleared
        }),
    decreases fuel,
{
    if !terminal(a) {
        let (t, b) = next(s, env(a));
        lemma_answers_decrease(s, env(a));
        lemma_drive_ends(t, b, env, (fuel - 1) as nat);
        let (u, rest) = drive(t, b, env, (fuel - 1) as nat);
        assert((seq![a] + rest).last() == rest.last());
    }
}

/// Whatever the system answers, a setup ends within 11 answers with a setup
/// result, and a clear within 9 with the proxy cleared; either way nothing
/// is left under way.
pub proof fn lemma_operations_end(
    s: WinState,
    port: u16,
    winhttp: bool,
    env: spec_fn(WinActionView) -> WinEventView,
)
    ensures
        ({
            let (s0, a0) = setup_start(s, port, winhttp);
            let (t, actions) = drive(s0, a0, env, 11);
            &&& t.task == WinTask::Idle
            &&& actions.last() is Configured
        }),
        ({
            let (c0, b0) = clear_start(s);
            let (u, actions) = drive(c0, b0, env, 9);
            &&& u.task == WinTask::Idle
            &&& actions.last() is Cleared
        }),
{
    let (s0, a0) = setup_start(s, port, winhttp);
    lemma_drive_ends(s0, a0, env, 11);
    let (c0, b0) = clear_start(s);
    lemma_drive_ends(c0, b0, env, 9);
}


/// Whether a saved clear puts back another proxy depends on its server
/// alone: the saved enable flag, on or off, plays no part.
pub proof fn lemma_restorable_ignores_enable_flag(b: RegistryBackupView, enable: Option<u32>)
    ensures
        restorable(b) == restorable(RegistryBackupView { proxy_enable: enable, ..b }),
{
}

/// Clearing the proxy where the saved server is another proxy (not empty,
/// not an address of the local proxy) puts it back, whatever the saved
/// enable flag: the key is opened, the saved server written, the saved
/// enable flag written as it was (0 where none was saved), and the saved
/// bypass list written where one was saved.
pub proof fn lemma_clear_writes_back_saved_values(
    s: WinState,
    b: RegistryBackupView,
    server: Seq<char>,
    found: RegistryBackupView,
)
    requires
        s.original == Some(b),
        b.proxy_server == Some(server),
        server.len() > 0,
        !"127.0.0.1:"@.is_prefix_of(server),
    ensures
        ({
            let (s0, a0) = clear_start(s);
            let (t, actions) = drive(s0, a0, agreeable(found), 20);
            &&& t.original is None
            &&& actions[0] == WinActionView::Registry(RegistryOpView::OpenSettings)
            &&& actions[1] == WinActionView::Registry(
                RegistryOpView::SetString(RegistryValue::ProxyServer, server),
            )
            &&& actions[2] == WinActionView::Registry(
                RegistryOpView::SetDword(
                    RegistryValue::ProxyEnable,
                    match b.proxy_enable {
                        Some(e) => e,
                        None => 0u32,
                    },
                ),
            )
            &&& (b.proxy_override matches Some(o) ==> actions[3] == WinActionView::Registry(
                RegistryOpView::SetString(RegistryValue::ProxyOverride, o),
            ))
            &&& actions.last() == WinActionView::Cleared
        }),
{
    reveal_strlit("127.0.0.1:");
    if server.len() >= 10 && server.subrange(0, 10) == "127.0.0.1:"@ {
        assert("127.0.0.1:"@ =~= server.subrange(0, "127.0.0.1:"@.len() as int));
    }
    assert(restorable(b));
    lemma_clear_restores_other_proxy(s, b, found);
    let (s0, a0) = clear_start(s);
    let (t, actions) = drive(s0, a0, agreeable(found), 20);
    assert(actions == restore_actions(b) + cleanup_actions());
    assert(actions[1] == restore_actions(b)[1]);
    assert(actions[2] == restore_actions(b)[2]);
    if b.proxy_override is Some {
        assert(actions[3] == restore_actions(b)[3]);
    }
}

/// The firewall commands, whatever is asked: the proxy's rule and the PAC
/// server's rule are both deleted first, in that order; where enabled, the
/// two rules are then added back, each letting in TCP connections to its own
/// port; nothing else is run.
pub proof fn lemma_firewall_rules(enable: bool, proxy_port: u16, pac_port: u16)
    ensures
        ({
            let c = firewall_commands(enable, proxy_port, pac_port);
            let delete = |rule: Seq<char>|
                CommandView {
                    program: "netsh"@,
                    args: seq!["advfirewall"@, "firewall"@, "delete"@, "rule"@, rule],
                };
            let allow = |rule: Seq<char>, port: u16|
                CommandView {
                    program: "netsh"@,
                    args: seq![
                        "advfirewall"@,
                        "firewall"@,
                        "add"@,
                        "rule"@,
                        rule,
                        "dir=in"@,
                        "action=allow"@,
                        "protocol=TCP"@,
                        "localport="@ + decimal(port as nat),
                    ],
                };
            &&& c.len() == if enable {
                4int
            } else {
                2int
            }
            &&& c[0] == delete("name=BypaxDPI_Proxy"@)
            &&& c[1] == delete("name=BypaxDPI_PAC"@)
            &&& enable ==> c[2] == allow("name=BypaxDPI_Proxy"@, proxy_port)
            &&& enable ==> c[3] == allow("name=BypaxDPI_PAC"@, pac_port)
        }),
{
}

/// The bypass list written with the proxy keeps every private network off
/// the proxy: the local names, 10.*, 172.16.* to 172.31.* and 192.168.* are
/// entries of it; it is the fixed list of hosts below, in this order, joined
/// with `;`.
pub proof fn lemma_bypass_list_keeps_local_networks()
    ensures
        proxy_override() == join(proxy_bypass_hosts(), ";"@),
        proxy_bypass_hosts().contains("<local>"@),
        proxy_bypass_hosts().contains("10.*"@),
        proxy_bypass_hosts().contains("172.16.*"@),
        proxy_bypass_hosts().contains("172.17.*"@),
        proxy_bypass_hosts().contains("172.18.*"@),
        proxy_bypass_hosts().contains("172.19.*"@),
        proxy_bypass_hosts().contains("172.20.*"@),
        proxy_bypass_hosts().contains("172.21.*"@),
        proxy_bypass_hosts().contains("172.22.*"@),
        proxy_bypass_hosts().contains("172.23.*"@),
        proxy_bypass_hosts().contains("172.24.*"@),
        proxy_bypass_hosts().contains("172.25.*"@),
        proxy_bypass_hosts().contains("172.26.*"@),
        proxy_bypass_hosts().contains("172.27.*"@),
        proxy_bypass_hosts().contains("172.28.*"@),
        proxy_bypass_hosts().contains("172.29.*"@),
        proxy_bypass_hosts().contains("172.30.*"@),
        proxy_bypass_hosts().contains("172.31.*"@),
        proxy_bypass_hosts().contains("192.168.*"@),
        ({
            let h = proxy_bypass_hosts();
            &&& h.len() == 54
            &&& h[0] == "<local>"@
            &&& h[1] == "10.*"@
            &&& h[2] == "172.16.*"@
            &&& h[3] == "172.17.*"@
            &&& h[4] == "172.18.*"@
            &&& h[5] == "172.19.*"@
            &&& h[6] == "172.20.*"@
            &&& h[7] == "172.21.*"@
            &&& h[8] == "172.22.*"@
            &&& h[9] == "172.23.*"@
            &&& h[10] == "172.24.*"@
            &&& h[11] == "172.25.*"@
            &&& h[12] == "172.26.*"@
            &&& h[13] == "172.27.*"@
            &&& h[14] == "172.28.*"@
            &&& h[15] == "172.29.*"@
            &&& h[16] == "172.30.*"@
            &&& h[17] == "172.31.*"@
            &&& h[18] == "192.168.*"@
            &&& h[19] == "*.msftconnecttest.com"@
            &&& h[20] == "*.msftncsi.com"@
            &&& h[21] == "dns.msn.com"@
            &&& h[22] == "ipv6.msftconnecttest.com"@
            &&& h[23] == "connectivitycheck.gstatic.com"@
            &&& h[24] == "connectivitycheck.android.com"@
            &&& h[25] == "clients3.google.com"@
            &&& h[26] == "play.googleapis.com"@
            &&& h[27] == "captive.apple.com"@
            &&& h[28] == "gsp1.apple.com"@
            &&& h[29] == "connectivitycheck.samsung.com"@
            &&& h[30] == "*.windowsupdate.com"@
            &&& h[31] == "*.delivery.mp.microsoft.com"@
            &&& h[32] == "*.steamcontent.com"@
            &&& h[33] == "*.steamstatic.com"@
            &&& h[34] == "clientconfig.akamai.steamstatic.com"@
            &&& h[35] == "*.cm.steampowered.com"@
            &&& h[36] == "*.epicgames.com"@
            &&& h[37] == "*.unrealengine.com"@
            &&& h[38] == "download.epicgames.com"@
            &&& h[39] == "launcher-public-service-prod06.ol.epicgames.com"@
            &&& h[40] == "*.riotgames.com"@
            &&& h[41] == "*.leagueoflegends.com"@
            &&& h[42] == "riotgames-update.akamaized.net"@
            &&& h[43] == "*.ea.com"@
            &&& h[44] == "*.origin.com"@
            &&& h[45] == "*.blizzard.com"@
            &&& h[46] == "*.battle.net"@
            &&& h[47] == "blzddist1-a.akamaihd.net"@
            &&& h[48] == "*.ubisoft.com"@
            &&& h[49] == "*.ubi.com"@
            &&& h[50] == "*.xboxlive.com"@
            &&& h[51] == "*.xbox.com"@
            &&& h[52] == "*.microsoft.com"@
            &&& h[53] == "*.cachefly.net"@
        }),
{
    let h = proxy_bypass_hosts();
    assert(h[0] == "<local>"@);
    assert(h[1] == "10.*"@);
    assert(h[2] == "172.16.*"@);
    assert(h[3] == "172.17.*"@);
    assert(h[4] == "172.18.*"@);
    assert(h[5] == "172.19.*"@);
    assert(h[6] == "172.20.*"@);
    assert(h[7] == "172.21.*"@);
    assert(h[8] == "172.22.*"@);
    assert(h[9] == "172.23.*"@);
    assert(h[10] == "172.24.*"@);
    assert(h[11] == "172.25.*"@);
    assert(h[12] == "172.26.*"@);
    assert(h[13] == "172.27.*"@);
    assert(h[14] == "172.28.*"@);
    assert(h[15] == "172.29.*"@);
    assert(h[16] == "172.30.*"@);
    assert(h[17] == "172.31.*"@);
    assert(h[18] == "192.168.*"@);
}


/// Clearing the proxy where no other proxy is saved opens the key, writes
/// ProxyEnable 0, deletes the server, the bypass list and the automatic
/// configuration script, then cleans up, whatever was saved otherwise.
pub proof fn lemma_clear_without_other_proxy_turns_off(s: WinState, found: RegistryBackupView)
    requires
        !(s.original matches Some(b) && restorable(b)),
    ensures
        ({
            let (s0, a0) = clear_start(s);
            let (t, actions) = drive(s0, a0, agreeable(found), 20);
            &&& t.original is None
            &&& actions[0] == WinActionView::Registry(RegistryOpView::OpenSettings)
            &&& actions[1] == WinActionView::Registry(
                RegistryOpView::SetDword(RegistryValue::ProxyEnable, 0),
            )
            &&& actions[2] == WinActionView::Registry(RegistryOpView::Delete(RegistryValue::ProxyServer))
            &&& actions[3] == WinActionView::Registry(
                RegistryOpView::Delete(RegistryValue::ProxyOverride),
            )
            &&& actions[4] == WinActionView::Registry(
                RegistryOpView::Delete(RegistryValue::AutoConfigUrl),
            )
            &&& actions.len() == 10
            &&& actions.last() == WinActionView::Cleared
        }),
{
    lemma_clear_turns_proxy_off(s, found);
}

} // verus!

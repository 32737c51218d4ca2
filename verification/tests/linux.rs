use bypax_platform::platform::linux::{
    check_admin, check_driver, install_driver, kill_zombie_sidecar, manual_fallback, name,
    should_bind_lan_for_game_mode, terminate_args, zombie_outcome, LinuxProxy, ProxyAction,
    ProxyBackup, ProxyEvent, ProxyKey, ZombieStep,
};
use std::collections::{HashMap, HashSet};

const KEYS: [ProxyKey; 5] = [
    ProxyKey::Mode,
    ProxyKey::HttpHost,
    ProxyKey::HttpPort,
    ProxyKey::HttpsHost,
    ProxyKey::HttpsPort,
];

fn index(k: ProxyKey) -> usize {
    KEYS.iter().position(|x| *x == k).unwrap()
}

fn copy_backup(b: &ProxyBackup) -> ProxyBackup {
    ProxyBackup {
        mode: b.mode.clone(),
        http_host: b.http_host.clone(),
        http_port: b.http_port.clone(),
        https_host: b.https_host.clone(),
        https_port: b.https_port.clone(),
    }
}

/// A GNOME desktop as `gsettings` shows it.
struct Desktop {
    values: HashMap<usize, String>,
    read_only: HashSet<usize>,
    failing: HashSet<usize>,
    disk: Option<ProxyBackup>,
    writes: Vec<(ProxyKey, String)>,
}

impl Desktop {
    fn gnome_defaults() -> Desktop {
        let mut values = HashMap::new();
        values.insert(index(ProxyKey::Mode), "'none'".to_string());
        values.insert(index(ProxyKey::HttpHost), "''".to_string());
        values.insert(index(ProxyKey::HttpPort), "0".to_string());
        values.insert(index(ProxyKey::HttpsHost), "''".to_string());
        values.insert(index(ProxyKey::HttpsPort), "0".to_string());
        Desktop {
            values,
            read_only: HashSet::new(),
            failing: HashSet::new(),
            disk: None,
            writes: Vec::new(),
        }
    }

    fn value(&self, k: ProxyKey) -> &str {
        self.values.get(&index(k)).map(|s| s.as_str()).unwrap_or("")
    }

    fn perform(&mut self, action: ProxyAction) -> Result<ProxyEvent, ProxyAction> {
        match action {
            ProxyAction::QueryWritable(k) => {
                let answer = if self.read_only.contains(&index(k)) { "false\n" } else { "true\n" };
                Ok(ProxyEvent::Output(Some(answer.to_string())))
            }
            ProxyAction::QueryValue(k) => {
                Ok(ProxyEvent::Output(self.values.get(&index(k)).map(|v| format!("{}\n", v))))
            }
            ProxyAction::Write(k, v) => {
                self.writes.push((k, v.clone()));
                if self.failing.contains(&index(k)) {
                    Ok(ProxyEvent::Status(false))
                } else {
                    self.values.insert(index(k), v);
                    Ok(ProxyEvent::Status(true))
                }
            }
            ProxyAction::SaveBackup(b) => {
                self.disk = Some(b);
                Ok(ProxyEvent::Done)
            }
            ProxyAction::LoadBackup => Ok(ProxyEvent::Loaded(self.disk.as_ref().map(copy_backup))),
            ProxyAction::DeleteBackup => {
                self.disk = None;
                Ok(ProxyEvent::Done)
            }
            other => Err(other),
        }
    }

    fn run(&mut self, proxy: &mut LinuxProxy, first: ProxyAction) -> ProxyAction {
        self.run_counting(proxy, first).0
    }

    /// Runs to the end, counting the answers given.
    fn run_counting(&mut self, proxy: &mut LinuxProxy, first: ProxyAction) -> (ProxyAction, usize) {
        let mut action = first;
        let mut answers = 0;
        loop {
            match self.perform(action) {
                Ok(event) => {
                    answers += 1;
                    action = proxy.resume(event);
                }
                Err(done) => return (done, answers),
            }
        }
    }
}

fn configured(a: ProxyAction) -> bypax_platform::platform::ProxySetupResult {
    match a {
        ProxyAction::Configured(r) => r,
        other => panic!("expected a setup result, got {:?}", other),
    }
}

#[test]
fn linux_platform_answers() {
    assert_eq!(name(), "linux");
    assert!(!should_bind_lan_for_game_mode(true));
    assert!(!should_bind_lan_for_game_mode(false));
    assert!(check_admin());
    assert!(!check_driver());
    assert_eq!(
        install_driver(),
        Err("Npcap driver installation is only supported on Windows.".to_string())
    );
}

#[test]
fn manual_fallback_message() {
    let r = manual_fallback(8080, "gsettings is unavailable");
    assert_eq!(r.platform, "linux");
    assert_eq!(r.host, "127.0.0.1");
    assert_eq!(r.port, 8080);
    assert!(!r.automatic);
    assert_eq!(
        r.message,
        "Manual proxy fallback (gsettings is unavailable): set HTTP/HTTPS proxy to 127.0.0.1:8080"
    );
}

#[test]
fn setup_applies_and_clear_restores() {
    let mut desktop = Desktop::gnome_defaults();
    let mut proxy = LinuxProxy::new();
    let first = proxy.set_system_proxy(8080, false);
    let result = configured(desktop.run(&mut proxy, first));
    assert!(result.automatic);
    assert_eq!(result.platform, "linux");
    assert_eq!(result.host, "127.0.0.1");
    assert_eq!(result.port, 8080);
    assert_eq!(result.message, "Linux GNOME proxy applied at 127.0.0.1:8080");
    assert_eq!(desktop.value(ProxyKey::Mode), "'manual'");
    assert_eq!(desktop.value(ProxyKey::HttpHost), "'127.0.0.1'");
    assert_eq!(desktop.value(ProxyKey::HttpPort), "8080");
    assert_eq!(desktop.value(ProxyKey::HttpsHost), "'127.0.0.1'");
    assert_eq!(desktop.value(ProxyKey::HttpsPort), "8080");
    let saved = desktop.disk.as_ref().expect("settings saved to disk");
    assert_eq!(saved.mode.as_deref(), Some("'none'"));
    assert_eq!(saved.http_port.as_deref(), Some("0"));
    assert!(!proxy.is_busy());

    let first = proxy.clear_system_proxy();
    assert!(matches!(desktop.run(&mut proxy, first), ProxyAction::Cleared));
    assert_eq!(desktop.value(ProxyKey::Mode), "'none'");
    assert_eq!(desktop.value(ProxyKey::HttpHost), "''");
    assert_eq!(desktop.value(ProxyKey::HttpPort), "0");
    assert_eq!(desktop.value(ProxyKey::HttpsHost), "''");
    assert_eq!(desktop.value(ProxyKey::HttpsPort), "0");
    assert!(desktop.disk.is_none());
    // the proxy mode is put back last
    assert_eq!(desktop.writes.last().unwrap().0, ProxyKey::Mode);
}

#[test]
fn setup_writes_in_plan_order() {
    let mut desktop = Desktop::gnome_defaults();
    let mut proxy = LinuxProxy::new();
    let first = proxy.set_system_proxy(1080, true);
    configured(desktop.run(&mut proxy, first));
    let keys: Vec<ProxyKey> = desktop.writes.iter().map(|w| w.0).collect();
    assert_eq!(
        keys,
        vec![ProxyKey::HttpHost, ProxyKey::HttpPort, ProxyKey::Mode, ProxyKey::HttpsHost, ProxyKey::HttpsPort]
    );
}

#[test]
fn unavailable_gsettings_gives_manual_fallback() {
    let mut desktop = Desktop::gnome_defaults();
    desktop.read_only.insert(index(ProxyKey::Mode));
    let mut proxy = LinuxProxy::new();
    let first = proxy.set_system_proxy(8080, false);
    let result = configured(desktop.run(&mut proxy, first));
    assert!(!result.automatic);
    assert_eq!(
        result.message,
        "Manual proxy fallback (gsettings is unavailable): set HTTP/HTTPS proxy to 127.0.0.1:8080"
    );
    assert!(desktop.writes.is_empty());
    assert!(desktop.disk.is_none());
}

#[test]
fn failed_write_rolls_back() {
    let mut desktop = Desktop::gnome_defaults();
    desktop.failing.insert(index(ProxyKey::Mode));
    let mut proxy = LinuxProxy::new();
    let first = proxy.set_system_proxy(8080, false);
    let result = configured(desktop.run(&mut proxy, first));
    assert!(!result.automatic);
    assert_eq!(
        result.message,
        "Manual proxy fallback (gsettings proxy setup failed): set HTTP/HTTPS proxy to 127.0.0.1:8080"
    );
    assert_eq!(desktop.value(ProxyKey::HttpHost), "''");
    assert_eq!(desktop.value(ProxyKey::HttpPort), "0");
    assert!(desktop.disk.is_none());
    // the HTTPS settings are still applied before the settings are put back
    let writes: Vec<(ProxyKey, &str)> = desktop.writes.iter().map(|w| (w.0, w.1.as_str())).collect();
    assert_eq!(
        writes,
        vec![
            (ProxyKey::HttpHost, "'127.0.0.1'"),
            (ProxyKey::HttpPort, "8080"),
            (ProxyKey::Mode, "'manual'"),
            (ProxyKey::HttpsHost, "'127.0.0.1'"),
            (ProxyKey::HttpsPort, "8080"),
            (ProxyKey::HttpHost, "''"),
            (ProxyKey::HttpPort, "0"),
            (ProxyKey::HttpsHost, "''"),
            (ProxyKey::HttpsPort, "0"),
            (ProxyKey::Mode, "'none'"),
        ]
    );
}

#[test]
fn failed_http_host_skips_other_required_settings() {
    let mut desktop = Desktop::gnome_defaults();
    desktop.failing.insert(index(ProxyKey::HttpHost));
    let mut proxy = LinuxProxy::new();
    let first = proxy.set_system_proxy(8080, false);
    let result = configured(desktop.run(&mut proxy, first));
    assert!(!result.automatic);
    let keys: Vec<ProxyKey> = desktop.writes.iter().map(|w| w.0).collect();
    assert_eq!(
        keys,
        vec![
            ProxyKey::HttpHost,
            ProxyKey::HttpsHost,
            ProxyKey::HttpsPort,
            ProxyKey::HttpHost,
            ProxyKey::HttpPort,
            ProxyKey::HttpsHost,
            ProxyKey::HttpsPort,
            ProxyKey::Mode,
        ]
    );
    assert_eq!(desktop.value(ProxyKey::Mode), "'none'");
    assert!(!proxy.is_busy());
}

#[test]
fn failed_https_host_skips_https_port() {
    let mut desktop = Desktop::gnome_defaults();
    desktop.failing.insert(index(ProxyKey::HttpsHost));
    let mut proxy = LinuxProxy::new();
    let first = proxy.set_system_proxy(8080, false);
    let result = configured(desktop.run(&mut proxy, first));
    assert!(!result.automatic);
    let keys: Vec<ProxyKey> = desktop.writes.iter().map(|w| w.0).collect();
    assert_eq!(
        keys,
        vec![
            ProxyKey::HttpHost,
            ProxyKey::HttpPort,
            ProxyKey::Mode,
            ProxyKey::HttpsHost,
            ProxyKey::HttpHost,
            ProxyKey::HttpPort,
            ProxyKey::HttpsHost,
            ProxyKey::HttpsPort,
            ProxyKey::Mode,
        ]
    );
}

#[test]
fn unreadable_https_settings_stay_applied_after_failure() {
    let mut desktop = Desktop::gnome_defaults();
    desktop.values.remove(&index(ProxyKey::HttpsHost));
    desktop.values.remove(&index(ProxyKey::HttpsPort));
    desktop.failing.insert(index(ProxyKey::HttpPort));
    let mut proxy = LinuxProxy::new();
    let first = proxy.set_system_proxy(8080, false);
    let result = configured(desktop.run(&mut proxy, first));
    assert!(!result.automatic);
    // nothing was saved for the HTTPS settings, so nothing puts them back
    assert_eq!(desktop.value(ProxyKey::HttpsHost), "'127.0.0.1'");
    assert_eq!(desktop.value(ProxyKey::HttpsPort), "8080");
    assert_eq!(desktop.value(ProxyKey::HttpHost), "''");
    assert_eq!(desktop.value(ProxyKey::Mode), "'none'");
}

#[test]
fn read_only_https_settings_are_skipped() {
    let mut desktop = Desktop::gnome_defaults();
    desktop.read_only.insert(index(ProxyKey::HttpsHost));
    desktop.read_only.insert(index(ProxyKey::HttpsPort));
    let mut proxy = LinuxProxy::new();
    let first = proxy.set_system_proxy(8080, false);
    let result = configured(desktop.run(&mut proxy, first));
    assert!(result.automatic);
    assert_eq!(desktop.value(ProxyKey::HttpsHost), "''");
}

#[test]
fn read_only_required_setting_fails_setup() {
    let mut desktop = Desktop::gnome_defaults();
    desktop.read_only.insert(index(ProxyKey::HttpPort));
    let mut proxy = LinuxProxy::new();
    let first = proxy.set_system_proxy(8080, false);
    let result = configured(desktop.run(&mut proxy, first));
    assert!(!result.automatic);
    assert_eq!(desktop.value(ProxyKey::HttpHost), "''");
}

#[test]
fn clear_without_backup_turns_mode_off() {
    let mut desktop = Desktop::gnome_defaults();
    desktop.values.insert(index(ProxyKey::Mode), "'manual'".to_string());
    let mut proxy = LinuxProxy::new();
    let first = proxy.clear_system_proxy();
    assert!(matches!(desktop.run(&mut proxy, first), ProxyAction::Cleared));
    assert_eq!(desktop.value(ProxyKey::Mode), "'none'");
    assert_eq!(desktop.writes, vec![(ProxyKey::Mode, "'none'".to_string())]);
}

#[test]
fn clear_restores_backup_from_disk() {
    let mut desktop = Desktop::gnome_defaults();
    let mut proxy = LinuxProxy::new();
    let first = proxy.set_system_proxy(8080, false);
    configured(desktop.run(&mut proxy, first));
    // a new run of the program has nothing in memory
    let mut restarted = LinuxProxy::new();
    let first = restarted.clear_system_proxy();
    assert!(matches!(desktop.run(&mut restarted, first), ProxyAction::Cleared));
    assert_eq!(desktop.value(ProxyKey::Mode), "'none'");
    assert_eq!(desktop.value(ProxyKey::HttpPort), "0");
    assert!(desktop.disk.is_none());
}

#[test]
fn second_setup_keeps_first_backup() {
    let mut desktop = Desktop::gnome_defaults();
    let mut proxy = LinuxProxy::new();
    let first = proxy.set_system_proxy(8080, false);
    configured(desktop.run(&mut proxy, first));
    let first = proxy.set_system_proxy(9090, false);
    configured(desktop.run(&mut proxy, first));
    assert_eq!(desktop.value(ProxyKey::HttpPort), "9090");
    let first = proxy.clear_system_proxy();
    desktop.run(&mut proxy, first);
    assert_eq!(desktop.value(ProxyKey::HttpPort), "0");
    assert_eq!(desktop.value(ProxyKey::Mode), "'none'");
}

#[test]
fn unavailable_clear_changes_nothing() {
    let mut desktop = Desktop::gnome_defaults();
    desktop.read_only.insert(index(ProxyKey::Mode));
    let mut proxy = LinuxProxy::new();
    let first = proxy.clear_system_proxy();
    assert!(matches!(desktop.run(&mut proxy, first), ProxyAction::Cleared));
    assert!(desktop.writes.is_empty());
}

#[test]
fn idle_resume_does_nothing() {
    let mut proxy = LinuxProxy::new();
    assert!(matches!(proxy.resume(ProxyEvent::Done), ProxyAction::Nothing));
}

#[test]
fn zombie_pid_file_decisions() {
    match kill_zombie_sidecar(None) {
        ZombieStep::Report(Ok(m)) => assert_eq!(m, "Zombie PID file was not found."),
        other => panic!("{:?}", other),
    }
    match kill_zombie_sidecar(Some("abc")) {
        ZombieStep::Report(Err(m)) => {
            assert_eq!(m, "Invalid zombie PID file: invalid digit found in string")
        }
        other => panic!("{:?}", other),
    }
    match kill_zombie_sidecar(Some("")) {
        ZombieStep::Report(Err(m)) => {
            assert_eq!(m, "Invalid zombie PID file: cannot parse integer from empty string")
        }
        other => panic!("{:?}", other),
    }
    match kill_zombie_sidecar(Some("0\n")) {
        ZombieStep::RemoveThenReport(Ok(m)) => assert_eq!(m, "Zombie PID file was empty."),
        other => panic!("{:?}", other),
    }
    match kill_zombie_sidecar(Some(" 4242\n")) {
        ZombieStep::Terminate { pid } => assert_eq!(pid, 4242),
        other => panic!("{:?}", other),
    }
    assert_eq!(terminate_args(4242), vec!["-TERM".to_string(), "4242".to_string()]);
}

#[test]
fn zombie_outcomes() {
    assert_eq!(
        zombie_outcome(4242, Ok(true)),
        Ok("Zombie sidecar process (PID 4242) stopped.".to_string())
    );
    assert_eq!(
        zombie_outcome(4242, Ok(false)),
        Ok("Zombie sidecar process (PID 4242) was not running.".to_string())
    );
    assert_eq!(
        zombie_outcome(7, Err("No such file or directory".to_string())),
        Err("Failed to stop zombie sidecar PID 7: No such file or directory".to_string())
    );
}

#[test]
fn linux_longest_setup_and_clear_stay_within_bounds() {
    // the last write of the plan fails: every step is taken, then all five
    // settings are put back
    let mut desktop = Desktop::gnome_defaults();
    desktop.failing.insert(index(ProxyKey::HttpsPort));
    let mut proxy = LinuxProxy::new();
    let first = proxy.set_system_proxy(8080, false);
    let (end, answers) = desktop.run_counting(&mut proxy, first);
    assert!(!configured(end).automatic);
    assert_eq!(answers, 31);
    assert!(!proxy.is_busy());
    // a clear that finds the saved settings only on disk
    desktop.failing.clear();
    let first = proxy.set_system_proxy(8080, false);
    configured(desktop.run(&mut proxy, first));
    let mut restarted = LinuxProxy::new();
    let first = restarted.clear_system_proxy();
    let (end, answers) = desktop.run_counting(&mut restarted, first);
    assert!(matches!(end, ProxyAction::Cleared));
    assert_eq!(answers, 13);
    assert!(!restarted.is_busy());
}

#[test]
fn setup_after_crash_keeps_settings_left_on_disk() {
    let mut desktop = Desktop::gnome_defaults();
    let mut crashed = LinuxProxy::new();
    let first = crashed.set_system_proxy(8080, false);
    assert!(configured(desktop.run(&mut crashed, first)).automatic);
    // the run ends without clearing; a new run starts with nothing in memory
    let mut proxy = LinuxProxy::new();
    let first = proxy.set_system_proxy(9090, false);
    assert!(configured(desktop.run(&mut proxy, first)).automatic);
    assert_eq!(desktop.value(ProxyKey::HttpPort), "9090");
    let saved = desktop.disk.as_ref().expect("settings kept on disk");
    assert_eq!(saved.mode.as_deref(), Some("'none'"));
    assert_eq!(saved.http_port.as_deref(), Some("0"));
    let first = proxy.clear_system_proxy();
    assert!(matches!(desktop.run(&mut proxy, first), ProxyAction::Cleared));
    assert_eq!(desktop.value(ProxyKey::Mode), "'none'");
    assert_eq!(desktop.value(ProxyKey::HttpHost), "''");
    assert_eq!(desktop.value(ProxyKey::HttpPort), "0");
    assert_eq!(desktop.value(ProxyKey::HttpsHost), "''");
    assert_eq!(desktop.value(ProxyKey::HttpsPort), "0");
    assert!(desktop.disk.is_none());
}

#[test]
fn two_setups_then_clear_restore_first_settings() {
    let mut desktop = Desktop::gnome_defaults();
    let mut proxy = LinuxProxy::new();
    let first = proxy.set_system_proxy(8080, false);
    configured(desktop.run(&mut proxy, first));
    let first = proxy.set_system_proxy(9090, true);
    configured(desktop.run(&mut proxy, first));
    let first = proxy.clear_system_proxy();
    assert!(matches!(desktop.run(&mut proxy, first), ProxyAction::Cleared));
    assert_eq!(desktop.value(ProxyKey::Mode), "'none'");
    assert_eq!(desktop.value(ProxyKey::HttpHost), "''");
    assert_eq!(desktop.value(ProxyKey::HttpsPort), "0");
    assert!(desktop.disk.is_none());
}

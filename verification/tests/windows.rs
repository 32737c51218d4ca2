use bypax_platform::platform::windows::{
    cleanup_on_panic, install_driver, installer_outcome, kill_zombie_sidecar,
    manage_firewall_rules, name, proxy_override_value, should_bind_lan_for_game_mode,
    taskkill_command_line, winhttp_set_command_line, zombie_outcome, CommandLine,
    RegistryBackup, RegistryOp, RegistryValue, WinAction, WinEvent, WinZombieStep, WindowsProxy,
    INTERNET_SETTINGS,
};
use std::collections::HashMap;

#[derive(Debug, Clone, PartialEq)]
enum Data {
    Text(String),
    Number(u32),
}

/// The proxy settings key of the current user, and what was run besides.
struct System {
    access: bool,
    values: HashMap<&'static str, Data>,
    fail: Option<(usize, String)>,
    ops: usize,
    commands: Vec<CommandLine>,
    notified: usize,
}

impl System {
    fn new(values: Vec<(&'static str, Data)>) -> System {
        System {
            access: true,
            values: values.into_iter().collect(),
            fail: None,
            ops: 0,
            commands: Vec::new(),
            notified: 0,
        }
    }

    fn text(&self, name: &str) -> Option<String> {
        match self.values.get(name) {
            Some(Data::Text(s)) => Some(s.clone()),
            _ => None,
        }
    }

    fn number(&self, name: &str) -> Option<u32> {
        match self.values.get(name) {
            Some(Data::Number(n)) => Some(*n),
            _ => None,
        }
    }

    fn perform(&mut self, action: WinAction) -> Result<WinEvent, WinAction> {
        match action {
            WinAction::CheckAccess => Ok(WinEvent::Access(self.access)),
            WinAction::ReadOriginal => Ok(WinEvent::Original(RegistryBackup {
                proxy_enable: self.number("ProxyEnable"),
                proxy_server: self.text("ProxyServer"),
                proxy_override: self.text("ProxyOverride"),
            })),
            WinAction::Registry(op) => {
                let n = self.ops;
                self.ops += 1;
                if let Some((at, m)) = &self.fail {
                    if *at == n {
                        return Ok(WinEvent::Registry(Err(m.clone())));
                    }
                }
                match op {
                    RegistryOp::OpenSettings => {}
                    RegistryOp::SetString(v, s) => {
                        self.values.insert(v.name(), Data::Text(s));
                    }
                    RegistryOp::SetDword(v, d) => {
                        self.values.insert(v.name(), Data::Number(d));
                    }
                    RegistryOp::Delete(v) => {
                        self.values.remove(v.name());
                    }
                }
                Ok(WinEvent::Registry(Ok(())))
            }
            WinAction::NotifyChange => {
                self.notified += 1;
                Ok(WinEvent::Done)
            }
            WinAction::Background(cs) => {
                self.commands.extend(cs);
                Ok(WinEvent::Done)
            }
            WinAction::Run(c) => {
                self.commands.push(c);
                Ok(WinEvent::Done)
            }
            other => Err(other),
        }
    }

    fn run(&mut self, proxy: &mut WindowsProxy, first: WinAction) -> WinAction {
        self.run_counting(proxy, first).0
    }

    /// Runs to the end, counting the answers given.
    fn run_counting(&mut self, proxy: &mut WindowsProxy, first: WinAction) -> (WinAction, usize) {
        let mut action = first;
        let mut answers = 0;
        loop {
            match self.perform(action) {
                Ok(event) => {
                    answers += 1;
                    action = proxy.resume(event);
                }
                Err(done) => return (done, answers),
            }
        }
    }
}

fn line(c: &CommandLine) -> String {
    format!("{} {}", c.program, c.args.join(" "))
}

#[test]
fn windows_platform_answers() {
    assert_eq!(name(), "windows");
    assert!(should_bind_lan_for_game_mode(true));
    assert!(!should_bind_lan_for_game_mode(false));
    assert_eq!(INTERNET_SETTINGS, r"Software\Microsoft\Windows\CurrentVersion\Internet Settings");
}

#[test]
fn bypass_list_is_joined_with_semicolons() {
    let v = proxy_override_value();
    assert!(v.starts_with("<local>;10.*;172.16.*;172.17.*;"));
    assert!(v.ends_with(";*.xbox.com;*.microsoft.com;*.cachefly.net"));
    assert_eq!(v.split(';').count(), 54);
}

#[test]
fn setup_points_registry_at_local_proxy_and_clear_turns_it_off() {
    let mut system = System::new(vec![("ProxyEnable", Data::Number(0))]);
    let mut proxy = WindowsProxy::new();
    let first = proxy.set_system_proxy(8080, true);
    match system.run(&mut proxy, first) {
        WinAction::Configured(Ok(r)) => {
            assert_eq!(r.platform, "windows");
            assert_eq!(r.host, "127.0.0.1");
            assert_eq!(r.port, 8080);
            assert!(r.automatic);
            assert_eq!(r.message, "Windows system proxy applied at 127.0.0.1:8080");
        }
        other => panic!("{:?}", other),
    }
    assert_eq!(system.text("ProxyServer").as_deref(), Some("127.0.0.1:8080"));
    assert_eq!(system.number("ProxyEnable"), Some(1));
    assert_eq!(system.text("ProxyOverride"), Some(proxy_override_value()));
    assert_eq!(system.notified, 1);
    assert_eq!(system.commands.len(), 2);
    assert_eq!(system.commands[0].program, "powershell");
    assert_eq!(line(&system.commands[1]), line(&winhttp_set_command_line(8080)));

    let first = proxy.clear_system_proxy();
    assert!(matches!(system.run(&mut proxy, first), WinAction::Cleared));
    assert_eq!(system.number("ProxyEnable"), Some(0));
    assert_eq!(system.text("ProxyServer"), None);
    assert_eq!(system.text("ProxyOverride"), None);
    let lines: Vec<String> = system.commands[2..].iter().map(line).collect();
    assert_eq!(
        lines,
        vec![
            "ipconfig /flushdns".to_string(),
            "netsh winhttp reset proxy".to_string(),
            "netsh advfirewall firewall delete rule name=BypaxDPI_Proxy".to_string(),
            "netsh advfirewall firewall delete rule name=BypaxDPI_PAC".to_string(),
        ]
    );
}

#[test]
fn winhttp_is_left_alone_unless_asked() {
    let mut system = System::new(vec![]);
    let mut proxy = WindowsProxy::new();
    let first = proxy.set_system_proxy(8080, false);
    assert!(matches!(system.run(&mut proxy, first), WinAction::Configured(Ok(_))));
    assert_eq!(system.commands.len(), 1);
}

#[test]
fn clear_puts_back_corporate_proxy() {
    let mut system = System::new(vec![
        ("ProxyEnable", Data::Number(1)),
        ("ProxyServer", Data::Text("corp.example:3128".to_string())),
        ("ProxyOverride", Data::Text("<local>;*.corp".to_string())),
    ]);
    let mut proxy = WindowsProxy::new();
    let first = proxy.set_system_proxy(8080, false);
    system.run(&mut proxy, first);
    assert_eq!(system.text("ProxyServer").as_deref(), Some("127.0.0.1:8080"));
    let first = proxy.clear_system_proxy();
    assert!(matches!(system.run(&mut proxy, first), WinAction::Cleared));
    assert_eq!(system.text("ProxyServer").as_deref(), Some("corp.example:3128"));
    assert_eq!(system.number("ProxyEnable"), Some(1));
    assert_eq!(system.text("ProxyOverride").as_deref(), Some("<local>;*.corp"));
}

#[test]
fn saved_local_proxy_is_not_put_back() {
    let mut system = System::new(vec![
        ("ProxyEnable", Data::Number(1)),
        ("ProxyServer", Data::Text("127.0.0.1:9999".to_string())),
    ]);
    let mut proxy = WindowsProxy::new();
    let first = proxy.set_system_proxy(8080, false);
    system.run(&mut proxy, first);
    let first = proxy.clear_system_proxy();
    system.run(&mut proxy, first);
    assert_eq!(system.number("ProxyEnable"), Some(0));
    assert_eq!(system.text("ProxyServer"), None);
}

#[test]
fn denied_registry_is_an_error() {
    let mut system = System::new(vec![]);
    system.access = false;
    let mut proxy = WindowsProxy::new();
    let first = proxy.set_system_proxy(8080, false);
    match system.run(&mut proxy, first) {
        WinAction::Configured(Err(m)) => {
            assert_eq!(m, "Registry yazma izni yok. Uygulamayı yönetici olarak çalıştırın.")
        }
        other => panic!("{:?}", other),
    }
    assert_eq!(system.ops, 0);
}

#[test]
fn failed_write_is_rolled_back() {
    let mut system = System::new(vec![]);
    system.fail = Some((2, "Access is denied. (os error 5)".to_string()));
    let mut proxy = WindowsProxy::new();
    let first = proxy.set_system_proxy(8080, false);
    match system.run(&mut proxy, first) {
        WinAction::Configured(Err(m)) => assert_eq!(
            m,
            "Registry güncelleme başarısız, geri alındı: ProxyEnable: Access is denied. (os error 5)"
        ),
        other => panic!("{:?}", other),
    }
    assert_eq!(system.number("ProxyEnable"), Some(0));
    assert_eq!(system.text("ProxyServer"), None);
}

#[test]
fn failed_open_is_rolled_back() {
    let mut system = System::new(vec![]);
    system.fail = Some((0, "denied".to_string()));
    let mut proxy = WindowsProxy::new();
    let first = proxy.set_system_proxy(8080, false);
    match system.run(&mut proxy, first) {
        WinAction::Configured(Err(m)) => {
            assert_eq!(m, "Registry güncelleme başarısız, geri alındı: Registry açılamadı: denied")
        }
        other => panic!("{:?}", other),
    }
    // the key opens on the second try here, so the proxy is turned off
    assert_eq!(system.ops, 6);
    assert_eq!(system.number("ProxyEnable"), Some(0));
}

#[test]
fn windows_firewall_rules() {
    let off: Vec<String> = manage_firewall_rules(false, 8080, 8081).iter().map(line).collect();
    assert_eq!(
        off,
        vec![
            "netsh advfirewall firewall delete rule name=BypaxDPI_Proxy".to_string(),
            "netsh advfirewall firewall delete rule name=BypaxDPI_PAC".to_string(),
        ]
    );
    let on: Vec<String> = manage_firewall_rules(true, 8080, 8081).iter().map(line).collect();
    assert_eq!(on.len(), 4);
    assert_eq!(
        on[2],
        "netsh advfirewall firewall add rule name=BypaxDPI_Proxy dir=in action=allow protocol=TCP localport=8080"
    );
    assert_eq!(
        on[3],
        "netsh advfirewall firewall add rule name=BypaxDPI_PAC dir=in action=allow protocol=TCP localport=8081"
    );
}

#[test]
fn winhttp_command() {
    let c = winhttp_set_command_line(8080);
    assert_eq!(c.program, "netsh");
    assert_eq!(c.args[..4].join(" "), "winhttp set proxy 127.0.0.1:8080");
    assert_eq!(
        c.args[4],
        "bypass-list=\"<local>;127.0.0.1;*.steamcontent.com;*.steamstatic.com;*.cm.steampowered.com;*.epicgames.com;*.unrealengine.com;*.riotgames.com;*.leagueoflegends.com;*.ea.com;*.origin.com;*.blizzard.com;*.battle.net;*.ubisoft.com;*.ubi.com;*.xboxlive.com;*.xbox.com;*.microsoft.com;*.cachefly.net;*.msftconnecttest.com;*.windowsupdate.com\""
    );
}

#[test]
fn windows_panic_cleanup_commands() {
    let lines: Vec<String> = cleanup_on_panic().iter().map(line).collect();
    assert_eq!(
        lines,
        vec![
            r"reg add HKCU\Software\Microsoft\Windows\CurrentVersion\Internet Settings /v ProxyEnable /t REG_DWORD /d 0 /f".to_string(),
            r"reg add HKCU\Software\Microsoft\Windows\CurrentVersion\Internet Settings /v ProxyServer /t REG_SZ /d  /f".to_string(),
            "taskkill /F /IM bypax-proxy.exe".to_string(),
        ]
    );
}

#[test]
fn windows_zombie_sidecar() {
    for text in [None, Some("x"), Some("0"), Some("")] {
        match kill_zombie_sidecar(text) {
            WinZombieStep::Report(Ok(m)) => assert_eq!(m, "Zombi PID dosyası bulunamadı."),
            other => panic!("{:?}", other),
        }
    }
    match kill_zombie_sidecar(Some("  77\r\n")) {
        WinZombieStep::Terminate { pid } => assert_eq!(pid, 77),
        other => panic!("{:?}", other),
    }
    assert_eq!(line(&taskkill_command_line(77)), "taskkill /F /PID 77");
    assert_eq!(zombie_outcome(77, true), Ok("Zombi süreç (PID 77) durduruldu.".to_string()));
    assert_eq!(zombie_outcome(77, false), Ok("Zombi PID dosyası bulunamadı.".to_string()));
}

#[test]
fn driver_installer() {
    assert_eq!(install_driver(Ok(true)), Ok(()));
    assert_eq!(
        install_driver(Ok(false)),
        Err("Sürücü dosyası bulunamadı. Lütfen uygulamayı yeniden yükleyin.".to_string())
    );
    assert_eq!(install_driver(Err("no resources".to_string())), Err("no resources".to_string()));
    assert_eq!(installer_outcome(Ok(true)), Ok(()));
    assert_eq!(
        installer_outcome(Ok(false)),
        Err("Kurulum kullanıcı tarafından iptal edildi veya başarısız oldu.".to_string())
    );
    assert_eq!(installer_outcome(Err("spawn failed".to_string())), Err("spawn failed".to_string()));
}

#[test]
fn registry_value_names() {
    assert_eq!(RegistryValue::AutoConfigUrl.name(), "AutoConfigURL");
    assert_eq!(RegistryValue::ProxyEnable.name(), "ProxyEnable");
}

#[test]
fn second_setup_keeps_saved_proxy() {
    let mut system = System::new(vec![
        ("ProxyEnable", Data::Number(1)),
        ("ProxyServer", Data::Text("corp.example:3128".to_string())),
    ]);
    let mut proxy = WindowsProxy::new();
    let first = proxy.set_system_proxy(8080, false);
    system.run(&mut proxy, first);
    let first = proxy.set_system_proxy(9090, false);
    system.run(&mut proxy, first);
    assert_eq!(system.text("ProxyServer").as_deref(), Some("127.0.0.1:9090"));
    let first = proxy.clear_system_proxy();
    system.run(&mut proxy, first);
    assert_eq!(system.text("ProxyServer").as_deref(), Some("corp.example:3128"));
    assert_eq!(system.number("ProxyEnable"), Some(1));
    // the saved bypass list was missing, so the one of the local proxy stays
    assert_eq!(system.text("ProxyOverride"), Some(proxy_override_value()));
}

#[test]
fn saved_enable_flag_defaults_to_off() {
    let mut system = System::new(vec![("ProxyServer", Data::Text("corp:1".to_string()))]);
    let mut proxy = WindowsProxy::new();
    let first = proxy.set_system_proxy(8080, false);
    system.run(&mut proxy, first);
    let first = proxy.clear_system_proxy();
    system.run(&mut proxy, first);
    assert_eq!(system.text("ProxyServer").as_deref(), Some("corp:1"));
    assert_eq!(system.number("ProxyEnable"), Some(0));
}

#[test]
fn windows_longest_setup_and_clear_stay_within_bounds() {
    let mut system = System::new(vec![]);
    // the bypass list, the last operation of applying the proxy, fails
    system.fail = Some((3, "Access is denied.".to_string()));
    let mut proxy = WindowsProxy::new();
    let first = proxy.set_system_proxy(8080, true);
    let (end, answers) = system.run_counting(&mut proxy, first);
    assert!(matches!(end, WinAction::Configured(Err(_))));
    assert_eq!(answers, 11);
    system.fail = None;
    let first = proxy.clear_system_proxy();
    let (end, answers) = system.run_counting(&mut proxy, first);
    assert!(matches!(end, WinAction::Cleared));
    assert_eq!(answers, 9);
    assert!(!proxy.is_busy());
}

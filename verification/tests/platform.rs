use bypax_platform::platform::{
    check_admin, check_driver, cleanup_on_panic, clear_system_proxy, install_driver,
    kill_zombie_sidecar, manage_firewall_rules, proxy_address_string, set_system_proxy,
    should_bind_lan_for_game_mode, PROXY_HOST,
};

#[test]
fn fallback_setup_is_manual() {
    let r = set_system_proxy("freebsd", 8080, true).unwrap();
    assert_eq!(r.platform, "freebsd");
    assert_eq!(r.host, "127.0.0.1");
    assert_eq!(r.port, 8080);
    assert!(!r.automatic);
    assert_eq!(r.message, "Manual proxy fallback: 127.0.0.1:8080");
}

#[test]
fn fallback_answers() {
    assert!(!should_bind_lan_for_game_mode(true));
    assert_eq!(clear_system_proxy(), Ok(()));
    manage_firewall_rules(true, 1, 2);
    cleanup_on_panic();
    assert!(check_admin());
    assert!(!check_driver());
    assert_eq!(install_driver(), Err("Driver installation is only supported on Windows.".to_string()));
    assert_eq!(
        kill_zombie_sidecar(),
        Ok("No platform-specific zombie sidecar cleanup is available.".to_string())
    );
}

#[test]
fn proxy_address() {
    assert_eq!(PROXY_HOST, "127.0.0.1");
    assert_eq!(proxy_address_string(0), "127.0.0.1:0");
    assert_eq!(proxy_address_string(65535), "127.0.0.1:65535");
}

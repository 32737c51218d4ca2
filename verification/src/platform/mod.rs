//! What every platform reports when it sets up the system proxy, and the
//! behaviour on platforms that have no integration of their own: the proxy is
//! left for the user to configure by hand.

use vstd::prelude::*;
use crate::text::{decimal, decimal_string};

pub mod linux;
pub mod windows;

verus! {

/// The address the local proxy listens on.
pub const PROXY_HOST: &'static str = "127.0.0.1";

/// How the system proxy was set up: where it points, whether the platform
/// applied it automatically, and what the user is told.
#[derive(Debug)]
pub struct ProxySetupResult {
    pub platform: &'static str,
    pub host: String,
    pub port: u16,
    pub automatic: bool,
    pub message: String,
}

/// The mathematical content of a [`ProxySetupResult`].
pub struct SetupView {
    pub platform: Seq<char>,
    pub host: Seq<char>,
    pub port: u16,
    pub automatic: bool,
    pub message: Seq<char>,
}

impl View for ProxySetupResult {
    type V = SetupView;

    open spec fn view(&self) -> SetupView {
        SetupView {
            platform: self.platform@,
            host: self.host@,
            port: self.port,
            automatic: self.automatic,
            message: self.message@,
        }
    }
}

/// `127.0.0.1:<port>`, the address of the local proxy.
pub open spec fn proxy_address(port: u16) -> Seq<char> {
    "127.0.0.1"@ + ":"@ + decimal(port as nat)
}

/// Renders [`proxy_address`].
pub fn proxy_address_string(port: u16) -> (s: String)
    ensures
        s@ == proxy_address(port),
{
    let mut s = String::from_str(PROXY_HOST);
    s.append(":");
    s.append(decimal_string(port as u64).as_str());
    s
}

/// The proxy host as an owned string.
pub fn proxy_host_string() -> (s: String)
    ensures
        s@ == "127.0.0.1"@,
{
    String::from_str(PROXY_HOST)
}

/// The message of the manual setup reported where the platform has no proxy
/// integration.
pub open spec fn generic_fallback_message(port: u16) -> Seq<char> {
    "Manual proxy fallback: "@ + proxy_address(port)
}

/// Whether the proxy is shared on the local network in game mode: never,
/// where the platform has no integration.
pub fn should_bind_lan_for_game_mode(_enable_game_mode: bool) -> (b: bool)
    ensures
        !b,
{
    false
}

/// Sets up the system proxy where the platform has no integration: nothing
/// is changed, and the user is told to point the proxy at the local address.
/// `platform` is the name of the operating system the program was built for.
pub fn set_system_proxy(platform: &'static str, port: u16, _enable_winhttp: bool) -> (r: Result<
    ProxySetupResult,
    String,
>)
    ensures
        r matches Ok(res) && res@ == (SetupView {
            platform: platform@,
            host: "127.0.0.1"@,
            port: port,
            automatic: false,
            message: generic_fallback_message(port),
        }),
{
    let mut message = String::from_str("Manual proxy fallback: ");
    message.append(proxy_address_string(port).as_str());
    Ok(ProxySetupResult {
        platform: platform,
        host: proxy_host_string(),
        port: port,
        automatic: false,
        message: message,
    })
}

/// Clears the system proxy where the platform has no integration: there is
/// nothing to undo.
pub fn clear_system_proxy() -> (r: Result<(), String>)
    ensures
        r is Ok,
{
    Ok(())
}

/// Firewall rules exist only on Windows; elsewhere there is nothing to do.
pub fn manage_firewall_rules(_enable: bool, _proxy_port: u16, _pac_port: u16) {
}

/// Whether the program runs with the rights it needs: always, where the
/// platform asks for none.
pub fn check_admin() -> (b: bool)
    ensures
        b,
{
    true
}

/// Whether the packet capture driver is present: it is a Windows driver.
pub fn check_driver() -> (b: bool)
    ensures
        !b,
{
    false
}

/// Installing the packet capture driver fails: it is a Windows driver.
pub fn install_driver() -> (r: Result<(), String>)
    ensures
        r matches Err(msg) && msg@ == "Driver installation is only supported on Windows."@,
{
    Err(String::from_str("Driver installation is only supported on Windows."))
}

/// Stopping a sidecar left over from an earlier run: there is none to find
/// where the platform has no integration.
pub fn kill_zombie_sidecar() -> (r: Result<String, String>)
    ensures
        r matches Ok(msg) && msg@ == "No platform-specific zombie sidecar cleanup is available."@,
{
    Ok(String::from_str("No platform-specific zombie sidecar cleanup is available."))
}

/// Cleaning up after a crash: nothing was changed, so nothing is undone.
pub fn cleanup_on_panic() {
}

} // verus!

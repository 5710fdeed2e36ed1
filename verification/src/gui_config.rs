//! The persisted configuration the surrounding surface edits, with its
//! defaults. Reading and writing the file is the caller's work; the
//! defaults and structure live here.

use vstd::prelude::*;

verus! {

/// The default local listen address.
pub fn default_listen_addr() -> (r: String)
    ensures
        r@ == "127.0.0.1:1080"@,
{
    "127.0.0.1:1080".to_owned()
}

/// The default relay address placeholder.
pub fn default_server_addr() -> (r: String)
    ensures
        r@ == "your-worker.workers.dev"@,
{
    "your-worker.workers.dev".to_owned()
}

/// The default domain whose HTTPS record carries the ECH config.
pub fn default_ech_domain() -> (r: String)
    ensures
        r@ == "cloudflare-ech.com"@,
{
    "cloudflare-ech.com".to_owned()
}

/// The default DoH server.
pub fn default_doh_server() -> (r: String)
    ensures
        r@ == "https://1.1.1.1/dns-query"@,
{
    "https://1.1.1.1/dns-query".to_owned()
}

/// The default TLS fingerprint profile.
pub fn default_tls_profile() -> (r: String)
    ensures
        r@ == "Chrome"@,
{
    "Chrome".to_owned()
}

/// The default for switches that start enabled.
pub fn default_true() -> (r: bool)
    ensures
        r == true,
{
    true
}

/// Basic settings: where to listen and where the relay is.
#[derive(Debug, Clone)]
pub struct BasicConfig {
    pub listen_addr: String,
    pub server_addr: String,
    pub token: String,
    pub enable_tun: bool,
}

impl Default for BasicConfig {
    /// Defaults: local SOCKS on 1080, placeholder relay, no token, TUN
    /// off.
    fn default() -> (r: BasicConfig)
        ensures
            r.listen_addr@ == "127.0.0.1:1080"@,
            r.server_addr@ == "your-worker.workers.dev"@,
            r.token@.len() == 0,
            r.enable_tun == false,
    {
        BasicConfig {
            listen_addr: default_listen_addr(),
            server_addr: default_server_addr(),
            token: String::new(),
            enable_tun: false,
        }
    }
}

/// ECH settings.
#[derive(Debug, Clone)]
pub struct EchSettings {
    pub enabled: bool,
    pub domain: String,
    pub doh_server: String,
}

impl Default for EchSettings {
    /// Defaults: ECH on, Cloudflare's cover domain, 1.1.1.1 DoH.
    fn default() -> (r: EchSettings)
        ensures
            r.enabled == true,
            r.domain@ == "cloudflare-ech.com"@,
            r.doh_server@ == "https://1.1.1.1/dns-query"@,
    {
        EchSettings {
            enabled: true,
            domain: default_ech_domain(),
            doh_server: default_doh_server(),
        }
    }
}

/// Advanced settings.
#[derive(Debug, Clone)]
pub struct AdvancedConfig {
    pub enable_yamux: bool,
    pub enable_fingerprint_randomization: bool,
    pub tls_profile: String,
}

impl Default for AdvancedConfig {
    /// Defaults: multiplexing and fingerprint randomization on, Chrome
    /// profile.
    fn default() -> (r: AdvancedConfig)
        ensures
            r.enable_yamux == true,
            r.enable_fingerprint_randomization == true,
            r.tls_profile@ == "Chrome"@,
    {
        AdvancedConfig {
            enable_yamux: true,
            enable_fingerprint_randomization: true,
            tls_profile: default_tls_profile(),
        }
    }
}

/// Application-surface settings.
#[derive(Debug, Clone, Copy, PartialEq, Eq, Structural)]
pub struct AppConfig {
    pub auto_start: bool,
    pub start_minimized: bool,
    pub minimize_to_tray: bool,
    pub close_to_tray: bool,
}

impl Default for AppConfig {
    /// Defaults: start normally, minimize and close to the tray.
    fn default() -> (r: AppConfig)
        ensures
            r == (AppConfig {
                auto_start: false,
                start_minimized: false,
                minimize_to_tray: true,
                close_to_tray: true,
            }),
    {
        AppConfig {
            auto_start: false,
            start_minimized: false,
            minimize_to_tray: true,
            close_to_tray: true,
        }
    }
}

/// The whole persisted configuration.
#[derive(Debug, Clone)]
pub struct GuiConfig {
    pub basic: BasicConfig,
    pub ech: EchSettings,
    pub advanced: AdvancedConfig,
    pub app: AppConfig,
}

impl Default for GuiConfig {
    /// Every section at its defaults.
    fn default() -> (r: GuiConfig)
        ensures
            r.basic.listen_addr@ == "127.0.0.1:1080"@,
            r.ech.enabled == true,
            r.advanced.enable_yamux == true,
            r.app.minimize_to_tray == true,
    {
        GuiConfig {
            basic: BasicConfig::default(),
            ech: EchSettings::default(),
            advanced: AdvancedConfig::default(),
            app: AppConfig::default(),
        }
    }
}

} // verus!

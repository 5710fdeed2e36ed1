//! The adapter around the opaque TLS/ECH engine: configuration, handshake
//! information, and the ECH strict-mode decision.
//!
//! The engine itself (handshake, record layer, HPKE) is outside this
//! library; the adapter decides what to do with what the engine reports.
//! Strict mode never falls back: a connection that asked for ECH and did
//! not get it is failed hard.

use vstd::prelude::*;

use crate::errors::Error;

verus! {

/// What the TLS engine is asked to do.
#[derive(Debug, Clone)]
pub struct TunnelConfig {
    /// The TLS/SNI/ECH outer name. When `connect_host` is set it stays the
    /// SNI; only the TCP destination changes.
    pub host: String,
    pub port: u16,
    /// Optional TCP destination override; `None` means connect to `host`.
    pub connect_host: Option<String>,
    /// Raw ECHConfig bytes for the engine, if ECH is requested.
    pub ech_config: Option<Vec<u8>>,
    /// Strict mode: refuse the connection if the server does not accept
    /// ECH.
    pub enforce_ech: bool,
    pub use_firefox_profile: bool,
    pub connect_timeout_ms: u32,
    pub handshake_timeout_ms: u32,
}

impl TunnelConfig {
    /// A plain-TLS configuration for `host:port` with the default timeouts.
    pub fn new(host: String, port: u16) -> (r: TunnelConfig)
        ensures
            r.host@ == host@,
            r.port == port,
            r.connect_host is None,
            r.ech_config is None,
            r.enforce_ech == true,
            r.use_firefox_profile == false,
            r.connect_timeout_ms == 10000,
            r.handshake_timeout_ms == 10000,
    {
        TunnelConfig {
            host,
            port,
            connect_host: None,
            ech_config: None,
            enforce_ech: true,
            use_firefox_profile: false,
            connect_timeout_ms: 10000,
            handshake_timeout_ms: 10000,
        }
    }

    /// Ask for ECH with the given raw config, strictly or not.
    pub fn with_ech(self, ech_config: Vec<u8>, enforce: bool) -> (r: TunnelConfig)
        ensures
            r.ech_config matches Some(c) && c@ == ech_config@,
            r.enforce_ech == enforce,
            r.host@ == self.host@,
            r.port == self.port,
            r.connect_host == self.connect_host,
            r.use_firefox_profile == self.use_firefox_profile,
            r.connect_timeout_ms == self.connect_timeout_ms,
            r.handshake_timeout_ms == self.handshake_timeout_ms,
    {
        TunnelConfig { ech_config: Some(ech_config), enforce_ech: enforce, ..self }
    }

    /// Override the TCP destination, keeping `host` as the SNI.
    pub fn with_connect_host(self, connect_host: String) -> (r: TunnelConfig)
        ensures
            r.connect_host matches Some(h) && h@ == connect_host@,
            r.host@ == self.host@,
            r.port == self.port,
            r.ech_config == self.ech_config,
            r.enforce_ech == self.enforce_ech,
    {
        TunnelConfig { connect_host: Some(connect_host), ..self }
    }
}

/// What the engine reports about an established connection.
#[derive(Debug, Clone, Copy, PartialEq, Eq, Structural)]
pub struct ConnectionInfo {
    pub protocol_version: u16,
    pub cipher_suite: u16,
    pub used_ech: bool,
}

impl ConnectionInfo {
    /// The TLS version's name.
    pub fn protocol_name(&self) -> (r: &'static str)
        ensures
            self.protocol_version == 0x0301 ==> r@ == "TLS 1.0"@,
            self.protocol_version == 0x0302 ==> r@ == "TLS 1.1"@,
            self.protocol_version == 0x0303 ==> r@ == "TLS 1.2"@,
            self.protocol_version == 0x0304 ==> r@ == "TLS 1.3"@,
            !(0x0301 <= self.protocol_version <= 0x0304) ==> r@ == "Unknown"@,
    {
        if self.protocol_version == 0x0301 {
            "TLS 1.0"
        } else if self.protocol_version == 0x0302 {
            "TLS 1.1"
        } else if self.protocol_version == 0x0303 {
            "TLS 1.2"
        } else if self.protocol_version == 0x0304 {
            "TLS 1.3"
        } else {
            "Unknown"
        }
    }

    /// The cipher suite's name.
    pub fn cipher_name(&self) -> (r: &'static str)
        ensures
            self.cipher_suite == 0x1301 ==> r@ == "TLS_AES_128_GCM_SHA256"@,
            self.cipher_suite == 0x1302 ==> r@ == "TLS_AES_256_GCM_SHA384"@,
            self.cipher_suite == 0x1303 ==> r@ == "TLS_CHACHA20_POLY1305_SHA256"@,
            !(0x1301 <= self.cipher_suite <= 0x1303) ==> r@ == "Unknown"@,
    {
        if self.cipher_suite == 0x1301 {
            "TLS_AES_128_GCM_SHA256"
        } else if self.cipher_suite == 0x1302 {
            "TLS_AES_256_GCM_SHA384"
        } else if self.cipher_suite == 0x1303 {
            "TLS_CHACHA20_POLY1305_SHA256"
        } else {
            "Unknown"
        }
    }
}

/// Decide the fate of a handshake under the ECH policy: a connection that
/// asked for ECH strictly and was not granted it is failed with
/// `EchNotAccepted`, never downgraded to plain TLS.
pub fn check_ech_policy(enforce_ech: bool, info: &ConnectionInfo) -> (r: Result<(), Error>)
    ensures
        (r is Ok <==> (!enforce_ech || info.used_ech)),
        r matches Err(e) ==> e == Error::EchNotAccepted,
{
    if enforce_ech && !info.used_ech {
        Err(Error::EchNotAccepted)
    } else {
        Ok(())
    }
}

/// ECH strict mode: every connection the policy lets live under
/// `enforce_ech` has `used_ech` reported true; a downgrade is never
/// survived.
pub proof fn lemma_ech_strict_mode(enforce_ech: bool, info: ConnectionInfo, outcome: Result<
    (),
    Error,
>)
    requires
        (outcome is Ok <==> (!enforce_ech || info.used_ech)),
        enforce_ech,
        outcome is Ok,
    ensures
        info.used_ech,
{
}

} // verus!

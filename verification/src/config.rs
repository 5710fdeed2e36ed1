//! The tunnel's configuration snapshot and its validation.
//!
//! Validation normalizes a configuration: empty optional fields take their
//! defaults, and the relay address must parse as `host:port[/path]`.
//! Validation is idempotent — validating a validated configuration changes
//! nothing — and invalid input fails deterministically.

use vstd::prelude::*;

use crate::addr::spec_parse_server_addr;
use crate::errors::Error;

verus! {

/// The immutable configuration snapshot the core runs on.
#[derive(Debug, Clone)]
pub struct Config {
    /// Local listen address for the SOCKS5/HTTP ingress.
    pub listen_addr: String,
    /// Relay address, `host:port[/path]`.
    pub server_addr: String,
    /// Optional TCP destination override; SNI stays `server_addr`'s host.
    pub server_ip: Option<String>,
    /// Bearer token carried as the WebSocket subprotocol.
    pub token: String,
    /// Ask for ECH, strictly.
    pub use_ech: bool,
    /// The domain whose HTTPS record carries the ECH config.
    pub ech_domain: String,
    /// The DoH server used to fetch it.
    pub doh_server: String,
    /// Multiplex streams over one link.
    pub use_yamux: bool,
    /// Randomize the TLS fingerprint.
    pub randomize_fingerprint: bool,
}

/// Mathematical model of a configuration.
pub ghost struct ConfigView {
    pub listen_addr: Seq<char>,
    pub server_addr: Seq<char>,
    pub server_ip: Option<Seq<char>>,
    pub token: Seq<char>,
    pub use_ech: bool,
    pub ech_domain: Seq<char>,
    pub doh_server: Seq<char>,
    pub use_yamux: bool,
    pub randomize_fingerprint: bool,
}

impl View for Config {
    type V = ConfigView;

    open spec fn view(&self) -> ConfigView {
        ConfigView {
            listen_addr: self.listen_addr@,
            server_addr: self.server_addr@,
            server_ip: match &self.server_ip {
                Some(s) => Some(s@),
                None => None,
            },
            token: self.token@,
            use_ech: self.use_ech,
            ech_domain: self.ech_domain@,
            doh_server: self.doh_server@,
            use_yamux: self.use_yamux,
            randomize_fingerprint: self.randomize_fingerprint,
        }
    }
}

/// What validation returns: `None` where the relay address does not parse
/// or the token is empty; otherwise the configuration with empty optional
/// fields defaulted.
pub open spec fn spec_validate(c: ConfigView) -> Option<ConfigView> {
    if spec_parse_server_addr(c.server_addr) is None || c.token.len() == 0 {
        None
    } else {
        Some(
            ConfigView {
                listen_addr: if c.listen_addr.len() == 0 {
                    "127.0.0.1:1080"@
                } else {
                    c.listen_addr
                },
                ech_domain: if c.ech_domain.len() == 0 {
                    "cloudflare-ech.com"@
                } else {
                    c.ech_domain
                },
                doh_server: if c.doh_server.len() == 0 {
                    "223.5.5.5/dns-query"@
                } else {
                    c.doh_server
                },
                ..c
            },
        )
    }
}

impl Config {
    /// Validate and normalize: the relay address must parse and the token
    /// must be present; empty listen address, ECH domain and DoH server
    /// take their defaults. Everything else is kept as it stands.
    pub fn validate(self) -> (r: Result<Config, Error>)
        ensures
            (r is Ok <==> spec_validate(self@) is Some),
            r matches Ok(c) ==> Some(c@) == spec_validate(self@),
            r matches Err(e) ==> e == Error::Config,
    {
        match crate::addr::parse_server_addr(self.server_addr.as_str()) {
            Ok(_) => {},
            Err(_) => {
                return Err(Error::Config);
            },
        }
        if self.token.as_str().unicode_len() == 0 {
            return Err(Error::Config);
        }
        let listen_addr = if self.listen_addr.as_str().unicode_len() == 0 {
            "127.0.0.1:1080".to_owned()
        } else {
            self.listen_addr
        };
        let ech_domain = if self.ech_domain.as_str().unicode_len() == 0 {
            "cloudflare-ech.com".to_owned()
        } else {
            self.ech_domain
        };
        let doh_server = if self.doh_server.as_str().unicode_len() == 0 {
            "223.5.5.5/dns-query".to_owned()
        } else {
            self.doh_server
        };
        Ok(
            Config {
                listen_addr,
                server_addr: self.server_addr,
                server_ip: self.server_ip,
                token: self.token,
                use_ech: self.use_ech,
                ech_domain,
                doh_server,
                use_yamux: self.use_yamux,
                randomize_fingerprint: self.randomize_fingerprint,
            },
        )
    }
}

/// Idempotence of configuration validation: validating a validated
/// configuration returns it unchanged, and an invalid configuration fails
/// the same way every time.
pub proof fn lemma_validate_idempotent(c: ConfigView)
    ensures
        spec_validate(c) matches Some(v) ==> spec_validate(v) == Some(v),
{
    reveal_strlit("127.0.0.1:1080");
    reveal_strlit("cloudflare-ech.com");
    reveal_strlit("223.5.5.5/dns-query");
    match spec_validate(c) {
        Some(v) => {
            assert(v.server_addr == c.server_addr);
            assert(v.token == c.token);
            assert(v.listen_addr.len() > 0);
            assert(v.ech_domain.len() > 0);
            assert(v.doh_server.len() > 0);
        },
        None => {},
    }
}

} // verus!

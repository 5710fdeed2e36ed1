//! Error taxonomy shared by every surface of the library.
//!
//! Per-flow errors (`Protocol`, `Io`, `Timeout`) kill only the affected flow;
//! per-session errors (`Tls`, `EchNotAccepted`, `Dns`) invalidate the shared
//! session. `EchNotAccepted` is never recovered by falling back to plain TLS.

use vstd::prelude::*;

verus! {

/// Error kinds of the tunnel core.
#[derive(Debug, Clone, Copy, PartialEq, Eq, Structural)]
pub enum Error {
    /// Socket or device I/O failed.
    Io,
    /// TLS record-layer or engine failure.
    Tls,
    /// The TLS handshake itself failed.
    TlsHandshakeFailed,
    /// The TCP connection to the relay could not be made.
    ConnectionFailed,
    /// ECH was requested strictly but the server did not accept it.
    EchNotAccepted,
    /// The supplied configuration cannot be used.
    InvalidConfig,
    /// An allocation was refused.
    OutOfMemory,
    /// DNS-over-HTTPS lookup failed or returned nothing usable.
    Dns,
    /// ECHConfigList bytes are malformed.
    Ech,
    /// A peer violated SOCKS5/HTTP/DNS framing.
    Protocol,
    /// A configuration field is malformed.
    Config,
    /// The underlying connection is gone.
    ConnectionClosed,
    /// An operation did not finish in time.
    Timeout,
    /// Anything else.
    Other,
}

impl Error {
    /// A short description, one per kind.
    pub fn message(&self) -> (r: &'static str)
        ensures
            self is Io ==> r@ == "IO error"@,
            self is Tls ==> r@ == "TLS error"@,
            self is TlsHandshakeFailed ==> r@ == "TLS handshake failed"@,
            self is ConnectionFailed ==> r@ == "Connection failed"@,
            self is EchNotAccepted ==> r@ == "ECH not accepted (possible downgrade attack)"@,
            self is InvalidConfig ==> r@ == "Invalid configuration"@,
            self is OutOfMemory ==> r@ == "Out of memory"@,
            self is Dns ==> r@ == "DNS error"@,
            self is Ech ==> r@ == "ECH error"@,
            self is Protocol ==> r@ == "Protocol error"@,
            self is Config ==> r@ == "Configuration error"@,
            self is ConnectionClosed ==> r@ == "Connection closed"@,
            self is Timeout ==> r@ == "Timeout"@,
            self is Other ==> r@ == "Error"@,
    {
        match self {
            Error::Io => "IO error",
            Error::Tls => "TLS error",
            Error::TlsHandshakeFailed => "TLS handshake failed",
            Error::ConnectionFailed => "Connection failed",
            Error::EchNotAccepted => "ECH not accepted (possible downgrade attack)",
            Error::InvalidConfig => "Invalid configuration",
            Error::OutOfMemory => "Out of memory",
            Error::Dns => "DNS error",
            Error::Ech => "ECH error",
            Error::Protocol => "Protocol error",
            Error::Config => "Configuration error",
            Error::ConnectionClosed => "Connection closed",
            Error::Timeout => "Timeout",
            Error::Other => "Error",
        }
    }
}

} // verus!

//! Run-state and traffic statistics reported to the surrounding surface.

use vstd::prelude::*;

use crate::outside::string_push_str;
use crate::textutil::{fmt_u64, fmt_u64_pad2, spec_dec_digits, spec_digit_char};

verus! {

/// The proxy's run state.
#[derive(Debug, Clone, Copy, PartialEq, Eq, Structural)]
pub enum ProxyStatus {
    Stopped,
    Starting,
    Running,
    Stopping,
    Error,
}

impl ProxyStatus {
    /// Whether traffic is being served.
    pub fn is_running(&self) -> (r: bool)
        ensures
            r == (self is Running),
    {
        matches!(self, ProxyStatus::Running)
    }

    /// The state's display label.
    pub fn to_string(&self) -> (r: &'static str)
        ensures
            self is Stopped ==> r@ == "已停止"@,
            self is Starting ==> r@ == "启动中..."@,
            self is Running ==> r@ == "运行中"@,
            self is Stopping ==> r@ == "停止中..."@,
            self is Error ==> r@ == "错误"@,
    {
        match self {
            ProxyStatus::Stopped => "已停止",
            ProxyStatus::Starting => "启动中...",
            ProxyStatus::Running => "运行中",
            ProxyStatus::Stopping => "停止中...",
            ProxyStatus::Error => "错误",
        }
    }
}

/// Log severities.
#[derive(Debug, Clone, Copy, PartialEq, Eq, Structural)]
pub enum LogLevel {
    Trace,
    Debug,
    Info,
    Warn,
    Error,
}

impl LogLevel {
    /// The level's display label.
    pub fn to_string(&self) -> (r: &'static str)
        ensures
            self is Trace ==> r@ == "TRACE"@,
            self is Debug ==> r@ == "DEBUG"@,
            self is Info ==> r@ == "INFO"@,
            self is Warn ==> r@ == "WARN"@,
            self is Error ==> r@ == "ERROR"@,
    {
        match self {
            LogLevel::Trace => "TRACE",
            LogLevel::Debug => "DEBUG",
            LogLevel::Info => "INFO",
            LogLevel::Warn => "WARN",
            LogLevel::Error => "ERROR",
        }
    }
}

/// A two-place decimal field: zero-padded below ten.
pub open spec fn spec_pad2(n: int) -> Seq<char> {
    if n < 10 {
        seq!['0'].push(spec_digit_char(n))
    } else {
        spec_dec_digits(n)
    }
}

/// A value scaled by `unit` to two decimals, rounded half up.
pub open spec fn spec_scaled_hundredths(bytes: int, unit: int) -> int {
    (bytes * 100 + unit / 2) / unit
}

/// Traffic counters. The start instant is a caller-supplied millisecond
/// clock reading.
#[derive(Debug, Clone, Copy, PartialEq, Eq, Structural, Default)]
pub struct Statistics {
    pub upload_bytes: u64,
    pub download_bytes: u64,
    pub active_connections: usize,
    pub total_connections: u64,
    pub start_time_ms: Option<u64>,
}

impl Statistics {
    /// Zeroed counters, clock unset.
    pub fn new() -> (r: Statistics)
        ensures
            r == (Statistics {
                upload_bytes: 0,
                download_bytes: 0,
                active_connections: 0,
                total_connections: 0,
                start_time_ms: None,
            }),
    {
        Statistics {
            upload_bytes: 0,
            download_bytes: 0,
            active_connections: 0,
            total_connections: 0,
            start_time_ms: None,
        }
    }

    /// Clear everything.
    pub fn reset(&mut self)
        ensures
            *final(self) == (Statistics {
                upload_bytes: 0,
                download_bytes: 0,
                active_connections: 0,
                total_connections: 0,
                start_time_ms: None,
            }),
    {
        self.upload_bytes = 0;
        self.download_bytes = 0;
        self.active_connections = 0;
        self.total_connections = 0;
        self.start_time_ms = None;
    }

    /// Milliseconds run so far, zero when never started or when the clock
    /// reads earlier than the start.
    pub fn uptime(&self, now_ms: u64) -> (r: u64)
        ensures
            r == match self.start_time_ms {
                Some(t) => if now_ms >= t {
                    (now_ms - t) as int
                } else {
                    0
                },
                None => 0,
            },
    {
        match self.start_time_ms {
            Some(t) => if now_ms >= t {
                now_ms - t
            } else {
                0
            },
            None => 0,
        }
    }

    /// Format a byte count with a binary-unit suffix, two decimals,
    /// rounded half up: `GB` above 2^30, `MB` above 2^20, `KB` above 2^10,
    /// else plain bytes.
    pub fn format_bytes(bytes: u64) -> (r: String)
        ensures
            bytes >= 0x40000000 ==> r@ == spec_scaled_string(bytes as int, 0x40000000) + " GB"@,
            (0x100000 <= bytes < 0x40000000) ==> r@ == spec_scaled_string(bytes as int, 0x100000)
                + " MB"@,
            (0x400 <= bytes < 0x100000) ==> r@ == spec_scaled_string(bytes as int, 0x400)
                + " KB"@,
            bytes < 0x400 ==> r@ == spec_dec_digits(bytes as int) + " B"@,
    {
        if bytes >= 0x40000000 {
            let mut s = scaled_string(bytes, 0x40000000);
            string_push_str(&mut s, " GB");
            s
        } else if bytes >= 0x100000 {
            let mut s = scaled_string(bytes, 0x100000);
            string_push_str(&mut s, " MB");
            s
        } else if bytes >= 0x400 {
            let mut s = scaled_string(bytes, 0x400);
            string_push_str(&mut s, " KB");
            s
        } else {
            let mut s = fmt_u64(bytes);
            string_push_str(&mut s, " B");
            s
        }
    }

    /// Format a run time given in seconds: `HH:MM:SS` once an hour has
    /// passed, else `MM:SS`, each field two places.
    pub fn format_uptime(secs: u64) -> (r: String)
        ensures
            ({
                let hours = secs as int / 3600;
                let minutes = (secs as int % 3600) / 60;
                let seconds = secs as int % 60;
                if hours > 0 {
                    r@ == spec_pad2(hours) + ":"@ + spec_pad2(minutes) + ":"@ + spec_pad2(seconds)
                } else {
                    r@ == spec_pad2(minutes) + ":"@ + spec_pad2(seconds)
                }
            }),
    {
        let hours = secs / 3600;
        let minutes = (secs % 3600) / 60;
        let seconds = secs % 60;
        let mut s = String::new();
        if hours > 0 {
            let h = fmt_u64_pad2(hours);
            string_push_str(&mut s, h.as_str());
            string_push_str(&mut s, ":");
        }
        let m = fmt_u64_pad2(minutes);
        string_push_str(&mut s, m.as_str());
        string_push_str(&mut s, ":");
        let sec = fmt_u64_pad2(seconds);
        string_push_str(&mut s, sec.as_str());
        proof {
            if hours > 0 {
                assert(s@ =~= spec_pad2(hours as int) + ":"@ + spec_pad2(minutes as int)
                    + ":"@ + spec_pad2(seconds as int));
            } else {
                assert(s@ =~= spec_pad2(minutes as int) + ":"@ + spec_pad2(seconds as int));
            }
        }
        s
    }
}

/// The two-decimal rendering of a scaled value: whole part, a dot, then
/// the hundredths zero-padded.
pub open spec fn spec_scaled_string(bytes: int, unit: int) -> Seq<char> {
    let s = spec_scaled_hundredths(bytes, unit);
    spec_dec_digits(s / 100) + "."@ + spec_pad2(s % 100)
}

/// Render `bytes / unit` with two decimals, rounded half up.
fn scaled_string(bytes: u64, unit: u64) -> (r: String)
    requires
        unit >= 1024,
    ensures
        r@ == spec_scaled_string(bytes as int, unit as int),
{
    let wide: u128 = (bytes as u128) * 100 + (unit as u128) / 2;
    let scaled: u128 = wide / (unit as u128);
    proof {
        assert(wide < 0x1000000000000000000000000);
        vstd::arithmetic::div_mod::lemma_div_is_ordered_by_denominator(
            wide as int,
            1024,
            unit as int,
        );
        vstd::arithmetic::div_mod::lemma_div_is_ordered(
            wide as int,
            0x1000000000000000000000000int,
            1024,
        );
        assert(scaled <= 0x1000000000000000000000000int / 1024);
        assert(scaled == spec_scaled_hundredths(bytes as int, unit as int));
    }
    let whole: u64 = (scaled / 100) as u64;
    let frac: u64 = (scaled % 100) as u64;
    proof {
        assert(whole == spec_scaled_hundredths(bytes as int, unit as int) / 100);
        assert(frac == spec_scaled_hundredths(bytes as int, unit as int) % 100);
    }
    let mut s = fmt_u64(whole);
    string_push_str(&mut s, ".");
    let f = fmt_u64_pad2(frac);
    string_push_str(&mut s, f.as_str());
    proof {
        assert(s@ =~= spec_scaled_string(bytes as int, unit as int));
    }
    s
}

} // verus!

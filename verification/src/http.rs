//! HTTP CONNECT parsing for the ingress, over the raw request head.
//!
//! Only `CONNECT host:port` is served; the host travels verbatim so the
//! relay can resolve it itself. 200 on success, 405 for other methods,
//! 502 when the upstream dial fails.

use vstd::prelude::*;

use crate::errors::Error;
use crate::outside::string_from_ascii;
use crate::socks5::TargetAddr;

verus! {

/// The request-line bytes `CONNECT `.
pub open spec fn spec_connect_prefix() -> Seq<u8> {
    seq![0x43u8, 0x4fu8, 0x4eu8, 0x4eu8, 0x45u8, 0x43u8, 0x54u8, 0x20u8]
}

/// Where the request target ends: the next space, CR or LF at or after
/// `off`, or the end.
pub open spec fn spec_token_end(s: Seq<u8>, off: int) -> int
    decreases s.len() - off,
{
    if off < 0 || off >= s.len() {
        s.len() as int
    } else if s[off] == 0x20 || s[off] == 0x0d || s[off] == 0x0a {
        off
    } else {
        spec_token_end(s, off + 1)
    }
}

/// The last colon strictly before `end`, scanning back from `end - 1`;
/// `-1` if none.
pub open spec fn spec_last_colon(s: Seq<u8>, from: int, end: int) -> int
    decreases end - from,
{
    if end <= from {
        -1
    } else if s[end - 1] == 0x3a {
        end - 1
    } else {
        spec_last_colon(s, from, end - 1)
    }
}

/// What `parse_connect_request` accepts: the head starts with `CONNECT `,
/// the target token has a colon splitting a non-empty ASCII host from a
/// port that parses.
pub open spec fn spec_parse_connect(head: Seq<u8>) -> Option<(Seq<u8>, u16)> {
    if head.len() < 8 || head.take(8) != spec_connect_prefix() {
        None
    } else {
        let end = spec_token_end(head, 8);
        let colon = spec_last_colon(head, 8, end);
        if colon <= 8 {
            None
        } else if exists|i: int| 8 <= i < colon && head[i] >= 0x80 {
            None
        } else {
            let host = head.subrange(8, colon);
            let port_bytes = head.subrange(colon + 1, end);
            match crate::textutil::spec_parse_u16(port_bytes.map_values(|b: u8| b as char)) {
                Some(port) => Some((host, port)),
                None => None,
            }
        }
    }
}

/// Parse the head of an HTTP request as a CONNECT.
///
/// Returns the domain target; any other method, a missing port, or a
/// non-ASCII host is a protocol violation. The caller drains the remaining
/// headers (up to its cap) before relaying.
pub fn parse_connect_request(head: &[u8]) -> (r: Result<TargetAddr, Error>)
    ensures
        (r is Ok <==> spec_parse_connect(head@) is Some),
        r matches Ok(t) ==> (spec_parse_connect(head@) matches Some(p) && t matches
            TargetAddr::Domain(h, port) && h@.map_values(|c: char| c as u8) == p.0 && port == p.1),
        r matches Err(e) ==> e == Error::Protocol,
{
    let prefix: [u8; 8] = [0x43, 0x4f, 0x4e, 0x4e, 0x45, 0x43, 0x54, 0x20];
    if head.len() < 8 {
        return Err(Error::Protocol);
    }
    let mut i: usize = 0;
    while i < 8
        invariant
            i <= 8,
            head@.len() >= 8,
            prefix@ == spec_connect_prefix(),
            forall|j: int| 0 <= j < i ==> head@[j] == spec_connect_prefix()[j],
        decreases 8 - i,
    {
        if head[i] != prefix[i] {
            proof {
                assert(head@.take(8)[i as int] == head@[i as int]);
                assert(head@.take(8) != spec_connect_prefix());
            }
            return Err(Error::Protocol);
        }
        i = i + 1;
    }
    proof {
        assert(head@.take(8) =~= spec_connect_prefix());
    }
    let n = head.len();
    let mut end: usize = 8;
    while end < n && head[end] != 0x20 && head[end] != 0x0d && head[end] != 0x0a
        invariant
            8 <= end <= n,
            n == head@.len(),
            spec_token_end(head@, 8) == spec_token_end(head@, end as int),
        decreases n - end,
    {
        end = end + 1;
    }
    proof {
        assert(spec_token_end(head@, end as int) == end);
    }
    let mut colon: usize = end;
    let mut found = false;
    while colon > 8 && !found
        invariant
            8 <= colon <= end <= n,
            n == head@.len(),
            !found ==> spec_last_colon(head@, 8, end as int) == spec_last_colon(
                head@,
                8,
                colon as int,
            ),
            found ==> colon < end && head@[colon as int] == 0x3a && spec_last_colon(
                head@,
                8,
                end as int,
            ) == colon,
        decreases colon,
    {
        if head[colon - 1] == 0x3a {
            colon = colon - 1;
            found = true;
        } else {
            colon = colon - 1;
        }
    }
    if !found {
        proof {
            assert(colon == 8);
            assert(spec_last_colon(head@, 8, colon as int) == -1);
            assert(spec_last_colon(head@, 8, spec_token_end(head@, 8)) == -1);
            assert(spec_parse_connect(head@) is None);
        }
        return Err(Error::Protocol);
    }
    if colon <= 8 {
        return Err(Error::Protocol);
    }
    let mut host_bytes: Vec<u8> = Vec::new();
    let mut k: usize = 8;
    while k < colon
        invariant
            8 <= k <= colon <= n,
            n == head@.len(),
            head@.take(8) == spec_connect_prefix(),
            spec_token_end(head@, 8) == end,
            colon <= end <= n,
            spec_last_colon(head@, 8, end as int) == colon,
            8 < colon,
            host_bytes@ == head@.subrange(8, k as int),
            forall|j: int| 0 <= j < host_bytes@.len() ==> host_bytes@[j] < 0x80,
        decreases colon - k,
    {
        let b = head[k];
        if b >= 0x80 {
            proof {
                assert(head@[k as int] >= 0x80);
                assert(exists|j: int| 8 <= j < colon && head@[j] >= 0x80);
            }
            return Err(Error::Protocol);
        }
        host_bytes.push(b);
        proof {
            assert(host_bytes@ =~= head@.subrange(8, k as int + 1));
        }
        k = k + 1;
    }
    let mut port_chars: Vec<char> = Vec::new();
    let mut k2: usize = colon + 1;
    while k2 < end
        invariant
            colon + 1 <= k2 <= end <= n,
            n == head@.len(),
            port_chars@ == head@.subrange(colon + 1, k2 as int).map_values(|b: u8| b as char),
        decreases end - k2,
    {
        port_chars.push(head[k2] as char);
        proof {
            assert(port_chars@ =~= head@.subrange(colon + 1, k2 as int + 1).map_values(
                |b: u8| b as char,
            ));
        }
        k2 = k2 + 1;
    }
    let port = match crate::textutil::parse_u16_chars(&port_chars) {
        Some(p) => p,
        None => {
            return Err(Error::Protocol);
        },
    };
    let host = string_from_ascii(&host_bytes);
    proof {
        assert(forall|j: int| 8 <= j < colon ==> head@[j] == host_bytes@[j - 8]);
        assert(!(exists|j: int| 8 <= j < colon && head@[j] >= 0x80));
        assert(host@.map_values(|c: char| c as u8) =~= host_bytes@) by {
            assert(forall|j: int|
                0 <= j < host_bytes@.len() ==> #[trigger] host@[j] == (host_bytes@[j] as char));
        }
    }
    Ok(TargetAddr::Domain(host, port))
}

/// The `200 Connection Established` reply.
pub fn build_connect_response() -> (r: Vec<u8>)
    ensures
        r@ == "HTTP/1.1 200 Connection Established\r\n\r\n"@.map_values(|c: char| c as u8),
{
    let s = "HTTP/1.1 200 Connection Established\r\n\r\n";
    proof {
        broadcast use vstd::string::is_ascii_spec_bytes;

        reveal_strlit("HTTP/1.1 200 Connection Established\r\n\r\n");
        assert(vstd::string::is_ascii(s));
    }
    let v = vstd::slice::slice_to_vec(s.as_bytes());
    proof {
        assert(v@ =~= "HTTP/1.1 200 Connection Established\r\n\r\n"@.map_values(|c: char| c as u8));
    }
    v
}

/// The `405 Method Not Allowed` reply for any method but CONNECT.
pub fn build_method_not_allowed() -> (r: Vec<u8>)
    ensures
        r@ == "HTTP/1.1 405 Method Not Allowed\r\n\r\n"@.map_values(|c: char| c as u8),
{
    let s = "HTTP/1.1 405 Method Not Allowed\r\n\r\n";
    proof {
        broadcast use vstd::string::is_ascii_spec_bytes;

        reveal_strlit("HTTP/1.1 405 Method Not Allowed\r\n\r\n");
        assert(vstd::string::is_ascii(s));
    }
    let v = vstd::slice::slice_to_vec(s.as_bytes());
    proof {
        assert(v@ =~= "HTTP/1.1 405 Method Not Allowed\r\n\r\n"@.map_values(|c: char| c as u8));
    }
    v
}

/// The `502 Bad Gateway` reply for a failed upstream dial.
pub fn build_bad_gateway() -> (r: Vec<u8>)
    ensures
        r@ == "HTTP/1.1 502 Bad Gateway\r\n\r\n"@.map_values(|c: char| c as u8),
{
    let s = "HTTP/1.1 502 Bad Gateway\r\n\r\n";
    proof {
        broadcast use vstd::string::is_ascii_spec_bytes;

        reveal_strlit("HTTP/1.1 502 Bad Gateway\r\n\r\n");
        assert(vstd::string::is_ascii(s));
    }
    let v = vstd::slice::slice_to_vec(s.as_bytes());
    proof {
        assert(v@ =~= "HTTP/1.1 502 Bad Gateway\r\n\r\n"@.map_values(|c: char| c as u8));
    }
    v
}

} // verus!

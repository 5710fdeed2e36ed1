//! DNS-over-HTTPS query building and answer parsing for ECH discovery.
//!
//! The query asks for the HTTPS record (type 65) of the relay's domain;
//! the answer walk extracts the first `ech` SvcParam (key 5). Performing
//! the GET is the caller's work — that request must never loop back
//! through the tunnel being established.

use vstd::prelude::*;
use vstd::string::StrSliceExecFns;
use vstd::string::StringSliceAdditionalSpecFns;

use crate::dns::{encode_name_bytes, spec_encode_name, spec_name_ok};
use crate::errors::Error;
use crate::net::{spec_u16_from_be, u16_from_be};
use crate::outside::string_push_str;

verus! {

/// The HTTPS resource record type.
pub const TYPE_HTTPS: u16 = 65;

/// The `ech` SvcParam key.
pub const SVCPARAM_ECH: u16 = 5;

/// The DNS query sent over DoH: transaction ID 1, RD set, one question for
/// `domain` with the given type, class IN.
pub open spec fn spec_dns_query(name: Seq<u8>, qtype: u16) -> Seq<u8> {
    seq![0x00u8, 0x01u8, 0x01u8, 0x00u8, 0x00u8, 0x01u8, 0x00u8, 0x00u8, 0x00u8, 0x00u8, 0x00u8,
        0x00u8] + spec_encode_name(name) + seq![
        0x00u8,
        (qtype / 0x100) as u8,
        (qtype % 0x100) as u8,
        0x00u8,
        0x01u8,
    ]
}

/// Build the DNS query for `domain` with the given record type.
pub fn build_dns_query(domain: &str, qtype: u16) -> (r: Vec<u8>)
    requires
        vstd::string::is_ascii(domain),
        spec_name_ok(domain.spec_bytes()),
        domain@.len() <= 255,
    ensures
        r@ == spec_dns_query(domain.spec_bytes(), qtype),
{
    proof {
        broadcast use vstd::string::is_ascii_spec_bytes;

    }
    let mut query: Vec<u8> = Vec::new();
    query.push(0x00);
    query.push(0x01);
    query.push(0x01);
    query.push(0x00);
    query.push(0x00);
    query.push(0x01);
    query.push(0x00);
    query.push(0x00);
    query.push(0x00);
    query.push(0x00);
    query.push(0x00);
    query.push(0x00);
    let mut name = encode_name_bytes(domain.as_bytes());
    query.append(&mut name);
    query.push(0x00);
    query.push((qtype / 0x100) as u8);
    query.push((qtype % 0x100) as u8);
    query.push(0x00);
    query.push(0x01);
    proof {
        assert(query@ =~= spec_dns_query(domain.spec_bytes(), qtype));
    }
    query
}

/// Where the scan of an uncompressed name ends: step label by label until
/// a zero byte or the end of the packet.
pub open spec fn spec_skip_name(data: Seq<u8>, off: int) -> int
    decreases data.len() - off,
{
    if off < 0 || off >= data.len() {
        off
    } else if data[off] == 0 {
        off
    } else if off + data[off] + 1 >= data.len() {
        off + data[off] + 1
    } else {
        spec_skip_name(data, off + data[off] + 1)
    }
}

/// The first `ech` SvcParam value in an HTTPS record's SvcParam list.
pub open spec fn spec_scan_svcparams(data: Seq<u8>, off: int) -> Option<Seq<u8>>
    decreases data.len() - off,
{
    if off < 0 || off + 4 > data.len() {
        None
    } else {
        let key = spec_u16_from_be(data[off], data[off + 1]);
        let vlen = spec_u16_from_be(data[off + 2], data[off + 3]) as int;
        if off + 4 + vlen > data.len() {
            None
        } else if key == SVCPARAM_ECH {
            Some(data.subrange(off + 4, off + 4 + vlen))
        } else {
            spec_scan_svcparams(data, off + 4 + vlen)
        }
    }
}

/// The `ech` SvcParam of one HTTPS record: skip the priority and target
/// name, then walk the SvcParams.
pub open spec fn spec_parse_https_record(data: Seq<u8>) -> Option<Seq<u8>> {
    if data.len() < 2 {
        None
    } else {
        spec_scan_svcparams(data, spec_skip_name(data, 2) + 1)
    }
}

/// Walk `count` answer records from `off`, returning the first HTTPS
/// record whose SvcParams carry an `ech` value.
pub open spec fn spec_scan_answers(data: Seq<u8>, off: int, count: int) -> Option<Seq<u8>>
    decreases count,
{
    if count <= 0 || off < 0 || off >= data.len() {
        None
    } else {
        let off1 = if data[off] & 0xC0 == 0xC0 {
            off + 2
        } else {
            spec_skip_name(data, off) + 1
        };
        if off1 + 10 > data.len() {
            None
        } else {
            let rr_type = spec_u16_from_be(data[off1], data[off1 + 1]);
            let dlen = spec_u16_from_be(data[off1 + 8], data[off1 + 9]) as int;
            let off2 = off1 + 10;
            if off2 + dlen > data.len() {
                None
            } else {
                let rdata = data.subrange(off2, off2 + dlen);
                if rr_type == TYPE_HTTPS && spec_parse_https_record(rdata) is Some {
                    spec_parse_https_record(rdata)
                } else {
                    spec_scan_answers(data, off2 + dlen, count - 1)
                }
            }
        }
    }
}

/// The ECH config a whole DoH answer yields: at least a header, at least
/// one answer, question section skipped, answers walked in order.
pub open spec fn spec_parse_dns_response(data: Seq<u8>) -> Option<Seq<u8>> {
    if data.len() < 12 {
        None
    } else if spec_u16_from_be(data[6], data[7]) == 0 {
        None
    } else {
        spec_scan_answers(
            data,
            spec_skip_name(data, 12) + 5,
            spec_u16_from_be(data[6], data[7]) as int,
        )
    }
}

/// Skip an uncompressed name starting at `off`.
fn skip_name(data: &[u8], off: usize) -> (r: usize)
    requires
        off <= data@.len(),
        data@.len() <= 0xffff,
    ensures
        r == spec_skip_name(data@, off as int),
        off <= r <= data@.len() + 256,
{
    let len = data.len();
    let mut pos = off;
    while pos < len && data[pos] != 0
        invariant
            off <= pos <= len + 256,
            len == data@.len(),
            len <= 0xffff,
            spec_skip_name(data@, off as int) == spec_skip_name(data@, pos as int),
        decreases len + 256 - pos,
    {
        pos = pos + data[pos] as usize + 1;
    }
    proof {
        assert(spec_skip_name(data@, pos as int) == pos);
    }
    pos
}

/// Extract the `ech` SvcParam from one HTTPS record's data, if present.
pub fn parse_https_record(data: &[u8]) -> (r: Option<Vec<u8>>)
    requires
        data@.len() <= 0xffff,
    ensures
        match r {
            Some(v) => spec_parse_https_record(data@) == Some(v@),
            None => spec_parse_https_record(data@) is None,
        },
{
    if data.len() < 2 {
        return None;
    }
    let after_name = skip_name(data, 2);
    let mut off: usize = if after_name >= data.len() {
        proof {
            assert(spec_scan_svcparams(data@, after_name + 1) is None);
        }
        return None;
    } else {
        after_name + 1
    };
    let len = data.len();
    loop
        invariant_except_break
            off <= len + 1,
            len == data@.len() <= 0xffff,
            spec_parse_https_record(data@) == spec_scan_svcparams(data@, off as int),
        ensures
            spec_parse_https_record(data@) is None,
        decreases len - off,
    {
        if off + 4 > len {
            proof {
                assert(spec_scan_svcparams(data@, off as int) is None);
            }
            break;
        }
        let key = u16_from_be(data[off], data[off + 1]);
        let vlen = u16_from_be(data[off + 2], data[off + 3]) as usize;
        if vlen > len - off - 4 {
            proof {
                assert(spec_scan_svcparams(data@, off as int) is None);
            }
            break;
        }
        if key == SVCPARAM_ECH {
            let v = vstd::slice::slice_to_vec(
                vstd::slice::slice_subrange(data, off + 4, off + 4 + vlen),
            );
            proof {
                assert(v@ =~= data@.subrange(off as int + 4, off as int + 4 + vlen as int));
            }
            return Some(v);
        }
        off = off + 4 + vlen;
    }
    None
}

/// Walk a DoH answer for the first ECH config.
///
/// Fails with `Dns` exactly where the walk does: a short response, no
/// answers, or no HTTPS record carrying an `ech` SvcParam.
pub fn parse_dns_response(response: &[u8]) -> (r: Result<Vec<u8>, Error>)
    requires
        response@.len() <= 0xffff,
    ensures
        (r is Ok <==> spec_parse_dns_response(response@) is Some),
        r matches Ok(v) ==> spec_parse_dns_response(response@) == Some(v@),
        r matches Err(e) ==> e == Error::Dns,
{
    let len = response.len();
    if len < 12 {
        return Err(Error::Dns);
    }
    let ancount = u16_from_be(response[6], response[7]);
    if ancount == 0 {
        return Err(Error::Dns);
    }
    let after_q = skip_name(response, 12);
    let mut off: usize = after_q + 5;
    let mut remaining: u16 = ancount;
    loop
        invariant_except_break
            len == response@.len() <= 0xffff,
            off <= len + 300,
            remaining <= ancount,
            spec_parse_dns_response(response@) == spec_scan_answers(
                response@,
                off as int,
                remaining as int,
            ),
        ensures
            spec_parse_dns_response(response@) is None,
        decreases remaining,
    {
        if remaining == 0 || off >= len {
            proof {
                assert(spec_scan_answers(response@, off as int, remaining as int) is None);
            }
            break;
        }
        let off1: usize = if response[off] & 0xC0 == 0xC0 {
            off + 2
        } else {
            skip_name(response, off) + 1
        };
        if off1 > len || 10 > len - off1 {
            proof {
                assert(spec_scan_answers(response@, off as int, remaining as int) is None);
            }
            break;
        }
        let rr_type = u16_from_be(response[off1], response[off1 + 1]);
        let dlen = u16_from_be(response[off1 + 8], response[off1 + 9]) as usize;
        let off2 = off1 + 10;
        if dlen > len - off2 {
            proof {
                assert(spec_scan_answers(response@, off as int, remaining as int) is None);
            }
            break;
        }
        let rdata = vstd::slice::slice_subrange(response, off2, off2 + dlen);
        proof {
            assert(rdata@ =~= response@.subrange(off2 as int, off2 as int + dlen as int));
        }
        if rr_type == TYPE_HTTPS {
            match parse_https_record(rdata) {
                Some(ech) => {
                    return Ok(ech);
                },
                None => {},
            }
        }
        off = off2 + dlen;
        remaining = remaining - 1;
    }
    Err(Error::Dns)
}

/// The URL a DoH GET uses: the server (given an `https://` scheme if it
/// has none), trailing `?` and `&` trimmed, then `?dns=` or `&dns=` and
/// the base64url query.
pub open spec fn spec_doh_url(server: Seq<char>, b64: Seq<char>) -> Seq<char> {
    let base = if server.len() >= 4 && server[0] == 'h' && server[1] == 't' && server[2] == 't'
        && server[3] == 'p' {
        server
    } else {
        "https://"@ + server
    };
    let sep = if crate::addr::spec_find_char(base, '?') < base.len() {
        "&"@
    } else {
        "?"@
    };
    spec_trim_trailing(spec_trim_trailing(base, '?'), '&') + sep + "dns="@ + b64
}

/// `s` without its trailing copies of `c`.
pub open spec fn spec_trim_trailing(s: Seq<char>, c: char) -> Seq<char>
    decreases s.len(),
{
    if s.len() > 0 && s.last() == c {
        spec_trim_trailing(s.drop_last(), c)
    } else {
        s
    }
}

/// Find how much of `s` remains after trimming trailing copies of `c`.
fn trimmed_len(s: &str, c: char) -> (r: usize)
    ensures
        r <= s@.len(),
        s@.take(r as int) == spec_trim_trailing(s@, c),
{
    let n = s.unicode_len();
    proof {
        assert(s@.take(n as int) =~= s@);
    }
    let mut end = n;
    while end > 0 && s.get_char(end - 1) == c
        invariant
            end <= n,
            n == s@.len(),
            spec_trim_trailing(s@, c) == spec_trim_trailing(s@.take(end as int), c),
        decreases end,
    {
        proof {
            assert(s@.take(end as int).last() == c);
            assert(s@.take(end as int).drop_last() =~= s@.take(end - 1));
        }
        end = end - 1;
    }
    proof {
        if end > 0 {
            assert(s@.take(end as int).last() == s@[end - 1]);
        }
        assert(spec_trim_trailing(s@.take(end as int), c) == s@.take(end as int));
    }
    end
}

/// Compose the whole DoH request URL for a domain's HTTPS record: build
/// the DNS query, base64url-encode it without padding, and attach it to
/// the server's URL as the `dns` parameter.
pub fn build_doh_request(domain: &str, doh_server: &str) -> (r: String)
    requires
        vstd::string::is_ascii(domain),
        spec_name_ok(domain.spec_bytes()),
        domain@.len() <= 255,
    ensures
        r@ == spec_doh_url(
            doh_server@,
            crate::outside::b64url_of(spec_dns_query(domain.spec_bytes(), TYPE_HTTPS)),
        ),
{
    let query = build_dns_query(domain, TYPE_HTTPS);
    let encoded = crate::outside::b64url_encode(query.as_slice());
    build_doh_url(doh_server, encoded.as_str())
}

/// Build the DoH GET URL for an encoded query.
pub fn build_doh_url(doh_server: &str, b64_query: &str) -> (r: String)
    ensures
        r@ == spec_doh_url(doh_server@, b64_query@),
{
    let n = doh_server.unicode_len();
    let has_scheme = n >= 4 && doh_server.get_char(0) == 'h' && doh_server.get_char(1) == 't'
        && doh_server.get_char(2) == 't' && doh_server.get_char(3) == 'p';
    let mut base = String::new();
    if !has_scheme {
        string_push_str(&mut base, "https://");
    }
    string_push_str(&mut base, doh_server);
    let ghost base_v = if has_scheme {
        doh_server@
    } else {
        "https://"@ + doh_server@
    };
    proof {
        assert(base@ =~= base_v);
    }
    let qpos = crate::addr::find_char(base.as_str(), '?');
    let has_query = qpos < base.as_str().unicode_len();
    let e1 = trimmed_len(base.as_str(), '?');
    let t1: &str = base.as_str().substring_char(0, e1);
    proof {
        assert(t1@ =~= base_v.take(e1 as int));
        assert(t1@ =~= spec_trim_trailing(base_v, '?'));
    }
    let e2 = trimmed_len(t1, '&');
    let t2: &str = t1.substring_char(0, e2);
    proof {
        assert(t2@ =~= t1@.take(e2 as int));
        assert(t2@ =~= spec_trim_trailing(spec_trim_trailing(base_v, '?'), '&'));
    }
    let mut url = String::new();
    string_push_str(&mut url, t2);
    if has_query {
        string_push_str(&mut url, "&");
    } else {
        string_push_str(&mut url, "?");
    }
    string_push_str(&mut url, "dns=");
    string_push_str(&mut url, b64_query);
    proof {
        assert(url@ =~= spec_doh_url(doh_server@, b64_query@));
    }
    url
}

} // verus!

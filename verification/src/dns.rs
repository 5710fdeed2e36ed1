//! DNS wire handling for the intercepted path: query parsing and the
//! synthesized responses FakeDNS serves.
//!
//! A records answer with a pool IPv4, AAAA with its fc00::/96 image, both
//! with a 1-second TTL so client caches cannot outlive the mapping. HTTPS
//! (type 65) queries get NOERROR with no answers — the client must not
//! learn the origin's ECH config and bypass the tunnel. Everything else is
//! NXDOMAIN. Malformed queries are dropped.

use vstd::prelude::*;
use vstd::string::StrSliceExecFns;
use vstd::string::StringSliceAdditionalSpecFns;

use crate::errors::Error;
use crate::fake_dns::{spec_normalize_domain, FakeDnsPool, DNS_TTL_SECONDS, IPV6_FAKE_PREFIX};
use crate::net::{spec_u16_from_be, Ipv4Address, Ipv6Address};
use crate::outside::string_from_ascii;

verus! {

/// DNS record type 65 (HTTPS RR).
pub const DNS_TYPE_HTTPS: u16 = 65;

/// DNS query types this interceptor distinguishes.
#[derive(Debug, Clone, Copy, PartialEq, Eq, Structural)]
pub enum DnsQueryType {
    A,
    AAAA,
    CNAME,
    MX,
    TXT,
    NS,
    SOA,
    PTR,
    Unknown(u16),
}

/// The query type a wire value decodes to.
pub open spec fn spec_qtype_of(value: u16) -> DnsQueryType {
    if value == 1 {
        DnsQueryType::A
    } else if value == 28 {
        DnsQueryType::AAAA
    } else if value == 5 {
        DnsQueryType::CNAME
    } else if value == 15 {
        DnsQueryType::MX
    } else if value == 16 {
        DnsQueryType::TXT
    } else if value == 2 {
        DnsQueryType::NS
    } else if value == 6 {
        DnsQueryType::SOA
    } else if value == 12 {
        DnsQueryType::PTR
    } else {
        DnsQueryType::Unknown(value)
    }
}

impl DnsQueryType {
    /// Decode a wire value.
    pub fn from_u16(value: u16) -> (r: DnsQueryType)
        ensures
            r == spec_qtype_of(value),
    {
        if value == 1 {
            DnsQueryType::A
        } else if value == 28 {
            DnsQueryType::AAAA
        } else if value == 5 {
            DnsQueryType::CNAME
        } else if value == 15 {
            DnsQueryType::MX
        } else if value == 16 {
            DnsQueryType::TXT
        } else if value == 2 {
            DnsQueryType::NS
        } else if value == 6 {
            DnsQueryType::SOA
        } else if value == 12 {
            DnsQueryType::PTR
        } else {
            DnsQueryType::Unknown(value)
        }
    }

    /// The wire value of the query type.
    pub fn to_u16(&self) -> (r: u16)
        ensures
            r == self.spec_to_u16(),
    {
        match self {
            DnsQueryType::A => 1,
            DnsQueryType::AAAA => 28,
            DnsQueryType::CNAME => 5,
            DnsQueryType::MX => 15,
            DnsQueryType::TXT => 16,
            DnsQueryType::NS => 2,
            DnsQueryType::SOA => 6,
            DnsQueryType::PTR => 12,
            DnsQueryType::Unknown(v) => *v,
        }
    }

    /// The wire value of the query type.
    pub open spec fn spec_to_u16(&self) -> u16 {
        match self {
            DnsQueryType::A => 1,
            DnsQueryType::AAAA => 28,
            DnsQueryType::CNAME => 5,
            DnsQueryType::MX => 15,
            DnsQueryType::TXT => 16,
            DnsQueryType::NS => 2,
            DnsQueryType::SOA => 6,
            DnsQueryType::PTR => 12,
            DnsQueryType::Unknown(v) => *v,
        }
    }
}

/// A parsed DNS question.
#[derive(Debug, Clone)]
pub struct DnsQuery {
    /// Transaction ID.
    pub id: u16,
    /// The queried name, labels joined with dots.
    pub name: String,
    pub qtype: DnsQueryType,
    pub qclass: u16,
}

/// A raw DNS response paired with its transaction ID.
#[derive(Debug, Clone)]
pub struct DnsResponse {
    pub id: u16,
    pub data: Vec<u8>,
}

/// The name bytes read from `data` starting at `pos`: labels joined with
/// dots, and the index just past the terminating zero. `None` where the
/// name is truncated, uses compression (labels over 63), or is not ASCII.
pub open spec fn spec_parse_qname(data: Seq<u8>, pos: int) -> Option<(Seq<u8>, int)>
    decreases data.len() - pos,
{
    if pos < 0 || pos >= data.len() {
        None
    } else {
        let l = data[pos] as int;
        if l == 0 {
            Some((Seq::empty(), pos + 1))
        } else if l > 63 {
            None
        } else if pos + 1 + l > data.len() {
            None
        } else if exists|j: int| pos + 1 <= j < pos + 1 + l && data[j] >= 0x80 {
            None
        } else {
            match spec_parse_qname(data, pos + 1 + l) {
                None => None,
                Some((rest, end)) => Some(
                    (
                        if rest.len() == 0 {
                            data.subrange(pos + 1, pos + 1 + l)
                        } else {
                            data.subrange(pos + 1, pos + 1 + l) + seq![46u8] + rest
                        },
                        end,
                    ),
                ),
            }
        }
    }
}

/// What `parse_query` accepts: a 12-byte header, one question whose name
/// parses, and four more bytes of type and class.
pub open spec fn spec_parse_query(data: Seq<u8>) -> Option<(u16, Seq<u8>, u16, u16)> {
    if data.len() < 12 {
        None
    } else {
        match spec_parse_qname(data, 12) {
            None => None,
            Some((name, pos)) => {
                if pos + 4 > data.len() {
                    None
                } else {
                    Some(
                        (
                            spec_u16_from_be(data[0], data[1]),
                            name,
                            spec_u16_from_be(data[pos], data[pos + 1]),
                            spec_u16_from_be(data[pos + 2], data[pos + 3]),
                        ),
                    )
                }
            },
        }
    }
}

/// Parse a DNS query packet into its question.
///
/// Succeeds exactly on the packets `spec_parse_query` accepts; compressed
/// names and non-ASCII labels are protocol violations (the interceptor
/// drops them).
pub fn parse_query(data: &[u8]) -> (r: Result<DnsQuery, Error>)
    ensures
        (r is Ok <==> spec_parse_query(data@) is Some),
        r matches Ok(q) ==> (spec_parse_query(data@) matches Some(p) && q.id == p.0
            && q.name@.map_values(|c: char| c as u8) == p.1 && q.qtype == spec_qtype_of(p.2)
            && q.qclass == p.3),
        r matches Err(e) ==> e == Error::Protocol,
{
    if data.len() < 12 {
        return Err(Error::Protocol);
    }
    let id = crate::net::u16_from_be(data[0], data[1]);
    let mut name_bytes: Vec<u8> = Vec::new();
    let mut pos: usize = 12;
    let len = data.len();
    loop
        invariant_except_break
            12 <= pos <= len,
            len == data@.len(),
            forall|i: int| 0 <= i < name_bytes@.len() ==> name_bytes@[i] < 0x80,
            match spec_parse_qname(data@, pos as int) {
                None => spec_parse_qname(data@, 12) is None,
                Some(p) => spec_parse_qname(data@, 12) matches Some(q) && q.1 == p.1 && q.0 == (
                if name_bytes@.len() == 0 {
                    p.0
                } else if p.0.len() == 0 {
                    name_bytes@
                } else {
                    name_bytes@ + seq![46u8] + p.0
                }),
            },
        ensures
            (spec_parse_qname(data@, 12) matches Some(p) && p.0 == name_bytes@ && 12 <= p.1 <= len
                && pos == p.1),
            forall|i: int| 0 <= i < name_bytes@.len() ==> name_bytes@[i] < 0x80,
            len == data@.len(),
        decreases len - pos,
    {
        if pos >= len {
            proof {
                assert(spec_parse_qname(data@, pos as int) is None);
            }
            return Err(Error::Protocol);
        }
        let l = data[pos] as usize;
        if l == 0 {
            proof {
                assert(spec_parse_qname(data@, pos as int) == Some(
                    (Seq::<u8>::empty(), pos + 1 as int),
                ));
            }
            pos = pos + 1;
            break;
        }
        if l > 63 {
            proof {
                assert(spec_parse_qname(data@, pos as int) is None);
            }
            return Err(Error::Protocol);
        }
        if l > len - pos - 1 {
            proof {
                assert(spec_parse_qname(data@, pos as int) is None);
            }
            return Err(Error::Protocol);
        }
        let ghost pre = name_bytes@;
        if name_bytes.len() > 0 {
            name_bytes.push(46);
        }
        let mut i: usize = 0;
        while i < l
            invariant
                i <= l,
                12 <= pos,
                pos + 1 + l <= len,
                len == data@.len(),
                data@[pos as int] == l,
                1 <= l <= 63,
                (spec_parse_qname(data@, pos as int) is None ==> spec_parse_qname(data@, 12)
                    is None),
                name_bytes@ == (if pre.len() == 0 {
                    pre
                } else {
                    pre + seq![46u8]
                }) + data@.subrange(pos + 1, pos + 1 + i as int),
                forall|j: int| 0 <= j < name_bytes@.len() ==> name_bytes@[j] < 0x80,
            decreases l - i,
        {
            let b = data[pos + 1 + i];
            if b >= 0x80 {
                proof {
                    assert(data@[pos + 1 + i as int] >= 0x80);
                    assert(exists|j: int|
                        pos + 1 <= j < pos + 1 + l && data@[j] >= 0x80);
                    assert(spec_parse_qname(data@, pos as int) is None);
                }
                return Err(Error::Protocol);
            }
            name_bytes.push(b);
            proof {
                assert(name_bytes@ =~= (if pre.len() == 0 {
                    pre
                } else {
                    pre + seq![46u8]
                }) + data@.subrange(pos + 1, pos + 1 + i as int + 1));
            }
            i = i + 1;
        }
        proof {
            let l_i = l as int;
            let p_i = pos as int;
            assert(forall|j: int|
                p_i + 1 <= j < p_i + 1 + l_i ==> data@[j] == name_bytes@[name_bytes@.len() - l_i + (
                j - p_i - 1)]);
            assert(!(exists|j: int| p_i + 1 <= j < p_i + 1 + l_i && data@[j] >= 0x80));
            assert(spec_parse_qname(data@, p_i) == (match spec_parse_qname(data@, p_i + 1 + l_i) {
                None => None::<(Seq<u8>, int)>,
                Some(p) => Some(
                    (
                        if p.0.len() == 0 {
                            data@.subrange(p_i + 1, p_i + 1 + l_i)
                        } else {
                            data@.subrange(p_i + 1, p_i + 1 + l_i) + seq![46u8] + p.0
                        },
                        p.1,
                    ),
                ),
            }));
            match spec_parse_qname(data@, p_i + 1 + l_i) {
                None => {},
                Some(p) => {
                    if pre.len() == 0 {
                        if p.0.len() == 0 {
                            assert(name_bytes@ =~= data@.subrange(p_i + 1, p_i + 1 + l_i));
                        } else {
                            assert(name_bytes@ + seq![46u8] + p.0 =~= data@.subrange(
                                p_i + 1,
                                p_i + 1 + l_i,
                            ) + seq![46u8] + p.0);
                        }
                    } else {
                        if p.0.len() == 0 {
                            assert(name_bytes@ =~= pre + seq![46u8] + data@.subrange(
                                p_i + 1,
                                p_i + 1 + l_i,
                            ));
                        } else {
                            assert(name_bytes@ + seq![46u8] + p.0 =~= pre + seq![46u8] + (
                            data@.subrange(p_i + 1, p_i + 1 + l_i) + seq![46u8] + p.0));
                        }
                    }
                },
            }
        }
        pos = pos + 1 + l;
    }
    if len - pos < 4 {
        return Err(Error::Protocol);
    }
    let qtype = crate::net::u16_from_be(data[pos], data[pos + 1]);
    let qclass = crate::net::u16_from_be(data[pos + 2], data[pos + 3]);
    let name = string_from_ascii(&name_bytes);
    proof {
        assert(name@.map_values(|c: char| c as u8) =~= name_bytes@) by {
            assert(forall|j: int|
                0 <= j < name_bytes@.len() ==> #[trigger] name@[j] == (name_bytes@[j] as char));
        }
    }
    Ok(DnsQuery { id, name, qtype: DnsQueryType::from_u16(qtype), qclass })
}

/// The first index of a dot in `s`, or `s.len()`.
pub open spec fn spec_first_dot(s: Seq<u8>) -> int
    decreases s.len(),
{
    if s.len() == 0 {
        0
    } else if s[0] == 46 {
        0
    } else {
        1 + spec_first_dot(s.skip(1))
    }
}

/// `spec_first_dot` is within bounds, nothing before it is a dot, and it
/// points at a dot unless there is none.
pub proof fn lemma_first_dot(s: Seq<u8>)
    ensures
        0 <= spec_first_dot(s) <= s.len(),
        forall|i: int| 0 <= i < spec_first_dot(s) ==> s[i] != 46,
        spec_first_dot(s) < s.len() ==> s[spec_first_dot(s)] == 46,
    decreases s.len(),
{
    if s.len() > 0 && s[0] != 46 {
        lemma_first_dot(s.skip(1));
        assert(forall|i: int| 0 <= i < s.skip(1).len() ==> s.skip(1)[i] == s[i + 1]);
        assert forall|i: int| 0 <= i < spec_first_dot(s) implies s[i] != 46 by {
            if i > 0 {
                assert(s.skip(1)[i - 1] == s[i]);
                assert(s.skip(1)[i - 1] != 46);
            }
        }
    }
}

/// Every dot-separated label of `s` is at most 63 bytes.
pub open spec fn spec_name_ok(s: Seq<u8>) -> bool
    decreases s.len(),
    via spec_name_ok_decreases
{
    let d = spec_first_dot(s);
    if d > 63 {
        false
    } else if d == s.len() {
        true
    } else {
        spec_name_ok(s.skip(d + 1))
    }
}

#[via_fn]
proof fn spec_name_ok_decreases(s: Seq<u8>) {
    lemma_first_dot(s);
}

/// A name encoded as DNS labels: each label preceded by its length byte.
/// The terminating zero byte is not included.
pub open spec fn spec_encode_name(s: Seq<u8>) -> Seq<u8>
    decreases s.len(),
    via spec_encode_name_decreases
{
    let d = spec_first_dot(s);
    if d == s.len() {
        seq![s.len() as u8] + s
    } else {
        seq![d as u8] + s.take(d) + spec_encode_name(s.skip(d + 1))
    }
}

#[via_fn]
proof fn spec_encode_name_decreases(s: Seq<u8>) {
    lemma_first_dot(s);
}

/// Encode a name into DNS label form (without the terminating zero).
pub fn encode_name_bytes(bytes: &[u8]) -> (r: Vec<u8>)
    requires
        spec_name_ok(bytes@),
        bytes@.len() <= 255,
    ensures
        r@ == spec_encode_name(bytes@),
{
    let n = bytes.len();
    let mut out: Vec<u8> = Vec::new();
    let mut start: usize = 0;
    proof {
        assert(bytes@.skip(0) =~= bytes@);
        assert(Seq::<u8>::empty() + spec_encode_name(bytes@) =~= spec_encode_name(bytes@));
    }
    loop
        invariant_except_break
            start <= n,
            n == bytes@.len() <= 255,
            spec_name_ok(bytes@.skip(start as int)),
            spec_encode_name(bytes@) == out@ + spec_encode_name(bytes@.skip(start as int)),
        ensures
            out@ == spec_encode_name(bytes@),
        decreases n - start,
    {
        let ghost rem = bytes@.skip(start as int);
        proof {
            lemma_first_dot(rem);
            assert(forall|i: int| 0 <= i < rem.len() ==> rem[i] == bytes@[start + i]);
        }
        let mut j: usize = start;
        while j < n && bytes[j] != 46
            invariant
                start <= j <= n,
                n == bytes@.len(),
                rem == bytes@.skip(start as int),
                forall|i: int| 0 <= i < rem.len() ==> rem[i] == bytes@[start + i],
                forall|i: int| start <= i < j ==> bytes@[i] != 46,
            decreases n - j,
        {
            j = j + 1;
        }
        proof {
            assert(spec_first_dot(rem) == j - start) by {
                if j < n {
                    assert(rem[j - start] == 46);
                }
                assert(forall|i: int| 0 <= i < j - start ==> rem[i] != 46);
                if spec_first_dot(rem) < j - start {
                    assert(rem[spec_first_dot(rem)] == 46);
                    assert(false);
                }
                if spec_first_dot(rem) > j - start && j < n {
                    assert(false);
                }
            }
        }
        let label_len = j - start;
        let ghost pre_out = out@;
        out.push(label_len as u8);
        let mut i: usize = start;
        let ghost mid = out@;
        while i < j
            invariant
                start <= i <= j <= n,
                n == bytes@.len(),
                out@ == mid + bytes@.subrange(start as int, i as int),
            decreases j - i,
        {
            out.push(bytes[i]);
            proof {
                assert(out@ =~= mid + bytes@.subrange(start as int, i as int + 1));
            }
            i = i + 1;
        }
        proof {
            assert(out@ =~= pre_out + seq![label_len as u8] + bytes@.subrange(
                start as int,
                j as int,
            ));
        }
        if j == n {
            proof {
                assert(spec_encode_name(rem) == seq![rem.len() as u8] + rem);
                assert(rem =~= bytes@.subrange(start as int, n as int));
                assert(out@ =~= pre_out + spec_encode_name(rem));
            }
            break;
        }
        proof {
            let d = j - start;
            assert(spec_encode_name(rem) == seq![d as u8] + rem.take(d as int)
                + spec_encode_name(rem.skip(d + 1)));
            assert(rem.take(d as int) =~= bytes@.subrange(start as int, j as int));
            assert(rem.skip(d + 1) =~= bytes@.skip(j as int + 1));
            assert(pre_out + spec_encode_name(rem) =~= out@ + spec_encode_name(
                bytes@.skip(j as int + 1),
            ));
        }
        start = j + 1;
    }
    out
}

/// The question section: encoded name, zero terminator, type and class.
pub open spec fn spec_question_section(name: Seq<u8>, qtype: u16, qclass: u16) -> Seq<u8> {
    spec_encode_name(name) + seq![
        0u8,
        (qtype / 0x100) as u8,
        (qtype % 0x100) as u8,
        (qclass / 0x100) as u8,
        (qclass % 0x100) as u8,
    ]
}

/// Mathematical model of a question, for the response specs.
pub ghost struct DnsQueryView {
    pub id: u16,
    pub name: Seq<u8>,
    pub qtype: u16,
    pub qclass: u16,
}

impl View for DnsQuery {
    type V = DnsQueryView;

    open spec fn view(&self) -> DnsQueryView {
        DnsQueryView {
            id: self.id,
            name: self.name@.map_values(|c: char| c as u8),
            qtype: self.qtype.spec_to_u16(),
            qclass: self.qclass,
        }
    }
}

/// A response header: the query's ID, the given flag bytes, one question,
/// `an` answers, nothing else.
pub open spec fn spec_response_header(id: u16, flags_lo: u8, an: u8) -> Seq<u8> {
    seq![
        (id / 0x100) as u8,
        (id % 0x100) as u8,
        0x81u8,
        flags_lo,
        0u8,
        1u8,
        0u8,
        an,
        0u8,
        0u8,
        0u8,
        0u8,
    ]
}

/// An A answer (TTL as given) for the question, via a name pointer.
pub open spec fn spec_a_answer(ttl: u32, ip: u32) -> Seq<u8> {
    seq![0xc0u8, 0x0cu8, 0u8, 1u8, 0u8, 1u8] + crate::net::spec_u32_be(ttl) + seq![0u8, 4u8]
        + crate::net::spec_u32_be(ip)
}

/// A synthesized A response: NOERROR, one answer, TTL 1.
pub open spec fn spec_a_response(q: DnsQueryView, ip: u32) -> Seq<u8> {
    spec_response_header(q.id, 0x80, 1) + spec_question_section(q.name, q.qtype, q.qclass)
        + spec_a_answer(DNS_TTL_SECONDS, ip)
}

/// A synthesized AAAA response: NOERROR, one answer, TTL 1, the IPv6
/// image's sixteen octets.
pub open spec fn spec_aaaa_response(q: DnsQueryView, ip: u128) -> Seq<u8> {
    spec_response_header(q.id, 0x80, 1) + spec_question_section(q.name, q.qtype, q.qclass) + seq![
        0xc0u8,
        0x0cu8,
        0u8,
        28u8,
        0u8,
        1u8,
    ] + crate::net::spec_u32_be(DNS_TTL_SECONDS) + seq![0u8, 16u8] + crate::net::spec_u128_be(ip)
}

/// NOERROR with no answers: the reply for HTTPS-record queries.
pub open spec fn spec_empty_response(q: DnsQueryView) -> Seq<u8> {
    spec_response_header(q.id, 0x80, 0) + spec_question_section(q.name, q.qtype, q.qclass)
}

/// NXDOMAIN with no answers.
pub open spec fn spec_nxdomain_response(q: DnsQueryView) -> Seq<u8> {
    spec_response_header(q.id, 0x83, 0) + spec_question_section(q.name, q.qtype, q.qclass)
}

/// A question's name as wire bytes, well-formed for echoing back.
pub open spec fn spec_query_wf(q: &DnsQuery) -> bool {
    &&& vstd::utf8::is_ascii_chars(q.name@)
    &&& spec_name_ok(q@.name)
    &&& q@.name.len() <= 255
}

/// Push the response header and echoed question for `query`.
fn push_header_and_question(out: &mut Vec<u8>, query: &DnsQuery, flags_lo: u8, an: u8)
    requires
        spec_query_wf(query),
        old(out)@.len() == 0,
    ensures
        final(out)@ == spec_response_header(query.id, flags_lo, an) + spec_question_section(
            query@.name,
            query@.qtype,
            query@.qclass,
        ),
{
    out.push((query.id / 0x100) as u8);
    out.push((query.id % 0x100) as u8);
    out.push(0x81);
    out.push(flags_lo);
    out.push(0);
    out.push(1);
    out.push(0);
    out.push(an);
    out.push(0);
    out.push(0);
    out.push(0);
    out.push(0);
    proof {
        assert(out@ =~= spec_response_header(query.id, flags_lo, an));
    }
    let s: &str = query.name.as_str();
    proof {
        broadcast use vstd::string::is_ascii_spec_bytes;

        assert(vstd::string::is_ascii(s));
        assert(s.spec_bytes() =~= query@.name);
    }
    let ghost mid = out@;
    let mut encoded = encode_name_bytes(s.as_bytes());
    out.append(&mut encoded);
    out.push(0);
    let qtype = query.qtype.to_u16();
    out.push((qtype / 0x100) as u8);
    out.push((qtype % 0x100) as u8);
    out.push((query.qclass / 0x100) as u8);
    out.push((query.qclass % 0x100) as u8);
    proof {
        assert(out@ =~= spec_response_header(query.id, flags_lo, an) + spec_question_section(
            query@.name,
            query@.qtype,
            query@.qclass,
        ));
    }
}

/// Build a plain A response with the given TTL — the interceptor's answer
/// for locally resolved names.
pub fn build_response(query: &DnsQuery, ip: Ipv4Address) -> (r: Vec<u8>)
    requires
        spec_query_wf(query),
    ensures
        r@ == spec_response_header(query@.id, 0x80, 1) + spec_question_section(
            query@.name,
            query@.qtype,
            query@.qclass,
        ) + spec_a_answer(60, ip.bits),
{
    let mut out: Vec<u8> = Vec::new();
    push_header_and_question(&mut out, query, 0x80, 1);
    out.push(0xc0);
    out.push(0x0c);
    out.push(0);
    out.push(1);
    out.push(0);
    out.push(1);
    out.push(0);
    out.push(0);
    out.push(0);
    out.push(60);
    out.push(0);
    out.push(4);
    let o = ip.octets();
    out.push(o[0]);
    out.push(o[1]);
    out.push(o[2]);
    out.push(o[3]);
    proof {
        assert(out@ =~= spec_response_header(query@.id, 0x80, 1) + spec_question_section(
            query@.name,
            query@.qtype,
            query@.qclass,
        ) + spec_a_answer(60, ip.bits));
    }
    out
}

/// Build an NXDOMAIN response echoing the question.
pub fn build_nxdomain(query: &DnsQuery) -> (r: Vec<u8>)
    requires
        spec_query_wf(query),
    ensures
        r@ == spec_nxdomain_response(query@),
{
    let mut out: Vec<u8> = Vec::new();
    push_header_and_question(&mut out, query, 0x83, 0);
    out
}

impl FakeDnsPool {
    /// Answer an intercepted query locally.
    ///
    /// HTTPS-record (type 65) queries get NOERROR with no answers, so the
    /// client cannot learn the origin's ECH config and bypass the tunnel.
    /// A and AAAA get a pool address (TTL 1); the same domain keeps the
    /// same pair while its entry lives. Anything else is NXDOMAIN.
    pub fn handle_query(&mut self, query: &DnsQuery) -> (r: Option<Vec<u8>>)
        requires
            old(self).wf(),
            spec_query_wf(query),
        ensures
            final(self).wf(),
            r is Some,
            query@.qtype == 65 ==> *final(self) == *old(self) && (r matches Some(resp) && resp@
                == spec_empty_response(query@)),
            (query@.qtype != 65 && query.qtype is A) ==> (r matches Some(resp) && ({
                let d = spec_normalize_domain(query.name@);
                &&& final(self).forward().dom().contains(d)
                &&& resp@ == spec_a_response(query@, final(self).forward()[d])
                &&& crate::fake_dns::spec_is_fake_ip(final(self).forward()[d])
            })),
            (query@.qtype != 65 && query.qtype is AAAA) ==> (r matches Some(resp) && ({
                let d = spec_normalize_domain(query.name@);
                &&& final(self).forward().dom().contains(d)
                &&& resp@ == spec_aaaa_response(
                    query@,
                    (IPV6_FAKE_PREFIX + final(self).forward()[d]) as u128,
                )
            })),
            (query@.qtype != 65 && !(query.qtype is A) && !(query.qtype is AAAA)) ==> (*final(self)
                == *old(self) && (r matches Some(resp) && resp@ == spec_nxdomain_response(
                query@,
            ))),
    {
        let qtype_u16 = query.qtype.to_u16();
        if qtype_u16 == DNS_TYPE_HTTPS {
            let mut out: Vec<u8> = Vec::new();
            push_header_and_question(&mut out, query, 0x80, 0);
            return Some(out);
        }
        match query.qtype {
            DnsQueryType::A => {
                let (v4, _v6) = self.allocate(query.name.as_str());
                let mut out: Vec<u8> = Vec::new();
                push_header_and_question(&mut out, query, 0x80, 1);
                out.push(0xc0);
                out.push(0x0c);
                out.push(0);
                out.push(1);
                out.push(0);
                out.push(1);
                out.push(0);
                out.push(0);
                out.push(0);
                out.push(1);
                out.push(0);
                out.push(4);
                let o = v4.octets();
                out.push(o[0]);
                out.push(o[1]);
                out.push(o[2]);
                out.push(o[3]);
                proof {
                    assert(out@ =~= spec_a_response(query@, v4.bits));
                }
                Some(out)
            },
            DnsQueryType::AAAA => {
                let (_v4, v6) = self.allocate(query.name.as_str());
                let mut out: Vec<u8> = Vec::new();
                push_header_and_question(&mut out, query, 0x80, 1);
                out.push(0xc0);
                out.push(0x0c);
                out.push(0);
                out.push(28);
                out.push(0);
                out.push(1);
                out.push(0);
                out.push(0);
                out.push(0);
                out.push(1);
                out.push(0);
                out.push(16);
                let o = v6.octets();
                let mut i: usize = 0;
                let ghost mid = out@;
                while i < 16
                    invariant
                        i <= 16,
                        o@ == crate::net::spec_u128_be(v6.bits),
                        out@ == mid + o@.take(i as int),
                    decreases 16 - i,
                {
                    out.push(o[i]);
                    proof {
                        assert(out@ =~= mid + o@.take(i + 1));
                    }
                    i = i + 1;
                }
                proof {
                    assert(o@.take(16) =~= o@);
                    assert(out@ =~= spec_aaaa_response(query@, v6.bits));
                }
                Some(out)
            },
            _ => {
                let mut out: Vec<u8> = Vec::new();
                push_header_and_question(&mut out, query, 0x83, 0);
                Some(out)
            },
        }
    }
}

} // verus!

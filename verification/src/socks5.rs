//! SOCKS5 wire formats: target addresses, requests and replies, and the
//! RFC 1928 UDP relay frame.
//!
//! Domain names are forwarded verbatim — never resolved locally — so the
//! relay can perform its own ECH toward the origin (SNI continuity).

use vstd::prelude::*;
use vstd::utf8::is_ascii_chars;
use vstd::string::StringSliceAdditionalSpecFns;

use crate::errors::Error;
use crate::fake_dns::FakeDnsPool;
use crate::net::{spec_u16_from_be, spec_u32_be, spec_u32_from_be, spec_u128_be, Ipv4Address,
    Ipv6Address};
use crate::outside::string_from_ascii;

verus! {

/// SOCKS5 authentication methods.
#[derive(Debug, Clone, Copy, PartialEq, Eq, Structural)]
pub enum AuthMethod {
    NoAuth,
    GSSAPI,
    UsernamePassword,
    NoAcceptable,
}

impl AuthMethod {
    /// The method's wire byte.
    pub fn to_byte(&self) -> (r: u8)
        ensures
            self is NoAuth ==> r == 0x00,
            self is GSSAPI ==> r == 0x01,
            self is UsernamePassword ==> r == 0x02,
            self is NoAcceptable ==> r == 0xff,
    {
        match self {
            AuthMethod::NoAuth => 0x00,
            AuthMethod::GSSAPI => 0x01,
            AuthMethod::UsernamePassword => 0x02,
            AuthMethod::NoAcceptable => 0xff,
        }
    }
}

/// SOCKS5 commands.
#[derive(Debug, Clone, Copy, PartialEq, Eq, Structural)]
pub enum Command {
    Connect,
    Bind,
    UdpAssociate,
}

impl Command {
    /// The command's wire byte.
    pub fn to_byte(&self) -> (r: u8)
        ensures
            self is Connect ==> r == 0x01,
            self is Bind ==> r == 0x02,
            self is UdpAssociate ==> r == 0x03,
    {
        match self {
            Command::Connect => 0x01,
            Command::Bind => 0x02,
            Command::UdpAssociate => 0x03,
        }
    }
}

/// SOCKS5 address types.
#[derive(Debug, Clone, Copy, PartialEq, Eq, Structural)]
pub enum AddressType {
    IPv4,
    Domain,
    IPv6,
}

impl AddressType {
    /// The address type's wire byte.
    pub fn to_byte(&self) -> (r: u8)
        ensures
            self is IPv4 ==> r == 0x01,
            self is Domain ==> r == 0x03,
            self is IPv6 ==> r == 0x04,
    {
        match self {
            AddressType::IPv4 => 0x01,
            AddressType::Domain => 0x03,
            AddressType::IPv6 => 0x04,
        }
    }
}

/// A connection target: raw IPv4, a verbatim domain name, or raw IPv6.
#[derive(Debug, Clone)]
pub enum TargetAddr {
    Ipv4(Ipv4Address, u16),
    Domain(String, u16),
    Ipv6(Ipv6Address, u16),
}

/// Mathematical model of a target address.
pub ghost enum TargetAddrView {
    Ipv4(u32, u16),
    Domain(Seq<char>, u16),
    Ipv6(u128, u16),
}

impl View for TargetAddr {
    type V = TargetAddrView;

    open spec fn view(&self) -> TargetAddrView {
        match self {
            TargetAddr::Ipv4(ip, port) => TargetAddrView::Ipv4(ip.bits, *port),
            TargetAddr::Domain(d, port) => TargetAddrView::Domain(d@, *port),
            TargetAddr::Ipv6(ip, port) => TargetAddrView::Ipv6(ip.bits, *port),
        }
    }
}

/// A target the wire can carry exactly: a domain must be ASCII and at most
/// 255 bytes.
pub open spec fn spec_target_wf(t: TargetAddrView) -> bool {
    match t {
        TargetAddrView::Domain(d, _) => is_ascii_chars(d) && d.len() <= 255,
        _ => true,
    }
}

/// The SOCKS5 encoding of a target: ATYP, address, port (big-endian).
pub open spec fn spec_target_bytes(t: TargetAddrView) -> Seq<u8> {
    match t {
        TargetAddrView::Ipv4(ip, port) => seq![0x01u8] + spec_u32_be(ip) + seq![
            (port / 0x100) as u8,
            (port % 0x100) as u8,
        ],
        TargetAddrView::Domain(d, port) => seq![0x03u8, d.len() as u8] + d.map_values(
            |c: char| c as u8,
        ) + seq![(port / 0x100) as u8, (port % 0x100) as u8],
        TargetAddrView::Ipv6(ip, port) => seq![0x04u8] + spec_u128_be(ip) + seq![
            (port / 0x100) as u8,
            (port % 0x100) as u8,
        ],
    }
}

impl TargetAddr {
    /// Encode the target in SOCKS5 form, the stream header sent upstream.
    pub fn to_bytes(&self) -> (r: Vec<u8>)
        requires
            spec_target_wf(self@),
        ensures
            r@ == spec_target_bytes(self@),
    {
        let mut buf: Vec<u8> = Vec::new();
        match self {
            TargetAddr::Ipv4(ip, port) => {
                buf.push(0x01);
                let o = ip.octets();
                buf.push(o[0]);
                buf.push(o[1]);
                buf.push(o[2]);
                buf.push(o[3]);
                buf.push((port / 0x100) as u8);
                buf.push((port % 0x100) as u8);
                proof {
                    assert(buf@ =~= spec_target_bytes(self@));
                }
            },
            TargetAddr::Domain(d, port) => {
                let s: &str = d.as_str();
                proof {
                    broadcast use vstd::string::is_ascii_spec_bytes;

                    assert(vstd::string::is_ascii(s));
                    assert(s.spec_bytes() =~= d@.map_values(|c: char| c as u8));
                }
                buf.push(0x03);
                buf.push(s.len() as u8);
                let bytes = s.as_bytes();
                buf.extend_from_slice(bytes);
                buf.push((port / 0x100) as u8);
                buf.push((port % 0x100) as u8);
                proof {
                    assert(buf@ =~= spec_target_bytes(self@));
                }
            },
            TargetAddr::Ipv6(ip, port) => {
                buf.push(0x04);
                let o = ip.octets();
                let mut i: usize = 0;
                while i < 16
                    invariant
                        i <= 16,
                        o@ == spec_u128_be(ip.bits),
                        buf@ == seq![0x04u8] + o@.take(i as int),
                    decreases 16 - i,
                {
                    buf.push(o[i]);
                    proof {
                        assert(buf@ =~= seq![0x04u8] + o@.take(i + 1));
                    }
                    i = i + 1;
                }
                buf.push((port / 0x100) as u8);
                buf.push((port % 0x100) as u8);
                proof {
                    assert(o@.take(16) =~= o@);
                    assert(buf@ =~= spec_target_bytes(self@));
                }
            },
        }
        buf
    }

    /// The display form's port, used when logging a target.
    pub fn port(&self) -> (r: u16)
        ensures
            r == match self@ {
                TargetAddrView::Ipv4(_, p) => p,
                TargetAddrView::Domain(_, p) => p,
                TargetAddrView::Ipv6(_, p) => p,
            },
    {
        match self {
            TargetAddr::Ipv4(_, port) => *port,
            TargetAddr::Domain(_, port) => *port,
            TargetAddr::Ipv6(_, port) => *port,
        }
    }
}

/// Parse a SOCKS5 target address from the front of `bytes`: the parsed
/// target and how many bytes it took, or `None` if the front is not a
/// whole, well-formed address (domains must be ASCII).
pub open spec fn spec_parse_target(bytes: Seq<u8>) -> Option<(TargetAddrView, int)> {
    if bytes.len() < 1 {
        None
    } else if bytes[0] == 0x01 {
        if bytes.len() < 7 {
            None
        } else {
            Some(
                (
                    TargetAddrView::Ipv4(
                        spec_u32_from_be(bytes[1], bytes[2], bytes[3], bytes[4]),
                        spec_u16_from_be(bytes[5], bytes[6]),
                    ),
                    7,
                ),
            )
        }
    } else if bytes[0] == 0x03 {
        if bytes.len() < 2 {
            None
        } else {
            let n = bytes[1] as int;
            if bytes.len() < 4 + n {
                None
            } else if exists|i: int| 2 <= i < 2 + n && bytes[i] >= 0x80 {
                None
            } else {
                Some(
                    (
                        TargetAddrView::Domain(
                            bytes.subrange(2, 2 + n).map_values(|b: u8| b as char),
                            spec_u16_from_be(bytes[2 + n], bytes[3 + n]),
                        ),
                        4 + n,
                    ),
                )
            }
        }
    } else if bytes[0] == 0x04 {
        if bytes.len() < 19 {
            None
        } else {
            Some(
                (
                    TargetAddrView::Ipv6(
                        spec_u128_from_be_at(bytes, 1),
                        spec_u16_from_be(bytes[17], bytes[18]),
                    ),
                    19,
                ),
            )
        }
    } else {
        None
    }
}

/// The 128-bit big-endian value at `bytes[off..off+16]`, read as four
/// 32-bit groups.
pub open spec fn spec_u128_from_be_at(bytes: Seq<u8>, off: int) -> u128 {
    (spec_u32_from_be(bytes[off], bytes[off + 1], bytes[off + 2], bytes[off + 3])
        * 0x1000000000000000000000000 + spec_u32_from_be(
        bytes[off + 4],
        bytes[off + 5],
        bytes[off + 6],
        bytes[off + 7],
    ) * 0x10000000000000000 + spec_u32_from_be(
        bytes[off + 8],
        bytes[off + 9],
        bytes[off + 10],
        bytes[off + 11],
    ) * 0x100000000 + spec_u32_from_be(
        bytes[off + 12],
        bytes[off + 13],
        bytes[off + 14],
        bytes[off + 15],
    )) as u128
}

/// Parse a SOCKS5 target address from the front of `buf`.
///
/// Returns the target and the bytes consumed; fails with `Protocol` exactly
/// where the grammar does (unknown ATYP, truncation, non-ASCII domain).
pub fn parse_target(buf: &[u8]) -> (r: Result<(TargetAddr, usize), Error>)
    ensures
        (r is Ok <==> spec_parse_target(buf@) is Some),
        r matches Ok(p) ==> Some((p.0@, p.1 as int)) == spec_parse_target(buf@),
        r matches Err(e) ==> e == Error::Protocol,
        r matches Ok(p) ==> spec_target_wf(p.0@),
{
    if buf.len() < 1 {
        return Err(Error::Protocol);
    }
    let atyp = buf[0];
    if atyp == 0x01 {
        if buf.len() < 7 {
            return Err(Error::Protocol);
        }
        let ip = Ipv4Address::from_bits(crate::net::u32_from_be(buf[1], buf[2], buf[3], buf[4]));
        let port = crate::net::u16_from_be(buf[5], buf[6]);
        Ok((TargetAddr::Ipv4(ip, port), 7))
    } else if atyp == 0x03 {
        if buf.len() < 2 {
            return Err(Error::Protocol);
        }
        let n = buf[1] as usize;
        if buf.len() < 4 + n {
            return Err(Error::Protocol);
        }
        let mut domain_bytes: Vec<u8> = Vec::new();
        let mut i: usize = 0;
        while i < n
            invariant
                i <= n,
                n <= 255,
                buf@.len() >= 4 + n,
                buf@[0] == 0x03,
                n == buf@[1],
                domain_bytes@ == buf@.subrange(2, 2 + i as int),
                forall|j: int| 0 <= j < i ==> domain_bytes@[j] < 0x80,
            decreases n - i,
        {
            let b = buf[2 + i];
            if b >= 0x80 {
                proof {
                    assert(buf@[2 + i as int] >= 0x80);
                    assert(exists|j: int| 2 <= j < 2 + n && buf@[j] >= 0x80);
                    assert(spec_parse_target(buf@) is None);
                }
                return Err(Error::Protocol);
            }
            domain_bytes.push(b);
            proof {
                assert(domain_bytes@ =~= buf@.subrange(2, 2 + i as int + 1));
            }
            i = i + 1;
        }
        let domain = string_from_ascii(&domain_bytes);
        let port = crate::net::u16_from_be(buf[2 + n], buf[3 + n]);
        proof {
            assert(forall|j: int| 2 <= j < 2 + n ==> buf@[j] < 0x80) by {
                assert(forall|j: int|
                    2 <= j < 2 + n ==> buf@[j] == domain_bytes@[j - 2]);
            }
            assert(domain@ =~= buf@.subrange(2, 2 + n as int).map_values(|b: u8| b as char)) by {
                assert(forall|j: int|
                    0 <= j < n ==> #[trigger] domain@[j] == (domain_bytes@[j] as char));
            }
            assert(is_ascii_chars(domain@)) by {
                assert(forall|j: int|
                    0 <= j < n ==> #[trigger] domain@[j] == (domain_bytes@[j] as char)
                        && domain_bytes@[j] < 0x80);
            }
        }
        Ok((TargetAddr::Domain(domain, port), 4 + n))
    } else if atyp == 0x04 {
        if buf.len() < 19 {
            return Err(Error::Protocol);
        }
        let w0 = crate::net::u32_from_be(buf[1], buf[2], buf[3], buf[4]);
        let w1 = crate::net::u32_from_be(buf[5], buf[6], buf[7], buf[8]);
        let w2 = crate::net::u32_from_be(buf[9], buf[10], buf[11], buf[12]);
        let w3 = crate::net::u32_from_be(buf[13], buf[14], buf[15], buf[16]);
        let bits: u128 = (w0 as u128) * 0x1000000000000000000000000 + (w1 as u128)
            * 0x10000000000000000 + (w2 as u128) * 0x100000000 + (w3 as u128);
        let ip = Ipv6Address::from_bits(bits);
        let port = crate::net::u16_from_be(buf[17], buf[18]);
        Ok((TargetAddr::Ipv6(ip, port), 19))
    } else {
        Err(Error::Protocol)
    }
}

/// Parse-build round trip for SOCKS5 address encodings: parsing an encoded
/// target returns the target, consuming exactly its bytes.
pub proof fn lemma_target_round_trip(t: TargetAddrView)
    requires
        spec_target_wf(t),
    ensures
        spec_parse_target(spec_target_bytes(t)) == Some(
            (t, spec_target_bytes(t).len() as int),
        ),
{
    let b = spec_target_bytes(t);
    match t {
        TargetAddrView::Ipv4(ip, port) => {
            assert(b.len() == 7);
            assert(spec_u32_from_be(b[1], b[2], b[3], b[4]) == ip) by {
                crate::net::lemma_u32_be_round_trip(ip);
            }
            assert(spec_u16_from_be(b[5], b[6]) == port);
        },
        TargetAddrView::Domain(d, port) => {
            let n = d.len() as int;
            assert(b.len() == 4 + n);
            assert(b[0] == 0x03 && b[1] == n as u8);
            assert(forall|i: int| 2 <= i < 2 + n ==> b[i] == (d[i - 2] as u8));
            assert(forall|i: int| 2 <= i < 2 + n ==> b[i] < 0x80);
            assert(b.subrange(2, 2 + n).map_values(|x: u8| x as char) =~= d) by {
                assert(forall|i: int|
                    0 <= i < n ==> #[trigger] b.subrange(2, 2 + n)[i] == (d[i] as u8));
                assert(forall|i: int|
                    0 <= i < n ==> ((d[i] as u8) as char) == d[i]);
            }
            assert(spec_u16_from_be(b[2 + n], b[3 + n]) == port);
        },
        TargetAddrView::Ipv6(ip, port) => {
            assert(b.len() == 19);
            assert(forall|i: int|
                0 <= i < 16 ==> b[1 + i] == crate::net::spec_u128_byte(ip, i));
            lemma_u128_bytes_reassemble(ip);
            assert(spec_u128_from_be_at(b, 1) == ip);
            assert(spec_u16_from_be(b[17], b[18]) == port);
        },
    }
}

/// Reading a 128-bit value's sixteen big-endian bytes back as four 32-bit
/// groups recovers the value.
pub proof fn lemma_u128_bytes_reassemble(v: u128)
    ensures
        ({
            let bs = spec_u128_be(v);
            (spec_u32_from_be(bs[0], bs[1], bs[2], bs[3]) * 0x1000000000000000000000000
                + spec_u32_from_be(bs[4], bs[5], bs[6], bs[7]) * 0x10000000000000000
                + spec_u32_from_be(bs[8], bs[9], bs[10], bs[11]) * 0x100000000 + spec_u32_from_be(
                bs[12],
                bs[13],
                bs[14],
                bs[15],
            )) as u128 == v
        }),
{
    let bs = spec_u128_be(v);
    let b0 = bs[0];
    let b1 = bs[1];
    let b2 = bs[2];
    let b3 = bs[3];
    let b4 = bs[4];
    let b5 = bs[5];
    let b6 = bs[6];
    let b7 = bs[7];
    let b8 = bs[8];
    let b9 = bs[9];
    let b10 = bs[10];
    let b11 = bs[11];
    let b12 = bs[12];
    let b13 = bs[13];
    let b14 = bs[14];
    let b15 = bs[15];
    assert((b0 * 0x1000000000000000000000000000000 + b1 * 0x10000000000000000000000000000 + b2
        * 0x100000000000000000000000000 + b3 * 0x1000000000000000000000000 + b4
        * 0x10000000000000000000000 + b5 * 0x100000000000000000000 + b6 * 0x1000000000000000000
        + b7 * 0x10000000000000000 + b8 * 0x100000000000000 + b9 * 0x1000000000000 + b10
        * 0x10000000000 + b11 * 0x100000000 + b12 * 0x1000000 + b13 * 0x10000 + b14 * 0x100
        + b15) as u128 == v) by (bit_vector)
        requires
            b0 == ((v >> 120u128) & 0xff) as u8,
            b1 == ((v >> 112u128) & 0xff) as u8,
            b2 == ((v >> 104u128) & 0xff) as u8,
            b3 == ((v >> 96u128) & 0xff) as u8,
            b4 == ((v >> 88u128) & 0xff) as u8,
            b5 == ((v >> 80u128) & 0xff) as u8,
            b6 == ((v >> 72u128) & 0xff) as u8,
            b7 == ((v >> 64u128) & 0xff) as u8,
            b8 == ((v >> 56u128) & 0xff) as u8,
            b9 == ((v >> 48u128) & 0xff) as u8,
            b10 == ((v >> 40u128) & 0xff) as u8,
            b11 == ((v >> 32u128) & 0xff) as u8,
            b12 == ((v >> 24u128) & 0xff) as u8,
            b13 == ((v >> 16u128) & 0xff) as u8,
            b14 == ((v >> 8u128) & 0xff) as u8,
            b15 == ((v >> 0u128) & 0xff) as u8,
    ;
}

/// The SOCKS5 request a client sends after method selection.
#[derive(Debug)]
pub enum Socks5Request {
    /// TCP CONNECT to a target.
    Connect(TargetAddr),
    /// UDP ASSOCIATE with the client's declared source.
    UdpAssociate(TargetAddr),
}

/// Parse the client greeting `VER NMETHODS METHODS...` from the front of
/// `buf`; returns the method bytes and how much was consumed.
pub fn parse_socks5_greeting(buf: &[u8]) -> (r: Result<(Vec<u8>, usize), Error>)
    ensures
        (r is Ok <==> (buf@.len() >= 2 && buf@[0] == 0x05 && buf@.len() >= 2 + buf@[1])),
        r matches Ok(p) ==> p.0@ == buf@.subrange(2, 2 + buf@[1] as int) && p.1 == 2 + buf@[1],
        r matches Err(e) ==> e == Error::Protocol,
{
    if buf.len() < 2 {
        return Err(Error::Protocol);
    }
    if buf[0] != 0x05 {
        return Err(Error::Protocol);
    }
    let n = buf[1] as usize;
    if buf.len() < 2 + n {
        return Err(Error::Protocol);
    }
    let methods = vstd::slice::slice_to_vec(vstd::slice::slice_subrange(buf, 2, 2 + n));
    Ok((methods, 2 + n))
}

/// Pick the authentication method: no authentication when the client
/// offers it, otherwise nothing is acceptable.
pub fn select_auth_method(methods: &[u8]) -> (r: AuthMethod)
    ensures
        (r is NoAuth <==> methods@.contains(0x00u8)),
        (r is NoAuth || r is NoAcceptable),
{
    let n = methods.len();
    let mut i: usize = 0;
    while i < n
        invariant
            i <= n,
            n == methods@.len(),
            forall|j: int| 0 <= j < i ==> methods@[j] != 0x00u8,
        decreases n - i,
    {
        if methods[i] == 0x00 {
            proof {
                assert(methods@[i as int] == 0x00u8);
            }
            return AuthMethod::NoAuth;
        }
        i = i + 1;
    }
    proof {
        assert(!methods@.contains(0x00u8));
    }
    AuthMethod::NoAcceptable
}

/// The two-byte method-selection reply `VER METHOD`.
pub fn build_method_selection(method: AuthMethod) -> (r: Vec<u8>)
    ensures
        r@.len() == 2,
        r@[0] == 0x05,
        method is NoAuth ==> r@[1] == 0x00,
        method is NoAcceptable ==> r@[1] == 0xff,
{
    let mut v: Vec<u8> = Vec::new();
    v.push(0x05);
    v.push(method.to_byte());
    v
}

/// Parse the SOCKS5 request `VER CMD RSV ATYP ADDR PORT` from the front of
/// `buf`; returns the request and how much was consumed. CONNECT and UDP
/// ASSOCIATE are accepted; anything else is a protocol violation.
pub fn parse_socks5_request(buf: &[u8]) -> (r: Result<(Socks5Request, usize), Error>)
    ensures
        r matches Ok(p) ==> buf@.len() >= 3 && buf@[0] == 0x05 && (buf@[1] == 0x01 || buf@[1]
            == 0x03) && (spec_parse_target(buf@.skip(3)) matches Some(tgt) && p.1 == 3 + tgt.1 && (
        match p.0 {
            Socks5Request::Connect(t) => buf@[1] == 0x01 && t@ == tgt.0,
            Socks5Request::UdpAssociate(t) => buf@[1] == 0x03 && t@ == tgt.0,
        })),
        r matches Err(e) ==> e == Error::Protocol,
        (r is Err <==> !(buf@.len() >= 3 && buf@[0] == 0x05 && (buf@[1] == 0x01 || buf@[1] == 0x03)
            && spec_parse_target(buf@.skip(3)) is Some)),
{
    if buf.len() < 3 {
        return Err(Error::Protocol);
    }
    if buf[0] != 0x05 {
        return Err(Error::Protocol);
    }
    let cmd = buf[1];
    if cmd != 0x01 && cmd != 0x03 {
        return Err(Error::Protocol);
    }
    let rest = vstd::slice::slice_subrange(buf, 3, buf.len());
    proof {
        assert(rest@ =~= buf@.skip(3));
    }
    let (target, used) = parse_target(rest)?;
    if cmd == 0x01 {
        Ok((Socks5Request::Connect(target), 3 + used))
    } else {
        Ok((Socks5Request::UdpAssociate(target), 3 + used))
    }
}

/// The reply `VER REP RSV ATYP=IPv4 0.0.0.0:0` sent for a CONNECT.
pub fn build_socks5_reply(rep: u8) -> (r: Vec<u8>)
    ensures
        r@ =~= seq![0x05u8, rep, 0x00u8, 0x01u8, 0u8, 0u8, 0u8, 0u8, 0u8, 0u8],
{
    let mut v: Vec<u8> = Vec::new();
    v.push(0x05);
    v.push(rep);
    v.push(0x00);
    v.push(0x01);
    v.push(0);
    v.push(0);
    v.push(0);
    v.push(0);
    v.push(0);
    v.push(0);
    v
}

/// The UDP ASSOCIATE success reply: `VER 0 RSV` then the relay's bind
/// address in target form.
pub fn build_udp_associate_response(bind: &TargetAddr) -> (r: Vec<u8>)
    requires
        spec_target_wf(bind@),
    ensures
        r@ == seq![0x05u8, 0x00u8, 0x00u8] + spec_target_bytes(bind@),
{
    let mut v: Vec<u8> = Vec::new();
    v.push(0x05);
    v.push(0x00);
    v.push(0x00);
    let mut addr = bind.to_bytes();
    v.append(&mut addr);
    proof {
        assert(v@ =~= seq![0x05u8, 0x00u8, 0x00u8] + spec_target_bytes(bind@));
    }
    v
}

/// The target a TUN flow should dial upstream: a synthetic destination
/// reverse-resolves to its domain so the stream header can carry the name;
/// everything else stays a raw address.
pub fn target_for_flow(pool: &FakeDnsPool, dst_ip: Ipv4Address, port: u16) -> (r: TargetAddr)
    ensures
        (crate::fake_dns::spec_is_fake_ip(dst_ip.bits) && pool.reverse().dom().contains(
            dst_ip.bits,
        )) ==> (r matches TargetAddr::Domain(d, p) && d@ == pool.reverse()[dst_ip.bits] && p
            == port),
        !(crate::fake_dns::spec_is_fake_ip(dst_ip.bits) && pool.reverse().dom().contains(
            dst_ip.bits,
        )) ==> r == TargetAddr::Ipv4(dst_ip, port),
{
    if FakeDnsPool::is_fake_ip(dst_ip) {
        match pool.lookup(dst_ip) {
            Some(domain) => TargetAddr::Domain(domain, port),
            None => TargetAddr::Ipv4(dst_ip, port),
        }
    } else {
        TargetAddr::Ipv4(dst_ip, port)
    }
}

/// Name preservation: a flow from a synthetic IP whose mapping is alive
/// writes a stream header with ATYP 0x03 carrying exactly the domain the
/// FakeDNS engine synthesized for that IP, and the port, big-endian, at the
/// end.
pub proof fn lemma_name_preservation(pool: &FakeDnsPool, ip: u32, port: u16)
    requires
        pool.wf(),
        crate::fake_dns::spec_is_fake_ip(ip),
        pool.reverse().dom().contains(ip),
        is_ascii_chars(pool.reverse()[ip]),
        pool.reverse()[ip].len() <= 255,
    ensures
        ({
            let d = pool.reverse()[ip];
            let header = spec_target_bytes(TargetAddrView::Domain(d, port));
            &&& header[0] == 0x03
            &&& header[1] == d.len() as u8
            &&& header.subrange(2, 2 + d.len() as int) == d.map_values(|c: char| c as u8)
            &&& header[2 + d.len() as int] == (port / 0x100) as u8
            &&& header[3 + d.len() as int] == (port % 0x100) as u8
            &&& header.len() == 4 + d.len()
        }),
{
    let d = pool.reverse()[ip];
    let header = spec_target_bytes(TargetAddrView::Domain(d, port));
    assert(header.subrange(2, 2 + d.len() as int) =~= d.map_values(|c: char| c as u8));
}

} // verus!

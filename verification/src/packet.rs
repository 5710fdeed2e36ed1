//! IPv4/TCP and IPv4/UDP packet building and parsing for the TUN path.
//!
//! Checksums follow RFC 1071: the one's-complement sum of 16-bit words
//! (an odd trailing byte is padded high), folded and complemented. TCP and
//! UDP checksums run over the pseudo-header `(src, dst, 0, proto, length)`
//! followed by the segment; a zero UDP checksum is rewritten to `0xFFFF`.

use vstd::prelude::*;

use crate::errors::Error;
use crate::net::{
    spec_u16_from_be, spec_u32_be, spec_u32_from_be, u16_from_be, u32_from_be, Ipv4Address,
};

verus! {

/// One's-complement word sum of `data[0..n]`, an odd final byte padded high.
pub open spec fn spec_sum_words(data: Seq<u8>, n: int) -> int
    decreases n,
{
    if n <= 0 {
        0
    } else if n % 2 == 1 {
        spec_sum_words(data, n - 1) + data[n - 1] * 0x100
    } else {
        spec_sum_words(data, n - 2) + data[n - 2] * 0x100 + data[n - 1]
    }
}

/// Fold the carries of a word sum until it fits 16 bits.
pub open spec fn spec_fold_carry(s: int) -> int
    decreases s,
{
    if s < 0x10000 {
        s
    } else {
        spec_fold_carry(s % 0x10000 + s / 0x10000)
    }
}

/// The RFC 1071 checksum of `data`: fold the word sum, then complement.
pub open spec fn spec_checksum(data: Seq<u8>) -> int {
    0xffff - spec_fold_carry(spec_sum_words(data, data.len() as int))
}

/// The word sum of `n` bytes is at least 0 and at most `n * 0xffff`.
proof fn lemma_sum_words_bounds(data: Seq<u8>, n: int)
    requires
        0 <= n <= data.len(),
    ensures
        0 <= spec_sum_words(data, n) <= n * 0xffff,
    decreases n,
{
    if n > 0 {
        if n % 2 == 1 {
            lemma_sum_words_bounds(data, n - 1);
        } else {
            lemma_sum_words_bounds(data, n - 2);
        }
    }
}

/// Compute the RFC 1071 checksum of `data`.
pub fn calculate_checksum(data: &[u8]) -> (r: u16)
    requires
        data@.len() <= 0xffff,
    ensures
        r == spec_checksum(data@),
{
    let len = data.len();
    let mut sum: u32 = 0;
    let mut i: usize = 0;
    while i < len
        invariant
            len == data@.len() <= 0xffff,
            i <= len + 1,
            i <= len ==> i % 2 == 0 && sum == spec_sum_words(data@, i as int),
            i > len ==> i == len + 1 && sum == spec_sum_words(data@, len as int),
        decreases len + 2 - i,
    {
        proof {
            lemma_sum_words_bounds(data@, i as int);
            if i + 2 <= len {
                lemma_sum_words_bounds(data@, i + 2);
            } else {
                lemma_sum_words_bounds(data@, len as int);
            }
        }
        let word: u32 = if i + 1 < len {
            (data[i] as u32) * 0x100 + (data[i + 1] as u32)
        } else {
            (data[i] as u32) * 0x100
        };
        proof {
            if i + 1 < len {
                assert(spec_sum_words(data@, i + 2) == spec_sum_words(data@, i as int)
                    + data@[i as int] * 0x100 + data@[i + 1]);
            } else {
                assert(len == i + 1);
                assert(spec_sum_words(data@, i + 1) == spec_sum_words(data@, i as int)
                    + data@[i as int] * 0x100);
            }
        }
        sum = sum + word;
        i = i + 2;
    }
    proof {
        lemma_sum_words_bounds(data@, len as int);
    }
    let ghost total = spec_sum_words(data@, len as int);
    while sum >= 0x10000
        invariant
            spec_fold_carry(total) == spec_fold_carry(sum as int),
        decreases sum,
    {
        proof {
            assert(spec_fold_carry(sum as int) == spec_fold_carry(
                (sum as int) % 0x10000 + (sum as int) / 0x10000,
            ));
        }
        sum = sum % 0x10000 + sum / 0x10000;
    }
    proof {
        assert(spec_fold_carry(sum as int) == sum as int);
    }
    (0xffffu32 - sum) as u16
}

/// The 12-byte pseudo-header that prefixes TCP/UDP checksums.
pub open spec fn spec_pseudo_header(src: u32, dst: u32, proto: u8, seg_len: int) -> Seq<u8> {
    spec_u32_be(src) + spec_u32_be(dst) + seq![
        0u8,
        proto,
        (seg_len / 0x100) as u8,
        (seg_len % 0x100) as u8,
    ]
}

/// Compute a TCP checksum: RFC 1071 over the pseudo-header then the segment.
pub fn calculate_tcp_checksum(src_ip: Ipv4Address, dst_ip: Ipv4Address, tcp_segment: &[u8]) -> (r:
    u16)
    requires
        tcp_segment@.len() + 12 <= 0xffff,
    ensures
        r == spec_checksum(
            spec_pseudo_header(src_ip.bits, dst_ip.bits, 6, tcp_segment@.len() as int)
                + tcp_segment@,
        ),
{
    checksum_with_pseudo_header(src_ip, dst_ip, 6, tcp_segment)
}

/// Compute a UDP checksum, rewriting a zero result to `0xFFFF`.
pub fn calculate_udp_checksum(src_ip: Ipv4Address, dst_ip: Ipv4Address, udp_segment: &[u8]) -> (r:
    u16)
    requires
        udp_segment@.len() + 12 <= 0xffff,
    ensures
        ({
            let ck = spec_checksum(
                spec_pseudo_header(src_ip.bits, dst_ip.bits, 17, udp_segment@.len() as int)
                    + udp_segment@,
            );
            r == if ck == 0 {
                0xffff
            } else {
                ck
            }
        }),
{
    let ck = checksum_with_pseudo_header(src_ip, dst_ip, 17, udp_segment);
    if ck == 0 {
        0xffff
    } else {
        ck
    }
}

/// RFC 1071 over pseudo-header plus segment, shared by TCP and UDP.
fn checksum_with_pseudo_header(src_ip: Ipv4Address, dst_ip: Ipv4Address, proto: u8, segment: &[u8])
    -> (r: u16)
    requires
        segment@.len() + 12 <= 0xffff,
    ensures
        r == spec_checksum(
            spec_pseudo_header(src_ip.bits, dst_ip.bits, proto, segment@.len() as int) + segment@,
        ),
{
    let seg_len: usize = segment.len();
    let mut buf: Vec<u8> = Vec::new();
    let src = src_ip.octets();
    let dst = dst_ip.octets();
    buf.push(src[0]);
    buf.push(src[1]);
    buf.push(src[2]);
    buf.push(src[3]);
    buf.push(dst[0]);
    buf.push(dst[1]);
    buf.push(dst[2]);
    buf.push(dst[3]);
    buf.push(0);
    buf.push(proto);
    buf.push((seg_len / 0x100) as u8);
    buf.push((seg_len % 0x100) as u8);
    proof {
        assert(buf@ =~= spec_pseudo_header(src_ip.bits, dst_ip.bits, proto, seg_len as int));
    }
    buf.extend_from_slice(segment);
    proof {
        assert(buf@ =~= spec_pseudo_header(src_ip.bits, dst_ip.bits, proto, seg_len as int)
            + segment@);
    }
    calculate_checksum(buf.as_slice())
}

/// TCP header flags.
#[derive(Debug, Clone, Copy, Default, PartialEq, Eq, Structural)]
pub struct TcpFlags {
    pub fin: bool,
    pub syn: bool,
    pub rst: bool,
    pub psh: bool,
    pub ack: bool,
    pub urg: bool,
}

/// The flags byte: FIN, SYN, RST, PSH, ACK, URG from bit 0 up.
pub open spec fn spec_flags_byte(f: TcpFlags) -> u8 {
    ((if f.fin {
        0x01int
    } else {
        0
    }) + (if f.syn {
        0x02int
    } else {
        0
    }) + (if f.rst {
        0x04int
    } else {
        0
    }) + (if f.psh {
        0x08int
    } else {
        0
    }) + (if f.ack {
        0x10int
    } else {
        0
    }) + (if f.urg {
        0x20int
    } else {
        0
    })) as u8
}

impl TcpFlags {
    /// All flags clear.
    pub fn new() -> (r: TcpFlags)
        ensures
            r == (TcpFlags { fin: false, syn: false, rst: false, psh: false, ack: false, urg: false }),
    {
        TcpFlags { fin: false, syn: false, rst: false, psh: false, ack: false, urg: false }
    }

    /// SYN alone.
    pub fn syn() -> (r: TcpFlags)
        ensures
            r == (TcpFlags { fin: false, syn: true, rst: false, psh: false, ack: false, urg: false }),
    {
        TcpFlags { fin: false, syn: true, rst: false, psh: false, ack: false, urg: false }
    }

    /// SYN together with ACK.
    pub fn syn_ack() -> (r: TcpFlags)
        ensures
            r == (TcpFlags { fin: false, syn: true, rst: false, psh: false, ack: true, urg: false }),
    {
        TcpFlags { fin: false, syn: true, rst: false, psh: false, ack: true, urg: false }
    }

    /// ACK alone.
    pub fn ack() -> (r: TcpFlags)
        ensures
            r == (TcpFlags { fin: false, syn: false, rst: false, psh: false, ack: true, urg: false }),
    {
        TcpFlags { fin: false, syn: false, rst: false, psh: false, ack: true, urg: false }
    }

    /// PSH together with ACK.
    pub fn psh_ack() -> (r: TcpFlags)
        ensures
            r == (TcpFlags { fin: false, syn: false, rst: false, psh: true, ack: true, urg: false }),
    {
        TcpFlags { fin: false, syn: false, rst: false, psh: true, ack: true, urg: false }
    }

    /// FIN together with ACK.
    pub fn fin_ack() -> (r: TcpFlags)
        ensures
            r == (TcpFlags { fin: true, syn: false, rst: false, psh: false, ack: true, urg: false }),
    {
        TcpFlags { fin: true, syn: false, rst: false, psh: false, ack: true, urg: false }
    }

    /// RST alone.
    pub fn rst() -> (r: TcpFlags)
        ensures
            r == (TcpFlags { fin: false, syn: false, rst: true, psh: false, ack: false, urg: false }),
    {
        TcpFlags { fin: false, syn: false, rst: true, psh: false, ack: false, urg: false }
    }

    /// Encode the flags into the TCP header byte.
    pub fn to_byte(&self) -> (r: u8)
        ensures
            r == spec_flags_byte(*self),
    {
        let mut flags: u8 = 0;
        if self.fin {
            flags = flags + 0x01;
        }
        if self.syn {
            flags = flags + 0x02;
        }
        if self.rst {
            flags = flags + 0x04;
        }
        if self.psh {
            flags = flags + 0x08;
        }
        if self.ack {
            flags = flags + 0x10;
        }
        if self.urg {
            flags = flags + 0x20;
        }
        flags
    }
}

/// The 20-byte IPv4 header with its checksum field still zero.
pub open spec fn spec_ipv4_header_zero_ck(total_len: int, proto: u8, src: u32, dst: u32) -> Seq<
    u8,
> {
    seq![
        0x45u8,
        0x00u8,
        (total_len / 0x100) as u8,
        (total_len % 0x100) as u8,
        0x00u8,
        0x00u8,
        0x40u8,
        0x00u8,
        64u8,
        proto,
        0u8,
        0u8,
    ] + spec_u32_be(src) + spec_u32_be(dst)
}

/// The 20-byte IPv4 header, checksum filled in.
pub open spec fn spec_ipv4_header(total_len: int, proto: u8, src: u32, dst: u32) -> Seq<u8> {
    let ck = spec_checksum(spec_ipv4_header_zero_ck(total_len, proto, src, dst));
    seq![
        0x45u8,
        0x00u8,
        (total_len / 0x100) as u8,
        (total_len % 0x100) as u8,
        0x00u8,
        0x00u8,
        0x40u8,
        0x00u8,
        64u8,
        proto,
        (ck / 0x100) as u8,
        (ck % 0x100) as u8,
    ] + spec_u32_be(src) + spec_u32_be(dst)
}

/// The TCP segment (20-byte header plus payload) with its checksum zero.
pub open spec fn spec_tcp_segment_zero_ck(
    src_port: u16,
    dst_port: u16,
    seq: u32,
    ack: u32,
    flags: TcpFlags,
    window: u16,
    payload: Seq<u8>,
) -> Seq<u8> {
    seq![
        (src_port / 0x100) as u8,
        (src_port % 0x100) as u8,
        (dst_port / 0x100) as u8,
        (dst_port % 0x100) as u8,
    ] + spec_u32_be(seq) + spec_u32_be(ack) + seq![
        0x50u8,
        spec_flags_byte(flags),
        (window / 0x100) as u8,
        (window % 0x100) as u8,
        0u8,
        0u8,
        0u8,
        0u8,
    ] + payload
}

/// The TCP segment, checksum filled in.
pub open spec fn spec_tcp_segment(
    src: u32,
    dst: u32,
    src_port: u16,
    dst_port: u16,
    seq: u32,
    ack: u32,
    flags: TcpFlags,
    window: u16,
    payload: Seq<u8>,
) -> Seq<u8> {
    let seg0 = spec_tcp_segment_zero_ck(src_port, dst_port, seq, ack, flags, window, payload);
    let ck = spec_checksum(spec_pseudo_header(src, dst, 6, seg0.len() as int) + seg0);
    seq![
        (src_port / 0x100) as u8,
        (src_port % 0x100) as u8,
        (dst_port / 0x100) as u8,
        (dst_port % 0x100) as u8,
    ] + spec_u32_be(seq) + spec_u32_be(ack) + seq![
        0x50u8,
        spec_flags_byte(flags),
        (window / 0x100) as u8,
        (window % 0x100) as u8,
        (ck / 0x100) as u8,
        (ck % 0x100) as u8,
        0u8,
        0u8,
    ] + payload
}

/// A whole IPv4/TCP packet as `build_tcp_packet` emits it.
#[verifier::opaque]
pub open spec fn spec_tcp_packet(
    src: u32,
    dst: u32,
    src_port: u16,
    dst_port: u16,
    seq: u32,
    ack: u32,
    flags: TcpFlags,
    window: u16,
    payload: Seq<u8>,
) -> Seq<u8> {
    spec_ipv4_header(40 + payload.len() as int, 6, src, dst) + spec_tcp_segment(
        src,
        dst,
        src_port,
        dst_port,
        seq,
        ack,
        flags,
        window,
        payload,
    )
}

/// Build an IPv4/TCP packet: 20-byte IPv4 header (DF set, TTL 64), 20-byte
/// TCP header without options, both checksums computed.
#[verifier::rlimit(80)]
pub fn build_tcp_packet(
    src_ip: Ipv4Address,
    dst_ip: Ipv4Address,
    src_port: u16,
    dst_port: u16,
    seq: u32,
    ack: u32,
    flags: TcpFlags,
    window: u16,
    payload: &[u8],
) -> (r: Vec<u8>)
    requires
        payload@.len() + 40 <= 0xffff,
    ensures
        r@ == spec_tcp_packet(
            src_ip.bits,
            dst_ip.bits,
            src_port,
            dst_port,
            seq,
            ack,
            flags,
            window,
            payload@,
        ),
{
    let total_len: usize = 40 + payload.len();
    let src = src_ip.octets();
    let dst = dst_ip.octets();

    let mut hdr0: Vec<u8> = Vec::new();
    hdr0.push(0x45);
    hdr0.push(0x00);
    hdr0.push((total_len / 0x100) as u8);
    hdr0.push((total_len % 0x100) as u8);
    hdr0.push(0x00);
    hdr0.push(0x00);
    hdr0.push(0x40);
    hdr0.push(0x00);
    hdr0.push(64);
    hdr0.push(6);
    hdr0.push(0);
    hdr0.push(0);
    hdr0.push(src[0]);
    hdr0.push(src[1]);
    hdr0.push(src[2]);
    hdr0.push(src[3]);
    hdr0.push(dst[0]);
    hdr0.push(dst[1]);
    hdr0.push(dst[2]);
    hdr0.push(dst[3]);
    proof {
        assert(hdr0@ =~= spec_ipv4_header_zero_ck(total_len as int, 6, src_ip.bits, dst_ip.bits));
    }
    let ip_ck = calculate_checksum(hdr0.as_slice());

    let mut seg0: Vec<u8> = Vec::new();
    seg0.push((src_port / 0x100) as u8);
    seg0.push((src_port % 0x100) as u8);
    seg0.push((dst_port / 0x100) as u8);
    seg0.push((dst_port % 0x100) as u8);
    let seq_b = crate::net::u32_to_be(seq);
    seg0.push(seq_b[0]);
    seg0.push(seq_b[1]);
    seg0.push(seq_b[2]);
    seg0.push(seq_b[3]);
    let ack_b = crate::net::u32_to_be(ack);
    seg0.push(ack_b[0]);
    seg0.push(ack_b[1]);
    seg0.push(ack_b[2]);
    seg0.push(ack_b[3]);
    seg0.push(0x50);
    seg0.push(flags.to_byte());
    seg0.push((window / 0x100) as u8);
    seg0.push((window % 0x100) as u8);
    seg0.push(0);
    seg0.push(0);
    seg0.push(0);
    seg0.push(0);
    proof {
        assert(seg0@ =~= spec_tcp_segment_zero_ck(
            src_port,
            dst_port,
            seq,
            ack,
            flags,
            window,
            Seq::<u8>::empty(),
        ));
    }
    seg0.extend_from_slice(payload);
    proof {
        assert(seg0@ =~= spec_tcp_segment_zero_ck(
            src_port,
            dst_port,
            seq,
            ack,
            flags,
            window,
            payload@,
        ));
    }
    let tcp_ck = calculate_tcp_checksum(src_ip, dst_ip, seg0.as_slice());

    let mut packet: Vec<u8> = Vec::new();
    packet.push(0x45);
    packet.push(0x00);
    packet.push((total_len / 0x100) as u8);
    packet.push((total_len % 0x100) as u8);
    packet.push(0x00);
    packet.push(0x00);
    packet.push(0x40);
    packet.push(0x00);
    packet.push(64);
    packet.push(6);
    packet.push((ip_ck / 0x100) as u8);
    packet.push((ip_ck % 0x100) as u8);
    packet.push(src[0]);
    packet.push(src[1]);
    packet.push(src[2]);
    packet.push(src[3]);
    packet.push(dst[0]);
    packet.push(dst[1]);
    packet.push(dst[2]);
    packet.push(dst[3]);
    proof {
        assert(packet@ =~= spec_ipv4_header(total_len as int, 6, src_ip.bits, dst_ip.bits));
    }
    packet.push((src_port / 0x100) as u8);
    packet.push((src_port % 0x100) as u8);
    packet.push((dst_port / 0x100) as u8);
    packet.push((dst_port % 0x100) as u8);
    packet.push(seq_b[0]);
    packet.push(seq_b[1]);
    packet.push(seq_b[2]);
    packet.push(seq_b[3]);
    packet.push(ack_b[0]);
    packet.push(ack_b[1]);
    packet.push(ack_b[2]);
    packet.push(ack_b[3]);
    packet.push(0x50);
    packet.push(flags.to_byte());
    packet.push((window / 0x100) as u8);
    packet.push((window % 0x100) as u8);
    packet.push((tcp_ck / 0x100) as u8);
    packet.push((tcp_ck % 0x100) as u8);
    packet.push(0);
    packet.push(0);
    packet.extend_from_slice(payload);
    proof {
        reveal(spec_tcp_packet);
        assert(packet@ =~= spec_tcp_packet(
            src_ip.bits,
            dst_ip.bits,
            src_port,
            dst_port,
            seq,
            ack,
            flags,
            window,
            payload@,
        ));
    }
    packet
}

/// The UDP segment (8-byte header plus payload) with its checksum zero.
pub open spec fn spec_udp_segment_zero_ck(src_port: u16, dst_port: u16, payload: Seq<u8>) -> Seq<
    u8,
> {
    let udp_len = 8 + payload.len() as int;
    seq![
        (src_port / 0x100) as u8,
        (src_port % 0x100) as u8,
        (dst_port / 0x100) as u8,
        (dst_port % 0x100) as u8,
        (udp_len / 0x100) as u8,
        (udp_len % 0x100) as u8,
        0u8,
        0u8,
    ] + payload
}

/// The UDP segment, checksum filled in (zero rewritten to `0xFFFF`).
pub open spec fn spec_udp_segment(
    src: u32,
    dst: u32,
    src_port: u16,
    dst_port: u16,
    payload: Seq<u8>,
) -> Seq<u8> {
    let seg0 = spec_udp_segment_zero_ck(src_port, dst_port, payload);
    let raw_ck = spec_checksum(spec_pseudo_header(src, dst, 17, seg0.len() as int) + seg0);
    let ck = if raw_ck == 0 {
        0xffffint
    } else {
        raw_ck
    };
    let udp_len = 8 + payload.len() as int;
    seq![
        (src_port / 0x100) as u8,
        (src_port % 0x100) as u8,
        (dst_port / 0x100) as u8,
        (dst_port % 0x100) as u8,
        (udp_len / 0x100) as u8,
        (udp_len % 0x100) as u8,
        (ck / 0x100) as u8,
        (ck % 0x100) as u8,
    ] + payload
}

/// A whole IPv4/UDP packet as `build_udp_packet` emits it.
#[verifier::opaque]
pub open spec fn spec_udp_packet(
    src: u32,
    dst: u32,
    src_port: u16,
    dst_port: u16,
    payload: Seq<u8>,
) -> Seq<u8> {
    spec_ipv4_header(28 + payload.len() as int, 17, src, dst) + spec_udp_segment(
        src,
        dst,
        src_port,
        dst_port,
        payload,
    )
}

/// Build an IPv4/UDP packet: 20-byte IPv4 header (DF set, TTL 64), 8-byte
/// UDP header, both checksums computed.
#[verifier::rlimit(80)]
pub fn build_udp_packet(
    src_ip: Ipv4Address,
    dst_ip: Ipv4Address,
    src_port: u16,
    dst_port: u16,
    payload: &[u8],
) -> (r: Vec<u8>)
    requires
        payload@.len() + 28 <= 0xffff,
    ensures
        r@ == spec_udp_packet(src_ip.bits, dst_ip.bits, src_port, dst_port, payload@),
{
    let udp_len: usize = 8 + payload.len();
    let total_len: usize = 20 + udp_len;
    let src = src_ip.octets();
    let dst = dst_ip.octets();

    let mut hdr0: Vec<u8> = Vec::new();
    hdr0.push(0x45);
    hdr0.push(0x00);
    hdr0.push((total_len / 0x100) as u8);
    hdr0.push((total_len % 0x100) as u8);
    hdr0.push(0x00);
    hdr0.push(0x00);
    hdr0.push(0x40);
    hdr0.push(0x00);
    hdr0.push(64);
    hdr0.push(17);
    hdr0.push(0);
    hdr0.push(0);
    hdr0.push(src[0]);
    hdr0.push(src[1]);
    hdr0.push(src[2]);
    hdr0.push(src[3]);
    hdr0.push(dst[0]);
    hdr0.push(dst[1]);
    hdr0.push(dst[2]);
    hdr0.push(dst[3]);
    proof {
        assert(hdr0@ =~= spec_ipv4_header_zero_ck(total_len as int, 17, src_ip.bits, dst_ip.bits));
    }
    let ip_ck = calculate_checksum(hdr0.as_slice());

    let mut seg0: Vec<u8> = Vec::new();
    seg0.push((src_port / 0x100) as u8);
    seg0.push((src_port % 0x100) as u8);
    seg0.push((dst_port / 0x100) as u8);
    seg0.push((dst_port % 0x100) as u8);
    seg0.push((udp_len / 0x100) as u8);
    seg0.push((udp_len % 0x100) as u8);
    seg0.push(0);
    seg0.push(0);
    seg0.extend_from_slice(payload);
    proof {
        assert(seg0@ =~= spec_udp_segment_zero_ck(src_port, dst_port, payload@));
    }
    let udp_ck = calculate_udp_checksum(src_ip, dst_ip, seg0.as_slice());

    let mut packet: Vec<u8> = Vec::new();
    packet.push(0x45);
    packet.push(0x00);
    packet.push((total_len / 0x100) as u8);
    packet.push((total_len % 0x100) as u8);
    packet.push(0x00);
    packet.push(0x00);
    packet.push(0x40);
    packet.push(0x00);
    packet.push(64);
    packet.push(17);
    packet.push((ip_ck / 0x100) as u8);
    packet.push((ip_ck % 0x100) as u8);
    packet.push(src[0]);
    packet.push(src[1]);
    packet.push(src[2]);
    packet.push(src[3]);
    packet.push(dst[0]);
    packet.push(dst[1]);
    packet.push(dst[2]);
    packet.push(dst[3]);
    proof {
        assert(packet@ =~= spec_ipv4_header(total_len as int, 17, src_ip.bits, dst_ip.bits));
    }
    packet.push((src_port / 0x100) as u8);
    packet.push((src_port % 0x100) as u8);
    packet.push((dst_port / 0x100) as u8);
    packet.push((dst_port % 0x100) as u8);
    packet.push((udp_len / 0x100) as u8);
    packet.push((udp_len % 0x100) as u8);
    packet.push((udp_ck / 0x100) as u8);
    packet.push((udp_ck % 0x100) as u8);
    packet.extend_from_slice(payload);
    proof {
        reveal(spec_udp_packet);
        assert(packet@ =~= spec_udp_packet(
            src_ip.bits,
            dst_ip.bits,
            src_port,
            dst_port,
            payload@,
        ));
    }
    packet
}

/// Build an IPv4/TCP packet that carries no payload.
pub fn build_empty_tcp_packet(
    src_ip: Ipv4Address,
    dst_ip: Ipv4Address,
    src_port: u16,
    dst_port: u16,
    seq: u32,
    ack: u32,
    flags: TcpFlags,
    window: u16,
) -> (r: Vec<u8>)
    ensures
        r@ == spec_tcp_packet(
            src_ip.bits,
            dst_ip.bits,
            src_port,
            dst_port,
            seq,
            ack,
            flags,
            window,
            Seq::<u8>::empty(),
        ),
{
    let empty: Vec<u8> = Vec::new();
    let r = build_tcp_packet(
        src_ip,
        dst_ip,
        src_port,
        dst_port,
        seq,
        ack,
        flags,
        window,
        empty.as_slice(),
    );
    proof {
        assert(empty@ =~= Seq::<u8>::empty());
    }
    r
}

/// The TCP flags carried by a received segment.
#[derive(Debug, Clone, Copy, Default, PartialEq, Eq, Structural)]
pub struct ReceivedTcpFlags {
    pub syn: bool,
    pub ack: bool,
    pub fin: bool,
    pub rst: bool,
    pub psh: bool,
}

impl ReceivedTcpFlags {
    /// Decode the five flags this state machine reads from the flags byte.
    pub fn from_byte(b: u8) -> (r: ReceivedTcpFlags)
        ensures
            r.fin == (b & 0x01 != 0),
            r.syn == (b & 0x02 != 0),
            r.rst == (b & 0x04 != 0),
            r.psh == (b & 0x08 != 0),
            r.ack == (b & 0x10 != 0),
    {
        ReceivedTcpFlags {
            syn: b & 0x02 != 0,
            ack: b & 0x10 != 0,
            fin: b & 0x01 != 0,
            rst: b & 0x04 != 0,
            psh: b & 0x08 != 0,
        }
    }
}

/// Mathematical model of a parsed IPv4/TCP packet.
pub ghost struct TcpPacketView {
    pub src: u32,
    pub dst: u32,
    pub src_port: u16,
    pub dst_port: u16,
    pub seq: u32,
    pub ack: u32,
    pub flags: u8,
    pub window: u16,
    pub payload: Seq<u8>,
}

/// A parsed IPv4/TCP packet.
#[derive(Debug, Clone)]
pub struct TcpPacket {
    pub src: Ipv4Address,
    pub dst: Ipv4Address,
    pub src_port: u16,
    pub dst_port: u16,
    pub seq: u32,
    pub ack: u32,
    pub flags_byte: u8,
    pub flags: ReceivedTcpFlags,
    pub window: u16,
    pub payload: Vec<u8>,
}

impl View for TcpPacket {
    type V = TcpPacketView;

    open spec fn view(&self) -> TcpPacketView {
        TcpPacketView {
            src: self.src.bits,
            dst: self.dst.bits,
            src_port: self.src_port,
            dst_port: self.dst_port,
            seq: self.seq,
            ack: self.ack,
            flags: self.flags_byte,
            window: self.window,
            payload: self.payload@,
        }
    }
}

/// Parse an IPv4/TCP packet: IPv4 without fragmentation handling, options
/// skipped on both layers, total length required to match the byte count.
pub open spec fn spec_parse_tcp_packet(p: Seq<u8>) -> Option<TcpPacketView> {
    if p.len() < 40 || p.len() > 0xffff {
        None
    } else {
        let ihl = (p[0] % 16) * 4;
        if p[0] / 16 != 4 || ihl < 20 || p[9] != 6 || spec_u16_from_be(p[2], p[3]) != p.len() {
            None
        } else if p.len() < ihl + 20 {
            None
        } else {
            let o = ihl;
            let doff = (p[o + 12] / 16) * 4;
            if doff < 20 || p.len() < o + doff {
                None
            } else {
                Some(
                    TcpPacketView {
                        src: spec_u32_from_be(p[12], p[13], p[14], p[15]),
                        dst: spec_u32_from_be(p[16], p[17], p[18], p[19]),
                        src_port: spec_u16_from_be(p[o], p[o + 1]),
                        dst_port: spec_u16_from_be(p[o + 2], p[o + 3]),
                        seq: spec_u32_from_be(p[o + 4], p[o + 5], p[o + 6], p[o + 7]),
                        ack: spec_u32_from_be(p[o + 8], p[o + 9], p[o + 10], p[o + 11]),
                        flags: p[o + 13],
                        window: spec_u16_from_be(p[o + 14], p[o + 15]),
                        payload: p.skip(o + doff),
                    },
                )
            }
        }
    }
}

/// Parse a raw IPv4/TCP packet read from the TUN device.
///
/// Succeeds exactly on the packets `spec_parse_tcp_packet` accepts; every
/// other input is a `Protocol` error.
pub fn parse_tcp_packet(bytes: &[u8]) -> (r: Result<TcpPacket, Error>)
    ensures
        (r is Ok <==> spec_parse_tcp_packet(bytes@) is Some),
        r matches Ok(pkt) ==> Some(pkt@) == spec_parse_tcp_packet(bytes@),
        r matches Ok(pkt) ==> pkt.flags == (ReceivedTcpFlags {
            fin: pkt.flags_byte & 0x01 != 0,
            syn: pkt.flags_byte & 0x02 != 0,
            rst: pkt.flags_byte & 0x04 != 0,
            psh: pkt.flags_byte & 0x08 != 0,
            ack: pkt.flags_byte & 0x10 != 0,
        }),
        r matches Err(e) ==> e == Error::Protocol,
{
    let len = bytes.len();
    if len < 40 || len > 0xffff {
        return Err(Error::Protocol);
    }
    let ihl: usize = ((bytes[0] % 16) as usize) * 4;
    if bytes[0] / 16 != 4 || ihl < 20 || bytes[9] != 6 {
        return Err(Error::Protocol);
    }
    if (u16_from_be(bytes[2], bytes[3]) as usize) != len {
        return Err(Error::Protocol);
    }
    if len < ihl + 20 {
        return Err(Error::Protocol);
    }
    let o = ihl;
    let doff: usize = ((bytes[o + 12] / 16) as usize) * 4;
    if doff < 20 || len < o + doff {
        return Err(Error::Protocol);
    }
    let flags_byte = bytes[o + 13];
    let payload_slice = vstd::slice::slice_subrange(bytes, o + doff, len);
    let pkt = TcpPacket {
        src: Ipv4Address::from_bits(u32_from_be(bytes[12], bytes[13], bytes[14], bytes[15])),
        dst: Ipv4Address::from_bits(u32_from_be(bytes[16], bytes[17], bytes[18], bytes[19])),
        src_port: u16_from_be(bytes[o], bytes[o + 1]),
        dst_port: u16_from_be(bytes[o + 2], bytes[o + 3]),
        seq: u32_from_be(bytes[o + 4], bytes[o + 5], bytes[o + 6], bytes[o + 7]),
        ack: u32_from_be(bytes[o + 8], bytes[o + 9], bytes[o + 10], bytes[o + 11]),
        flags_byte,
        flags: ReceivedTcpFlags::from_byte(flags_byte),
        window: u16_from_be(bytes[o + 14], bytes[o + 15]),
        payload: vstd::slice::slice_to_vec(payload_slice),
    };
    proof {
        assert(pkt@.payload =~= bytes@.skip(o + doff));
    }
    Ok(pkt)
}

/// Mathematical model of a parsed IPv4/UDP packet.
pub ghost struct UdpPacketView {
    pub src: u32,
    pub dst: u32,
    pub src_port: u16,
    pub dst_port: u16,
    pub payload: Seq<u8>,
}

/// A parsed IPv4/UDP packet.
#[derive(Debug, Clone)]
pub struct UdpPacket {
    pub src: Ipv4Address,
    pub dst: Ipv4Address,
    pub src_port: u16,
    pub dst_port: u16,
    pub payload: Vec<u8>,
}

impl View for UdpPacket {
    type V = UdpPacketView;

    open spec fn view(&self) -> UdpPacketView {
        UdpPacketView {
            src: self.src.bits,
            dst: self.dst.bits,
            src_port: self.src_port,
            dst_port: self.dst_port,
            payload: self.payload@,
        }
    }
}

/// Parse an IPv4/UDP packet: options skipped, the IPv4 total length and the
/// UDP length field both required to match the byte count.
pub open spec fn spec_parse_udp_packet(p: Seq<u8>) -> Option<UdpPacketView> {
    if p.len() < 28 || p.len() > 0xffff {
        None
    } else {
        let ihl = (p[0] % 16) * 4;
        if p[0] / 16 != 4 || ihl < 20 || p[9] != 17 || spec_u16_from_be(p[2], p[3]) != p.len() {
            None
        } else if p.len() < ihl + 8 {
            None
        } else {
            let o = ihl;
            if spec_u16_from_be(p[o + 4], p[o + 5]) != p.len() - ihl {
                None
            } else {
                Some(
                    UdpPacketView {
                        src: spec_u32_from_be(p[12], p[13], p[14], p[15]),
                        dst: spec_u32_from_be(p[16], p[17], p[18], p[19]),
                        src_port: spec_u16_from_be(p[o], p[o + 1]),
                        dst_port: spec_u16_from_be(p[o + 2], p[o + 3]),
                        payload: p.skip(o + 8),
                    },
                )
            }
        }
    }
}

/// Parse a raw IPv4/UDP packet read from the TUN device.
pub fn parse_udp_packet(bytes: &[u8]) -> (r: Result<UdpPacket, Error>)
    ensures
        r is Ok <==> spec_parse_udp_packet(bytes@) is Some,
        r matches Ok(pkt) ==> Some(pkt@) == spec_parse_udp_packet(bytes@),
        r matches Err(e) ==> e == Error::Protocol,
{
    let len = bytes.len();
    if len < 28 || len > 0xffff {
        return Err(Error::Protocol);
    }
    let ihl: usize = ((bytes[0] % 16) as usize) * 4;
    if bytes[0] / 16 != 4 || ihl < 20 || bytes[9] != 17 {
        return Err(Error::Protocol);
    }
    if (u16_from_be(bytes[2], bytes[3]) as usize) != len {
        return Err(Error::Protocol);
    }
    if len < ihl + 8 {
        return Err(Error::Protocol);
    }
    let o = ihl;
    if (u16_from_be(bytes[o + 4], bytes[o + 5]) as usize) != len - ihl {
        return Err(Error::Protocol);
    }
    let payload_slice = vstd::slice::slice_subrange(bytes, o + 8, len);
    let pkt = UdpPacket {
        src: Ipv4Address::from_bits(u32_from_be(bytes[12], bytes[13], bytes[14], bytes[15])),
        dst: Ipv4Address::from_bits(u32_from_be(bytes[16], bytes[17], bytes[18], bytes[19])),
        src_port: u16_from_be(bytes[o], bytes[o + 1]),
        dst_port: u16_from_be(bytes[o + 2], bytes[o + 3]),
        payload: vstd::slice::slice_to_vec(payload_slice),
    };
    proof {
        assert(pkt@.payload =~= bytes@.skip(o + 8));
    }
    Ok(pkt)
}

/// A folded word sum lies between 0 and 0xffff.
proof fn lemma_fold_carry_bounds(s: int)
    requires
        s >= 0,
    ensures
        0 <= spec_fold_carry(s) <= 0xffff,
    decreases s,
{
    if s >= 0x10000 {
        lemma_fold_carry_bounds(s % 0x10000 + s / 0x10000);
    }
}

/// A checksum lies between 0 and 0xffff.
pub proof fn lemma_checksum_bounds(data: Seq<u8>)
    ensures
        0 <= spec_checksum(data) <= 0xffff,
{
    lemma_sum_words_bounds(data, data.len() as int);
    lemma_fold_carry_bounds(spec_sum_words(data, data.len() as int));
}

/// Parse-build round trip for IPv4/TCP: parsing a built packet returns
/// exactly the fields it was built from.
#[verifier::rlimit(100)]
pub proof fn lemma_tcp_parse_build_round_trip(
    src: u32,
    dst: u32,
    src_port: u16,
    dst_port: u16,
    seq: u32,
    ack: u32,
    flags: TcpFlags,
    window: u16,
    payload: Seq<u8>,
)
    requires
        payload.len() + 40 <= 0xffff,
    ensures
        spec_parse_tcp_packet(
            spec_tcp_packet(src, dst, src_port, dst_port, seq, ack, flags, window, payload),
        ) == Some(
            TcpPacketView {
                src,
                dst,
                src_port,
                dst_port,
                seq,
                ack,
                flags: spec_flags_byte(flags),
                window,
                payload,
            },
        ),
{
    reveal(spec_tcp_packet);
    let p = spec_tcp_packet(src, dst, src_port, dst_port, seq, ack, flags, window, payload);
    lemma_checksum_bounds(spec_ipv4_header_zero_ck(40 + payload.len() as int, 6, src, dst));
    assert(p.len() == 40 + payload.len());
    assert(p[0] == 0x45);
    assert(p[9] == 6);
    assert(spec_u16_from_be(p[2], p[3]) == p.len());
    assert(p[32] == 0x50);
    assert(p.skip(40) =~= payload);
    assert(spec_u32_from_be(p[12], p[13], p[14], p[15]) == src) by {
        crate::net::lemma_u32_be_round_trip(src);
    }
    assert(spec_u32_from_be(p[16], p[17], p[18], p[19]) == dst) by {
        crate::net::lemma_u32_be_round_trip(dst);
    }
    assert(spec_u32_from_be(p[24], p[25], p[26], p[27]) == seq) by {
        crate::net::lemma_u32_be_round_trip(seq);
    }
    assert(spec_u32_from_be(p[28], p[29], p[30], p[31]) == ack) by {
        crate::net::lemma_u32_be_round_trip(ack);
    }
}

/// Parse-build round trip for IPv4/UDP.
pub proof fn lemma_udp_parse_build_round_trip(
    src: u32,
    dst: u32,
    src_port: u16,
    dst_port: u16,
    payload: Seq<u8>,
)
    requires
        payload.len() + 28 <= 0xffff,
    ensures
        spec_parse_udp_packet(spec_udp_packet(src, dst, src_port, dst_port, payload)) == Some(
            UdpPacketView { src, dst, src_port, dst_port, payload },
        ),
{
    reveal(spec_udp_packet);
    let p = spec_udp_packet(src, dst, src_port, dst_port, payload);
    lemma_checksum_bounds(spec_ipv4_header_zero_ck(28 + payload.len() as int, 17, src, dst));
    assert(p.len() == 28 + payload.len());
    assert(p[0] == 0x45);
    assert(p[9] == 17);
    assert(spec_u16_from_be(p[2], p[3]) == p.len());
    assert(spec_u16_from_be(p[24], p[25]) == p.len() - 20);
    assert(p.skip(28) =~= payload);
    assert(spec_u32_from_be(p[12], p[13], p[14], p[15]) == src) by {
        crate::net::lemma_u32_be_round_trip(src);
    }
    assert(spec_u32_from_be(p[16], p[17], p[18], p[19]) == dst) by {
        crate::net::lemma_u32_be_round_trip(dst);
    }
}

/// The checksums a built TCP packet carries are the checksums recomputed
/// from its own bytes with the checksum fields zeroed.
pub proof fn lemma_tcp_packet_checksums(
    src: u32,
    dst: u32,
    src_port: u16,
    dst_port: u16,
    seq: u32,
    ack: u32,
    flags: TcpFlags,
    window: u16,
    payload: Seq<u8>,
)
    requires
        payload.len() + 40 <= 0xffff,
    ensures
        ({
            let p = spec_tcp_packet(src, dst, src_port, dst_port, seq, ack, flags, window, payload);
            &&& spec_u16_from_be(p[10], p[11]) == spec_checksum(
                p.take(20).update(10, 0u8).update(11, 0u8),
            )
            &&& spec_u16_from_be(p[36], p[37]) == spec_checksum(
                spec_pseudo_header(src, dst, 6, p.len() - 20) + p.skip(20).update(16, 0u8).update(
                    17,
                    0u8,
                ),
            )
        }),
{
    reveal(spec_tcp_packet);
    let p = spec_tcp_packet(src, dst, src_port, dst_port, seq, ack, flags, window, payload);
    let total = 40 + payload.len() as int;
    let hdr0 = spec_ipv4_header_zero_ck(total, 6, src, dst);
    let seg0 = spec_tcp_segment_zero_ck(src_port, dst_port, seq, ack, flags, window, payload);
    lemma_checksum_bounds(hdr0);
    lemma_checksum_bounds(spec_pseudo_header(src, dst, 6, seg0.len() as int) + seg0);
    assert(p.take(20).update(10, 0u8).update(11, 0u8) =~= hdr0);
    assert(p.skip(20).update(16, 0u8).update(17, 0u8) =~= seg0);
    assert(p.len() - 20 == seg0.len());
}

/// The checksums a built UDP packet carries are the checksums recomputed
/// from its own bytes with the checksum fields zeroed (a zero UDP checksum
/// being rewritten to 0xFFFF).
pub proof fn lemma_udp_packet_checksums(
    src: u32,
    dst: u32,
    src_port: u16,
    dst_port: u16,
    payload: Seq<u8>,
)
    requires
        payload.len() + 28 <= 0xffff,
    ensures
        ({
            let p = spec_udp_packet(src, dst, src_port, dst_port, payload);
            let raw_ck = spec_checksum(
                spec_pseudo_header(src, dst, 17, p.len() - 20) + p.skip(20).update(6, 0u8).update(
                    7,
                    0u8,
                ),
            );
            &&& spec_u16_from_be(p[10], p[11]) == spec_checksum(
                p.take(20).update(10, 0u8).update(11, 0u8),
            )
            &&& spec_u16_from_be(p[26], p[27]) == if raw_ck == 0 {
                0xffffint
            } else {
                raw_ck
            }
        }),
{
    reveal(spec_udp_packet);
    let p = spec_udp_packet(src, dst, src_port, dst_port, payload);
    let total = 28 + payload.len() as int;
    let hdr0 = spec_ipv4_header_zero_ck(total, 17, src, dst);
    let seg0 = spec_udp_segment_zero_ck(src_port, dst_port, payload);
    lemma_checksum_bounds(hdr0);
    lemma_checksum_bounds(spec_pseudo_header(src, dst, 17, seg0.len() as int) + seg0);
    assert(p.take(20).update(10, 0u8).update(11, 0u8) =~= hdr0);
    assert(p.skip(20).update(6, 0u8).update(7, 0u8) =~= seg0);
    assert(p.len() - 20 == seg0.len());
}

} // verus!

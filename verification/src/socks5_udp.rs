//! The RFC 1928 UDP relay frame:
//! `RSV(2) FRAG(1) ATYP(1) DST.ADDR DST.PORT(2) DATA`.

use vstd::prelude::*;
use vstd::string::StringSliceAdditionalSpecFns;

use crate::errors::Error;
use crate::net::{spec_u16_from_be, spec_u32_be, Ipv4Address};

verus! {

/// One SOCKS5 UDP frame.
#[derive(Debug, Clone)]
pub struct Socks5UdpFrame {
    /// Fragment number; 0 means unfragmented.
    pub frag: u8,
    /// Address type byte (1, 3 or 4).
    pub atyp: u8,
    /// The raw DST.ADDR field (for domains: length byte then name).
    pub dst_addr: Vec<u8>,
    pub dst_port: u16,
    pub data: Vec<u8>,
}

/// The frame's wire form.
pub open spec fn spec_frame_bytes(
    frag: u8,
    atyp: u8,
    dst_addr: Seq<u8>,
    dst_port: u16,
    data: Seq<u8>,
) -> Seq<u8> {
    seq![0u8, 0u8, frag, atyp] + dst_addr + seq![
        (dst_port / 0x100) as u8,
        (dst_port % 0x100) as u8,
    ] + data
}

impl Socks5UdpFrame {
    /// A frame addressed to a raw IPv4 destination.
    pub fn new_ipv4(dst_ip: Ipv4Address, dst_port: u16, data: Vec<u8>) -> (r: Socks5UdpFrame)
        ensures
            r.frag == 0,
            r.atyp == 0x01,
            r.dst_addr@ == spec_u32_be(dst_ip.bits),
            r.dst_port == dst_port,
            r.data@ == data@,
    {
        let o = dst_ip.octets();
        let mut addr: Vec<u8> = Vec::new();
        addr.push(o[0]);
        addr.push(o[1]);
        addr.push(o[2]);
        addr.push(o[3]);
        proof {
            assert(addr@ =~= spec_u32_be(dst_ip.bits));
        }
        Socks5UdpFrame { frag: 0, atyp: 0x01, dst_addr: addr, dst_port, data }
    }

    /// A frame addressed to a domain, forwarded verbatim.
    pub fn new_domain(domain: &str, dst_port: u16, data: Vec<u8>) -> (r: Socks5UdpFrame)
        requires
            domain.spec_bytes().len() <= 255,
        ensures
            r.frag == 0,
            r.atyp == 0x03,
            r.dst_addr@ == seq![domain.spec_bytes().len() as u8] + domain.spec_bytes(),
            r.dst_port == dst_port,
            r.data@ == data@,
    {
        let bytes = domain.as_bytes();
        let mut addr: Vec<u8> = Vec::new();
        addr.push(bytes.len() as u8);
        addr.extend_from_slice(bytes);
        proof {
            assert(addr@ =~= seq![domain.spec_bytes().len() as u8] + domain.spec_bytes());
        }
        Socks5UdpFrame { frag: 0, atyp: 0x03, dst_addr: addr, dst_port, data }
    }

    /// Serialize the frame.
    pub fn to_bytes(&self) -> (r: Vec<u8>)
        ensures
            r@ == spec_frame_bytes(self.frag, self.atyp, self.dst_addr@, self.dst_port, self.data@),
    {
        let mut buf: Vec<u8> = Vec::new();
        buf.push(0x00);
        buf.push(0x00);
        buf.push(self.frag);
        buf.push(self.atyp);
        buf.extend_from_slice(self.dst_addr.as_slice());
        buf.push((self.dst_port / 0x100) as u8);
        buf.push((self.dst_port % 0x100) as u8);
        buf.extend_from_slice(self.data.as_slice());
        proof {
            assert(buf@ =~= spec_frame_bytes(
                self.frag,
                self.atyp,
                self.dst_addr@,
                self.dst_port,
                self.data@,
            ));
        }
        buf
    }

    /// Parse a frame from a received datagram.
    ///
    /// Succeeds exactly on buffers of at least ten bytes whose ATYP is
    /// known and whose address and port fit; everything else is a
    /// protocol violation.
    pub fn from_bytes(buf: &[u8]) -> (r: Result<Socks5UdpFrame, Error>)
        ensures
            (r is Ok <==> (buf@.len() >= 10 && (buf@[3] == 0x01 || (buf@[3] == 0x03 && buf@.len()
                >= 7 + buf@[4]) || (buf@[3] == 0x04 && buf@.len() >= 22)))),
            r matches Ok(f) ==> ({
                &&& buf@.len() >= 10
                &&& f.frag == buf@[2]
                &&& f.atyp == buf@[3]
                &&& (f.atyp == 0x01 || f.atyp == 0x03 || f.atyp == 0x04)
                &&& (f.atyp == 0x01 ==> f.dst_addr@ == buf@.subrange(4, 8) && f.dst_port
                    == spec_u16_from_be(buf@[8], buf@[9]) && f.data@ == buf@.skip(10))
                &&& (f.atyp == 0x03 ==> ({
                    let n = buf@[4] as int;
                    &&& buf@.len() >= 7 + n
                    &&& f.dst_addr@ == buf@.subrange(4, 5 + n)
                    &&& f.dst_port == spec_u16_from_be(buf@[5 + n], buf@[6 + n])
                    &&& f.data@ == buf@.skip(7 + n)
                }))
                &&& (f.atyp == 0x04 ==> buf@.len() >= 22 && f.dst_addr@ == buf@.subrange(4, 20)
                    && f.dst_port == spec_u16_from_be(buf@[20], buf@[21]) && f.data@ == buf@.skip(
                    22,
                ))
            }),
            r matches Err(e) ==> e == Error::Protocol,
    {
        if buf.len() < 10 {
            return Err(Error::Protocol);
        }
        let frag = buf[2];
        let atyp = buf[3];
        if atyp == 0x01 {
            let addr = vstd::slice::slice_to_vec(vstd::slice::slice_subrange(buf, 4, 8));
            let port = crate::net::u16_from_be(buf[8], buf[9]);
            let data = vstd::slice::slice_to_vec(vstd::slice::slice_subrange(buf, 10, buf.len()));
            Ok(Socks5UdpFrame { frag, atyp, dst_addr: addr, dst_port: port, data })
        } else if atyp == 0x03 {
            let n = buf[4] as usize;
            if buf.len() < 7 + n {
                return Err(Error::Protocol);
            }
            let addr = vstd::slice::slice_to_vec(vstd::slice::slice_subrange(buf, 4, 5 + n));
            let port = crate::net::u16_from_be(buf[5 + n], buf[6 + n]);
            let data = vstd::slice::slice_to_vec(
                vstd::slice::slice_subrange(buf, 7 + n, buf.len()),
            );
            Ok(Socks5UdpFrame { frag, atyp, dst_addr: addr, dst_port: port, data })
        } else if atyp == 0x04 {
            if buf.len() < 22 {
                return Err(Error::Protocol);
            }
            let addr = vstd::slice::slice_to_vec(vstd::slice::slice_subrange(buf, 4, 20));
            let port = crate::net::u16_from_be(buf[20], buf[21]);
            let data = vstd::slice::slice_to_vec(vstd::slice::slice_subrange(buf, 22, buf.len()));
            Ok(Socks5UdpFrame { frag, atyp, dst_addr: addr, dst_port: port, data })
        } else {
            Err(Error::Protocol)
        }
    }

    /// The IPv4 destination, for addressing a reply.
    pub fn get_source_addr(&self) -> (r: Option<(Ipv4Address, u16)>)
        ensures
            (self.atyp == 0x01 && self.dst_addr@.len() == 4) ==> (r matches Some(p) && p.0.bits
                == crate::net::spec_u32_from_be(
                self.dst_addr@[0],
                self.dst_addr@[1],
                self.dst_addr@[2],
                self.dst_addr@[3],
            ) && p.1 == self.dst_port),
            !(self.atyp == 0x01 && self.dst_addr@.len() == 4) ==> r is None,
    {
        if self.atyp == 0x01 && self.dst_addr.len() == 4 {
            let ip = Ipv4Address::from_bits(
                crate::net::u32_from_be(
                    self.dst_addr[0],
                    self.dst_addr[1],
                    self.dst_addr[2],
                    self.dst_addr[3],
                ),
            );
            Some((ip, self.dst_port))
        } else {
            None
        }
    }
}

/// Serialize-parse round trip for domain frames: the encoded bytes meet
/// the parser's acceptance condition and every field reads back exactly.
/// (The address and payload together must reach three bytes, since the
/// parser refuses datagrams under ten bytes.)
pub proof fn lemma_udp_frame_round_trip_domain(name: Seq<u8>, port: u16, data: Seq<u8>)
    requires
        name.len() <= 255,
        name.len() + data.len() >= 3,
    ensures
        ({
            let addr = seq![name.len() as u8] + name;
            let b = spec_frame_bytes(0, 0x03, addr, port, data);
            &&& b.len() >= 10
            &&& b[2] == 0
            &&& b[3] == 0x03
            &&& b[4] == name.len() as u8
            &&& b.len() >= 7 + b[4]
            &&& b.subrange(4, 5 + name.len() as int) == addr
            &&& spec_u16_from_be(b[5 + name.len() as int], b[6 + name.len() as int]) == port
            &&& b.skip(7 + name.len() as int) == data
        }),
{
    let addr = seq![name.len() as u8] + name;
    let b = spec_frame_bytes(0, 0x03, addr, port, data);
    assert(b.len() == 7 + name.len() + data.len());
    assert(b.subrange(4, 5 + name.len() as int) =~= addr);
    assert(b.skip(7 + name.len() as int) =~= data);
}

/// Serialize-parse round trip for IPv4 frames whose payload keeps the
/// frame at least ten bytes long (always true for ATYP 1).
pub proof fn lemma_udp_frame_round_trip_ipv4(ip: u32, port: u16, data: Seq<u8>)
    ensures
        ({
            let b = spec_frame_bytes(0, 0x01, spec_u32_be(ip), port, data);
            &&& b.len() >= 10
            &&& b[2] == 0
            &&& b[3] == 0x01
            &&& b.subrange(4, 8) == spec_u32_be(ip)
            &&& spec_u16_from_be(b[8], b[9]) == port
            &&& b.skip(10) == data
        }),
{
    let b = spec_frame_bytes(0, 0x01, spec_u32_be(ip), port, data);
    assert(b.subrange(4, 8) =~= spec_u32_be(ip));
    assert(b.skip(10) =~= data);
}

} // verus!

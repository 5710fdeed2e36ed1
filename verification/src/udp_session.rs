//! UDP over the tunnel: session tracking and the length-prefixed datagram
//! framing carried on a dedicated multiplexed stream.
//!
//! A stream opens with the line `UDP:{host}:{port}\n`, then each datagram
//! travels as a 2-byte big-endian length followed by its bytes. Sessions
//! are keyed per 4-tuple and idle-expire after 60 seconds.

use vstd::prelude::*;
use vstd::string::StringSliceAdditionalSpecFns;

use crate::errors::Error;
use crate::kvlist::KvList;
use crate::net::{spec_u16_from_be, Ipv4Address};
use crate::tcp_session::spec_session_key;
use crate::textutil::spec_dec_digits;

verus! {

/// UDP sessions idle-expire after this many milliseconds.
pub const UDP_SESSION_TIMEOUT_MS: u64 = 60000;

/// A UDP session's 4-tuple.
#[derive(Debug, Clone, Copy, PartialEq, Eq, Hash, Structural)]
pub struct UdpSessionKey {
    pub local_ip: Ipv4Address,
    pub local_port: u16,
    pub remote_ip: Ipv4Address,
    pub remote_port: u16,
}

impl UdpSessionKey {
    /// Build a key.
    pub fn new(local_ip: Ipv4Address, local_port: u16, remote_ip: Ipv4Address, remote_port: u16)
        -> (r: UdpSessionKey)
        ensures
            r == (UdpSessionKey { local_ip, local_port, remote_ip, remote_port }),
    {
        UdpSessionKey { local_ip, local_port, remote_ip, remote_port }
    }

    /// The packed form used as the table key.
    pub fn encode(&self) -> (r: u128)
        ensures
            r == spec_session_key(
                self.local_ip.bits,
                self.local_port,
                self.remote_ip.bits,
                self.remote_port,
            ),
    {
        (((self.local_ip.bits as u128) * 0x10000 + (self.local_port as u128)) * 0x100000000 + (
        self.remote_ip.bits as u128)) * 0x10000 + (self.remote_port as u128)
    }
}

/// One tracked UDP session: only its activity clock matters here; the
/// caller owns the channel to the forwarding task.
#[derive(Debug, Clone, Copy, PartialEq, Eq, Structural)]
pub struct UdpSession {
    pub created_at_ms: u64,
    pub last_active_ms: u64,
}

/// Whether a session has been idle past the UDP timeout.
pub open spec fn spec_udp_expired(s: UdpSession, now_ms: u64) -> bool {
    now_ms > s.last_active_ms && now_ms - s.last_active_ms > UDP_SESSION_TIMEOUT_MS
}

/// What to do with one captured datagram.
#[derive(Debug, Clone, Copy, PartialEq, Eq, Structural)]
pub enum UdpDecision {
    /// A live session exists: hand the payload to its forwarding task.
    ForwardExisting,
    /// None (or only an expired one): create a session and a new upstream
    /// stream, then forward.
    CreateSession,
}

/// The UDP session table.
pub struct UdpSessionManager {
    pub sessions: KvList<UdpSession>,
}

impl UdpSessionManager {
    /// Keys are unique.
    pub open spec fn wf(&self) -> bool {
        self.sessions.wf()
    }

    /// The sessions as a map from packed key to session.
    pub open spec fn sessions_map(&self) -> Map<u128, UdpSession> {
        self.sessions.as_map()
    }

    /// An empty table.
    pub fn new() -> (r: UdpSessionManager)
        ensures
            r.wf(),
            r.sessions_map() == Map::<u128, UdpSession>::empty(),
    {
        UdpSessionManager { sessions: KvList::new() }
    }

    /// Decide one captured datagram: an existing live session is touched
    /// and reused; otherwise (none, or expired) a fresh session is
    /// recorded and the caller must open a stream for it.
    pub fn handle_packet(&mut self, key: &UdpSessionKey, now_ms: u64) -> (r: UdpDecision)
        requires
            old(self).wf(),
        ensures
            final(self).wf(),
            ({
                let k = spec_session_key(
                    key.local_ip.bits,
                    key.local_port,
                    key.remote_ip.bits,
                    key.remote_port,
                );
                let m = old(self).sessions_map();
                if m.dom().contains(k) && !spec_udp_expired(m[k], now_ms) {
                    r == UdpDecision::ForwardExisting && final(self).sessions_map() == m.insert(
                        k,
                        UdpSession { last_active_ms: now_ms, ..m[k] },
                    )
                } else {
                    r == UdpDecision::CreateSession && final(self).sessions_map() == m.insert(
                        k,
                        UdpSession { created_at_ms: now_ms, last_active_ms: now_ms },
                    )
                }
            }),
    {
        let k = key.encode();
        let found = match self.sessions.get(k) {
            Some(s) => Some(*s),
            None => None,
        };
        match found {
            Some(s) => {
                let expired = now_ms > s.last_active_ms && now_ms - s.last_active_ms
                    > UDP_SESSION_TIMEOUT_MS;
                if !expired {
                    self.sessions.insert(k, UdpSession { last_active_ms: now_ms, ..s });
                    UdpDecision::ForwardExisting
                } else {
                    self.sessions.insert(
                        k,
                        UdpSession { created_at_ms: now_ms, last_active_ms: now_ms },
                    );
                    UdpDecision::CreateSession
                }
            },
            None => {
                self.sessions.insert(
                    k,
                    UdpSession { created_at_ms: now_ms, last_active_ms: now_ms },
                );
                UdpDecision::CreateSession
            },
        }
    }

    /// Drop `key`'s session.
    pub fn remove(&mut self, key: &UdpSessionKey)
        requires
            old(self).wf(),
        ensures
            final(self).wf(),
            final(self).sessions_map() == old(self).sessions_map().remove(
                spec_session_key(
                    key.local_ip.bits,
                    key.local_port,
                    key.remote_ip.bits,
                    key.remote_port,
                ),
            ),
    {
        let k = key.encode();
        self.sessions.remove(k);
    }

    /// Drop every expired session; keep the rest unchanged.
    pub fn cleanup_expired(&mut self, now_ms: u64)
        requires
            old(self).wf(),
        ensures
            final(self).wf(),
            forall|k: u128|
                final(self).sessions_map().dom().contains(k) <==> (
                #[trigger] old(self).sessions_map().dom().contains(k) && !spec_udp_expired(
                    old(self).sessions_map()[k],
                    now_ms,
                )),
            forall|k: u128|
                final(self).sessions_map().dom().contains(k)
                    ==> #[trigger] final(self).sessions_map()[k] == old(self).sessions_map()[k],
    {
        let n = self.sessions.len();
        let ghost orig = self.sessions.spec_entries();
        let ghost m = self.sessions.as_map();
        let mut kept: KvList<UdpSession> = KvList::new();
        let mut i: usize = 0;
        while i < n
            invariant
                i <= n,
                n == orig.len(),
                self.sessions.spec_entries() == orig,
                self.sessions.wf(),
                m == self.sessions.as_map(),
                kept.wf(),
                forall|k: u128|
                    kept.as_map().dom().contains(k) <==> (exists|j: int|
                        0 <= j < i && orig[j].0 == k && !spec_udp_expired(orig[j].1, now_ms)),
                forall|k: u128| #[trigger]
                    kept.as_map().dom().contains(k) ==> m.dom().contains(k) && kept.as_map()[k]
                        == m[k],
            decreases n - i,
        {
            let k = self.sessions.key_at(i);
            let v = *self.sessions.value_at(i);
            proof {
                crate::kvlist::lemma_kv_index(orig, i as int);
            }
            let expired = now_ms > v.last_active_ms && now_ms - v.last_active_ms
                > UDP_SESSION_TIMEOUT_MS;
            if !expired {
                kept.insert(k, v);
            }
            proof {
                assert forall|kk: u128| kept.as_map().dom().contains(kk) implies (exists|j: int|
                    0 <= j < i + 1 && orig[j].0 == kk && !spec_udp_expired(orig[j].1, now_ms)) by {
                    if kk == k && !spec_udp_expired(v, now_ms) {
                        assert(orig[i as int].0 == kk);
                    } else {
                        assert(kept.as_map().dom().contains(kk));
                    }
                }
            }
            i = i + 1;
        }
        proof {
            assert forall|k: u128| m.dom().contains(k) implies (exists|j: int|
                0 <= j < orig.len() && orig[j].0 == k) by {
                crate::kvlist::lemma_kv_contains(orig, k);
            }
            assert forall|k: u128|
                m.dom().contains(k) && !spec_udp_expired(m[k], now_ms) implies
                kept.as_map().dom().contains(k) by {
                let j = choose|j: int| 0 <= j < orig.len() && orig[j].0 == k;
                crate::kvlist::lemma_kv_index(orig, j);
                assert(orig[j].1 == m[k]);
            }
            assert forall|k: u128| kept.as_map().dom().contains(k) implies m.dom().contains(k)
                && !spec_udp_expired(m[k], now_ms) by {
                let j = choose|j: int|
                    0 <= j < n && orig[j].0 == k && !spec_udp_expired(orig[j].1, now_ms);
                crate::kvlist::lemma_kv_index(orig, j);
                assert(orig[j].1 == m[k]);
            }
        }
        self.sessions = kept;
    }

    /// How many sessions are live at `now_ms`: exactly the unexpired
    /// entries.
    pub fn active_sessions(&self, now_ms: u64) -> (r: usize)
        ensures
            r == spec_count_live(self.sessions.spec_entries(), now_ms),
    {
        let n = self.sessions.len();
        let mut count: usize = 0;
        let mut i: usize = 0;
        proof {
            assert(self.sessions.spec_entries().take(0) =~= Seq::<(u128, UdpSession)>::empty());
        }
        while i < n
            invariant
                i <= n,
                n == self.sessions.spec_entries().len(),
                count <= i,
                count == spec_count_live(self.sessions.spec_entries().take(i as int), now_ms),
            decreases n - i,
        {
            let v = self.sessions.value_at(i);
            let expired = now_ms > v.last_active_ms && now_ms - v.last_active_ms
                > UDP_SESSION_TIMEOUT_MS;
            proof {
                let s = self.sessions.spec_entries();
                assert(s.take(i + 1).drop_last() =~= s.take(i as int));
                assert(s.take(i + 1).last() == s[i as int]);
            }
            if !expired {
                count = count + 1;
            }
            i = i + 1;
        }
        proof {
            assert(self.sessions.spec_entries().take(n as int) =~= self.sessions.spec_entries());
        }
        count
    }
}

/// The number of entries not yet expired at `now_ms`.
pub open spec fn spec_count_live(s: Seq<(u128, UdpSession)>, now_ms: u64) -> int
    decreases s.len(),
{
    if s.len() == 0 {
        0
    } else {
        spec_count_live(s.drop_last(), now_ms) + (if spec_udp_expired(s.last().1, now_ms) {
            0int
        } else {
            1int
        })
    }
}

/// The stream header `UDP:{host}:{port}\n` that opens a UDP-carrying
/// stream.
pub open spec fn spec_udp_stream_header(host: Seq<char>, port: u16) -> Seq<char> {
    "UDP:"@ + host + ":"@ + spec_dec_digits(port as int) + "\n"@
}

/// Build the stream header for a UDP session's target.
pub fn build_udp_stream_header(host: &str, port: u16) -> (r: String)
    ensures
        r@ == spec_udp_stream_header(host@, port),
{
    let mut s = String::new();
    crate::outside::string_push_str(&mut s, "UDP:");
    crate::outside::string_push_str(&mut s, host);
    crate::outside::string_push_str(&mut s, ":");
    let p = crate::textutil::fmt_u64(port as u64);
    crate::outside::string_push_str(&mut s, p.as_str());
    crate::outside::string_push_str(&mut s, "\n");
    proof {
        assert(s@ =~= spec_udp_stream_header(host@, port));
    }
    s
}

/// A datagram framed for the stream: 2-byte big-endian length then bytes.
pub open spec fn spec_framed_datagram(data: Seq<u8>) -> Seq<u8> {
    seq![(data.len() as int / 0x100) as u8, (data.len() as int % 0x100) as u8] + data
}

/// Frame one datagram for the stream.
pub fn frame_datagram(data: &[u8]) -> (r: Vec<u8>)
    requires
        data@.len() <= 0xffff,
    ensures
        r@ == spec_framed_datagram(data@),
{
    let len = data.len();
    let mut buf: Vec<u8> = Vec::new();
    buf.push((len / 0x100) as u8);
    buf.push((len % 0x100) as u8);
    buf.extend_from_slice(data);
    proof {
        assert(buf@ =~= spec_framed_datagram(data@));
    }
    buf
}

/// Parse one framed datagram from the front of `buf`: the payload and the
/// bytes consumed, or `None` while the frame is still incomplete.
pub fn parse_framed_datagram(buf: &[u8]) -> (r: Option<(Vec<u8>, usize)>)
    ensures
        match r {
            Some(p) => buf@.len() >= 2 && buf@.len() >= 2 + spec_u16_from_be(buf@[0], buf@[1])
                && p.0@ == buf@.subrange(2, 2 + spec_u16_from_be(buf@[0], buf@[1]) as int) && p.1
                == 2 + spec_u16_from_be(buf@[0], buf@[1]),
            None => buf@.len() < 2 || buf@.len() < 2 + spec_u16_from_be(buf@[0], buf@[1]),
        },
{
    if buf.len() < 2 {
        return None;
    }
    let len = crate::net::u16_from_be(buf[0], buf[1]) as usize;
    if buf.len() < 2 + len {
        return None;
    }
    let payload = vstd::slice::slice_to_vec(vstd::slice::slice_subrange(buf, 2, 2 + len));
    proof {
        assert(payload@ =~= buf@.subrange(2, 2 + len as int));
    }
    Some((payload, 2 + len))
}

/// Framing round trip: a framed datagram parses back to itself, consuming
/// exactly its bytes.
pub proof fn lemma_datagram_framing_round_trip(data: Seq<u8>)
    requires
        data.len() <= 0xffff,
    ensures
        ({
            let b = spec_framed_datagram(data);
            &&& spec_u16_from_be(b[0], b[1]) == data.len()
            &&& b.subrange(2, 2 + data.len() as int) == data
            &&& b.len() == 2 + data.len()
        }),
{
    let b = spec_framed_datagram(data);
    assert(b.subrange(2, 2 + data.len() as int) =~= data);
}

} // verus!

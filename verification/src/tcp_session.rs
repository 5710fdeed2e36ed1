//! The user-space TCP state machine of the transparent (TUN) path.
//!
//! The manager decides, for each received segment, the next session state,
//! the packets to write back to the device, and the action to hand upward.
//! Performing the writes and running the per-connection relay tasks is the
//! caller's business; everything decided here is stated in the contracts.
//!
//! Sequence accounting: `local_seq` advances by the length of payload we
//! emit, plus one for SYN and one for FIN; `local_ack` is one past the
//! highest contiguous byte received.

use vstd::prelude::*;

use crate::errors::Error;
use crate::kvlist::KvList;
use crate::net::Ipv4Address;
use crate::packet::{spec_tcp_packet, ReceivedTcpFlags, TcpFlags};

verus! {

/// TCP connection states.
#[derive(Debug, Clone, Copy, PartialEq, Eq, Structural)]
pub enum TcpState {
    /// Nothing received yet.
    Listen,
    /// SYN seen, SYN|ACK sent.
    SynReceived,
    /// Three-way handshake complete.
    Established,
    /// We sent FIN first.
    FinWait1,
    /// Our FIN was acknowledged.
    FinWait2,
    /// The peer sent FIN first.
    CloseWait,
    /// We answered the peer's FIN with our own.
    LastAck,
    /// Waiting out stray segments.
    TimeWait,
    /// Gone.
    Closed,
}

/// The 4-tuple a session is keyed by. `local` is the flow's originator (the
/// client behind the TUN device), `remote` the server it addressed.
#[derive(Debug, Clone, Copy, PartialEq, Eq, Hash, Structural)]
pub struct SessionKey {
    pub local_ip: Ipv4Address,
    pub local_port: u16,
    pub remote_ip: Ipv4Address,
    pub remote_port: u16,
}

/// The 4-tuple packed into one integer, a mixed-radix digit at a time.
pub open spec fn spec_session_key(
    local_ip: u32,
    local_port: u16,
    remote_ip: u32,
    remote_port: u16,
) -> u128 {
    ((((local_ip * 0x10000 + local_port) * 0x100000000) + remote_ip) * 0x10000
        + remote_port) as u128
}

impl SessionKey {
    /// Build a key from its parts.
    pub fn new(local_ip: Ipv4Address, local_port: u16, remote_ip: Ipv4Address, remote_port: u16)
        -> (r: SessionKey)
        ensures
            r == (SessionKey { local_ip, local_port, remote_ip, remote_port }),
    {
        SessionKey { local_ip, local_port, remote_ip, remote_port }
    }

    /// The packed form used as the session-table key.
    pub fn encode(&self) -> (r: u128)
        ensures
            r == spec_session_key(
                self.local_ip.bits,
                self.local_port,
                self.remote_ip.bits,
                self.remote_port,
            ),
    {
        (((self.local_ip.bits as u128) * 0x10000 + (self.local_port as u128)) * 0x100000000
            + (self.remote_ip.bits as u128)) * 0x10000 + (self.remote_port as u128)
    }
}

/// `(a + n) mod 2^32`: TCP sequence arithmetic.
pub open spec fn spec_wrap_add32(a: u32, n: int) -> u32 {
    ((a + n) % 0x100000000) as u32
}

/// Add with 32-bit wrap-around.
pub fn wrap_add32(a: u32, n: u32) -> (r: u32)
    ensures
        r == spec_wrap_add32(a, n as int),
{
    let wide: u64 = a as u64 + n as u64;
    (wide % 0x100000000) as u32
}

/// One TCP session of the TUN path.
#[derive(Debug, Clone, Copy, PartialEq, Eq, Structural)]
pub struct TcpSession {
    pub state: TcpState,
    pub local_ip: Ipv4Address,
    pub local_port: u16,
    pub remote_ip: Ipv4Address,
    pub remote_port: u16,
    /// Next sequence number we will emit.
    pub local_seq: u32,
    /// One past the highest contiguous byte received.
    pub local_ack: u32,
    /// The client's initial sequence number.
    pub remote_seq: u32,
    pub window_size: u16,
    pub created_at_ms: u64,
    pub last_activity_ms: u64,
}

/// Whether a session has been idle longer than `timeout_secs`.
pub open spec fn spec_session_expired(s: TcpSession, timeout_secs: u64, now_ms: u64) -> bool {
    now_ms > s.last_activity_ms && (now_ms - s.last_activity_ms) / 1000 > timeout_secs
}

/// The session as first stored for a SYN with client sequence `remote_seq`
/// and our initial sequence number `isn`: SYN|ACK already emitted, so
/// `local_seq` has advanced past the SYN.
pub open spec fn spec_syn_session(
    local_ip: Ipv4Address,
    local_port: u16,
    remote_ip: Ipv4Address,
    remote_port: u16,
    remote_seq: u32,
    isn: u32,
    now_ms: u64,
) -> TcpSession {
    TcpSession {
        state: TcpState::SynReceived,
        local_ip,
        local_port,
        remote_ip,
        remote_port,
        local_seq: spec_wrap_add32(isn, 1),
        local_ack: spec_wrap_add32(remote_seq, 1),
        remote_seq,
        window_size: 65535,
        created_at_ms: now_ms,
        last_activity_ms: now_ms,
    }
}

/// `s` with its activity clock advanced.
pub open spec fn spec_touched(s: TcpSession, now_ms: u64) -> TcpSession {
    TcpSession { last_activity_ms: now_ms, ..s }
}

impl TcpSession {
    /// Create a session for a just-received SYN, with the given initial
    /// sequence number. The state is still `Listen`; the manager moves it
    /// to `SynReceived` when the SYN|ACK is emitted.
    pub fn new_from_syn_with_isn(
        local_ip: Ipv4Address,
        local_port: u16,
        remote_ip: Ipv4Address,
        remote_port: u16,
        remote_seq: u32,
        isn: u32,
        now_ms: u64,
    ) -> (r: TcpSession)
        ensures
            r == (TcpSession {
                state: TcpState::Listen,
                local_ip,
                local_port,
                remote_ip,
                remote_port,
                local_seq: isn,
                local_ack: spec_wrap_add32(remote_seq, 1),
                remote_seq,
                window_size: 65535,
                created_at_ms: now_ms,
                last_activity_ms: now_ms,
            }),
    {
        TcpSession {
            state: TcpState::Listen,
            local_ip,
            local_port,
            remote_ip,
            remote_port,
            local_seq: isn,
            local_ack: wrap_add32(remote_seq, 1),
            remote_seq,
            window_size: 65535,
            created_at_ms: now_ms,
            last_activity_ms: now_ms,
        }
    }

    /// Create a session for a just-received SYN, drawing a random initial
    /// sequence number. Everything but `local_seq` is pinned down.
    pub fn new_from_syn(
        local_ip: Ipv4Address,
        local_port: u16,
        remote_ip: Ipv4Address,
        remote_port: u16,
        remote_seq: u32,
        now_ms: u64,
    ) -> (r: TcpSession)
        ensures
            exists|isn: u32|
                r == (TcpSession {
                    state: TcpState::Listen,
                    local_ip,
                    local_port,
                    remote_ip,
                    remote_port,
                    local_seq: isn,
                    local_ack: spec_wrap_add32(remote_seq, 1),
                    remote_seq,
                    window_size: 65535,
                    created_at_ms: now_ms,
                    last_activity_ms: now_ms,
                }),
    {
        let isn: u32 = rand::random::<u32>();
        let r = Self::new_from_syn_with_isn(
            local_ip,
            local_port,
            remote_ip,
            remote_port,
            remote_seq,
            isn,
            now_ms,
        );
        proof {
            assert(r == (TcpSession {
                state: TcpState::Listen,
                local_ip,
                local_port,
                remote_ip,
                remote_port,
                local_seq: isn,
                local_ack: spec_wrap_add32(remote_seq, 1),
                remote_seq,
                window_size: 65535,
                created_at_ms: now_ms,
                last_activity_ms: now_ms,
            }));
        }
        r
    }

    /// The session's 4-tuple key.
    pub fn key(&self) -> (r: SessionKey)
        ensures
            r == (SessionKey {
                local_ip: self.local_ip,
                local_port: self.local_port,
                remote_ip: self.remote_ip,
                remote_port: self.remote_port,
            }),
    {
        SessionKey {
            local_ip: self.local_ip,
            local_port: self.local_port,
            remote_ip: self.remote_ip,
            remote_port: self.remote_port,
        }
    }

    /// Record activity now.
    pub fn touch(&mut self, now_ms: u64)
        ensures
            *final(self) == spec_touched(*old(self), now_ms),
    {
        self.last_activity_ms = now_ms;
    }

    /// Whether the session has been idle longer than `timeout_secs`.
    pub fn is_expired(&self, timeout_secs: u64, now_ms: u64) -> (r: bool)
        ensures
            r == spec_session_expired(*self, timeout_secs, now_ms),
    {
        now_ms > self.last_activity_ms && (now_ms - self.last_activity_ms) / 1000 > timeout_secs
    }
}

/// The SYN|ACK emitted for a SYN from `(src, src_port)` to `(dst, dst_port)`
/// carrying client sequence `seq`, with our initial sequence number `isn`.
pub open spec fn spec_syn_ack_packet(
    src_ip: u32,
    dst_ip: u32,
    src_port: u16,
    dst_port: u16,
    seq: u32,
    isn: u32,
) -> Seq<u8> {
    spec_tcp_packet(
        dst_ip,
        src_ip,
        dst_port,
        src_port,
        isn,
        spec_wrap_add32(seq, 1),
        TcpFlags { fin: false, syn: true, rst: false, psh: false, ack: true, urg: false },
        65535,
        Seq::empty(),
    )
}

/// The RST emitted for a segment that matches no session.
pub open spec fn spec_rst_packet(src_ip: u32, dst_ip: u32, src_port: u16, dst_port: u16, seq: u32)
    -> Seq<u8> {
    spec_tcp_packet(
        dst_ip,
        src_ip,
        dst_port,
        src_port,
        0,
        spec_wrap_add32(seq, 1),
        TcpFlags { fin: false, syn: false, rst: true, psh: false, ack: false, urg: false },
        0,
        Seq::empty(),
    )
}

/// The pure ACK sent back to a segment from `(src, src_port)` addressed to
/// `(dst, dst_port)`, with our sequence `seq` and acknowledgment `ack`.
pub open spec fn spec_ack_packet(
    src_ip: u32,
    dst_ip: u32,
    src_port: u16,
    dst_port: u16,
    seq: u32,
    ack: u32,
    window: u16,
) -> Seq<u8> {
    spec_tcp_packet(
        dst_ip,
        src_ip,
        dst_port,
        src_port,
        seq,
        ack,
        TcpFlags { fin: false, syn: false, rst: false, psh: false, ack: true, urg: false },
        window,
        Seq::empty(),
    )
}

/// The FIN|ACK sent back to a segment from `(src, src_port)` addressed to
/// `(dst, dst_port)`.
pub open spec fn spec_fin_ack_packet(
    src_ip: u32,
    dst_ip: u32,
    src_port: u16,
    dst_port: u16,
    seq: u32,
    ack: u32,
    window: u16,
) -> Seq<u8> {
    spec_tcp_packet(
        dst_ip,
        src_ip,
        dst_port,
        src_port,
        seq,
        ack,
        TcpFlags { fin: true, syn: false, rst: false, psh: false, ack: true, urg: false },
        window,
        Seq::empty(),
    )
}

/// The FIN|ACK the server side of session `s` emits when it closes first.
pub open spec fn spec_server_fin_packet(s: TcpSession) -> Seq<u8> {
    spec_tcp_packet(
        s.remote_ip.bits,
        s.local_ip.bits,
        s.remote_port,
        s.local_port,
        s.local_seq,
        s.local_ack,
        TcpFlags { fin: true, syn: false, rst: false, psh: false, ack: true, urg: false },
        s.window_size,
        Seq::empty(),
    )
}

/// What the manager tells the layer above after one packet.
#[derive(Debug)]
pub enum TcpAction {
    /// Nothing to do.
    Nothing,
    /// A SYN arrived; SYN|ACK is on its way back.
    SynAckSent(SessionKey),
    /// The three-way handshake completed; dial upstream now.
    ConnectionEstablished(SessionKey),
    /// Payload arrived in order; forward it upstream.
    DataReceived(SessionKey, Vec<u8>),
    /// The client started closing; the upstream side should half-close.
    ConnectionClosing(SessionKey),
    /// The close completed.
    ConnectionClosed(SessionKey),
    /// The client reset the connection.
    ConnectionReset(SessionKey),
}

/// The session table, keyed by packed 4-tuple.
pub struct TcpSessionManager {
    pub sessions: KvList<TcpSession>,
}

impl TcpSessionManager {
    /// The table's keys are unique.
    pub open spec fn wf(&self) -> bool {
        self.sessions.wf()
    }

    /// The sessions as a map from packed key to session.
    pub open spec fn sessions_map(&self) -> Map<u128, TcpSession> {
        self.sessions.as_map()
    }

    /// An empty table.
    pub fn new() -> (r: TcpSessionManager)
        ensures
            r.wf(),
            r.sessions_map() == Map::<u128, TcpSession>::empty(),
    {
        TcpSessionManager { sessions: KvList::new() }
    }

    /// Decide one received segment, keyed `local = (src_ip, src_port)`,
    /// `remote = (dst_ip, dst_port)`.
    ///
    /// Returns the action for the layer above and the packets to write back
    /// to the device, in order:
    /// - a SYN without ACK creates a `SynReceived` session (random initial
    ///   sequence number, already advanced past the SYN) and emits SYN|ACK
    ///   with `ack = seq + 1`;
    /// - any other segment without a session emits RST (`seq 0`,
    ///   `ack = seq + 1`);
    /// - `SynReceived` + ACK completes the handshake;
    /// - `Established` + FIN acknowledges `seq + 1` and half-closes;
    /// - `Established` + RST closes;
    /// - `Established` + payload acknowledges `seq + len(payload)` and hands
    ///   the payload up;
    /// - `CloseWait` + ACK emits our FIN|ACK, consuming one sequence number;
    /// - `LastAck` + ACK closes.
    #[verifier::rlimit(100)]
    #[verifier::spinoff_prover]
    pub fn handle_packet(
        &mut self,
        src_ip: Ipv4Address,
        dst_ip: Ipv4Address,
        src_port: u16,
        dst_port: u16,
        seq: u32,
        ack: u32,
        flags: ReceivedTcpFlags,
        payload: &[u8],
        now_ms: u64,
    ) -> (r: (TcpAction, Vec<Vec<u8>>))
        requires
            old(self).wf(),
        ensures
            final(self).wf(),
            ({
                let k = spec_session_key(src_ip.bits, src_port, dst_ip.bits, dst_port);
                let key = SessionKey { local_ip: src_ip, local_port: src_port, remote_ip: dst_ip,
                    remote_port: dst_port };
                let m = old(self).sessions_map();
                let m2 = final(self).sessions_map();
                if flags.syn && !flags.ack {
                    exists|isn: u32|
                        #![auto]
                        m2 == m.insert(
                            k,
                            spec_syn_session(
                                src_ip,
                                src_port,
                                dst_ip,
                                dst_port,
                                seq,
                                isn,
                                now_ms,
                            ),
                        ) && r.0 == TcpAction::SynAckSent(key) && r.1@.len() == 1 && r.1@[0]@
                            == spec_syn_ack_packet(
                            src_ip.bits,
                            dst_ip.bits,
                            src_port,
                            dst_port,
                            seq,
                            isn,
                        )
                } else if !m.dom().contains(k) {
                    &&& m2 == m
                    &&& r.0 is Nothing
                    &&& r.1@.len() == 1
                    &&& r.1@[0]@ == spec_rst_packet(src_ip.bits, dst_ip.bits, src_port, dst_port,
                    seq)
                } else {
                    let s = spec_touched(m[k], now_ms);
                    if m[k].state is SynReceived && flags.ack && !flags.syn {
                        &&& m2 == m.insert(k, TcpSession { state: TcpState::Established, ..s })
                        &&& r.0 == TcpAction::ConnectionEstablished(key)
                        &&& r.1@.len() == 0
                    } else if m[k].state is Established && flags.fin {
                        &&& m2 == m.insert(
                            k,
                            TcpSession {
                                state: TcpState::CloseWait,
                                local_ack: spec_wrap_add32(seq, 1),
                                ..s
                            },
                        )
                        &&& r.0 == TcpAction::ConnectionClosing(key)
                        &&& r.1@.len() == 1
                        &&& r.1@[0]@ == spec_ack_packet(
                            src_ip.bits,
                            dst_ip.bits,
                            src_port,
                            dst_port,
                            s.local_seq,
                            spec_wrap_add32(seq, 1),
                            s.window_size,
                        )
                    } else if m[k].state is Established && flags.rst {
                        &&& m2 == m.insert(k, TcpSession { state: TcpState::Closed, ..s })
                        &&& r.0 == TcpAction::ConnectionReset(key)
                        &&& r.1@.len() == 0
                    } else if m[k].state is Established && payload@.len() > 0 {
                        &&& m2 == m.insert(
                            k,
                            TcpSession {
                                local_ack: spec_wrap_add32(seq, payload@.len() as int),
                                ..s
                            },
                        )
                        &&& r.0 matches TcpAction::DataReceived(dk, d) && dk == key && d@
                            == payload@
                        &&& r.1@.len() == 1
                        &&& r.1@[0]@ == spec_ack_packet(
                            src_ip.bits,
                            dst_ip.bits,
                            src_port,
                            dst_port,
                            s.local_seq,
                            spec_wrap_add32(seq, payload@.len() as int),
                            s.window_size,
                        )
                    } else if m[k].state is CloseWait && flags.ack {
                        &&& m2 == m.insert(
                            k,
                            TcpSession {
                                state: TcpState::LastAck,
                                local_seq: spec_wrap_add32(s.local_seq, 1),
                                ..s
                            },
                        )
                        &&& r.0 is Nothing
                        &&& r.1@.len() == 1
                        &&& r.1@[0]@ == spec_fin_ack_packet(
                            src_ip.bits,
                            dst_ip.bits,
                            src_port,
                            dst_port,
                            s.local_seq,
                            s.local_ack,
                            s.window_size,
                        )
                    } else if m[k].state is LastAck && flags.ack {
                        &&& m2 == m.insert(k, TcpSession { state: TcpState::Closed, ..s })
                        &&& r.0 == TcpAction::ConnectionClosed(key)
                        &&& r.1@.len() == 0
                    } else {
                        &&& m2 == m.insert(k, s)
                        &&& r.0 is Nothing
                        &&& r.1@.len() == 0
                    }
                }
            }),
    {
        let key = SessionKey::new(src_ip, src_port, dst_ip, dst_port);
        let k = key.encode();
        let mut packets: Vec<Vec<u8>> = Vec::new();

        if flags.syn && !flags.ack {
            let mut session = TcpSession::new_from_syn(
                src_ip,
                src_port,
                dst_ip,
                dst_port,
                seq,
                now_ms,
            );
            let ghost isn = session.local_seq;
            let syn_ack = crate::packet::build_empty_tcp_packet(
                dst_ip,
                src_ip,
                dst_port,
                src_port,
                session.local_seq,
                session.local_ack,
                TcpFlags::syn_ack(),
                session.window_size,
            );
            session.local_seq = wrap_add32(session.local_seq, 1);
            session.state = TcpState::SynReceived;
            self.sessions.insert(k, session);
            packets.push(syn_ack);
            proof {
                assert(session == spec_syn_session(
                    src_ip,
                    src_port,
                    dst_ip,
                    dst_port,
                    seq,
                    isn,
                    now_ms,
                ));
                assert(packets@[0]@ == spec_syn_ack_packet(
                    src_ip.bits,
                    dst_ip.bits,
                    src_port,
                    dst_port,
                    seq,
                    isn,
                ));
            }
            return (TcpAction::SynAckSent(key), packets);
        }

        let found = match self.sessions.get(k) {
            Some(s) => Some(*s),
            None => None,
        };
        match found {
            None => {
                let rst = crate::packet::build_empty_tcp_packet(
                    dst_ip,
                    src_ip,
                    dst_port,
                    src_port,
                    0,
                    wrap_add32(seq, 1),
                    TcpFlags::rst(),
                    0,
                );
                packets.push(rst);
                (TcpAction::Nothing, packets)
            },
            Some(mut session) => {
                let ghost pre = session;
                session.touch(now_ms);
                let ghost s = session;
                match session.state {
                    TcpState::SynReceived => {
                        if flags.ack && !flags.syn {
                            session.state = TcpState::Established;
                            self.sessions.insert(k, session);
                            (TcpAction::ConnectionEstablished(key), packets)
                        } else {
                            self.sessions.insert(k, session);
                            (TcpAction::Nothing, packets)
                        }
                    },
                    TcpState::Established => {
                        if flags.fin {
                            session.state = TcpState::CloseWait;
                            session.local_ack = wrap_add32(seq, 1);
                            let ack_pkt = crate::packet::build_empty_tcp_packet(
                                dst_ip,
                                src_ip,
                                dst_port,
                                src_port,
                                session.local_seq,
                                session.local_ack,
                                TcpFlags::ack(),
                                session.window_size,
                            );
                            self.sessions.insert(k, session);
                            packets.push(ack_pkt);
                            (TcpAction::ConnectionClosing(key), packets)
                        } else if flags.rst {
                            session.state = TcpState::Closed;
                            self.sessions.insert(k, session);
                            (TcpAction::ConnectionReset(key), packets)
                        } else if payload.len() > 0 {
                            session.local_ack = wrap_add32_usize(seq, payload.len());
                            let ack_pkt = crate::packet::build_empty_tcp_packet(
                                dst_ip,
                                src_ip,
                                dst_port,
                                src_port,
                                session.local_seq,
                                session.local_ack,
                                TcpFlags::ack(),
                                session.window_size,
                            );
                            self.sessions.insert(k, session);
                            packets.push(ack_pkt);
                            let data = vstd::slice::slice_to_vec(payload);
                            (TcpAction::DataReceived(key, data), packets)
                        } else {
                            self.sessions.insert(k, session);
                            (TcpAction::Nothing, packets)
                        }
                    },
                    TcpState::CloseWait => {
                        if flags.ack {
                            let fin_pkt = crate::packet::build_empty_tcp_packet(
                                dst_ip,
                                src_ip,
                                dst_port,
                                src_port,
                                session.local_seq,
                                session.local_ack,
                                TcpFlags::fin_ack(),
                                session.window_size,
                            );
                            session.state = TcpState::LastAck;
                            session.local_seq = wrap_add32(session.local_seq, 1);
                            self.sessions.insert(k, session);
                            packets.push(fin_pkt);
                            (TcpAction::Nothing, packets)
                        } else {
                            self.sessions.insert(k, session);
                            (TcpAction::Nothing, packets)
                        }
                    },
                    TcpState::LastAck => {
                        if flags.ack {
                            session.state = TcpState::Closed;
                            self.sessions.insert(k, session);
                            (TcpAction::ConnectionClosed(key), packets)
                        } else {
                            self.sessions.insert(k, session);
                            (TcpAction::Nothing, packets)
                        }
                    },
                    _ => {
                        self.sessions.insert(k, session);
                        (TcpAction::Nothing, packets)
                    },
                }
            },
        }
    }

    /// Build the PSH|ACK that carries `data` from the server side of `key`
    /// to the client, advancing `local_seq` by `len(data)`.
    pub fn send_data(&mut self, key: &SessionKey, data: &[u8], now_ms: u64) -> (r: Result<
        Vec<u8>,
        Error,
    >)
        requires
            old(self).wf(),
            data@.len() + 40 <= 0xffff,
        ensures
            final(self).wf(),
            ({
                let k = spec_session_key(
                    key.local_ip.bits,
                    key.local_port,
                    key.remote_ip.bits,
                    key.remote_port,
                );
                let m = old(self).sessions_map();
                let m2 = final(self).sessions_map();
                if !m.dom().contains(k) || !(m[k].state is Established) {
                    r == Err::<Vec<u8>, Error>(Error::Protocol) && m2 == m
                } else {
                    let s = spec_touched(m[k], now_ms);
                    &&& m2 == m.insert(
                        k,
                        TcpSession {
                            local_seq: spec_wrap_add32(s.local_seq, data@.len() as int),
                            ..s
                        },
                    )
                    &&& r matches Ok(p) && p@ == spec_tcp_packet(
                        s.remote_ip.bits,
                        s.local_ip.bits,
                        s.remote_port,
                        s.local_port,
                        s.local_seq,
                        s.local_ack,
                        (TcpFlags {
                            fin: false,
                            syn: false,
                            rst: false,
                            psh: true,
                            ack: true,
                            urg: false,
                        }),
                        s.window_size,
                        data@,
                    )
                }
            }),
    {
        let k = key.encode();
        let found = match self.sessions.get(k) {
            Some(s) => Some(*s),
            None => None,
        };
        match found {
            None => Err(Error::Protocol),
            Some(mut session) => {
                if !matches!(session.state, TcpState::Established) {
                    return Err(Error::Protocol);
                }
                session.touch(now_ms);
                let packet = crate::packet::build_tcp_packet(
                    session.remote_ip,
                    session.local_ip,
                    session.remote_port,
                    session.local_port,
                    session.local_seq,
                    session.local_ack,
                    TcpFlags::psh_ack(),
                    session.window_size,
                    data,
                );
                session.local_seq = wrap_add32_usize(session.local_seq, data.len());
                self.sessions.insert(k, session);
                Ok(packet)
            },
        }
    }

    /// Begin closing `key` from the server side: in `Established`, emit
    /// FIN|ACK and move to `FinWait1`, consuming one sequence number;
    /// in any other state there is nothing to send.
    pub fn close_connection(&mut self, key: &SessionKey, now_ms: u64) -> (r: Result<
        Option<Vec<u8>>,
        Error,
    >)
        requires
            old(self).wf(),
        ensures
            final(self).wf(),
            ({
                let k = spec_session_key(
                    key.local_ip.bits,
                    key.local_port,
                    key.remote_ip.bits,
                    key.remote_port,
                );
                let m = old(self).sessions_map();
                let m2 = final(self).sessions_map();
                if !m.dom().contains(k) {
                    r == Err::<Option<Vec<u8>>, Error>(Error::Protocol) && m2 == m
                } else if m[k].state is Established {
                    let s = m[k];
                    &&& m2 == m.insert(
                        k,
                        TcpSession {
                            state: TcpState::FinWait1,
                            local_seq: spec_wrap_add32(s.local_seq, 1),
                            ..s
                        },
                    )
                    &&& r matches Ok(p) && p matches Some(pkt) && pkt@ == spec_server_fin_packet(
                        s,
                    )
                } else {
                    m2 == m && (r matches Ok(p) && p is None)
                }
            }),
    {
        let k = key.encode();
        let found = match self.sessions.get(k) {
            Some(s) => Some(*s),
            None => None,
        };
        match found {
            None => Err(Error::Protocol),
            Some(mut session) => {
                if matches!(session.state, TcpState::Established) {
                    let fin_pkt = crate::packet::build_empty_tcp_packet(
                        session.remote_ip,
                        session.local_ip,
                        session.remote_port,
                        session.local_port,
                        session.local_seq,
                        session.local_ack,
                        TcpFlags::fin_ack(),
                        session.window_size,
                    );
                    session.local_seq = wrap_add32(session.local_seq, 1);
                    session.state = TcpState::FinWait1;
                    self.sessions.insert(k, session);
                    Ok(Some(fin_pkt))
                } else {
                    Ok(None)
                }
            },
        }
    }

    /// Drop `key`'s session if present.
    pub fn remove_session(&mut self, key: &SessionKey)
        requires
            old(self).wf(),
        ensures
            final(self).wf(),
            final(self).sessions_map() == old(self).sessions_map().remove(
                spec_session_key(
                    key.local_ip.bits,
                    key.local_port,
                    key.remote_ip.bits,
                    key.remote_port,
                ),
            ),
    {
        let k = key.encode();
        self.sessions.remove(k);
    }

    /// Drop every session idle longer than `timeout_secs`; keep the rest
    /// unchanged.
    pub fn cleanup_expired(&mut self, timeout_secs: u64, now_ms: u64)
        requires
            old(self).wf(),
        ensures
            final(self).wf(),
            forall|k: u128|
                final(self).sessions_map().dom().contains(k) <==> (
                #[trigger] old(self).sessions_map().dom().contains(k) && !spec_session_expired(
                    old(self).sessions_map()[k],
                    timeout_secs,
                    now_ms,
                )),
            forall|k: u128|
                final(self).sessions_map().dom().contains(k)
                    ==> #[trigger] final(self).sessions_map()[k] == old(self).sessions_map()[k],
    {
        let n = self.sessions.len();
        let ghost orig = self.sessions.spec_entries();
        let ghost m = self.sessions.as_map();
        let mut kept: KvList<TcpSession> = KvList::new();
        let mut i: usize = 0;
        while i < n
            invariant
                i <= n,
                n == orig.len(),
                self.sessions.spec_entries() == orig,
                self.sessions.wf(),
                m == self.sessions.as_map(),
                kept.wf(),
                forall|k: u128|
                    kept.as_map().dom().contains(k) <==> (exists|j: int|
                        0 <= j < i && orig[j].0 == k && !spec_session_expired(
                            orig[j].1,
                            timeout_secs,
                            now_ms,
                        )),
                forall|k: u128| #[trigger]
                    kept.as_map().dom().contains(k) ==> m.dom().contains(k) && kept.as_map()[k]
                        == m[k],
            decreases n - i,
        {
            let k = self.sessions.key_at(i);
            let v = *self.sessions.value_at(i);
            proof {
                crate::kvlist::lemma_kv_index(orig, i as int);
            }
            if !v.is_expired(timeout_secs, now_ms) {
                kept.insert(k, v);
            }
            proof {
                assert forall|kk: u128| kept.as_map().dom().contains(kk) implies (exists|j: int|
                    0 <= j < i + 1 && orig[j].0 == kk && !spec_session_expired(
                        orig[j].1,
                        timeout_secs,
                        now_ms,
                    )) by {
                    if kk == k && !spec_session_expired(v, timeout_secs, now_ms) {
                        assert(orig[i as int].0 == kk);
                    } else {
                        assert(kept.as_map().dom().contains(kk));
                    }
                }
            }
            i = i + 1;
        }
        proof {
            assert forall|k: u128| m.dom().contains(k) implies (exists|j: int|
                0 <= j < orig.len() && orig[j].0 == k) by {
                crate::kvlist::lemma_kv_contains(orig, k);
            }
            assert forall|k: u128|
                m.dom().contains(k) && !spec_session_expired(m[k], timeout_secs, now_ms) implies
                kept.as_map().dom().contains(k) by {
                let j = choose|j: int| 0 <= j < orig.len() && orig[j].0 == k;
                crate::kvlist::lemma_kv_index(orig, j);
                assert(orig[j].1 == m[k]);
            }
            assert forall|k: u128|
                kept.as_map().dom().contains(k) implies m.dom().contains(k)
                && !spec_session_expired(m[k], timeout_secs, now_ms) by {
                let j = choose|j: int|
                    0 <= j < n && orig[j].0 == k && !spec_session_expired(
                        orig[j].1,
                        timeout_secs,
                        now_ms,
                    );
                crate::kvlist::lemma_kv_index(orig, j);
                assert(orig[j].1 == m[k]);
            }
        }
        self.sessions = kept;
    }
}

/// The total of a series of payload lengths.
pub open spec fn spec_len_sum(lens: Seq<int>) -> int
    decreases lens.len(),
{
    if lens.len() == 0 {
        0
    } else {
        spec_len_sum(lens.drop_last()) + lens.last()
    }
}

/// A sum of non-negative lengths is non-negative.
proof fn lemma_len_sum_nonneg(lens: Seq<int>)
    requires
        forall|i: int| 0 <= i < lens.len() ==> lens[i] >= 0,
    ensures
        spec_len_sum(lens) >= 0,
    decreases lens.len(),
{
    if lens.len() > 0 {
        assert(forall|i: int|
            0 <= i < lens.drop_last().len() ==> lens.drop_last()[i] == lens[i]);
        lemma_len_sum_nonneg(lens.drop_last());
    }
}

/// Wrap-around addition composes: adding `x` then `y` is adding `x + y`.
pub proof fn lemma_wrap_add32_assoc(a: u32, x: int, y: int)
    requires
        x >= 0,
        y >= 0,
    ensures
        spec_wrap_add32(spec_wrap_add32(a, x), y) == spec_wrap_add32(a, x + y),
{
    let m = 0x100000000int;
    let u = (a + x) % m;
    vstd::arithmetic::div_mod::lemma_mod_bound(a + x, m);
    vstd::arithmetic::div_mod::lemma_small_mod(u as nat, m as nat);
    vstd::arithmetic::div_mod::lemma_add_mod_noop(u, y, m);
    vstd::arithmetic::div_mod::lemma_add_mod_noop(a + x, y, m);
}

/// TCP correctness, sequence accounting. The sequence number carried by a
/// session's k-th data packet is the initial sequence number plus every
/// byte emitted before it, modulo 2^32: consecutive packets are contiguous.
/// `send_data` emits packet k at `local_seq` and advances `local_seq` by
/// `lens[k]`, so this says the advance after packet k lands exactly where
/// packet k+1 begins. Read with `client_isn` and an extra byte for the SYN,
/// the same fact gives the acknowledgment side: processing in-order segment
/// k moves `local_ack` to `client_isn + 1 +` the bytes consumed so far.
pub proof fn lemma_tcp_seq_accounting(isn: u32, lens: Seq<int>, k: int)
    requires
        0 <= k < lens.len(),
        forall|i: int| 0 <= i < lens.len() ==> lens[i] >= 0,
    ensures
        spec_wrap_add32(spec_wrap_add32(isn, spec_len_sum(lens.take(k))), lens[k])
            == spec_wrap_add32(isn, spec_len_sum(lens.take(k + 1))),
{
    let pre = lens.take(k);
    let cur = lens.take(k + 1);
    assert(forall|i: int| 0 <= i < pre.len() ==> pre[i] == lens[i]);
    lemma_len_sum_nonneg(pre);
    assert(cur.drop_last() =~= pre);
    assert(cur.last() == lens[k]);
    assert(spec_len_sum(cur) == spec_len_sum(pre) + lens[k]);
    lemma_wrap_add32_assoc(isn, spec_len_sum(pre), lens[k]);
}

/// Add a payload length with 32-bit wrap-around.
pub fn wrap_add32_usize(a: u32, n: usize) -> (r: u32)
    ensures
        r == spec_wrap_add32(a, n as int),
{
    let wide: u128 = a as u128 + n as u128;
    (wide % 0x100000000) as u32
}

} // verus!

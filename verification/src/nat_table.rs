//! Connection tracking for the TUN path: a table keyed by
//! `(src, dst, protocol)`, with idle expiry (300 s TCP, 60 s UDP).

use vstd::prelude::*;

use crate::kvlist::KvList;
use crate::net::Ipv4Address;

verus! {

/// TCP protocol number.
pub const PROTO_TCP: u8 = 6;

/// UDP protocol number.
pub const PROTO_UDP: u8 = 17;

/// Where one tracked connection stands.
#[derive(Debug, Clone, Copy, PartialEq, Eq, Structural)]
pub enum ConnectionState {
    New,
    SynSent,
    Established,
    FinWait,
    Closed,
}

/// A tracking key: both endpoints and the protocol.
#[derive(Debug, Clone, Copy, PartialEq, Eq, Hash, Structural)]
pub struct NatKey {
    pub src_addr: Ipv4Address,
    pub src_port: u16,
    pub dst_addr: Ipv4Address,
    pub dst_port: u16,
    pub protocol: u8,
}

/// A NAT key packed into one integer.
pub open spec fn spec_nat_key(k: NatKey) -> u128 {
    (((((k.src_addr.bits * 0x10000 + k.src_port) * 0x100000000) + k.dst_addr.bits) * 0x10000
        + k.dst_port) * 0x100 + k.protocol) as u128
}

impl NatKey {
    /// Build a key.
    pub fn new(src_addr: Ipv4Address, src_port: u16, dst_addr: Ipv4Address, dst_port: u16,
        protocol: u8) -> (r: NatKey)
        ensures
            r == (NatKey { src_addr, src_port, dst_addr, dst_port, protocol }),
    {
        NatKey { src_addr, src_port, dst_addr, dst_port, protocol }
    }

    /// The reversed key, for matching replies.
    pub fn reverse(&self) -> (r: NatKey)
        ensures
            r == (NatKey {
                src_addr: self.dst_addr,
                src_port: self.dst_port,
                dst_addr: self.src_addr,
                dst_port: self.src_port,
                protocol: self.protocol,
            }),
    {
        NatKey {
            src_addr: self.dst_addr,
            src_port: self.dst_port,
            dst_addr: self.src_addr,
            dst_port: self.src_port,
            protocol: self.protocol,
        }
    }

    /// The packed form used as the table key.
    pub fn encode(&self) -> (r: u128)
        ensures
            r == spec_nat_key(*self),
    {
        (((((self.src_addr.bits as u128) * 0x10000 + (self.src_port as u128)) * 0x100000000) + (
        self.dst_addr.bits as u128)) * 0x10000 + (self.dst_port as u128)) * 0x100 + (self.protocol
            as u128)
    }
}

/// One tracked connection.
#[derive(Debug, Clone, Copy, PartialEq, Eq, Structural)]
pub struct NatEntry {
    pub key: NatKey,
    pub created_ms: u64,
    pub last_active_ms: u64,
    pub state: ConnectionState,
}

/// Whether an entry has been idle past its protocol's timeout
/// (TCP 300 s, everything else 60 s).
pub open spec fn spec_nat_expired(e: NatEntry, now_ms: u64) -> bool {
    let timeout_ms: int = if e.key.protocol == PROTO_TCP {
        300000
    } else {
        60000
    };
    now_ms > e.last_active_ms && now_ms - e.last_active_ms >= timeout_ms
}

/// The connection-tracking table.
pub struct NatTable {
    pub entries: KvList<NatEntry>,
}

/// Counts over the table.
#[derive(Debug, Clone, Copy, PartialEq, Eq, Structural)]
pub struct NatStats {
    pub total: usize,
    pub tcp_count: usize,
    pub udp_count: usize,
    pub established: usize,
}

impl NatTable {
    /// Keys are unique.
    pub open spec fn wf(&self) -> bool {
        self.entries.wf()
    }

    /// The table as a map from packed key to entry.
    pub open spec fn as_map(&self) -> Map<u128, NatEntry> {
        self.entries.as_map()
    }

    /// An empty table.
    pub fn new() -> (r: NatTable)
        ensures
            r.wf(),
            r.as_map() == Map::<u128, NatEntry>::empty(),
    {
        NatTable { entries: KvList::new() }
    }

    /// Find the entry for `key`, creating a `New` one if none exists.
    pub fn lookup_or_create(&mut self, key: &NatKey, now_ms: u64) -> (r: NatEntry)
        requires
            old(self).wf(),
        ensures
            final(self).wf(),
            ({
                let k = spec_nat_key(*key);
                let m = old(self).as_map();
                if m.dom().contains(k) {
                    r == m[k] && final(self).as_map() == m
                } else {
                    r == (NatEntry {
                        key: *key,
                        created_ms: now_ms,
                        last_active_ms: now_ms,
                        state: ConnectionState::New,
                    }) && final(self).as_map() == m.insert(k, r)
                }
            }),
    {
        let k = key.encode();
        match self.entries.get(k) {
            Some(e) => *e,
            None => {
                let e = NatEntry {
                    key: *key,
                    created_ms: now_ms,
                    last_active_ms: now_ms,
                    state: ConnectionState::New,
                };
                self.entries.insert(k, e);
                e
            },
        }
    }

    /// The entry matching a reply to `key`, if tracked.
    pub fn lookup_reverse(&self, key: &NatKey) -> (r: Option<NatEntry>)
        requires
            self.wf(),
        ensures
            ({
                let k = spec_nat_key(
                    NatKey {
                        src_addr: key.dst_addr,
                        src_port: key.dst_port,
                        dst_addr: key.src_addr,
                        dst_port: key.src_port,
                        protocol: key.protocol,
                    },
                );
                match r {
                    Some(e) => self.as_map().dom().contains(k) && e
                        == self.as_map()[k],
                    None => !self.as_map().dom().contains(k),
                }
            }),
    {
        let rk = key.reverse().encode();
        match self.entries.get(rk) {
            Some(e) => Some(*e),
            None => None,
        }
    }

    /// Move `key`'s entry to `state`, marking it active now. Nothing
    /// happens for an untracked key.
    pub fn update_state(&mut self, key: &NatKey, state: ConnectionState, now_ms: u64)
        requires
            old(self).wf(),
        ensures
            final(self).wf(),
            ({
                let k = spec_nat_key(*key);
                let m = old(self).as_map();
                if m.dom().contains(k) {
                    final(self).as_map() == m.insert(
                        k,
                        NatEntry { state, last_active_ms: now_ms, ..m[k] },
                    )
                } else {
                    final(self).as_map() == m
                }
            }),
    {
        let k = key.encode();
        let found = match self.entries.get(k) {
            Some(e) => Some(*e),
            None => None,
        };
        match found {
            Some(e) => {
                self.entries.insert(k, NatEntry { state, last_active_ms: now_ms, ..e });
            },
            None => {
                proof {
                    assert(self.as_map() =~= old(self).as_map());
                }
            },
        }
    }

    /// Mark `key`'s entry active now.
    pub fn touch(&mut self, key: &NatKey, now_ms: u64)
        requires
            old(self).wf(),
        ensures
            final(self).wf(),
            ({
                let k = spec_nat_key(*key);
                let m = old(self).as_map();
                if m.dom().contains(k) {
                    final(self).as_map() == m.insert(
                        k,
                        NatEntry { last_active_ms: now_ms, ..m[k] },
                    )
                } else {
                    final(self).as_map() == m
                }
            }),
    {
        let k = key.encode();
        let found = match self.entries.get(k) {
            Some(e) => Some(*e),
            None => None,
        };
        match found {
            Some(e) => {
                self.entries.insert(k, NatEntry { last_active_ms: now_ms, ..e });
            },
            None => {},
        }
    }

    /// Drop `key`'s entry.
    pub fn remove(&mut self, key: &NatKey)
        requires
            old(self).wf(),
        ensures
            final(self).wf(),
            final(self).as_map() == old(self).as_map().remove(
                spec_nat_key(*key),
            ),
    {
        let k = key.encode();
        self.entries.remove(k);
    }

    /// Drop every entry idle past its timeout; keep the rest unchanged.
    pub fn cleanup_expired(&mut self, now_ms: u64)
        requires
            old(self).wf(),
        ensures
            final(self).wf(),
            forall|k: u128|
                final(self).as_map().dom().contains(k) <==> (
                #[trigger] old(self).as_map().dom().contains(k) && !spec_nat_expired(
                    old(self).as_map()[k],
                    now_ms,
                )),
            forall|k: u128|
                final(self).as_map().dom().contains(k)
                    ==> #[trigger] final(self).as_map()[k] == old(
                    self,
                ).as_map()[k],
    {
        let n = self.entries.len();
        let ghost orig = self.entries.spec_entries();
        let ghost m = self.entries.as_map();
        let mut kept: KvList<NatEntry> = KvList::new();
        let mut i: usize = 0;
        while i < n
            invariant
                i <= n,
                n == orig.len(),
                self.entries.spec_entries() == orig,
                self.entries.wf(),
                m == self.entries.as_map(),
                kept.wf(),
                forall|k: u128|
                    kept.as_map().dom().contains(k) <==> (exists|j: int|
                        0 <= j < i && orig[j].0 == k && !spec_nat_expired(orig[j].1, now_ms)),
                forall|k: u128| #[trigger]
                    kept.as_map().dom().contains(k) ==> m.dom().contains(k) && kept.as_map()[k]
                        == m[k],
            decreases n - i,
        {
            let k = self.entries.key_at(i);
            let v = *self.entries.value_at(i);
            proof {
                crate::kvlist::lemma_kv_index(orig, i as int);
            }
            let timeout_ms: u64 = if v.key.protocol == PROTO_TCP {
                300000
            } else {
                60000
            };
            let alive = !(now_ms > v.last_active_ms && now_ms - v.last_active_ms >= timeout_ms);
            if alive {
                kept.insert(k, v);
            }
            proof {
                assert forall|kk: u128| kept.as_map().dom().contains(kk) implies (exists|j: int|
                    0 <= j < i + 1 && orig[j].0 == kk && !spec_nat_expired(orig[j].1, now_ms)) by {
                    if kk == k && !spec_nat_expired(v, now_ms) {
                        assert(orig[i as int].0 == kk);
                    } else {
                        assert(kept.as_map().dom().contains(kk));
                    }
                }
            }
            i = i + 1;
        }
        proof {
            assert forall|k: u128| m.dom().contains(k) implies (exists|j: int|
                0 <= j < orig.len() && orig[j].0 == k) by {
                crate::kvlist::lemma_kv_contains(orig, k);
            }
            assert forall|k: u128|
                m.dom().contains(k) && !spec_nat_expired(m[k], now_ms) implies
                kept.as_map().dom().contains(k) by {
                let j = choose|j: int| 0 <= j < orig.len() && orig[j].0 == k;
                crate::kvlist::lemma_kv_index(orig, j);
                assert(orig[j].1 == m[k]);
            }
            assert forall|k: u128| kept.as_map().dom().contains(k) implies m.dom().contains(k)
                && !spec_nat_expired(m[k], now_ms) by {
                let j = choose|j: int|
                    0 <= j < n && orig[j].0 == k && !spec_nat_expired(orig[j].1, now_ms);
                crate::kvlist::lemma_kv_index(orig, j);
                assert(orig[j].1 == m[k]);
            }
        }
        self.entries = kept;
    }

    /// How many entries are tracked.
    pub fn len(&self) -> (n: usize)
        ensures
            n == self.entries.spec_entries().len(),
    {
        self.entries.len()
    }

    /// Count entries by protocol and state.
    pub fn stats(&self) -> (r: NatStats)
        requires
            self.wf(),
        ensures
            r.total == self.entries.spec_entries().len(),
            r.tcp_count <= r.total,
            r.udp_count <= r.total,
            r.established <= r.tcp_count,
    {
        let n = self.entries.len();
        let mut tcp_count: usize = 0;
        let mut udp_count: usize = 0;
        let mut established: usize = 0;
        let mut i: usize = 0;
        while i < n
            invariant
                i <= n,
                n == self.entries.spec_entries().len(),
                tcp_count <= i,
                udp_count <= i,
                established <= tcp_count,
            decreases n - i,
        {
            let e = self.entries.value_at(i);
            if e.key.protocol == PROTO_TCP {
                tcp_count = tcp_count + 1;
                if matches!(e.state, ConnectionState::Established) {
                    established = established + 1;
                }
            } else if e.key.protocol == PROTO_UDP {
                udp_count = udp_count + 1;
            }
            i = i + 1;
        }
        NatStats { total: n, tcp_count, udp_count, established }
    }

    /// The table as a map (alias kept short in contracts).
    pub open spec fn sessions_map_at(&self) -> Map<u128, NatEntry> {
        self.entries.as_map()
    }
}

} // verus!

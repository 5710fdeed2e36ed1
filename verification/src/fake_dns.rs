//! FakeDNS: synthetic IPv4 addresses for intercepted domains.
//!
//! A/AAAA queries for intercepted names are answered from a `/16` pool
//! (`198.18.0.0/16`, round-robin cursor); the IPv6 image embeds the IPv4 in
//! `fc00::/96`. Entries live in a domain-to-IP map and an IP-to-domain LRU
//! cache sized to the pool, kept exact inverses of each other: evicting one
//! side always removes its counterpart. Reverse lookup on a later flow
//! recovers the domain, so the upstream header can carry the name and keep
//! SNI continuity at the relay's origin hop.

use vstd::prelude::*;
use vstd::string::StrSliceExecFns;

use crate::net::{Ipv4Address, Ipv6Address};
use crate::outside::{
    dash_entries, dash_get, dash_insert, dash_new, dash_remove, lru_capacity, lru_entries,
    lru_len, lru_new, lru_peek, lru_push, string_push,
};

verus! {

/// First address of the synthetic pool: 198.18.0.0.
pub const FAKE_IP_START: u32 = 0xC6120000;

/// Pool size: the whole /16.
pub const FAKE_IP_POOL_SIZE: u32 = 65536;

/// The fc00::/96 prefix the IPv6 image lives in.
pub const IPV6_FAKE_PREFIX: u128 = 0xfc000000000000000000000000000000;

/// TTL of synthesized answers: 1 second, so client caches cannot outlive
/// the mapping.
pub const DNS_TTL_SECONDS: u32 = 1;

/// Whether `bits` lies in the synthetic IPv4 pool.
pub open spec fn spec_is_fake_ip(bits: u32) -> bool {
    FAKE_IP_START <= bits < FAKE_IP_START + FAKE_IP_POOL_SIZE
}

/// Whether `bits` lies in the synthetic IPv6 image (fc00::/96).
pub open spec fn spec_is_fake_ipv6(bits: u128) -> bool {
    bits / 0x100000000 == IPV6_FAKE_PREFIX / 0x100000000
}

/// ASCII upper-case letters folded to lower case; all else unchanged.
pub open spec fn spec_lower_char(c: char) -> char {
    if 'A' <= c <= 'Z' {
        (((c as u32) + 32) as u8) as char
    } else {
        c
    }
}

/// The domain with trailing dots removed.
pub open spec fn spec_trim_dots(s: Seq<char>) -> Seq<char>
    decreases s.len(),
{
    if s.len() > 0 && s.last() == '.' {
        spec_trim_dots(s.drop_last())
    } else {
        s
    }
}

/// A domain's canonical form: trailing dots removed, ASCII letters folded
/// to lower case.
pub open spec fn spec_normalize_domain(s: Seq<char>) -> Seq<char> {
    spec_trim_dots(s).map_values(|c: char| spec_lower_char(c))
}

/// Fold one ASCII letter to lower case.
pub fn lower_char(c: char) -> (r: char)
    ensures
        r == spec_lower_char(c),
{
    if 'A' <= c && c <= 'Z' {
        let code: u32 = (c as u32) + 32;
        let b: u8 = code as u8;
        b as char
    } else {
        c
    }
}

/// Canonicalize a domain name: strip trailing dots, fold ASCII letters to
/// lower case.
pub fn normalize_domain(domain: &str) -> (r: String)
    ensures
        r@ == spec_normalize_domain(domain@),
{
    let n: usize = domain.unicode_len();
    proof {
        assert(domain@.take(n as int) =~= domain@);
    }
    let mut end: usize = n;
    while end > 0 && domain.get_char(end - 1) == '.'
        invariant
            end <= n,
            n == domain@.len(),
            spec_trim_dots(domain@) == spec_trim_dots(domain@.take(end as int)),
        decreases end,
    {
        proof {
            assert(domain@.take(end as int).last() == '.');
            assert(domain@.take(end as int).drop_last() =~= domain@.take(end - 1));
        }
        end = end - 1;
    }
    proof {
        if end > 0 {
            assert(domain@.take(end as int).last() == domain@[end - 1]);
        }
        assert(spec_trim_dots(domain@.take(end as int)) == domain@.take(end as int));
    }
    let mut out = String::new();
    let mut i: usize = 0;
    while i < end
        invariant
            i <= end <= n,
            n == domain@.len(),
            out@ == domain@.take(i as int).map_values(|c: char| spec_lower_char(c)),
        decreases end - i,
    {
        let c = domain.get_char(i);
        string_push(&mut out, lower_char(c));
        proof {
            assert(out@ =~= domain@.take(i + 1).map_values(|c: char| spec_lower_char(c)));
        }
        i = i + 1;
    }
    proof {
        assert(out@ == spec_normalize_domain(domain@));
    }
    out
}

/// Statistics of the pool.
#[derive(Debug, Clone, PartialEq, Eq, Structural)]
pub struct FakeDnsStats {
    pub total_entries: usize,
    pub pool_size: usize,
}

/// The synthetic-address pool.
pub struct FakeDnsPool {
    domain_to_ip: crate::outside::DomainIpMap,
    ip_to_domain: crate::outside::IpDomainCache,
    cursor: u32,
    enabled: bool,
}

impl FakeDnsPool {
    /// Domain-to-address entries.
    pub closed spec fn forward(&self) -> Map<Seq<char>, u32> {
        dash_entries(self.domain_to_ip)
    }

    /// Address-to-domain entries.
    pub closed spec fn reverse(&self) -> Map<u32, Seq<char>> {
        lru_entries(self.ip_to_domain)
    }

    /// Whether FakeDNS answers queries at all.
    pub closed spec fn spec_enabled(&self) -> bool {
        self.enabled
    }

    /// The round-robin cursor: the pool offset the next fresh domain
    /// receives.
    pub closed spec fn spec_cursor(&self) -> u32 {
        self.cursor
    }

    /// The two maps are exact inverses, every address is drawn from the
    /// pool, and the cursor stays inside it.
    pub closed spec fn wf(&self) -> bool {
        &&& lru_capacity(self.ip_to_domain) == FAKE_IP_POOL_SIZE
        &&& self.cursor < FAKE_IP_POOL_SIZE
        &&& self.reverse().dom().finite()
        &&& forall|ip: u32| #[trigger]
            self.reverse().dom().contains(ip) ==> spec_is_fake_ip(ip)
        &&& forall|ip: u32| #[trigger]
            self.reverse().dom().contains(ip) ==> self.forward().dom().contains(
                self.reverse()[ip],
            ) && self.forward()[self.reverse()[ip]] == ip
        &&& forall|d: Seq<char>| #[trigger]
            self.forward().dom().contains(d) ==> self.reverse().dom().contains(self.forward()[d])
                && self.reverse()[self.forward()[d]] == d
    }

    /// An empty pool.
    pub fn new(enabled: bool) -> (r: FakeDnsPool)
        ensures
            r.wf(),
            r.forward() == crate::outside::empty_domain_map(),
            r.reverse() == crate::outside::empty_ip_map(),
            r.spec_enabled() == enabled,
            r.spec_cursor() == 0,
    {
        FakeDnsPool {
            domain_to_ip: dash_new(),
            ip_to_domain: lru_new(FAKE_IP_POOL_SIZE as usize),
            cursor: 0,
            enabled,
        }
    }

    /// Whether FakeDNS is on.
    pub fn is_enabled(&self) -> (r: bool)
        ensures
            r == self.spec_enabled(),
    {
        self.enabled
    }

    /// Whether an IPv4 address is synthetic.
    pub fn is_fake_ip(ip: Ipv4Address) -> (r: bool)
        ensures
            r == spec_is_fake_ip(ip.bits),
    {
        ip.bits >= FAKE_IP_START && ip.bits < FAKE_IP_START + FAKE_IP_POOL_SIZE
    }

    /// Whether an IPv6 address is a synthetic image (fc00::/96).
    pub fn is_fake_ipv6(ip: Ipv6Address) -> (r: bool)
        ensures
            r == spec_is_fake_ipv6(ip.bits),
    {
        ip.bits / 0x100000000 == IPV6_FAKE_PREFIX / 0x100000000
    }

    /// The IPv4 address embedded in a synthetic IPv6 image.
    pub fn extract_ipv4_from_ipv6(ipv6: Ipv6Address) -> (r: Option<Ipv4Address>)
        ensures
            spec_is_fake_ipv6(ipv6.bits) ==> (r matches Some(v4) && v4.bits
                == ipv6.bits % 0x100000000),
            !spec_is_fake_ipv6(ipv6.bits) ==> r is None,
    {
        if !Self::is_fake_ipv6(ipv6) {
            return None;
        }
        Some(Ipv4Address::from_bits((ipv6.bits % 0x100000000) as u32))
    }

    /// The IPv6 image of an IPv4 address: fc00:: with the IPv4 embedded.
    pub fn map_v4_to_v6(v4: Ipv4Address) -> (r: Ipv6Address)
        ensures
            r.bits == IPV6_FAKE_PREFIX + v4.bits,
            spec_is_fake_ipv6(r.bits),
            r.bits % 0x100000000 == v4.bits,
    {
        Ipv6Address::from_bits(IPV6_FAKE_PREFIX + (v4.bits as u128))
    }

    /// Allocate (or re-use) the synthetic pair for a domain.
    ///
    /// The canonical form of `domain` ends up mapped to the returned IPv4
    /// address in both directions; the IPv6 result is its fc00::/96
    /// image. A known domain keeps its pair and changes nothing. A fresh
    /// domain takes exactly the round-robin cursor's address (pool base
    /// plus cursor, so the first allocation of a new pool is the pool
    /// base), advancing the cursor by one modulo the pool; both maps gain
    /// exactly the new pair, after at most one old pair — the new
    /// address's previous owner — is evicted from both.
    pub fn allocate(&mut self, domain: &str) -> (r: (Ipv4Address, Ipv6Address))
        requires
            old(self).wf(),
        ensures
            final(self).wf(),
            final(self).spec_enabled() == old(self).spec_enabled(),
            ({
                let d = spec_normalize_domain(domain@);
                &&& spec_is_fake_ip(r.0.bits)
                &&& r.1.bits == IPV6_FAKE_PREFIX + r.0.bits
                &&& final(self).forward().dom().contains(d)
                &&& final(self).forward()[d] == r.0.bits
                &&& final(self).reverse().dom().contains(r.0.bits)
                &&& final(self).reverse()[r.0.bits] == d
                &&& (old(self).forward().dom().contains(d) ==> final(self).forward() == old(
                    self,
                ).forward() && final(self).reverse() == old(self).reverse() && r.0.bits == old(
                    self,
                ).forward()[d] && final(self).spec_cursor() == old(self).spec_cursor())
                &&& (!old(self).forward().dom().contains(d) ==> ({
                    &&& r.0.bits == FAKE_IP_START + old(self).spec_cursor()
                    &&& final(self).spec_cursor() == (old(self).spec_cursor() + 1) % (
                    FAKE_IP_POOL_SIZE as int)
                    &&& ((final(self).forward() == old(self).forward().insert(d, r.0.bits)
                        && final(self).reverse() == old(self).reverse().insert(r.0.bits, d)) || (
                    exists|eip: u32|
                        {
                            &&& #[trigger] old(self).reverse().dom().contains(eip)
                            &&& final(self).forward() == old(self).forward().remove(
                                old(self).reverse()[eip],
                            ).insert(d, r.0.bits)
                            &&& final(self).reverse() == old(self).reverse().remove(eip).insert(
                                r.0.bits,
                                d,
                            )
                        }))
                }))
                &&& forall|d2: Seq<char>| #[trigger]
                    final(self).forward().dom().contains(d2) ==> d2 == d || (old(
                        self,
                    ).forward().dom().contains(d2) && final(self).forward()[d2] == old(
                        self,
                    ).forward()[d2])
            }),
    {
        let norm = normalize_domain(domain);
        let ghost d = norm@;

        match dash_get(&self.domain_to_ip, &norm) {
            Some(ip) => {
                proof {
                    assert(self.forward().dom().contains(d) && self.forward()[d] == ip);
                    assert(self.reverse().dom().contains(ip) && self.reverse()[ip] == d);
                }
                let v4 = Ipv4Address::from_bits(ip);
                let v6 = Self::map_v4_to_v6(v4);
                return (v4, v6);
            },
            None => {},
        }

        let new_ip: u32 = FAKE_IP_START + self.cursor;
        self.cursor = (self.cursor + 1) % FAKE_IP_POOL_SIZE;
        let ghost f0 = self.forward();
        let ghost r0 = self.reverse();
        proof {
            assert(f0 == old(self).forward());
            assert(r0 == old(self).reverse());
        }

        let evicted = lru_push(&mut self.ip_to_domain, new_ip, norm.clone());
        let ghost ev = evicted;
        match evicted {
            Some(pair) => {
                let (eip, edom) = pair;
                proof {
                    assert(r0.dom().contains(eip));
                    assert(edom@ == r0[eip]);
                    assert(f0.dom().contains(edom@) && f0[edom@] == eip);
                }
                dash_remove(&mut self.domain_to_ip, &edom);
            },
            None => {},
        }
        dash_insert(&mut self.domain_to_ip, norm, new_ip);

        proof {
            let f2 = self.forward();
            let r2 = self.reverse();
            assert(!f0.dom().contains(d));
            match ev {
                Some(pair) => {
                    let eip = pair.0;
                    let ed = r0[eip];
                    assert(r2 == r0.remove(eip).insert(new_ip, d));
                    assert(f2 == f0.remove(ed).insert(d, new_ip));
                    assert(exists|e: u32|
                        {
                            &&& #[trigger] r0.dom().contains(e)
                            &&& f2 == f0.remove(r0[e]).insert(d, new_ip)
                            &&& r2 == r0.remove(e).insert(new_ip, d)
                        }) by {
                        assert(r0.dom().contains(eip) && f2 == f0.remove(r0[eip]).insert(
                            d,
                            new_ip,
                        ) && r2 == r0.remove(eip).insert(new_ip, d));
                    }
                    assert forall|ip2: u32| #[trigger] r2.dom().contains(ip2) implies
                        spec_is_fake_ip(ip2) && f2.dom().contains(r2[ip2]) && f2[r2[ip2]]
                        == ip2 by {
                        if ip2 == new_ip {
                        } else {
                            assert(r0.dom().contains(ip2));
                            let d2 = r0[ip2];
                            assert(f0.dom().contains(d2) && f0[d2] == ip2);
                            assert(d2 != d);
                            if d2 == ed {
                                assert(f0[ed] == eip);
                                assert(ip2 == eip);
                                assert(false);
                            }
                            assert(f2.dom().contains(d2) && f2[d2] == ip2);
                        }
                    }
                    assert forall|d2: Seq<char>| #[trigger] f2.dom().contains(d2) implies
                        r2.dom().contains(f2[d2]) && r2[f2[d2]] == d2 by {
                        if d2 == d {
                        } else {
                            assert(f2 == f0.remove(ed).insert(d, new_ip));
                            assert(f0.dom().contains(d2) && d2 != ed);
                            let ip2 = f0[d2];
                            assert(r0.dom().contains(ip2) && r0[ip2] == d2);
                            if ip2 == eip {
                                assert(r0[eip] == ed);
                                assert(false);
                            }
                            if ip2 == new_ip {
                                assert((eip == new_ip) == r0.dom().contains(new_ip));
                                if eip == new_ip {
                                    assert(r0[new_ip] == ed);
                                    assert(false);
                                } else {
                                    assert(!r0.dom().contains(new_ip));
                                    assert(false);
                                }
                            }
                            assert(r2.dom().contains(ip2) && r2[ip2] == d2);
                        }
                    }
                },
                None => {
                    assert(r2 == r0.insert(new_ip, d));
                    assert(f2 == f0.insert(d, new_ip));
                    assert(!r0.dom().contains(new_ip));
                    assert forall|ip2: u32| #[trigger] r2.dom().contains(ip2) implies
                        spec_is_fake_ip(ip2) && f2.dom().contains(r2[ip2]) && f2[r2[ip2]]
                        == ip2 by {
                        if ip2 != new_ip {
                            let d2 = r0[ip2];
                            assert(f0.dom().contains(d2) && f0[d2] == ip2);
                            assert(d2 != d);
                        }
                    }
                    assert forall|d2: Seq<char>| #[trigger] f2.dom().contains(d2) implies
                        r2.dom().contains(f2[d2]) && r2[f2[d2]] == d2 by {
                        if d2 != d {
                            assert(f0.dom().contains(d2));
                            let ip2 = f0[d2];
                            assert(r0.dom().contains(ip2) && r0[ip2] == d2);
                            assert(ip2 != new_ip);
                        }
                    }
                },
            }
        }

        let v4 = Ipv4Address::from_bits(new_ip);
        let v6 = Self::map_v4_to_v6(v4);
        (v4, v6)
    }

    /// The domain a synthetic IPv4 address stands for, if it is still
    /// mapped.
    pub fn lookup(&self, ip: Ipv4Address) -> (r: Option<String>)
        ensures
            match r {
                Some(dom) => self.reverse().dom().contains(ip.bits) && dom@
                    == self.reverse()[ip.bits] && spec_is_fake_ip(ip.bits),
                None => !(spec_is_fake_ip(ip.bits) && self.reverse().dom().contains(ip.bits)),
            },
    {
        if !Self::is_fake_ip(ip) {
            return None;
        }
        lru_peek(&self.ip_to_domain, ip.bits)
    }

    /// The domain a synthetic IPv6 image stands for, if it is still mapped.
    pub fn lookup_v6(&self, ip: Ipv6Address) -> (r: Option<String>)
        ensures
            r matches Some(dom) ==> spec_is_fake_ipv6(ip.bits) && self.reverse().dom().contains(
                (ip.bits % 0x100000000) as u32,
            ) && dom@ == self.reverse()[(ip.bits % 0x100000000) as u32],
    {
        match Self::extract_ipv4_from_ipv6(ip) {
            Some(v4) => self.lookup(v4),
            None => None,
        }
    }

    /// The synthetic pair a domain currently owns, if any.
    pub fn lookup_by_domain(&self, domain: &str) -> (r: Option<(Ipv4Address, Ipv6Address)>)
        ensures
            ({
                let d = spec_normalize_domain(domain@);
                match r {
                    Some(pair) => self.forward().dom().contains(d) && pair.0.bits
                        == self.forward()[d] && pair.1.bits == IPV6_FAKE_PREFIX + pair.0.bits,
                    None => !self.forward().dom().contains(d),
                }
            }),
    {
        let norm = normalize_domain(domain);
        match dash_get(&self.domain_to_ip, &norm) {
            Some(ip) => {
                let v4 = Ipv4Address::from_bits(ip);
                let v6 = Self::map_v4_to_v6(v4);
                Some((v4, v6))
            },
            None => None,
        }
    }

    /// How full the pool is.
    pub fn stats(&self) -> (r: FakeDnsStats)
        ensures
            r.total_entries == self.reverse().dom().len(),
            r.pool_size == FAKE_IP_POOL_SIZE,
    {
        FakeDnsStats {
            total_entries: lru_len(&self.ip_to_domain),
            pool_size: FAKE_IP_POOL_SIZE as usize,
        }
    }
}

/// FakeDNS bijection, before eviction: a pool address maps back to a domain
/// exactly when that domain maps forward to the address.
pub proof fn lemma_fake_dns_bijection(pool: &FakeDnsPool, ip: u32, domain: Seq<char>)
    requires
        pool.wf(),
    ensures
        (pool.reverse().dom().contains(ip) && pool.reverse()[ip] == domain) <==> (
        pool.forward().dom().contains(domain) && pool.forward()[domain] == ip),
{
}

} // verus!

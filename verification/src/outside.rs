//! Trusted declarations for the outside crates and the few std calls that
//! vstd gives no specification.
//!
//! Everything here is believed, not proved: each item's doc comment names
//! the outside function relied on and what of it.

use vstd::prelude::*;

use base64::Engine;

verus! {

/// Relies on rand::random: a value drawn from the thread-local generator.
/// Nothing can be promised of it.
pub assume_specification<T>[ rand::random::<T> ]() -> (r: T)
    where
        rand::distributions::Standard: rand::distributions::Distribution<T>,
;

/// What base64's URL_SAFE_NO_PAD engine encodes `bytes` to. The encoding
/// depends on the bytes alone.
pub uninterp spec fn b64url_of(bytes: Seq<u8>) -> Seq<char>;

/// Relies on base64's `Engine::encode` with the URL_SAFE_NO_PAD engine:
/// the unpadded URL-safe base64 text of `bytes`, four characters for every
/// three bytes (partial final group included).
#[verifier::external_body]
pub fn b64url_encode(bytes: &[u8]) -> (r: String)
    ensures
        r@ == b64url_of(bytes@),
        bytes@.len() == 0 ==> r@.len() == 0,
{
    base64::engine::general_purpose::URL_SAFE_NO_PAD.encode(bytes)
}

/// What base64's STANDARD engine encodes `bytes` to. The encoding depends
/// on the bytes alone.
pub uninterp spec fn b64std_of(bytes: Seq<u8>) -> Seq<char>;

/// Relies on base64's `Engine::encode` with the STANDARD engine: the padded
/// base64 text of `bytes`.
#[verifier::external_body]
pub fn b64std_encode(bytes: &[u8]) -> (r: String)
    ensures
        r@ == b64std_of(bytes@),
        bytes@.len() == 0 ==> r@.len() == 0,
{
    base64::engine::general_purpose::STANDARD.encode(bytes)
}

#[verifier::external_type_specification]
#[verifier::external_body]
#[verifier::reject_recursive_types(K)]
#[verifier::reject_recursive_types(V)]
#[verifier::reject_recursive_types(S)]
pub struct ExLruCache<K, V, S>(lru::LruCache<K, V, S>);

#[verifier::external_type_specification]
#[verifier::external_body]
#[verifier::reject_recursive_types(K)]
#[verifier::reject_recursive_types(V)]
#[verifier::reject_recursive_types(S)]
pub struct ExDashMap<K, V, S>(dashmap::DashMap<K, V, S>);

/// The LRU cache that maps synthetic addresses back to domains.
pub type IpDomainCache = lru::LruCache<u32, String, std::collections::hash_map::RandomState>;

/// The concurrent map that maps domains to synthetic addresses.
pub type DomainIpMap = dashmap::DashMap<String, u32>;

/// What an IP-to-domain LRU cache holds, as a map from address to domain.
pub uninterp spec fn lru_entries(c: IpDomainCache) -> Map<u32, Seq<char>>;

/// The empty address-to-domain map.
pub open spec fn empty_ip_map() -> Map<u32, Seq<char>> {
    Map::empty()
}

/// The empty domain-to-address map.
pub open spec fn empty_domain_map() -> Map<Seq<char>, u32> {
    Map::empty()
}

/// The capacity an IP-to-domain LRU cache was created with.
pub uninterp spec fn lru_capacity(c: IpDomainCache) -> nat;

/// Relies on lru::LruCache::new: an empty cache of the given capacity.
#[verifier::external_body]
pub fn lru_new(cap: usize) -> (c: IpDomainCache)
    requires
        cap >= 1,
    ensures
        lru_entries(c) == empty_ip_map(),
        lru_capacity(c) == cap,
{
    lru::LruCache::with_hasher(
        std::num::NonZeroUsize::new(cap).unwrap(),
        std::collections::hash_map::RandomState::new(),
    )
}

/// Relies on lru::LruCache::push: stores `v` under `k`. If `k` was present
/// its old pair comes back; if the cache was full another (least recently
/// used) pair is evicted and comes back; otherwise nothing comes back.
#[verifier::external_body]
pub fn lru_push(c: &mut IpDomainCache, k: u32, v: String) -> (evicted: Option<
    (u32, String),
>)
    ensures
        lru_capacity(*final(c)) == lru_capacity(*old(c)),
        lru_entries(*final(c)).dom().finite() == lru_entries(*old(c)).dom().finite(),
        match evicted {
            None => {
                &&& !lru_entries(*old(c)).dom().contains(k)
                &&& lru_entries(*old(c)).dom().len() < lru_capacity(*old(c))
                &&& lru_entries(*final(c)) == lru_entries(*old(c)).insert(k, v@)
            },
            Some(p) => {
                &&& lru_entries(*old(c)).dom().contains(p.0)
                &&& p.1@ == lru_entries(*old(c))[p.0]
                &&& (p.0 == k) == lru_entries(*old(c)).dom().contains(k)
                &&& lru_entries(*final(c)) == lru_entries(*old(c)).remove(p.0).insert(k, v@)
            },
        },
{
    c.push(k, v)
}

/// Relies on lru::LruCache::peek: the value under `k`, recency untouched.
#[verifier::external_body]
pub fn lru_peek(c: &IpDomainCache, k: u32) -> (r: Option<String>)
    ensures
        match r {
            Some(v) => lru_entries(*c).dom().contains(k) && v@ == lru_entries(*c)[k],
            None => !lru_entries(*c).dom().contains(k),
        },
{
    c.peek(&k).cloned()
}

/// Relies on lru::LruCache::len: how many pairs the cache holds.
#[verifier::external_body]
pub fn lru_len(c: &IpDomainCache) -> (n: usize)
    ensures
        n == lru_entries(*c).dom().len(),
{
    c.len()
}

/// What a domain-to-IP concurrent map holds.
pub uninterp spec fn dash_entries(m: DomainIpMap) -> Map<Seq<char>, u32>;

/// Relies on dashmap::DashMap::new: an empty map.
#[verifier::external_body]
pub fn dash_new() -> (m: DomainIpMap)
    ensures
        dash_entries(m) == empty_domain_map(),
{
    dashmap::DashMap::new()
}

/// Relies on dashmap::DashMap::get: the value under `k`, if any.
#[verifier::external_body]
pub fn dash_get(m: &DomainIpMap, k: &String) -> (r: Option<u32>)
    ensures
        match r {
            Some(v) => dash_entries(*m).dom().contains(k@) && v == dash_entries(*m)[k@],
            None => !dash_entries(*m).dom().contains(k@),
        },
{
    m.get(k).map(|entry| *entry)
}

/// Relies on dashmap::DashMap::insert: stores `v` under `k`.
#[verifier::external_body]
pub fn dash_insert(m: &mut DomainIpMap, k: String, v: u32)
    ensures
        dash_entries(*final(m)) == dash_entries(*old(m)).insert(k@, v),
{
    m.insert(k, v);
}

/// Relies on dashmap::DashMap::remove: drops the entry under `k`.
#[verifier::external_body]
pub fn dash_remove(m: &mut DomainIpMap, k: &String)
    ensures
        dash_entries(*final(m)) == dash_entries(*old(m)).remove(k@),
{
    m.remove(k);
}

/// Relies on String::push: appends exactly one character.
#[verifier::external_body]
pub fn string_push(s: &mut String, c: char)
    ensures
        final(s)@ == old(s)@.push(c),
{
    s.push(c);
}

/// Relies on String::push_str: appends the other string's characters.
#[verifier::external_body]
pub fn string_push_str(s: &mut String, other: &str)
    ensures
        final(s)@ == old(s)@ + other@,
{
    s.push_str(other);
}

/// Relies on String::from_utf8 on ASCII bytes: every byte below 0x80 is one
/// character of the same code point, so the result mirrors the input.
#[verifier::external_body]
pub fn string_from_ascii(bytes: &Vec<u8>) -> (r: String)
    requires
        forall|i: int| 0 <= i < bytes@.len() ==> bytes@[i] < 0x80,
    ensures
        r@.len() == bytes@.len(),
        forall|i: int| 0 <= i < bytes@.len() ==> r@[i] == (bytes@[i] as char),
{
    String::from_utf8(bytes.clone()).unwrap_or_default()
}

} // verus!

//! The hash sets of address keys that the access policies keep, and the
//! trusted wrappers over the `rustc_hash` / `std` set operations they use.

use rustc_hash::{FxBuildHasher, FxHashSet};
use vstd::prelude::*;
use crate::net::{IpAddress, IpKey, from_key, valid_key};

verus! {

/// Declares `rustc_hash::FxBuildHasher`, the hasher builder of `FxHashSet`.
#[verifier::external_type_specification]
#[verifier::external_body]
pub struct ExFxBuildHasher(FxBuildHasher);

/// A set of address keys, hashed with `rustc_hash`'s Fx hasher.
pub type KeySet = FxHashSet<IpKey>;

/// A new, empty set.
pub(crate) fn key_set_new() -> (s: KeySet)
    ensures
        s@ == Set::<IpKey>::empty(),
{
    FxHashSet::default()
}

/// Calls `HashSet::insert`: afterwards the set also holds `k`, and the
/// result says whether `k` was absent before.
#[verifier::external_body]
pub(crate) fn key_set_insert(s: &mut KeySet, k: IpKey) -> (added: bool)
    ensures
        final(s)@ == old(s)@.insert(k),
        added == !old(s)@.contains(k),
{
    s.insert(k)
}

/// Calls `HashSet::contains`: whether the set holds `k`.
#[verifier::external_body]
pub(crate) fn key_set_contains(s: &KeySet, k: &IpKey) -> (found: bool)
    ensures
        found == s@.contains(*k),
{
    s.contains(k)
}

/// Calls `HashSet::remove`: afterwards the set no longer holds `k`, and the
/// result says whether it held `k` before.
#[verifier::external_body]
pub(crate) fn key_set_remove(s: &mut KeySet, k: &IpKey) -> (removed: bool)
    ensures
        final(s)@ == old(s)@.remove(*k),
        removed == old(s)@.contains(*k),
{
    s.remove(k)
}

/// Walks the set with `HashSet::iter` and collects its keys: each key of the
/// set once, in the order in which the set is walked (which is left open).
#[verifier::external_body]
pub(crate) fn key_set_to_vec(s: &KeySet) -> (v: Vec<IpKey>)
    ensures
        v@.to_set() == s@,
        v@.no_duplicates(),
{
    s.iter().copied().collect()
}

/// The addresses whose keys `keys` holds.
pub open spec fn addresses_of(keys: Set<IpKey>) -> Set<IpAddress> {
    Set::new(|ip: IpAddress| keys.contains(ip.spec_key()))
}

/// The addresses in `ips`.
pub open spec fn address_set(ips: Seq<IpAddress>) -> Set<IpAddress> {
    Set::new(|ip: IpAddress| ips.contains(ip))
}

/// Builds the set of keys of the addresses in `ips`.
pub(crate) fn keys_from_addresses(ips: &[IpAddress]) -> (s: KeySet)
    ensures
        addresses_of(s@) == address_set(ips@),
        forall|k: IpKey| s@.contains(k) ==> valid_key(k),
{
    let mut s = key_set_new();
    let n = ips.len();
    let mut i: usize = 0;
    while i < n
        invariant
            n == ips@.len(),
            i <= n,
            forall|k: IpKey| s@.contains(k) <==> exists|j: int| 0 <= j < i && ips@[j].spec_key() == k,
        decreases n - i,
    {
        key_set_insert(&mut s, ips[i].key());
        i = i + 1;
    }
    proof {
        assert forall|ip: IpAddress| addresses_of(s@).contains(ip) <==> address_set(ips@).contains(ip) by {
            if s@.contains(ip.spec_key()) {
                let j = choose|j: int| 0 <= j < n && ips@[j].spec_key() == ip.spec_key();
                crate::net::lemma_key_roundtrip(ip, ip.spec_key());
                crate::net::lemma_key_roundtrip(ips@[j], ip.spec_key());
                assert(ips@[j] == ip);
            }
            if ips@.contains(ip) {
                let j = choose|j: int| 0 <= j < ips@.len() && ips@[j] == ip;
                assert(s@.contains(ips@[j].spec_key()));
            }
        }
        assert(addresses_of(s@) == address_set(ips@));
        assert forall|k: IpKey| s@.contains(k) implies valid_key(k) by {
            let j = choose|j: int| 0 <= j < n && ips@[j].spec_key() == k;
            crate::net::lemma_key_roundtrip(ips@[j], k);
        }
    }
    s
}

/// Lists the addresses of a set of valid keys, each once.
pub(crate) fn addresses_in(s: &KeySet) -> (v: Vec<IpAddress>)
    requires
        forall|k: IpKey| s@.contains(k) ==> valid_key(k),
    ensures
        address_set(v@) == addresses_of(s@),
        v@.no_duplicates(),
{
    let keys = key_set_to_vec(s);
    let mut v: Vec<IpAddress> = Vec::new();
    let n = keys.len();
    let mut i: usize = 0;
    while i < n
        invariant
            n == keys@.len(),
            i <= n,
            keys@.no_duplicates(),
            keys@.to_set() == s@,
            forall|k: IpKey| s@.contains(k) ==> valid_key(k),
            v@.len() == i,
            forall|j: int| 0 <= j < i ==> v@[j].spec_key() == keys@[j],
        decreases n - i,
    {
        assert(keys@.to_set().contains(keys@[i as int]));
        let ip = from_key(keys[i]);
        v.push(ip);
        i = i + 1;
    }
    proof {
        assert forall|ip: IpAddress| address_set(v@).contains(ip) <==> addresses_of(s@).contains(ip) by {
            if v@.contains(ip) {
                let j = choose|j: int| 0 <= j < v@.len() && v@[j] == ip;
                assert(keys@.to_set().contains(keys@[j]));
            }
            if s@.contains(ip.spec_key()) {
                assert(keys@.to_set().contains(ip.spec_key()));
                let j = choose|j: int| 0 <= j < keys@.len() && keys@[j] == ip.spec_key();
                crate::net::lemma_key_roundtrip(ip, ip.spec_key());
                crate::net::lemma_key_roundtrip(v@[j], ip.spec_key());
                assert(v@[j] == ip);
            }
        }
        assert(address_set(v@) == addresses_of(s@));
        assert forall|a: int, b: int| 0 <= a < v@.len() && 0 <= b < v@.len() && a != b implies v@[a] != v@[b] by {
            assert(keys@[a] != keys@[b]);
        }
    }
    v
}

pub(crate) proof fn lemma_addresses_insert(keys: Set<IpKey>, ip: IpAddress)
    ensures
        addresses_of(keys.insert(ip.spec_key())) == addresses_of(keys).insert(ip),
{
    assert forall|a: IpAddress| addresses_of(keys.insert(ip.spec_key())).contains(a)
        <==> addresses_of(keys).insert(ip).contains(a) by {
        if a.spec_key() == ip.spec_key() {
            crate::net::lemma_key_roundtrip(a, a.spec_key());
            crate::net::lemma_key_roundtrip(ip, ip.spec_key());
        }
    }
    assert(addresses_of(keys.insert(ip.spec_key())) == addresses_of(keys).insert(ip));
}

pub(crate) proof fn lemma_addresses_remove(keys: Set<IpKey>, ip: IpAddress)
    ensures
        addresses_of(keys.remove(ip.spec_key())) == addresses_of(keys).remove(ip),
{
    assert forall|a: IpAddress| addresses_of(keys.remove(ip.spec_key())).contains(a)
        <==> addresses_of(keys).remove(ip).contains(a) by {
        if a.spec_key() == ip.spec_key() {
            crate::net::lemma_key_roundtrip(a, a.spec_key());
            crate::net::lemma_key_roundtrip(ip, ip.spec_key());
        }
    }
    assert(addresses_of(keys.remove(ip.spec_key())) == addresses_of(keys).remove(ip));
}

} // verus!

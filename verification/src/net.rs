//! IP addresses as plain values.

use vstd::prelude::*;

verus! {

/// An IPv4 or IPv6 address, held as its numeric value.
///
/// The variants and their order follow `std::net::IpAddr`: every IPv4
/// address orders before every IPv6 address, and addresses of one family
/// order by their numeric value.
#[derive(Clone, Copy, Debug, PartialEq, Eq, Structural)]
pub enum IpAddress {
    V4(u32),
    V6(u128),
}

/// The key under which an address is stored in the hash sets of the
/// library: the family flag (`true` for IPv6) and the numeric value.
pub type IpKey = (bool, u128);

impl IpAddress {
    /// The key of this address.
    pub open spec fn spec_key(self) -> IpKey {
        match self {
            IpAddress::V4(a) => (false, a as u128),
            IpAddress::V6(a) => (true, a),
        }
    }

    /// Computes the key of this address.
    pub fn key(&self) -> (k: IpKey)
        ensures
            k == self.spec_key(),
    {
        match self {
            IpAddress::V4(a) => (false, *a as u128),
            IpAddress::V6(a) => (true, *a),
        }
    }
}

/// Whether `k` is the key of some address.
pub open spec fn valid_key(k: IpKey) -> bool {
    !k.0 ==> k.1 <= u32::MAX
}

/// The address whose key is `k`.
pub open spec fn address_of_key(k: IpKey) -> IpAddress {
    if k.0 {
        IpAddress::V6(k.1)
    } else {
        IpAddress::V4(k.1 as u32)
    }
}

/// Keys are valid, and keys and addresses correspond one to one.
pub proof fn lemma_key_roundtrip(ip: IpAddress, k: IpKey)
    ensures
        valid_key(ip.spec_key()),
        address_of_key(ip.spec_key()) == ip,
        valid_key(k) ==> address_of_key(k).spec_key() == k,
{
}

/// Computes the address whose key is `k`.
pub fn from_key(k: IpKey) -> (ip: IpAddress)
    requires
        valid_key(k),
    ensures
        ip == address_of_key(k),
        ip.spec_key() == k,
{
    if k.0 {
        IpAddress::V6(k.1)
    } else {
        IpAddress::V4(k.1 as u32)
    }
}

/// The order of `std::net::IpAddr`: every IPv4 address before every IPv6
/// address, and by numeric value within a family.
pub open spec fn addr_lt(a: IpAddress, b: IpAddress) -> bool {
    let ka = a.spec_key();
    let kb = b.spec_key();
    (!ka.0 && kb.0) || (ka.0 == kb.0 && ka.1 < kb.1)
}

impl IpAddress {
    /// Whether `self` orders strictly before `other`.
    pub fn precedes(&self, other: &IpAddress) -> (r: bool)
        ensures
            r == addr_lt(*self, *other),
    {
        let a = self.key();
        let b = other.key();
        (!a.0 && b.0) || (a.0 == b.0 && a.1 < b.1)
    }
}

/// Whether `s` is in strictly increasing address order.
pub open spec fn strictly_sorted(s: Seq<IpAddress>) -> bool {
    forall|i: int, j: int| 0 <= i < j < s.len() ==> addr_lt(s[i], s[j])
}

proof fn lemma_addr_lt_total(a: IpAddress, b: IpAddress)
    ensures
        a != b ==> addr_lt(a, b) || addr_lt(b, a),
        !(addr_lt(a, b) && addr_lt(b, a)),
        !addr_lt(a, a),
{
    lemma_key_roundtrip(a, a.spec_key());
    lemma_key_roundtrip(b, b.spec_key());
}

proof fn lemma_addr_lt_transitive(a: IpAddress, b: IpAddress, c: IpAddress)
    requires
        addr_lt(a, b),
        addr_lt(b, c),
    ensures
        addr_lt(a, c),
{
}

/// The addresses of `ips` in increasing address order, each once: the order
/// in which the list commands show them.
pub fn sorted_addresses(ips: Vec<IpAddress>) -> (out: Vec<IpAddress>)
    ensures
        strictly_sorted(out@),
        forall|a: IpAddress| out@.contains(a) <==> ips@.contains(a),
        ips@.no_duplicates() ==> out@.len() == ips@.len(),
{
    let mut out: Vec<IpAddress> = Vec::new();
    let n = ips.len();
    let mut i: usize = 0;
    while i < n
        invariant
            n == ips@.len(),
            i <= n,
            strictly_sorted(out@),
            forall|a: IpAddress| out@.contains(a) <==> ips@.take(i as int).contains(a),
            ips@.no_duplicates() ==> out@.len() == i,
        decreases n - i,
    {
        let x = ips[i];
        let mut j: usize = 0;
        while j < out.len() && out[j].precedes(&x)
            invariant
                j <= out@.len(),
                strictly_sorted(out@),
                forall|k: int| 0 <= k < j ==> addr_lt(out@[k], x),
            decreases out@.len() - j,
        {
            j = j + 1;
        }
        let present = j < out.len() && out[j] == x;
        let ghost before = out@;
        proof {
            assert(ips@.take(i + 1) == ips@.take(i as int).push(x));
            if j < before.len() && !present {
                lemma_addr_lt_total(before[j as int], x);
                assert(addr_lt(x, before[j as int]));
            }
        }
        if !present {
            out.insert(j, x);
            proof {
                assert forall|a: int, b: int| 0 <= a < b < out@.len() implies addr_lt(out@[a], out@[b]) by {
                    if a < j && b == j {
                        assert(out@[a] == before[a]);
                    } else if a < j && b > j {
                        assert(out@[a] == before[a]);
                        assert(out@[b] == before[b - 1]);
                    } else if a == j && b > j {
                        assert(out@[b] == before[b - 1]);
                        if b - 1 > j {
                            lemma_addr_lt_transitive(x, before[j as int], before[b - 1]);
                        }
                    } else if a > j {
                        assert(out@[a] == before[a - 1]);
                        assert(out@[b] == before[b - 1]);
                    } else {
                        assert(out@[a] == before[a]);
                        assert(out@[b] == before[b]);
                    }
                }
                assert forall|a: IpAddress| out@.contains(a) <==> ips@.take(i + 1).contains(a) by {
                    if out@.contains(a) {
                        let k = choose|k: int| 0 <= k < out@.len() && out@[k] == a;
                        if k < j {
                            assert(before[k] == a);
                        } else if k > j {
                            assert(before[k - 1] == a);
                        }
                    }
                    if before.contains(a) {
                        let k = choose|k: int| 0 <= k < before.len() && before[k] == a;
                        if k < j {
                            assert(out@[k] == a);
                        } else {
                            assert(out@[k + 1] == a);
                        }
                    }
                    if a == x {
                        assert(out@[j as int] == x);
                        assert(ips@.take(i + 1)[i as int] == x);
                    }
                    let t0 = ips@.take(i as int);
                    let t1 = ips@.take(i + 1);
                    if t1.contains(a) {
                        let k = choose|k: int| 0 <= k < t1.len() && t1[k] == a;
                        if k < i {
                            assert(t0[k] == a);
                        }
                    }
                    if t0.contains(a) {
                        let k = choose|k: int| 0 <= k < t0.len() && t0[k] == a;
                        assert(t1[k] == a);
                    }
                }
                if ips@.no_duplicates() {
                    assert(!ips@.take(i as int).contains(x)) by {
                        if ips@.take(i as int).contains(x) {
                            let k = choose|k: int| 0 <= k < i && ips@.take(i as int)[k] == x;
                            assert(ips@[k] == ips@[i as int]);
                        }
                    }
                }
            }
        } else {
            proof {
                assert(before[j as int] == x);
                assert(before.contains(x));
                assert forall|a: IpAddress| out@.contains(a) <==> ips@.take(i + 1).contains(a) by {
                    let t0 = ips@.take(i as int);
                    let t1 = ips@.take(i + 1);
                    if t1.contains(a) {
                        let k = choose|k: int| 0 <= k < t1.len() && t1[k] == a;
                        if k < i {
                            assert(t0[k] == a);
                        }
                    }
                    if t0.contains(a) {
                        let k = choose|k: int| 0 <= k < t0.len() && t0[k] == a;
                        assert(t1[k] == a);
                    }
                }
                if ips@.no_duplicates() {
                    let k = choose|k: int| 0 <= k < i && ips@.take(i as int)[k] == x;
                    assert(ips@[k] == ips@[i as int]);
                }
            }
        }
        i = i + 1;
    }
    proof {
        assert(ips@.take(n as int) == ips@);
    }
    out
}

} // verus!

//! What the two ban lists share: entries that name a banned address and may
//! expire, the hash set of the banned addresses kept beside the list, the
//! expiry sweep and the pardon, and the laws that tie them together.

use vstd::prelude::*;
use crate::key_set::{KeySet, key_set_insert, key_set_new};
use crate::net::{IpAddress, IpKey};
use crate::time::{UtcTime, spec_is_after};

verus! {

/// An entry of a ban list: it names the banned address and when the ban
/// expires.
pub trait BanRecord: Sized {
    /// The banned address.
    spec fn banned_address(&self) -> IpAddress;

    /// When the ban expires; `None` for a ban that never expires.
    spec fn expiry(&self) -> Option<UtcTime>;

    /// The banned address.
    fn address(&self) -> (a: IpAddress)
        ensures
            a == self.banned_address(),
    ;

    /// When the ban expires.
    fn expires_at(&self) -> (e: Option<UtcTime>)
        ensures
            e == self.expiry(),
    ;
}

/// Whether some entry of `bans` bans `ip`.
pub open spec fn banned_in<T: BanRecord>(bans: Seq<T>, ip: IpAddress) -> bool {
    exists|i: int| 0 <= i < bans.len() && bans[i].banned_address() == ip
}

/// Whether an entry names an address other than `ip`.
pub open spec fn names_other<T: BanRecord>(ip: IpAddress) -> spec_fn(T) -> bool {
    |b: T| b.banned_address() != ip
}

/// `bans` without the entries for `ip`, in their order.
pub open spec fn without_ip<T: BanRecord>(bans: Seq<T>, ip: IpAddress) -> Seq<T> {
    bans.filter(names_other(ip))
}

/// Whether the ban `b` is still in force at `now`: it never expires, or it
/// expires strictly after `now`.
pub open spec fn still_active<T: BanRecord>(b: T, now: UtcTime) -> bool {
    match b.expiry() {
        None => true,
        Some(t) => spec_is_after(t, now),
    }
}

/// The entries of `bans` still in force at `now`, in their order.
pub open spec fn active_at<T: BanRecord>(bans: Seq<T>, now: UtcTime) -> Seq<T> {
    bans.filter(|b: T| still_active(b, now))
}

/// The keys of the addresses that `bans` names.
pub open spec fn keys_of<T: BanRecord>(bans: Seq<T>) -> Set<IpKey> {
    Set::new(|k: IpKey| exists|i: int| 0 <= i < bans.len() && bans[i].banned_address().spec_key() == k)
}

/// An address is banned exactly when its key is among the keys of the list.
pub proof fn lemma_banned_in_keys<T: BanRecord>(bans: Seq<T>, ip: IpAddress)
    ensures
        banned_in(bans, ip) <==> keys_of(bans).contains(ip.spec_key()),
{
    if keys_of(bans).contains(ip.spec_key()) {
        let i = choose|i: int| 0 <= i < bans.len() && bans[i].banned_address().spec_key() == ip.spec_key();
        crate::net::lemma_key_roundtrip(ip, ip.spec_key());
        crate::net::lemma_key_roundtrip(bans[i].banned_address(), ip.spec_key());
        assert(bans[i].banned_address() == ip);
    }
}

/// Builds the set of keys of the addresses that `bans` names.
pub fn keys_from_bans<T: BanRecord>(bans: &Vec<T>) -> (s: KeySet)
    ensures
        s@ == keys_of(bans@),
{
    let mut s = key_set_new();
    let n = bans.len();
    let mut i: usize = 0;
    while i < n
        invariant
            n == bans@.len(),
            i <= n,
            s@ == keys_of(bans@.take(i as int)),
        decreases n - i,
    {
        let ghost before = s@;
        key_set_insert(&mut s, bans[i].address().key());
        proof {
            let pre = bans@.take(i as int);
            let post = bans@.take(i + 1);
            assert(post[i as int] == bans@[i as int]);
            assert forall|k: IpKey| s@.contains(k) <==> keys_of(post).contains(k) by {
                if before.contains(k) {
                    let j = choose|j: int| 0 <= j < pre.len() && pre[j].banned_address().spec_key() == k;
                    assert(post[j] == pre[j]);
                }
                if keys_of(post).contains(k) {
                    let j = choose|j: int| 0 <= j < post.len() && post[j].banned_address().spec_key() == k;
                    if j < i {
                        assert(pre[j] == post[j]);
                    }
                }
            }
            assert(s@ == keys_of(post));
        }
        i = i + 1;
    }
    proof {
        assert(bans@.take(n as int) == bans@);
    }
    s
}

/// Appending an entry adds the key of its address to the keys of a list.
pub proof fn lemma_keys_push<T: BanRecord>(bans: Seq<T>, entry: T)
    ensures
        keys_of(bans.push(entry)) == keys_of(bans).insert(entry.banned_address().spec_key()),
{
    let post = bans.push(entry);
    assert forall|x: IpKey| keys_of(post).contains(x) <==> keys_of(bans).insert(
        entry.banned_address().spec_key(),
    ).contains(x) by {
        if keys_of(bans).contains(x) {
            let j = choose|j: int| 0 <= j < bans.len() && bans[j].banned_address().spec_key() == x;
            assert(post[j] == bans[j]);
        }
        if keys_of(post).contains(x) {
            let j = choose|j: int| 0 <= j < post.len() && post[j].banned_address().spec_key() == x;
            if j < bans.len() {
                assert(post[j] == bans[j]);
            }
        }
        assert(post[bans.len() as int] == entry);
    }
    assert(keys_of(post) == keys_of(bans).insert(entry.banned_address().spec_key()));
}

/// The entries of `list` that do not name `ip`, in their order.
pub fn bans_without<T: BanRecord>(list: Vec<T>, ip: &IpAddress) -> (kept: Vec<T>)
    ensures
        kept@ == without_ip(list@, *ip),
{
    let ghost src = list@;
    let mut kept: Vec<T> = Vec::new();
    for b in it: list
        invariant
            it.seq() == src,
            kept@ == without_ip(src.take(it.index() as int), *ip),
    {
        let ghost i = it.index();
        proof {
            reveal(Seq::filter);
            assert(src.take(i + 1).drop_last() == src.take(i as int));
            assert(src.take(i + 1).last() == src[i as int]);
        }
        if b.address() != *ip {
            kept.push(b);
        }
    }
    proof {
        assert(src.take(src.len() as int) == src);
    }
    kept
}

/// The entries of `list` still in force at `now`, in their order.
pub fn bans_active_at<T: BanRecord>(list: Vec<T>, now: UtcTime) -> (kept: Vec<T>)
    ensures
        kept@ == active_at(list@, now),
{
    let ghost src = list@;
    let mut kept: Vec<T> = Vec::new();
    for b in it: list
        invariant
            it.seq() == src,
            kept@ == active_at(src.take(it.index() as int), now),
    {
        let ghost i = it.index();
        proof {
            reveal(Seq::filter);
            assert(src.take(i + 1).drop_last() == src.take(i as int));
            assert(src.take(i + 1).last() == src[i as int]);
        }
        let keep = match b.expires_at() {
            None => true,
            Some(t) => t.is_after(&now),
        };
        if keep {
            kept.push(b);
        }
    }
    proof {
        assert(src.take(src.len() as int) == src);
    }
    kept
}

/// A ban that was just added is in force: the address it names is banned.
pub proof fn law_ban_then_banned<T: BanRecord>(bans: Seq<T>, entry: T)
    ensures
        banned_in(bans.push(entry), entry.banned_address()),
{
    assert(bans.push(entry)[bans.len() as int] == entry);
}

/// Pardoning an address leaves no ban of it, and leaves every other
/// address banned exactly when it was before.
pub proof fn law_unban_clears<T: BanRecord>(bans: Seq<T>, ip: IpAddress, other: IpAddress)
    ensures
        !banned_in(without_ip(bans, ip), ip),
        other != ip ==> (banned_in(without_ip(bans, ip), other) == banned_in(bans, other)),
{
    broadcast use vstd::seq_lib::group_filter_ensures;
    let kept = without_ip(bans, ip);
    if banned_in(kept, ip) {
        let i = choose|i: int| 0 <= i < kept.len() && kept[i].banned_address() == ip;
        assert(kept[i].banned_address() != ip);
    }
    if other != ip {
        if banned_in(bans, other) {
            let i = choose|i: int| 0 <= i < bans.len() && bans[i].banned_address() == other;
            assert(kept.contains(bans[i]));
            let j = choose|j: int| 0 <= j < kept.len() && kept[j] == bans[i];
            assert(kept[j].banned_address() == other);
        }
        if banned_in(kept, other) {
            let j = choose|j: int| 0 <= j < kept.len() && kept[j].banned_address() == other;
            assert(kept.contains(kept[j]));
            bans.lemma_filter_contains_rev(names_other(ip), kept[j]);
            let k = choose|k: int| 0 <= k < bans.len() && bans[k] == kept[j];
            assert(bans[k].banned_address() == other);
        }
    }
}

/// Banning an address that was not banned and then pardoning it gives back
/// the ban list as it was.
pub proof fn law_unban_undoes_ban<T: BanRecord>(bans: Seq<T>, entry: T)
    requires
        !banned_in(bans, entry.banned_address()),
    ensures
        without_ip(bans.push(entry), entry.banned_address()) == bans,
{
    lemma_filter_keeps_all(bans, entry.banned_address());
    reveal(Seq::filter);
    assert(bans.push(entry).drop_last() == bans);
}

proof fn lemma_filter_keeps_all<T: BanRecord>(bans: Seq<T>, ip: IpAddress)
    requires
        !banned_in(bans, ip),
    ensures
        without_ip(bans, ip) == bans,
    decreases bans.len(),
{
    reveal(Seq::filter);
    if bans.len() > 0 {
        let rest = bans.drop_last();
        assert(!banned_in(rest, ip)) by {
            if banned_in(rest, ip) {
                let i = choose|i: int| 0 <= i < rest.len() && rest[i].banned_address() == ip;
                assert(bans[i] == rest[i]);
            }
        }
        lemma_filter_keeps_all(rest, ip);
        assert(bans.last().banned_address() != ip) by {
            assert(bans[bans.len() - 1] == bans.last());
        }
        assert(rest.push(bans.last()) == bans);
    }
}

/// A ban that never expires survives every expiry sweep.
pub proof fn law_expire_keeps_permanent<T: BanRecord>(bans: Seq<T>, now: UtcTime, i: int)
    requires
        0 <= i < bans.len(),
        bans[i].expiry() is None,
    ensures
        active_at(bans, now).contains(bans[i]),
{
    broadcast use vstd::seq_lib::group_filter_ensures;
    assert(still_active(bans[i], now));
}

/// A ban still in force at `now` (it expires strictly after `now`, or never)
/// survives a sweep at `now`, and a ban no longer in force does not.
pub proof fn law_expire_keeps_active<T: BanRecord>(bans: Seq<T>, now: UtcTime, i: int)
    requires
        0 <= i < bans.len(),
    ensures
        (bans[i].expiry() matches Some(t) && spec_is_after(t, now)) ==> active_at(bans, now).contains(
            bans[i],
        ),
        (bans[i].expiry() matches Some(t) && !spec_is_after(t, now)) ==> !active_at(
            bans,
            now,
        ).contains(bans[i]),
{
    broadcast use vstd::seq_lib::group_filter_ensures;
    if active_at(bans, now).contains(bans[i]) {
        let j = choose|j: int| 0 <= j < active_at(bans, now).len() && active_at(bans, now)[j] == bans[i];
        assert(still_active(active_at(bans, now)[j], now));
    }
}

/// Every ban left by an expiry sweep at `now` is still in force at `now`.
pub proof fn law_expire_leaves_active<T: BanRecord>(bans: Seq<T>, now: UtcTime, i: int)
    requires
        0 <= i < active_at(bans, now).len(),
    ensures
        still_active(active_at(bans, now)[i], now),
{
    broadcast use vstd::seq_lib::group_filter_ensures;
}

/// Sweeping at `t1` and then at a later `t2` leaves what a single sweep at
/// `t2` leaves; in particular a second sweep at the same time changes
/// nothing.
pub proof fn law_expire_sweeps_compose<T: BanRecord>(bans: Seq<T>, t1: UtcTime, t2: UtcTime)
    requires
        !spec_is_after(t1, t2),
    ensures
        active_at(active_at(bans, t1), t2) == active_at(bans, t2),
    decreases bans.len(),
{
    reveal(Seq::filter);
    if bans.len() > 0 {
        let rest = bans.drop_last();
        law_expire_sweeps_compose(rest, t1, t2);
        let b = bans.last();
        if still_active(b, t1) {
            assert(active_at(bans, t1) == active_at(rest, t1).push(b));
            assert(active_at(bans, t1).drop_last() == active_at(rest, t1));
        } else {
            assert(!still_active(b, t2));
        }
    }
}

} // verus!

//! The earlier IP ban / whitelist / blacklist manager, persisted as
//! `banned.json`, `whitelist.json` and `blacklist.json`.
//!
//! Reading and writing those files is left to the caller, which hands the
//! parsed contents to the `set_*` methods and persists what the getters
//! return.

use vstd::prelude::*;
use crate::ban_list::{
    BanRecord, active_at, bans_active_at, banned_in, keys_from_bans, keys_of, lemma_banned_in_keys,
    lemma_keys_push,
};
use crate::key_set::{
    KeySet, address_set, addresses_in, addresses_of, key_set_contains, key_set_insert, key_set_new,
    keys_from_addresses, lemma_addresses_insert,
};
use crate::net::{IpAddress, IpKey, valid_key};
use crate::time::{UtcTime, utc_now};

verus! {

/// A single entry of `banned.json`.
pub struct BannedIP {
    /// The banned address.
    pub ip: IpAddress,
    /// When the ban was issued.
    pub created: UtcTime,
    /// Who or what issued the ban.
    pub source: String,
    /// When the ban expires; `None` for a ban that never expires.
    pub expires: Option<UtcTime>,
    /// Operator-provided reason shown to the banned client.
    pub reason: String,
}

impl BanRecord for BannedIP {
    open spec fn banned_address(&self) -> IpAddress {
        self.ip
    }

    open spec fn expiry(&self) -> Option<UtcTime> {
        self.expires
    }

    fn address(&self) -> (a: IpAddress) {
        self.ip
    }

    fn expires_at(&self) -> (e: Option<UtcTime>) {
        self.expires
    }
}

/// Whether an address passes a gate: while a whitelist is active (it holds
/// an address) only whitelisted addresses pass, otherwise every address not
/// in `denied`.
pub open spec fn spec_admits(whitelist: Set<IpAddress>, denied: Set<IpAddress>, ip: IpAddress) -> bool {
    if whitelist.is_empty() {
        !denied.contains(ip)
    } else {
        whitelist.contains(ip)
    }
}

/// Ban, whitelist and blacklist state.
pub struct IpAccessPolicy {
    banned_ips_config_all: Vec<BannedIP>,
    banned_ips: KeySet,
    blacklisted_ips: KeySet,
    white_list_ips: KeySet,
    has_whitelist: bool,
}

impl IpAccessPolicy {
    /// The internal consistency of the manager: the banned-address set holds
    /// exactly the addresses of the ban list, the other sets hold keys of
    /// addresses only, and the whitelist flag caches whether the whitelist
    /// holds an address.
    pub closed spec fn wf(self) -> bool {
        &&& self.banned_ips@ == keys_of(self.banned_ips_config_all@)
        &&& self.has_whitelist == exists|k: IpKey| self.white_list_ips@.contains(k)
        &&& forall|k: IpKey| self.blacklisted_ips@.contains(k) ==> valid_key(k)
        &&& forall|k: IpKey| self.white_list_ips@.contains(k) ==> valid_key(k)
    }

    /// The ban list, in the order in which its entries were added.
    pub closed spec fn bans(self) -> Seq<BannedIP> {
        self.banned_ips_config_all@
    }

    /// The blacklisted addresses.
    pub closed spec fn blacklist(self) -> Set<IpAddress> {
        addresses_of(self.blacklisted_ips@)
    }

    /// The whitelisted addresses.
    pub closed spec fn whitelist(self) -> Set<IpAddress> {
        addresses_of(self.white_list_ips@)
    }

    /// A manager with no entries.
    pub fn empty() -> (p: Self)
        ensures
            p.wf(),
            p.bans() == Seq::<BannedIP>::empty(),
            p.blacklist() == Set::<IpAddress>::empty(),
            p.whitelist() == Set::<IpAddress>::empty(),
    {
        let p = IpAccessPolicy {
            banned_ips_config_all: Vec::new(),
            banned_ips: key_set_new(),
            blacklisted_ips: key_set_new(),
            white_list_ips: key_set_new(),
            has_whitelist: false,
        };
        assert(p.banned_ips@ == keys_of(p.banned_ips_config_all@));
        assert(p.blacklist() == Set::<IpAddress>::empty());
        assert(p.whitelist() == Set::<IpAddress>::empty());
        p
    }

    /// Removes the bans that are no longer in force at `now`: those whose
    /// expiry is not strictly after `now`.
    pub fn expire_bans_at(&mut self, now: UtcTime)
        requires
            old(self).wf(),
        ensures
            final(self).wf(),
            final(self).bans() == active_at(old(self).bans(), now),
            final(self).blacklist() == old(self).blacklist(),
            final(self).whitelist() == old(self).whitelist(),
    {
        let mut list: Vec<BannedIP> = Vec::new();
        std::mem::swap(&mut list, &mut self.banned_ips_config_all);
        let kept = bans_active_at(list, now);
        self.banned_ips = keys_from_bans(&kept);
        self.banned_ips_config_all = kept;
    }

    /// Removes the bans that have expired by the current time.
    pub fn expire_bans(&mut self)
        requires
            old(self).wf(),
        ensures
            final(self).wf(),
            exists|now: UtcTime|
                now.nanos < 1_000_000_000 && now.secs >= 0 && final(self).bans() == active_at(
                    old(self).bans(),
                    now,
                ),
            final(self).blacklist() == old(self).blacklist(),
            final(self).whitelist() == old(self).whitelist(),
    {
        let now = utc_now();
        self.expire_bans_at(now);
    }

    /// Adds a ban for `ip` issued at `created`, whether or not `ip` is
    /// banned already.
    pub fn ban_ip_at(
        &mut self,
        ip: IpAddress,
        source: String,
        reason: String,
        expires: Option<UtcTime>,
        created: UtcTime,
    )
        requires
            old(self).wf(),
        ensures
            final(self).wf(),
            final(self).bans() == old(self).bans().push(
                BannedIP { ip, created, source, expires, reason },
            ),
            final(self).blacklist() == old(self).blacklist(),
            final(self).whitelist() == old(self).whitelist(),
    {
        let k = ip.key();
        let entry = BannedIP { ip, created, source, expires, reason };
        proof {
            lemma_keys_push(old(self).banned_ips_config_all@, entry);
        }
        self.banned_ips_config_all.push(entry);
        key_set_insert(&mut self.banned_ips, k);
    }

    /// Adds a ban for `ip`, issued now, whether or not `ip` is banned
    /// already.
    pub fn ban_ip(&mut self, ip: IpAddress, source: String, reason: String, expires: Option<UtcTime>)
        requires
            old(self).wf(),
        ensures
            final(self).wf(),
            exists|created: UtcTime|
                created.nanos < 1_000_000_000 && created.secs >= 0 && final(self).bans() == old(self).bans().push(
                BannedIP { ip, created, source, expires, reason },
            ),
            final(self).blacklist() == old(self).blacklist(),
            final(self).whitelist() == old(self).whitelist(),
    {
        let created = utc_now();
        self.ban_ip_at(ip, source, reason, expires, created);
    }

    /// Adds `ip` to the whitelist.
    pub fn white_list_ip(&mut self, ip: IpAddress)
        requires
            old(self).wf(),
        ensures
            final(self).wf(),
            final(self).whitelist() == old(self).whitelist().insert(ip),
            final(self).bans() == old(self).bans(),
            final(self).blacklist() == old(self).blacklist(),
    {
        key_set_insert(&mut self.white_list_ips, ip.key());
        self.has_whitelist = true;
        proof {
            lemma_addresses_insert(old(self).white_list_ips@, ip);
            crate::net::lemma_key_roundtrip(ip, ip.spec_key());
            assert(self.white_list_ips@.contains(ip.spec_key()));
        }
    }

    /// Replaces the ban list with the entries loaded from `banned.json`.
    pub fn set_banned_ips(&mut self, bans: Vec<BannedIP>)
        requires
            old(self).wf(),
        ensures
            final(self).wf(),
            final(self).bans() == bans@,
            final(self).blacklist() == old(self).blacklist(),
            final(self).whitelist() == old(self).whitelist(),
    {
        let set = keys_from_bans(&bans);
        self.banned_ips_config_all = bans;
        self.banned_ips = set;
    }

    /// Replaces the whitelist with the addresses loaded from
    /// `whitelist.json`.
    pub fn set_whitelisted_ips(&mut self, ips: Vec<IpAddress>)
        requires
            old(self).wf(),
        ensures
            final(self).wf(),
            final(self).whitelist() == address_set(ips@),
            final(self).bans() == old(self).bans(),
            final(self).blacklist() == old(self).blacklist(),
    {
        let n = ips.len();
        self.white_list_ips = keys_from_addresses(ips.as_slice());
        self.has_whitelist = n > 0;
        proof {
            if n > 0 {
                assert(address_set(ips@).contains(ips@[0]));
                let k = ips@[0].spec_key();
                assert(addresses_of(self.white_list_ips@).contains(ips@[0]));
                assert(self.white_list_ips@.contains(k));
            } else {
                assert forall|k: IpKey| !self.white_list_ips@.contains(k) by {
                    if self.white_list_ips@.contains(k) {
                        let a = crate::net::address_of_key(k);
                        crate::net::lemma_key_roundtrip(a, k);
                        assert(addresses_of(self.white_list_ips@).contains(a));
                        assert(address_set(ips@).contains(a));
                    }
                }
            }
        }
    }

    /// Replaces the blacklist with the addresses loaded from
    /// `blacklist.json`.
    pub fn set_blacklisted_ips(&mut self, ips: Vec<IpAddress>)
        requires
            old(self).wf(),
        ensures
            final(self).wf(),
            final(self).blacklist() == address_set(ips@),
            final(self).bans() == old(self).bans(),
            final(self).whitelist() == old(self).whitelist(),
    {
        self.blacklisted_ips = keys_from_addresses(ips.as_slice());
    }

    /// Whether `ip` may complete the TCP accept stage: while a whitelist is
    /// active (it holds an address) only whitelisted addresses may,
    /// otherwise every address that is not blacklisted.
    pub fn can_join_preconnecting(&self, ip: IpAddress) -> (r: bool)
        requires
            self.wf(),
        ensures
            r == spec_admits(self.whitelist(), self.blacklist(), ip),
    {
        proof {
            self.lemma_whitelist_flag();
        }
        let k = ip.key();
        (self.has_whitelist && key_set_contains(&self.white_list_ips, &k)) || (!self.has_whitelist
            && !key_set_contains(&self.blacklisted_ips, &k))
    }

    /// Whether `ip` may join the game: while a whitelist is active only
    /// whitelisted addresses may, otherwise every address that is not
    /// banned.
    pub fn can_join(&self, ip: IpAddress) -> (r: bool)
        requires
            self.wf(),
        ensures
            r == spec_admits(
                self.whitelist(),
                Set::new(|a: IpAddress| banned_in(self.bans(), a)),
                ip,
            ),
    {
        proof {
            lemma_banned_in_keys(self.bans(), ip);
            self.lemma_whitelist_flag();
        }
        let k = ip.key();
        (self.has_whitelist && key_set_contains(&self.white_list_ips, &k)) || (!self.has_whitelist
            && !key_set_contains(&self.banned_ips, &k))
    }

    /// The whitelist flag is set exactly while the whitelist holds an
    /// address.
    proof fn lemma_whitelist_flag(&self)
        requires
            self.wf(),
        ensures
            self.has_whitelist == !self.whitelist().is_empty(),
    {
        if self.has_whitelist {
            let w = choose|x: IpKey| self.white_list_ips@.contains(x);
            crate::net::lemma_key_roundtrip(crate::net::address_of_key(w), w);
            assert(self.whitelist().contains(crate::net::address_of_key(w)));
        } else {
            assert(self.whitelist() =~= Set::<IpAddress>::empty());
        }
    }

    /// The number of entries in the ban list.
    pub fn banned_count(&self) -> (n: usize)
        ensures
            n == self.bans().len(),
    {
        self.banned_ips_config_all.len()
    }

    /// The whitelisted addresses, each once, in no promised order.
    pub fn whitelisted_ips(&self) -> (v: Vec<IpAddress>)
        requires
            self.wf(),
        ensures
            address_set(v@) == self.whitelist(),
            v@.no_duplicates(),
    {
        addresses_in(&self.white_list_ips)
    }

    /// The blacklisted addresses, each once, in no promised order.
    pub fn blacklisted_ips(&self) -> (v: Vec<IpAddress>)
        requires
            self.wf(),
        ensures
            address_set(v@) == self.blacklist(),
            v@.no_duplicates(),
    {
        addresses_in(&self.blacklisted_ips)
    }

    /// The ban list with its metadata, for persisting.
    pub fn banned_ips(&self) -> (v: &Vec<BannedIP>)
        ensures
            v@ == self.bans(),
    {
        &self.banned_ips_config_all
    }
}

/// With no whitelist, an address that was just banned may not join, and
/// every address passes or fails the accept stage by the blacklist alone.
/// While a whitelist is active, exactly the whitelisted addresses pass
/// either gate.
pub proof fn law_banned_cannot_join(
    bans: Seq<BannedIP>,
    entry: BannedIP,
    whitelist: Set<IpAddress>,
    blacklist: Set<IpAddress>,
    ip: IpAddress,
)
    ensures
        !spec_admits(
            Set::empty(),
            Set::new(|a: IpAddress| banned_in(bans.push(entry), a)),
            entry.ip,
        ),
        spec_admits(Set::empty(), blacklist, ip) == !blacklist.contains(ip),
        !whitelist.is_empty() ==> spec_admits(whitelist, blacklist, ip) == whitelist.contains(ip),
        !whitelist.is_empty() ==> spec_admits(
            whitelist,
            Set::new(|a: IpAddress| banned_in(bans, a)),
            ip,
        ) == whitelist.contains(ip),
{
    assert(bans.push(entry)[bans.len() as int] == entry);
    assert(Set::<IpAddress>::empty().is_empty());
}

} // verus!

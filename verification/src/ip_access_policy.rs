//! IP ban / whitelist / shadowban bookkeeping.
//!
//! The policy holds the ban list with its metadata, a hash set of the banned
//! addresses for constant-time lookups, the shadowban set and the whitelist.
//! Reading and writing `config/banned-ips.toml` and vanilla's
//! `config/banned-ips.json` is left to the caller, which hands the parsed
//! contents to [`IpAccessPolicy::apply_loaded_bans_file`] and
//! [`IpAccessPolicy::try_import_vanilla_bans`] and persists what
//! [`IpAccessPolicy::get_banned_ips`] and
//! [`IpAccessPolicy::get_shadowbanned_ips`] return.

use text_components::TextComponent;
use vstd::prelude::*;
use vstd::string::*;
use crate::ban_list::{
    BanRecord, active_at, bans_active_at, bans_without, banned_in, keys_from_bans, keys_of,
    lemma_banned_in_keys, lemma_keys_push, without_ip,
};
use crate::key_set::{
    KeySet, address_set, addresses_in, addresses_of, key_set_contains, key_set_insert, key_set_new,
    key_set_remove, keys_from_addresses, lemma_addresses_insert, lemma_addresses_remove,
};
use crate::net::{IpAddress, IpKey, valid_key};
use crate::text::{
    plain_component, text_add_child, text_clone, text_plain, text_render,
    text_translated, translated_component, with_child,
};
use crate::time::{
    UtcTime, format_at_offset, local_offset_secs, offset_text, renderable_time, utc_now,
};

verus! {

/// Path of Steel's bans file.
pub const STEEL_IP_BANS_PATH: &'static str = "config/banned-ips.toml";

/// Path of vanilla's banned-ips file.
pub const VANILLA_BANNED_IPS_PATH: &'static str = "config/banned-ips.json";

/// Contents written to Steel's bans file when neither it nor a vanilla file
/// exists.
pub const EMPTY_BANS_TOML: &'static str = "ip_banned = []\nshadowbanned = []\n";

/// Reason given to a ban imported from vanilla that has no reason, or one
/// that renders empty.
pub const DEFAULT_BAN_REASON: &'static str = "Your IP was banned";

/// Translation key of the message a banned client is disconnected with.
pub const BANNED_IP_REASON_KEY: &'static str = "multiplayer.disconnect.banned_ip.reason";

/// Translation key of the expiry line of that message.
pub const BANNED_IP_EXPIRATION_KEY: &'static str = "multiplayer.disconnect.banned_ip.expiration";

/// The expiry text of a ban that never expires.
pub const NEVER_EXPIRES: &'static str = "Never";

/// The message a banned client is disconnected with: the reason, with the
/// expiry line as a child.
pub open spec fn ban_message(reason: TextComponent, expiry_text: Seq<char>) -> TextComponent {
    with_child(
        translated_component(BANNED_IP_REASON_KEY@, seq![reason]),
        translated_component(BANNED_IP_EXPIRATION_KEY@, seq![plain_component(expiry_text)]),
    )
}

/// The text of the expiry line for a ban expiring at `expires`, where local
/// time lies `offset_secs` seconds east of UTC.
pub open spec fn expiry_line(expires: Option<UtcTime>, offset_secs: i32) -> Seq<char> {
    match expires {
        None => NEVER_EXPIRES@,
        Some(t) => offset_text(t, offset_secs),
    }
}

/// Whether every expiry of a ban of `ip` in `bans` can be rendered in the
/// expiry line (see [`renderable_time`]).
pub open spec fn expiries_renderable(bans: Seq<BannedIP>, ip: IpAddress) -> bool {
    forall|i: int|
        0 <= i < bans.len() && #[trigger] bans[i].ip == ip ==> (bans[i].expires matches Some(t)
            ==> renderable_time(t))
}

/// A single entry of the ban list.
pub struct BannedIP {
    /// The banned address.
    pub ip: IpAddress,
    /// When the ban was issued.
    pub created: UtcTime,
    /// Who or what issued the ban.
    pub source: String,
    /// When the ban expires; `None` for a ban that never expires.
    pub expires: Option<UtcTime>,
    /// Operator-provided reason shown to the banned client.
    pub reason: TextComponent,
}

/// A ban entry as a value: its text fields taken by their contents.
pub struct BanEntry {
    pub ip: IpAddress,
    pub created: UtcTime,
    pub source: Seq<char>,
    pub expires: Option<UtcTime>,
    pub reason: TextComponent,
}

impl View for BannedIP {
    type V = BanEntry;

    open spec fn view(&self) -> BanEntry {
        BanEntry {
            ip: self.ip,
            created: self.created,
            source: self.source@,
            expires: self.expires,
            reason: self.reason,
        }
    }
}

impl Clone for BannedIP {
    fn clone(&self) -> (r: Self)
        ensures
            r == *self,
    {
        BannedIP {
            ip: self.ip,
            created: self.created,
            source: self.source.clone(),
            expires: self.expires,
            reason: text_clone(&self.reason),
        }
    }
}

impl BanRecord for BannedIP {
    open spec fn banned_address(&self) -> IpAddress {
        self.ip
    }

    open spec fn expiry(&self) -> Option<UtcTime> {
        self.expires
    }

    fn address(&self) -> (a: IpAddress) {
        self.ip
    }

    fn expires_at(&self) -> (e: Option<UtcTime>) {
        self.expires
    }
}

/// An entry of vanilla's `banned-ips.json`, whose reason may be missing.
pub struct VanillaBannedIp {
    pub ip: IpAddress,
    pub created: UtcTime,
    pub source: String,
    pub expires: Option<UtcTime>,
    pub reason: Option<TextComponent>,
}

/// The ban reason that an imported vanilla entry gets, given whether its
/// own reason renders to the empty text: its own where it has one that
/// renders non-empty, else the default reason.
pub open spec fn vanilla_reason(reason: Option<TextComponent>, reason_renders_empty: bool) -> TextComponent {
    match reason {
        Some(r) => if reason_renders_empty {
            plain_component(DEFAULT_BAN_REASON@)
        } else {
            r
        },
        None => plain_component(DEFAULT_BAN_REASON@),
    }
}

/// The ban entry that a vanilla entry becomes, given whether its reason
/// renders to the empty text.
pub open spec fn spec_from_vanilla(v: VanillaBannedIp, reason_renders_empty: bool) -> BannedIP {
    BannedIP {
        ip: v.ip,
        created: v.created,
        source: v.source,
        expires: v.expires,
        reason: vanilla_reason(v.reason, reason_renders_empty),
    }
}

/// Whether `b` is what the vanilla entry `v` becomes, for one of the two
/// answers to whether its reason renders empty.
pub open spec fn converted_from(v: VanillaBannedIp, b: BannedIP) -> bool {
    b == spec_from_vanilla(v, false) || b == spec_from_vanilla(v, true)
}

impl BannedIP {
    /// Converts a vanilla entry whose reason does or does not render to the
    /// empty text (`reason_renders_empty`), substituting
    /// [`DEFAULT_BAN_REASON`] for a missing or empty reason.
    pub fn from_vanilla_rendered(v: VanillaBannedIp, reason_renders_empty: bool) -> (b: BannedIP)
        ensures
            b == spec_from_vanilla(v, reason_renders_empty),
    {
        let reason = match v.reason {
            Some(r) => {
                if reason_renders_empty {
                    text_plain(DEFAULT_BAN_REASON.to_string())
                } else {
                    r
                }
            },
            None => text_plain(DEFAULT_BAN_REASON.to_string()),
        };
        BannedIP { ip: v.ip, created: v.created, source: v.source, expires: v.expires, reason }
    }

    /// Converts a vanilla entry, substituting [`DEFAULT_BAN_REASON`] for a
    /// missing reason or one that renders to the empty text.
    pub fn from_vanilla(v: VanillaBannedIp) -> (b: BannedIP)
        ensures
            converted_from(v, b),
            v.reason is None ==> b == spec_from_vanilla(v, false),
    {
        let empty = match &v.reason {
            Some(r) => text_render(r).as_str().unicode_len() == 0,
            None => false,
        };
        BannedIP::from_vanilla_rendered(v, empty)
    }
}

/// Converts every entry of a vanilla ban list, in order.
pub fn convert_vanilla_bans(entries: Vec<VanillaBannedIp>) -> (bans: Vec<BannedIP>)
    ensures
        bans@.len() == entries@.len(),
        forall|i: int| 0 <= i < bans@.len() ==> converted_from(entries@[i], #[trigger] bans@[i]),
        forall|i: int|
            0 <= i < bans@.len() && (#[trigger] entries@[i]).reason is None ==> bans@[i]
                == spec_from_vanilla(entries@[i], false),
{
    let ghost src = entries@;
    let mut bans: Vec<BannedIP> = Vec::new();
    for v in it: entries
        invariant
            it.seq() == src,
            bans@.len() == it.index(),
            forall|j: int| 0 <= j < bans@.len() ==> converted_from(src[j], #[trigger] bans@[j]),
            forall|j: int|
                0 <= j < bans@.len() && (#[trigger] src[j]).reason is None ==> bans@[j]
                    == spec_from_vanilla(src[j], false),
    {
        bans.push(BannedIP::from_vanilla(v));
    }
    bans
}

/// The on-disk shape of Steel's bans file: the ban list and the shadowban
/// list.
pub struct IpBansFile {
    pub ip_banned: Vec<BannedIP>,
    pub shadowbanned: Vec<IpAddress>,
}

/// What a banned client is told: the reason and the expiry of its ban.
pub struct BanNotice {
    pub reason: TextComponent,
    pub expires: Option<UtcTime>,
}

/// Whether an address passes the accept stage given a whitelist and a
/// shadowban list: while a whitelist is in force (it holds an address),
/// only whitelisted addresses pass; otherwise every address that is not
/// shadowbanned.
pub open spec fn spec_can_connect(whitelist: Set<IpAddress>, shadowbanned: Set<IpAddress>, ip: IpAddress) -> bool {
    if whitelist.is_empty() {
        !shadowbanned.contains(ip)
    } else {
        whitelist.contains(ip)
    }
}

/// Ban, shadowban and whitelist state.
pub struct IpAccessPolicy {
    banned_ips_config_all: Vec<BannedIP>,
    banned_ips: KeySet,
    shadowbanned_ips: KeySet,
    white_list_ips: KeySet,
}

impl IpAccessPolicy {
    /// The internal consistency of the policy: the banned-address set holds
    /// exactly the addresses of the ban list, and the other sets hold keys
    /// of addresses only.
    pub closed spec fn wf(self) -> bool {
        &&& self.banned_ips@ == keys_of(self.banned_ips_config_all@)
        &&& forall|k: IpKey| self.shadowbanned_ips@.contains(k) ==> valid_key(k)
        &&& forall|k: IpKey| self.white_list_ips@.contains(k) ==> valid_key(k)
    }

    /// The ban list, in the order in which its entries were added.
    pub closed spec fn bans(self) -> Seq<BannedIP> {
        self.banned_ips_config_all@
    }

    /// The shadowbanned addresses.
    pub closed spec fn shadowbanned(self) -> Set<IpAddress> {
        addresses_of(self.shadowbanned_ips@)
    }

    /// The whitelisted addresses.
    pub closed spec fn whitelist(self) -> Set<IpAddress> {
        addresses_of(self.white_list_ips@)
    }

    /// A policy with no entries.
    pub fn empty() -> (p: Self)
        ensures
            p.wf(),
            p.bans() == Seq::<BannedIP>::empty(),
            p.shadowbanned() == Set::<IpAddress>::empty(),
            p.whitelist() == Set::<IpAddress>::empty(),
    {
        let p = IpAccessPolicy {
            banned_ips_config_all: Vec::new(),
            banned_ips: key_set_new(),
            shadowbanned_ips: key_set_new(),
            white_list_ips: key_set_new(),
        };
        assert(p.banned_ips@ == keys_of(p.banned_ips_config_all@));
        assert(p.shadowbanned() == Set::<IpAddress>::empty());
        assert(p.whitelist() == Set::<IpAddress>::empty());
        p
    }

    /// Whether `ip` is in the ban list.
    pub fn is_banned(&self, ip: &IpAddress) -> (r: bool)
        requires
            self.wf(),
        ensures
            r == banned_in(self.bans(), *ip),
    {
        proof {
            lemma_banned_in_keys(self.bans(), *ip);
        }
        key_set_contains(&self.banned_ips, &ip.key())
    }

    /// Whether `ip` is shadowbanned.
    pub fn is_shadowbanned(&self, ip: &IpAddress) -> (r: bool)
        requires
            self.wf(),
        ensures
            r == self.shadowbanned().contains(*ip),
    {
        key_set_contains(&self.shadowbanned_ips, &ip.key())
    }

    /// Whether `ip` may complete the TCP accept stage: while a whitelist is
    /// in force only whitelisted addresses may; otherwise every address that
    /// is not shadowbanned.
    pub fn can_connect(&self, ip: &IpAddress) -> (r: bool)
        requires
            self.wf(),
        ensures
            r == spec_can_connect(self.whitelist(), self.shadowbanned(), *ip),
    {
        let k = ip.key();
        let no_whitelist = self.white_list_ips.is_empty();
        proof {
            if !no_whitelist {
                let w = choose|x: IpKey| self.white_list_ips@.contains(x);
                crate::net::lemma_key_roundtrip(crate::net::address_of_key(w), w);
                assert(self.whitelist().contains(crate::net::address_of_key(w)));
            } else {
                assert(self.whitelist() =~= Set::<IpAddress>::empty());
            }
        }
        if no_whitelist {
            !key_set_contains(&self.shadowbanned_ips, &k)
        } else {
            key_set_contains(&self.white_list_ips, &k)
        }
    }

    /// Replaces the ban list with `bans` and rebuilds the banned-address set.
    fn set_bans(&mut self, bans: Vec<BannedIP>)
        requires
            forall|k: IpKey| old(self).shadowbanned_ips@.contains(k) ==> valid_key(k),
            forall|k: IpKey| old(self).white_list_ips@.contains(k) ==> valid_key(k),
        ensures
            final(self).wf(),
            final(self).bans() == bans@,
            final(self).shadowbanned() == old(self).shadowbanned(),
            final(self).whitelist() == old(self).whitelist(),
    {
        let set = keys_from_bans(&bans);
        self.banned_ips_config_all = bans;
        self.banned_ips = set;
    }

    /// Overwrites the ban list with `bans`, leaving the shadowban list and
    /// the whitelist untouched.
    pub fn replace_banned_ips(&mut self, bans: Vec<BannedIP>)
        requires
            old(self).wf(),
        ensures
            final(self).wf(),
            final(self).bans() == bans@,
            final(self).shadowbanned() == old(self).shadowbanned(),
            final(self).whitelist() == old(self).whitelist(),
    {
        self.set_bans(bans);
    }

    /// Removes the bans that are no longer in force at `now`: those whose
    /// expiry is not strictly after `now`.
    pub fn expire_bans_at(&mut self, now: UtcTime)
        requires
            old(self).wf(),
        ensures
            final(self).wf(),
            final(self).bans() == active_at(old(self).bans(), now),
            final(self).shadowbanned() == old(self).shadowbanned(),
            final(self).whitelist() == old(self).whitelist(),
    {
        let mut list: Vec<BannedIP> = Vec::new();
        std::mem::swap(&mut list, &mut self.banned_ips_config_all);
        let kept = bans_active_at(list, now);
        self.set_bans(kept);
    }

    /// Removes the bans that have expired by the current time.
    pub fn expire_bans(&mut self)
        requires
            old(self).wf(),
        ensures
            final(self).wf(),
            exists|now: UtcTime|
                now.nanos < 1_000_000_000 && now.secs >= 0 && final(self).bans() == active_at(
                    old(self).bans(),
                    now,
                ),
            final(self).shadowbanned() == old(self).shadowbanned(),
            final(self).whitelist() == old(self).whitelist(),
    {
        let now = utc_now();
        self.expire_bans_at(now);
    }

    /// Adds a ban for `ip` issued at `created`, unless `ip` is already
    /// banned. Returns whether the ban was added.
    pub fn ban_ip_at(
        &mut self,
        ip: IpAddress,
        source: String,
        reason: TextComponent,
        expires: Option<UtcTime>,
        created: UtcTime,
    ) -> (added: bool)
        requires
            old(self).wf(),
        ensures
            final(self).wf(),
            added == !banned_in(old(self).bans(), ip),
            added ==> final(self).bans() == old(self).bans().push(
                BannedIP { ip, created, source, expires, reason },
            ),
            !added ==> final(self).bans() == old(self).bans(),
            final(self).shadowbanned() == old(self).shadowbanned(),
            final(self).whitelist() == old(self).whitelist(),
    {
        if self.is_banned(&ip) {
            return false;
        }
        let k = ip.key();
        let entry = BannedIP { ip, created, source, expires, reason };
        proof {
            lemma_keys_push(old(self).banned_ips_config_all@, entry);
        }
        self.banned_ips_config_all.push(entry);
        key_set_insert(&mut self.banned_ips, k);
        true
    }

    /// Adds a ban for `ip`, issued now, unless `ip` is already banned.
    /// Returns whether the ban was added.
    pub fn ban_ip(
        &mut self,
        ip: IpAddress,
        source: String,
        reason: TextComponent,
        expires: Option<UtcTime>,
    ) -> (added: bool)
        requires
            old(self).wf(),
        ensures
            final(self).wf(),
            added == !banned_in(old(self).bans(), ip),
            added ==> exists|created: UtcTime|
                created.nanos < 1_000_000_000 && created.secs >= 0 && final(self).bans() == old(self).bans().push(
                BannedIP { ip, created, source, expires, reason },
            ),
            !added ==> final(self).bans() == old(self).bans(),
            final(self).shadowbanned() == old(self).shadowbanned(),
            final(self).whitelist() == old(self).whitelist(),
    {
        if self.is_banned(&ip) {
            return false;
        }
        let created = utc_now();
        self.ban_ip_at(ip, source, reason, expires, created)
    }

    /// Removes every ban of `ip`.
    pub fn un_ban_ip(&mut self, ip: &IpAddress)
        requires
            old(self).wf(),
        ensures
            final(self).wf(),
            final(self).bans() == without_ip(old(self).bans(), *ip),
            final(self).shadowbanned() == old(self).shadowbanned(),
            final(self).whitelist() == old(self).whitelist(),
    {
        let mut list: Vec<BannedIP> = Vec::new();
        std::mem::swap(&mut list, &mut self.banned_ips_config_all);
        let kept = bans_without(list, ip);
        self.set_bans(kept);
    }

    /// Adds `ip` to the shadowban list unless it is there already. Returns
    /// whether it was added.
    pub fn shadowban_ip(&mut self, ip: &IpAddress) -> (added: bool)
        requires
            old(self).wf(),
        ensures
            final(self).wf(),
            added == !old(self).shadowbanned().contains(*ip),
            final(self).shadowbanned() == old(self).shadowbanned().insert(*ip),
            final(self).bans() == old(self).bans(),
            final(self).whitelist() == old(self).whitelist(),
    {
        if self.is_shadowbanned(ip) {
            proof {
                assert(old(self).shadowbanned().insert(*ip) == old(self).shadowbanned());
            }
            return false;
        }
        key_set_insert(&mut self.shadowbanned_ips, ip.key());
        proof {
            lemma_addresses_insert(old(self).shadowbanned_ips@, *ip);
            crate::net::lemma_key_roundtrip(*ip, ip.spec_key());
        }
        true
    }

    /// Removes `ip` from the shadowban list.
    pub fn un_shadowban_ip(&mut self, ip: &IpAddress)
        requires
            old(self).wf(),
        ensures
            final(self).wf(),
            final(self).shadowbanned() == old(self).shadowbanned().remove(*ip),
            final(self).bans() == old(self).bans(),
            final(self).whitelist() == old(self).whitelist(),
    {
        key_set_remove(&mut self.shadowbanned_ips, &ip.key());
        proof {
            lemma_addresses_remove(old(self).shadowbanned_ips@, *ip);
        }
    }

    /// Replaces the whitelist with the addresses in `ips`.
    pub fn set_whitelist(&mut self, ips: &[IpAddress])
        requires
            old(self).wf(),
        ensures
            final(self).wf(),
            final(self).whitelist() == address_set(ips@),
            final(self).bans() == old(self).bans(),
            final(self).shadowbanned() == old(self).shadowbanned(),
    {
        self.white_list_ips = keys_from_addresses(ips);
    }

    /// Replaces the ban list and the shadowban list with the contents of a
    /// loaded bans file, leaving the whitelist untouched.
    pub fn apply_loaded_bans_file(&mut self, file: IpBansFile)
        requires
            old(self).wf(),
        ensures
            final(self).wf(),
            final(self).bans() == file.ip_banned@,
            final(self).shadowbanned() == address_set(file.shadowbanned@),
            final(self).whitelist() == old(self).whitelist(),
    {
        let IpBansFile { ip_banned, shadowbanned } = file;
        self.shadowbanned_ips = keys_from_addresses(shadowbanned.as_slice());
        self.set_bans(ip_banned);
    }

    /// Populates the ban list from the entries imported from vanilla's
    /// file, if there are any (`None` where the file is missing or could not
    /// be read), clearing the shadowban list. Returns whether entries were
    /// imported.
    pub fn try_import_vanilla_bans(&mut self, imported: Option<Vec<BannedIP>>) -> (done: bool)
        requires
            old(self).wf(),
        ensures
            final(self).wf(),
            done == imported.is_some(),
            done ==> final(self).bans() == imported.unwrap()@,
            done ==> final(self).shadowbanned() == Set::<IpAddress>::empty(),
            !done ==> final(self).bans() == old(self).bans(),
            !done ==> final(self).shadowbanned() == old(self).shadowbanned(),
            final(self).whitelist() == old(self).whitelist(),
    {
        match imported {
            Some(banned) => {
                let file = IpBansFile { ip_banned: banned, shadowbanned: Vec::new() };
                self.apply_loaded_bans_file(file);
                proof {
                    assert(address_set(Seq::<IpAddress>::empty()) == Set::<IpAddress>::empty());
                }
                true
            },
            None => false,
        }
    }

    /// A snapshot of the whitelisted addresses, each once, in no promised
    /// order.
    pub fn get_whitelist_ips(&self) -> (v: Vec<IpAddress>)
        requires
            self.wf(),
        ensures
            address_set(v@) == self.whitelist(),
            v@.no_duplicates(),
    {
        addresses_in(&self.white_list_ips)
    }

    /// A snapshot of the shadowbanned addresses, each once, in no promised
    /// order.
    pub fn get_shadowbanned_ips(&self) -> (v: Vec<IpAddress>)
        requires
            self.wf(),
        ensures
            address_set(v@) == self.shadowbanned(),
            v@.no_duplicates(),
    {
        addresses_in(&self.shadowbanned_ips)
    }

    /// A snapshot of the ban list with its metadata.
    pub fn get_banned_ips(&self) -> (v: Vec<BannedIP>)
        requires
            self.wf(),
        ensures
            v@ == self.bans(),
    {
        let n = self.banned_ips_config_all.len();
        let mut v: Vec<BannedIP> = Vec::new();
        let mut i: usize = 0;
        while i < n
            invariant
                n == self.banned_ips_config_all@.len(),
                i <= n,
                v@ == self.banned_ips_config_all@.take(i as int),
            decreases n - i,
        {
            v.push(self.banned_ips_config_all[i].clone());
            proof {
                assert(self.banned_ips_config_all@.take(i + 1) == self.banned_ips_config_all@.take(
                    i as int,
                ).push(self.banned_ips_config_all@[i as int]));
            }
            i = i + 1;
        }
        proof {
            assert(self.banned_ips_config_all@.take(n as int) == self.banned_ips_config_all@);
        }
        v
    }

    /// The reason and expiry of the first ban of `ip`, or `None` where `ip`
    /// is not banned.
    pub fn get_ban_notice(&self, ip: &IpAddress) -> (r: Option<BanNotice>)
        requires
            self.wf(),
        ensures
            r is Some <==> banned_in(self.bans(), *ip),
            r matches Some(n) ==> exists|i: int|
                0 <= i < self.bans().len() && self.bans()[i].ip == *ip && (forall|j: int|
                    0 <= j < i ==> self.bans()[j].ip != *ip) && n.reason == self.bans()[i].reason
                    && n.expires == self.bans()[i].expires,
    {
        let n = self.banned_ips_config_all.len();
        let mut i: usize = 0;
        while i < n
            invariant
                n == self.banned_ips_config_all@.len(),
                i <= n,
                forall|j: int| 0 <= j < i ==> self.banned_ips_config_all@[j].ip != *ip,
            decreases n - i,
        {
            let b = &self.banned_ips_config_all[i];
            if b.ip == *ip {
                return Some(BanNotice { reason: text_clone(&b.reason), expires: b.expires });
            }
            i = i + 1;
        }
        None
    }

    /// The message that `ip` is disconnected with, built from its first
    /// ban, where the server's local time lies `offset_secs` seconds east of
    /// UTC: the reason, and when the ban expires ([`NEVER_EXPIRES`], or the
    /// expiry rendered at that offset); `None` where `ip` is not banned.
    pub fn get_banned_reason_at_offset(&self, ip: &IpAddress, offset_secs: i32) -> (r: Option<
        TextComponent,
    >)
        requires
            self.wf(),
            expiries_renderable(self.bans(), *ip),
            -86_400 < offset_secs < 86_400,
        ensures
            r is Some <==> banned_in(self.bans(), *ip),
            r matches Some(c) ==> exists|i: int|
                0 <= i < self.bans().len() && self.bans()[i].ip == *ip && (forall|j: int|
                    0 <= j < i ==> self.bans()[j].ip != *ip) && c == ban_message(
                    self.bans()[i].reason,
                    expiry_line(self.bans()[i].expires, offset_secs),
                ),
    {
        match self.get_ban_notice(ip) {
            None => None,
            Some(notice) => {
                let expiry = match notice.expires {
                    None => String::from_str(NEVER_EXPIRES),
                    Some(t) => format_at_offset(t, offset_secs),
                };
                let ghost text = expiry@;
                let line = text_translated(BANNED_IP_EXPIRATION_KEY, text_plain(expiry));
                let head = text_translated(BANNED_IP_REASON_KEY, notice.reason);
                let c = text_add_child(head, line);
                proof {
                    assert(c == ban_message(notice.reason, text));
                }
                Some(c)
            },
        }
    }

    /// The message that `ip` is disconnected with, built from its first
    /// ban: the reason, and when the ban expires ([`NEVER_EXPIRES`], or the
    /// expiry in the server's local time); `None` where `ip` is not banned.
    pub fn get_banned_reason(&self, ip: &IpAddress) -> (r: Option<TextComponent>)
        requires
            self.wf(),
            expiries_renderable(self.bans(), *ip),
        ensures
            r is Some <==> banned_in(self.bans(), *ip),
            r matches Some(c) ==> exists|i: int, offset_secs: i32|
                0 <= i < self.bans().len() && self.bans()[i].ip == *ip && (forall|j: int|
                    0 <= j < i ==> self.bans()[j].ip != *ip) && -86_400 < offset_secs < 86_400
                    && c == ban_message(
                    self.bans()[i].reason,
                    expiry_line(self.bans()[i].expires, offset_secs),
                ),
    {
        let offset_secs = match self.get_ban_notice(ip) {
            Some(BanNotice { expires: Some(t), .. }) => local_offset_secs(t),
            _ => 0,
        };
        self.get_banned_reason_at_offset(ip, offset_secs)
    }
}

/// A whitelisted address always passes the accept stage. Shadowbanning an
/// address makes it fail unless it is whitelisted; while no whitelist is in
/// force, lifting the shadowban lets it pass again.
pub proof fn law_shadowban_blocks_connect(
    whitelist: Set<IpAddress>,
    shadowbanned: Set<IpAddress>,
    ip: IpAddress,
)
    ensures
        whitelist.contains(ip) ==> spec_can_connect(whitelist, shadowbanned, ip),
        spec_can_connect(whitelist, shadowbanned.insert(ip), ip) == whitelist.contains(ip),
        whitelist.is_empty() ==> spec_can_connect(whitelist, shadowbanned.remove(ip), ip),
{
    if whitelist.contains(ip) {
        assert(!whitelist.is_empty()) by {
            assert(!Set::<IpAddress>::empty().contains(ip));
        }
    }
    if whitelist.is_empty() {
        assert(!whitelist.contains(ip)) by {
            assert(!Set::<IpAddress>::empty().contains(ip));
        }
    }
}

/// Shadowbanning an address that was not shadowbanned and lifting the
/// shadowban again gives back the shadowban list as it was.
pub proof fn law_unshadowban_undoes_shadowban(shadowbanned: Set<IpAddress>, ip: IpAddress)
    requires
        !shadowbanned.contains(ip),
    ensures
        shadowbanned.insert(ip).remove(ip) == shadowbanned,
{
    assert(shadowbanned.insert(ip).remove(ip) =~= shadowbanned);
}

} // verus!

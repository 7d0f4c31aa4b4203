//! What the IP-related operator commands decide.
//!
//! Each function takes the command's parsed arguments, the access policy
//! and the players online, carries out the change to the policy, and
//! reports what the command answers: which players to disconnect and which
//! message to send. Sending and disconnecting are left to the caller.

use text_components::TextComponent;
use vstd::prelude::*;
use crate::arguments::join_with;
use crate::ban_list::banned_in;
use crate::ip_access_policy::{BanEntry, BannedIP, IpAccessPolicy};
use crate::key_set::address_set;
use crate::net::{IpAddress, sorted_addresses, strictly_sorted};
use crate::snbt::snbt_parse_ends;
use crate::text::{
    bare_translated_component, plain_component, snbt_component, text_clone, text_from_snbt, text_plain,
    text_translated2, text_translated_bare, translated_component,
};
use crate::time::{UtcTime, in_time_range, utc_add_minutes, utc_now};

verus! {

/// A player online: its name and the address it is connected from.
pub struct OnlinePlayer {
    pub name: String,
    pub ip: IpAddress,
}

/// Why a command failed.
#[derive(Clone, Copy, Debug, PartialEq, Eq, Structural)]
pub enum CommandError {
    /// The IP argument was not an address.
    InvalidIp,
    /// The ban's expiry lies outside the range of times.
    DurationOutOfRange,
}

/// The reason a ban gets when the operator gives none.
pub const DEFAULT_OPERATOR_REASON: &'static str = "Banned by an operator.";

/// The source recorded for a ban issued from the console.
pub const CONSOLE_SOURCE: &'static str = "Server";

/// The source recorded for a ban: the issuing player's name, or the console.
pub open spec fn spec_source_name(player_name: Option<String>) -> Seq<char> {
    match player_name {
        Some(n) => n@,
        None => CONSOLE_SOURCE@,
    }
}

/// The source recorded for a ban issued by `player_name` (`None` for the
/// console).
pub fn source_name(player_name: Option<String>) -> (s: String)
    ensures
        s@ == spec_source_name(player_name),
{
    match player_name {
        Some(n) => n,
        None => String::from_str(CONSOLE_SOURCE),
    }
}

/// The text of a ban's reason: the operator's, or the default.
pub open spec fn reason_text(reason: Option<String>) -> Seq<char> {
    match reason {
        Some(r) => r@,
        None => DEFAULT_OPERATOR_REASON@,
    }
}

/// A ban's reason as a component: the text read as SNBT where it parses,
/// else the text itself.
pub open spec fn spec_ban_reason(reason: Option<String>) -> TextComponent {
    match snbt_component(reason_text(reason)) {
        Some(c) => c,
        None => plain_component(reason_text(reason)),
    }
}

/// Whether the operator's reason is one that the SNBT parser is known to
/// return on (see [`snbt_parse_ends`]); the default reason is.
pub open spec fn reason_parse_ends(reason: Option<String>) -> bool {
    reason matches Some(r) ==> snbt_parse_ends(r@)
}

/// Builds a ban's reason component.
pub fn ban_reason(reason: Option<String>) -> (c: TextComponent)
    requires
        reason_parse_ends(reason),
    ensures
        c == spec_ban_reason(reason),
{
    let text = match reason {
        Some(r) => r,
        None => {
            proof {
                reveal_strlit("Banned by an operator.");
            }
            String::from_str(DEFAULT_OPERATOR_REASON)
        },
    };
    match text_from_snbt(text.as_str()) {
        Some(c) => c,
        None => text_plain(text),
    }
}

/// Whether `expires` is the expiry of a ban of `duration_minutes` minutes
/// issued at `now`: none without a duration, else a time that lies the
/// duration after `now` (for a `now` outside a leap second).
pub open spec fn expiry_fits(now: UtcTime, duration_minutes: Option<i64>, expires: Option<UtcTime>) -> bool {
    match duration_minutes {
        None => expires is None,
        Some(d) => expires matches Some(t) && (now.nanos < 1_000_000_000 ==> t.secs == now.secs
            + 60 * d && t.nanos == now.nanos),
    }
}

/// Whether the expiry of a ban of `duration_minutes` minutes issued at
/// `now` can be computed for certain: there is no duration, or `now` lies
/// outside a leap second and both `now` and the expiry lie in
/// [`in_time_range`].
pub open spec fn expiry_computable(now: UtcTime, duration_minutes: Option<i64>) -> bool {
    match duration_minutes {
        None => true,
        Some(d) => now.nanos < 1_000_000_000 && in_time_range(now.secs as int) && in_time_range(
            now.secs + 60 * d,
        ),
    }
}

/// The expiry of a ban of `duration_minutes` minutes issued at `now`:
/// none for a ban without duration; else `now` shifted by the minutes,
/// failing where that leaves the range of times.
pub fn expiry_after(now: UtcTime, duration_minutes: Option<i64>) -> (r: Result<
    Option<UtcTime>,
    CommandError,
>)
    ensures
        expiry_computable(now, duration_minutes) ==> r is Ok,
        r is Err ==> r == Err::<Option<UtcTime>, CommandError>(CommandError::DurationOutOfRange),
        r matches Ok(e) ==> expiry_fits(now, duration_minutes, e),
{
    match duration_minutes {
        None => Ok(None),
        Some(d) => match utc_add_minutes(now, d) {
            Some(t) => Ok(Some(t)),
            None => Err(CommandError::DurationOutOfRange),
        },
    }
}

/// The positions, in order, of the players connected from `ip`.
pub open spec fn indices_with_ip(players: Seq<OnlinePlayer>, ip: IpAddress) -> Seq<int>
    decreases players.len(),
{
    if players.len() == 0 {
        Seq::empty()
    } else {
        let rest = indices_with_ip(players.drop_last(), ip);
        if players.last().ip == ip {
            rest.push(players.len() - 1)
        } else {
            rest
        }
    }
}

/// The positions as integers.
pub open spec fn as_ints(idx: Seq<usize>) -> Seq<int> {
    idx.map_values(|i: usize| i as int)
}

/// The names of the players at the positions `idx`.
pub open spec fn names_at(players: Seq<OnlinePlayer>, idx: Seq<int>) -> Seq<Seq<char>> {
    idx.map_values(|i: int| players[i].name@)
}


/// The positions of the players connected from `ip`.
pub fn players_with_ip(players: &[OnlinePlayer], ip: IpAddress) -> (idx: Vec<usize>)
    ensures
        as_ints(idx@) == indices_with_ip(players@, ip),
        forall|k: int| 0 <= k < idx@.len() ==> idx@[k] < players@.len(),
{
    let n = players.len();
    let mut idx: Vec<usize> = Vec::new();
    let mut i: usize = 0;
    while i < n
        invariant
            n == players@.len(),
            i <= n,
            as_ints(idx@) == indices_with_ip(players@.take(i as int), ip),
            forall|k: int| 0 <= k < idx@.len() ==> idx@[k] < i,
        decreases n - i,
    {
        proof {
            assert(players@.take(i + 1).drop_last() == players@.take(i as int));
            assert(players@.take(i + 1).last() == players@[i as int]);
        }
        if players[i].ip == ip {
            idx.push(i);
            proof {
                assert(as_ints(idx@) == as_ints(idx@.drop_last()).push(i as int));
            }
        }
        i = i + 1;
    }
    proof {
        assert(players@.take(n as int) == players@);
    }
    idx
}

/// The names of the players at positions `idx`, joined with `", "`.
pub fn join_names(players: &[OnlinePlayer], idx: &Vec<usize>) -> (s: String)
    requires
        forall|k: int| 0 <= k < idx@.len() ==> idx@[k] < players@.len(),
    ensures
        s@ == join_with(names_at(players@, as_ints(idx@)), ", "@),
{
    let ghost names = names_at(players@, as_ints(idx@));
    let n = idx.len();
    let mut s = String::new();
    let mut i: usize = 0;
    while i < n
        invariant
            n == idx@.len(),
            i <= n,
            names == names_at(players@, as_ints(idx@)),
            forall|k: int| 0 <= k < idx@.len() ==> idx@[k] < players@.len(),
            s@ == join_with(names.take(i as int), ", "@),
        decreases n - i,
    {
        proof {
            assert(names.take(i + 1).drop_last() == names.take(i as int));
            assert(names.take(i + 1).last() == players@[idx@[i as int] as int].name@);
        }
        if i > 0 {
            s.append(", ");
        } else {
            proof {
                assert(names.take(1) == seq![names[0]]);
            }
        }
        s.append(players[idx[i]].name.as_str());
        i = i + 1;
    }
    proof {
        assert(names.take(n as int) == names);
    }
    s
}

/// What `ban-ip <ip>` answered.
pub enum BanIpReport {
    /// The address was banned already; nothing changed.
    AlreadyBanned,
    /// The address is now banned. The players at `disconnected` are to be
    /// disconnected with `reason`, and `names` lists them for the operator.
    Banned { reason: TextComponent, disconnected: Vec<usize>, names: String },
}

/// What `ban-ip <ip>` at time `now` does to a ban list `before` (giving
/// `after`) and answers.
pub open spec fn ban_ip_outcome(
    before: Seq<BannedIP>,
    after: Seq<BannedIP>,
    sender: Option<String>,
    ip: Option<IpAddress>,
    reason: Option<String>,
    duration_minutes: Option<i64>,
    players: Seq<OnlinePlayer>,
    now: UtcTime,
    r: Result<BanIpReport, CommandError>,
) -> bool {
    &&& ip is None ==> r == Err::<BanIpReport, CommandError>(CommandError::InvalidIp)
    &&& r is Err ==> after == before
    &&& ip is Some ==> (r is Ok || r == Err::<BanIpReport, CommandError>(
        CommandError::DurationOutOfRange,
    ))
    &&& ip is Some && expiry_computable(now, duration_minutes) ==> r is Ok
    &&& r matches Ok(BanIpReport::AlreadyBanned) ==> banned_in(before, ip.unwrap()) && after
        == before
    &&& r matches Ok(BanIpReport::Banned { reason: rr, disconnected, names }) ==> {
        &&& !banned_in(before, ip.unwrap())
        &&& after.len() == before.len() + 1
        &&& after.drop_last() == before
        &&& expiry_fits(now, duration_minutes, after.last().expires)
        &&& after.last()@ == (BanEntry {
            ip: ip.unwrap(),
            created: now,
            source: spec_source_name(sender),
            expires: after.last().expires,
            reason: spec_ban_reason(reason),
        })
        &&& rr == spec_ban_reason(reason)
        &&& as_ints(disconnected@) == indices_with_ip(players, ip.unwrap())
        &&& names@ == join_with(names_at(players, indices_with_ip(players, ip.unwrap())), ", "@)
    }
}

/// `ban-ip <ip> [duration] [reason]` at time `now`: bans the address,
/// recording the issuing player (or the console) as the source and `now`
/// as the time of issue, and picks the players connected from it.
pub fn ban_ip_at(
    policy: &mut IpAccessPolicy,
    sender: Option<String>,
    ip: Option<IpAddress>,
    reason: Option<String>,
    duration_minutes: Option<i64>,
    players: &[OnlinePlayer],
    now: UtcTime,
) -> (r: Result<BanIpReport, CommandError>)
    requires
        old(policy).wf(),
        ip is Some ==> reason_parse_ends(reason),
    ensures
        final(policy).wf(),
        final(policy).shadowbanned() == old(policy).shadowbanned(),
        final(policy).whitelist() == old(policy).whitelist(),
        ban_ip_outcome(
            old(policy).bans(),
            final(policy).bans(),
            sender,
            ip,
            reason,
            duration_minutes,
            players@,
            now,
            r,
        ),
{
    let source = source_name(sender);
    let valid_ip = match ip {
        Some(a) => a,
        None => return Err(CommandError::InvalidIp),
    };
    let text_reason = ban_reason(reason);
    let expires = match expiry_after(now, duration_minutes) {
        Ok(e) => e,
        Err(e) => return Err(e),
    };
    if !policy.ban_ip_at(valid_ip, source, text_clone(&text_reason), expires, now) {
        return Ok(BanIpReport::AlreadyBanned);
    }
    let disconnected = players_with_ip(players, valid_ip);
    let names = join_names(players, &disconnected);
    proof {
        assert(policy.bans().drop_last() =~= old(policy).bans());
        assert(as_ints(disconnected@) =~= indices_with_ip(players@, valid_ip));
    }
    Ok(BanIpReport::Banned { reason: text_reason, disconnected, names })
}

/// `ban-ip <ip> [duration] [reason]` now: as [`ban_ip_at`], with the time
/// read from the clock.
pub fn ban_ip(
    policy: &mut IpAccessPolicy,
    sender: Option<String>,
    ip: Option<IpAddress>,
    reason: Option<String>,
    duration_minutes: Option<i64>,
    players: &[OnlinePlayer],
) -> (r: Result<BanIpReport, CommandError>)
    requires
        old(policy).wf(),
        ip is Some ==> reason_parse_ends(reason),
    ensures
        final(policy).wf(),
        final(policy).shadowbanned() == old(policy).shadowbanned(),
        final(policy).whitelist() == old(policy).whitelist(),
        exists|now: UtcTime|
            now.nanos < 1_000_000_000 && now.secs >= 0 && ban_ip_outcome(
                old(policy).bans(),
                final(policy).bans(),
                sender,
                ip,
                reason,
                duration_minutes,
                players@,
                now,
                r,
            ),
{
    let now = utc_now();
    ban_ip_at(policy, sender, ip, reason, duration_minutes, players, now)
}

/// The addresses that banning `players` one after another adds to `bans`,
/// in order: each address not banned already and not added before.
pub open spec fn newly_banned(bans: Seq<BannedIP>, players: Seq<OnlinePlayer>) -> Seq<IpAddress>
    decreases players.len(),
{
    if players.len() == 0 {
        Seq::empty()
    } else {
        let prev = newly_banned(bans, players.drop_last());
        let ip = players.last().ip;
        if banned_in(bans, ip) || prev.contains(ip) {
            prev
        } else {
            prev.push(ip)
        }
    }
}

/// Whether banning the player at position `i` adds a ban, after the
/// players before it were banned.
pub open spec fn bans_player_at(bans: Seq<BannedIP>, players: Seq<OnlinePlayer>, i: int) -> bool {
    !banned_in(bans, players[i].ip) && !newly_banned(bans, players.take(i)).contains(players[i].ip)
}

/// The positions, in order, among the first `m` of `players`, of those
/// whose ban was added.
pub open spec fn banned_positions(bans: Seq<BannedIP>, players: Seq<OnlinePlayer>, m: int) -> Seq<int>
    decreases m,
{
    if m <= 0 {
        Seq::empty()
    } else {
        let prev = banned_positions(bans, players, m - 1);
        if bans_player_at(bans, players, m - 1) {
            prev.push(m - 1)
        } else {
            prev
        }
    }
}

/// What `ban-ip <players>` answered.
pub struct BanPlayersReport {
    /// For each player, whether its address was banned now (and the player
    /// is to be disconnected) or was banned already.
    pub banned: Vec<bool>,
    /// The component to disconnect with.
    pub reason: TextComponent,
    /// How many players were banned now.
    pub banned_count: usize,
    /// The names of the players banned now, joined with `", "`.
    pub names: String,
}

/// What `ban-ip <players>` at time `now` does to a ban list `before`
/// (giving `after`) and answers.
pub open spec fn ban_players_outcome(
    before: Seq<BannedIP>,
    after: Seq<BannedIP>,
    sender: Option<String>,
    players: Seq<OnlinePlayer>,
    reason: Option<String>,
    duration_minutes: Option<i64>,
    now: UtcTime,
    r: Result<BanPlayersReport, CommandError>,
) -> bool {
    &&& expiry_computable(now, duration_minutes) ==> r is Ok
    &&& r is Err ==> r == Err::<BanPlayersReport, CommandError>(CommandError::DurationOutOfRange)
        && after == before
    &&& r matches Ok(report) ==> {
        let added = newly_banned(before, players);
        &&& after.len() == before.len() + added.len()
        &&& after.take(before.len() as int) == before
        &&& forall|k: int|
            0 <= k < added.len() ==> {
                let e = #[trigger] after[before.len() + k];
                &&& expiry_fits(now, duration_minutes, e.expires)
                &&& e@ == (BanEntry {
                    ip: added[k],
                    created: now,
                    source: spec_source_name(sender),
                    expires: e.expires,
                    reason: spec_ban_reason(reason),
                })
            }
        &&& report.banned@.len() == players.len()
        &&& forall|i: int|
            0 <= i < players.len() ==> #[trigger] report.banned@[i] == bans_player_at(
                before,
                players,
                i,
            )
        &&& report.reason == spec_ban_reason(reason)
        &&& report.banned_count == banned_positions(before, players, players.len() as int).len()
        &&& report.names@ == join_with(
            names_at(players, banned_positions(before, players, players.len() as int)),
            ", "@,
        )
    }
}

/// `ban-ip <players> [duration] [reason]` at time `now`: bans the address of
/// each player in turn, as [`ban_ip_at`] bans one address.
pub fn ban_ip_players_at(
    policy: &mut IpAccessPolicy,
    sender: Option<String>,
    players: &[OnlinePlayer],
    reason: Option<String>,
    duration_minutes: Option<i64>,
    now: UtcTime,
) -> (r: Result<BanPlayersReport, CommandError>)
    requires
        old(policy).wf(),
        reason_parse_ends(reason),
    ensures
        final(policy).wf(),
        final(policy).shadowbanned() == old(policy).shadowbanned(),
        final(policy).whitelist() == old(policy).whitelist(),
        ban_players_outcome(
            old(policy).bans(),
            final(policy).bans(),
            sender,
            players@,
            reason,
            duration_minutes,
            now,
            r,
        ),
{
    let source = source_name(sender);
    let text_reason = ban_reason(reason);
    let expires = match expiry_after(now, duration_minutes) {
        Ok(e) => e,
        Err(e) => return Err(e),
    };
    let ghost start = policy.bans();
    let n = players.len();
    let mut banned: Vec<bool> = Vec::new();
    let mut i: usize = 0;
    while i < n
        invariant
            n == players@.len(),
            i <= n,
            policy.wf(),
            policy.shadowbanned() == old(policy).shadowbanned(),
            policy.whitelist() == old(policy).whitelist(),
            start == old(policy).bans(),
            expiry_fits(now, duration_minutes, expires),
            source@ == spec_source_name(sender),
            text_reason == spec_ban_reason(reason),
            ({
                let added = newly_banned(start, players@.take(i as int));
                &&& policy.bans().len() == start.len() + added.len()
                &&& policy.bans().take(start.len() as int) == start
                &&& forall|k: int|
                    0 <= k < added.len() ==> (#[trigger] policy.bans()[start.len() + k])@ == (BanEntry {
                        ip: added[k],
                        created: now,
                        source: spec_source_name(sender),
                        expires,
                        reason: spec_ban_reason(reason),
                    })
            }),
            banned@.len() == i,
            forall|j: int| 0 <= j < i ==> #[trigger] banned@[j] == bans_player_at(start, players@, j),
        decreases n - i,
    {
        let ghost before = policy.bans();
        let ghost prev = newly_banned(start, players@.take(i as int));
        let ip = players[i].ip;
        proof {
            assert(players@.take(i + 1).drop_last() == players@.take(i as int));
            assert(players@.take(i + 1).last() == players@[i as int]);
            assert(banned_in(before, ip) <==> (banned_in(start, ip) || prev.contains(ip))) by {
                if banned_in(before, ip) {
                    let j = choose|j: int| 0 <= j < before.len() && before[j].ip == ip;
                    if j < start.len() {
                        assert(before.take(start.len() as int)[j] == before[j]);
                    } else {
                        let k = j - start.len();
                        assert(before[start.len() + k]@.ip == prev[k]);
                        assert(prev.contains(ip));
                    }
                }
                if banned_in(start, ip) {
                    let j = choose|j: int| 0 <= j < start.len() && start[j].ip == ip;
                    assert(before.take(start.len() as int)[j] == before[j]);
                }
                if prev.contains(ip) {
                    let k = choose|k: int| 0 <= k < prev.len() && prev[k] == ip;
                    assert(before[start.len() + k]@.ip == ip);
                }
            }
        }
        let added = policy.ban_ip_at(ip, source.clone(), text_clone(&text_reason), expires, now);
        banned.push(added);
        proof {
            let next = newly_banned(start, players@.take(i + 1));
            assert forall|k: int| 0 <= k < next.len() implies (#[trigger] policy.bans()[start.len() + k])@
                == (BanEntry {
                ip: next[k],
                created: now,
                source: spec_source_name(sender),
                expires,
                reason: spec_ban_reason(reason),
            }) by {
                if k < prev.len() {
                    assert(policy.bans()[start.len() + k] == before[start.len() + k]);
                }
            }
            assert(policy.bans().take(start.len() as int) == start) by {
                assert(policy.bans().take(start.len() as int) =~= before.take(start.len() as int));
            }
        }
        i = i + 1;
    }
    proof {
        assert(players@.take(n as int) == players@);
    }
    let mut added: Vec<usize> = Vec::new();
    let mut k: usize = 0;
    while k < n
        invariant
            n == players@.len(),
            n == banned@.len(),
            k <= n,
            forall|j: int| 0 <= j < n ==> #[trigger] banned@[j] == bans_player_at(start, players@, j),
            as_ints(added@) == banned_positions(start, players@, k as int),
            forall|m: int| 0 <= m < added@.len() ==> added@[m] < n,
        decreases n - k,
    {
        if banned[k] {
            added.push(k);
            proof {
                assert(as_ints(added@) == as_ints(added@.drop_last()).push(k as int));
            }
        }
        k = k + 1;
    }
    let names = join_names(players, &added);
    let banned_count = added.len();
    Ok(BanPlayersReport { banned, reason: text_reason, banned_count, names })
}

/// `ban-ip <players> [duration] [reason]` now: as [`ban_ip_players_at`],
/// with the time read from the clock.
pub fn ban_ip_players(
    policy: &mut IpAccessPolicy,
    sender: Option<String>,
    players: &[OnlinePlayer],
    reason: Option<String>,
    duration_minutes: Option<i64>,
) -> (r: Result<BanPlayersReport, CommandError>)
    requires
        old(policy).wf(),
        reason_parse_ends(reason),
    ensures
        final(policy).wf(),
        final(policy).shadowbanned() == old(policy).shadowbanned(),
        final(policy).whitelist() == old(policy).whitelist(),
        exists|now: UtcTime|
            now.nanos < 1_000_000_000 && now.secs >= 0 && ban_players_outcome(
                old(policy).bans(),
                final(policy).bans(),
                sender,
                players@,
                reason,
                duration_minutes,
                now,
                r,
            ),
{
    let now = utc_now();
    ban_ip_players_at(policy, sender, players, reason, duration_minutes, now)
}

/// What `pardon-ip <ip>` answered.
#[derive(Clone, Copy, Debug, PartialEq, Eq, Structural)]
pub enum PardonReport {
    /// The address was not banned; nothing changed.
    NotBanned,
    /// Every ban of the address was lifted.
    Pardoned,
}

/// `pardon-ip <ip>`: lifts every ban of the address.
pub fn pardon_ip(policy: &mut IpAccessPolicy, ip: Option<IpAddress>) -> (r: Result<
    PardonReport,
    CommandError,
>)
    requires
        old(policy).wf(),
    ensures
        final(policy).wf(),
        final(policy).shadowbanned() == old(policy).shadowbanned(),
        final(policy).whitelist() == old(policy).whitelist(),
        ip is None ==> r == Err::<PardonReport, CommandError>(CommandError::InvalidIp)
            && final(policy).bans() == old(policy).bans(),
        ip matches Some(a) ==> if banned_in(old(policy).bans(), a) {
            r == Ok::<PardonReport, CommandError>(PardonReport::Pardoned) && final(policy).bans()
                == crate::ban_list::without_ip(old(policy).bans(), a)
        } else {
            r == Ok::<PardonReport, CommandError>(PardonReport::NotBanned) && final(policy).bans()
                == old(policy).bans()
        },
{
    let valid_ip = match ip {
        Some(a) => a,
        None => return Err(CommandError::InvalidIp),
    };
    if !policy.is_banned(&valid_ip) {
        return Ok(PardonReport::NotBanned);
    }
    policy.un_ban_ip(&valid_ip);
    Ok(PardonReport::Pardoned)
}

/// What `blacklist-ip add <ip>` answered.
pub enum BlacklistAddReport {
    /// The address was blacklisted already; nothing changed.
    AlreadyBlacklisted,
    /// The address is blacklisted now; the players at `disconnected` are to
    /// be disconnected.
    Blacklisted { disconnected: Vec<usize> },
}

/// `blacklist-ip add <ip>`: adds the address to the blacklist (the
/// shadowban list) and picks the players connected from it.
pub fn blacklist_ip_add(policy: &mut IpAccessPolicy, ip: Option<IpAddress>, players: &[OnlinePlayer]) -> (r: Result<
    BlacklistAddReport,
    CommandError,
>)
    requires
        old(policy).wf(),
    ensures
        final(policy).wf(),
        final(policy).bans() == old(policy).bans(),
        final(policy).whitelist() == old(policy).whitelist(),
        ip is None ==> r == Err::<BlacklistAddReport, CommandError>(CommandError::InvalidIp)
            && final(policy).shadowbanned() == old(policy).shadowbanned(),
        ip matches Some(a) ==> final(policy).shadowbanned() == old(policy).shadowbanned().insert(a),
        ip matches Some(a) ==> (r matches Ok(BlacklistAddReport::AlreadyBlacklisted) <==> old(
            policy,
        ).shadowbanned().contains(a)),
        r matches Ok(BlacklistAddReport::Blacklisted { disconnected }) ==> as_ints(disconnected@)
            == indices_with_ip(players@, ip.unwrap()),
        ip is Some ==> r is Ok,
{
    let valid_ip = match ip {
        Some(a) => a,
        None => return Err(CommandError::InvalidIp),
    };
    if !policy.shadowban_ip(&valid_ip) {
        return Ok(BlacklistAddReport::AlreadyBlacklisted);
    }
    let disconnected = players_with_ip(players, valid_ip);
    Ok(BlacklistAddReport::Blacklisted { disconnected })
}

/// What `blacklist-ip remove <ip>` answered.
#[derive(Clone, Copy, Debug, PartialEq, Eq, Structural)]
pub enum BlacklistRemoveReport {
    /// The address was not blacklisted; nothing changed.
    NotBlacklisted,
    /// The address was taken off the blacklist.
    Removed,
}

/// `blacklist-ip remove <ip>`: takes the address off the blacklist (the
/// shadowban list). The command requires a valid address.
pub fn blacklist_ip_remove(policy: &mut IpAccessPolicy, ip: Option<IpAddress>) -> (r: BlacklistRemoveReport)
    requires
        old(policy).wf(),
        ip is Some,
    ensures
        final(policy).wf(),
        final(policy).bans() == old(policy).bans(),
        final(policy).whitelist() == old(policy).whitelist(),
        final(policy).shadowbanned() == old(policy).shadowbanned().remove(ip.unwrap()),
        (r == BlacklistRemoveReport::Removed) == old(policy).shadowbanned().contains(ip.unwrap()),
{
    let valid_ip = ip.unwrap();
    if !policy.is_shadowbanned(&valid_ip) {
        proof {
            assert(old(policy).shadowbanned().remove(valid_ip) == old(policy).shadowbanned());
        }
        return BlacklistRemoveReport::NotBlacklisted;
    }
    policy.un_shadowban_ip(&valid_ip);
    BlacklistRemoveReport::Removed
}

/// What `steel blacklist-ip add <ip>` answered: whether the address was
/// blacklisted already, and the players connected from it, who are to be
/// disconnected either way.
pub struct SteelBlacklistAddReport {
    pub already_blacklisted: bool,
    pub disconnected: Vec<usize>,
}

/// `steel blacklist-ip add <ip>`: as `blacklist-ip add`, but it goes on to
/// disconnect the players of an address that was blacklisted already.
pub fn steel_blacklist_ip_add(policy: &mut IpAccessPolicy, ip: Option<IpAddress>, players: &[OnlinePlayer]) -> (r: Result<
    SteelBlacklistAddReport,
    CommandError,
>)
    requires
        old(policy).wf(),
    ensures
        final(policy).wf(),
        final(policy).bans() == old(policy).bans(),
        final(policy).whitelist() == old(policy).whitelist(),
        ip is None ==> r == Err::<SteelBlacklistAddReport, CommandError>(CommandError::InvalidIp)
            && final(policy).shadowbanned() == old(policy).shadowbanned(),
        ip matches Some(a) ==> r is Ok && final(policy).shadowbanned() == old(
            policy,
        ).shadowbanned().insert(a),
        r matches Ok(report) ==> report.already_blacklisted == old(policy).shadowbanned().contains(
            ip.unwrap(),
        ) && as_ints(report.disconnected@) == indices_with_ip(players@, ip.unwrap()),
{
    let valid_ip = match ip {
        Some(a) => a,
        None => return Err(CommandError::InvalidIp),
    };
    let added = policy.shadowban_ip(&valid_ip);
    let disconnected = players_with_ip(players, valid_ip);
    Ok(SteelBlacklistAddReport { already_blacklisted: !added, disconnected })
}

/// `steel blacklist-ip remove <ip>`: takes the address off the blacklist,
/// saying whether it was on it.
pub fn steel_blacklist_ip_remove(policy: &mut IpAccessPolicy, ip: Option<IpAddress>) -> (r: Result<
    bool,
    CommandError,
>)
    requires
        old(policy).wf(),
    ensures
        final(policy).wf(),
        final(policy).bans() == old(policy).bans(),
        final(policy).whitelist() == old(policy).whitelist(),
        ip is None ==> r == Err::<bool, CommandError>(CommandError::InvalidIp)
            && final(policy).shadowbanned() == old(policy).shadowbanned(),
        ip matches Some(a) ==> r == Ok::<bool, CommandError>(
            old(policy).shadowbanned().contains(a),
        ) && final(policy).shadowbanned() == old(policy).shadowbanned().remove(a),
{
    let valid_ip = match ip {
        Some(a) => a,
        None => return Err(CommandError::InvalidIp),
    };
    let was_listed = policy.is_shadowbanned(&valid_ip);
    policy.un_shadowban_ip(&valid_ip);
    Ok(was_listed)
}

/// `blacklist-ip list`: the blacklisted addresses in increasing order.
pub fn blacklist_ip_list(policy: &IpAccessPolicy) -> (v: Vec<IpAddress>)
    requires
        policy.wf(),
    ensures
        strictly_sorted(v@),
        address_set(v@) == policy.shadowbanned(),
{
    let ips = policy.get_shadowbanned_ips();
    let v = sorted_addresses(ips);
    proof {
        assert(address_set(v@) =~= policy.shadowbanned());
    }
    v
}

/// `whitelist-ip list`: the whitelisted addresses in increasing order.
pub fn whitelist_ip_list(policy: &IpAccessPolicy) -> (v: Vec<IpAddress>)
    requires
        policy.wf(),
    ensures
        strictly_sorted(v@),
        address_set(v@) == policy.whitelist(),
{
    let ips = policy.get_whitelist_ips();
    let v = sorted_addresses(ips);
    proof {
        assert(address_set(v@) =~= policy.whitelist());
    }
    v
}

/// Translation key of the reason a kicked player is disconnected with when
/// the operator gives none.
pub const KICKED_KEY: &'static str = "multiplayer.disconnect.kicked";

/// Translation key of the message that reports a kicked player.
pub const KICK_SUCCESS_KEY: &'static str = "commands.kick.success";

/// Translation key of the message sent when `kick` is given no player.
pub const KICK_OWNER_FAILED_KEY: &'static str = "commands.kick.owner.failed";

/// The reason a kick disconnects with: the operator's, or the translated
/// "kicked" message.
pub open spec fn spec_kick_reason(reason: Option<TextComponent>) -> TextComponent {
    match reason {
        Some(c) => c,
        None => bare_translated_component(KICKED_KEY@),
    }
}

/// What `kick <players> [reason]` answered: every given player is to be
/// disconnected, in order, with `reason`, and `messages` are sent to the
/// operator in order.
pub struct KickReport {
    pub reason: TextComponent,
    pub messages: Vec<TextComponent>,
}

/// `kick <players> [reason]` on the players named `names`: the "cannot
/// kick" message when no player is given, else one "kicked" message per
/// player, naming it and the reason.
pub fn kick_player(names: &[String], reason: Option<TextComponent>) -> (r: KickReport)
    ensures
        r.reason == spec_kick_reason(reason),
        names@.len() == 0 ==> r.messages@ == seq![bare_translated_component(KICK_OWNER_FAILED_KEY@)],
        names@.len() > 0 ==> r.messages@.len() == names@.len() && forall|i: int|
            0 <= i < names@.len() ==> #[trigger] r.messages@[i] == translated_component(
                KICK_SUCCESS_KEY@,
                seq![plain_component(names@[i]@), r.reason],
            ),
{
    let real_reason = match reason {
        Some(c) => c,
        None => text_translated_bare(KICKED_KEY),
    };
    let n = names.len();
    let mut messages: Vec<TextComponent> = Vec::new();
    if n == 0 {
        messages.push(text_translated_bare(KICK_OWNER_FAILED_KEY));
        return KickReport { reason: real_reason, messages };
    }
    let mut i: usize = 0;
    while i < n
        invariant
            n == names@.len(),
            i <= n,
            messages@.len() == i,
            forall|j: int|
                0 <= j < i ==> #[trigger] messages@[j] == translated_component(
                    KICK_SUCCESS_KEY@,
                    seq![plain_component(names@[j]@), real_reason],
                ),
        decreases n - i,
    {
        let m = text_translated2(KICK_SUCCESS_KEY, text_plain(names[i].clone()), text_clone(&real_reason));
        messages.push(m);
        i = i + 1;
    }
    KickReport { reason: real_reason, messages }
}

/// How `steel tp` moves one target to the requested world.
#[derive(Clone, Copy, Debug, PartialEq, Eq, Structural)]
pub enum TeleportStep {
    /// A world change to the world's spawn, within the target's domain.
    WorldSpawn,
    /// A switch to the domain that holds the world.
    DomainSwitch,
}

/// The step for each target of `steel tp`, given whether the target's
/// current world lies in the requested world's domain.
pub fn teleport_steps(same_domain: &[bool]) -> (v: Vec<TeleportStep>)
    ensures
        v@.len() == same_domain@.len(),
        forall|i: int|
            0 <= i < v@.len() ==> #[trigger] v@[i] == (if same_domain@[i] {
                TeleportStep::WorldSpawn
            } else {
                TeleportStep::DomainSwitch
            }),
{
    let n = same_domain.len();
    let mut v: Vec<TeleportStep> = Vec::new();
    let mut i: usize = 0;
    while i < n
        invariant
            n == same_domain@.len(),
            i <= n,
            v@.len() == i,
            forall|j: int|
                0 <= j < i ==> #[trigger] v@[j] == (if same_domain@[j] {
                    TeleportStep::WorldSpawn
                } else {
                    TeleportStep::DomainSwitch
                }),
        decreases n - i,
    {
        if same_domain[i] {
            v.push(TeleportStep::WorldSpawn);
        } else {
            v.push(TeleportStep::DomainSwitch);
        }
        i = i + 1;
    }
    v
}

/// The position of the first target that is already switching domains.
pub fn first_switching(switching: &[bool]) -> (r: Option<usize>)
    ensures
        r matches Some(i) ==> i < switching@.len() && switching@[i as int] && forall|j: int|
            0 <= j < i ==> !switching@[j],
        r is None ==> forall|j: int| 0 <= j < switching@.len() ==> !switching@[j],
{
    let n = switching.len();
    let mut i: usize = 0;
    while i < n
        invariant
            n == switching@.len(),
            i <= n,
            forall|j: int| 0 <= j < i ==> !switching@[j],
        decreases n - i,
    {
        if switching[i] {
            return Some(i);
        }
        i = i + 1;
    }
    None
}

/// The character of a decimal digit.
pub open spec fn digit_char(d: nat) -> char {
    if d == 0 {
        '0'
    } else if d == 1 {
        '1'
    } else if d == 2 {
        '2'
    } else if d == 3 {
        '3'
    } else if d == 4 {
        '4'
    } else if d == 5 {
        '5'
    } else if d == 6 {
        '6'
    } else if d == 7 {
        '7'
    } else if d == 8 {
        '8'
    } else {
        '9'
    }
}

/// The decimal text of `n`, without leading zeros.
pub open spec fn decimal(n: nat) -> Seq<char>
    decreases n,
{
    if n < 10 {
        seq![digit_char(n)]
    } else {
        decimal(n / 10).push(digit_char(n % 10))
    }
}

fn digit_str(d: usize) -> (r: &'static str)
    requires
        d < 10,
    ensures
        r@ == seq![digit_char(d as nat)],
{
    proof {
        reveal_strlit("0");
        reveal_strlit("1");
        reveal_strlit("2");
        reveal_strlit("3");
        reveal_strlit("4");
        reveal_strlit("5");
        reveal_strlit("6");
        reveal_strlit("7");
        reveal_strlit("8");
        reveal_strlit("9");
    }
    if d == 0 {
        "0"
    } else if d == 1 {
        "1"
    } else if d == 2 {
        "2"
    } else if d == 3 {
        "3"
    } else if d == 4 {
        "4"
    } else if d == 5 {
        "5"
    } else if d == 6 {
        "6"
    } else if d == 7 {
        "7"
    } else if d == 8 {
        "8"
    } else {
        "9"
    }
}

/// Appends the decimal text of `n` to `s`.
fn append_decimal(s: &mut String, n: usize)
    ensures
        final(s)@ == old(s)@ + decimal(n as nat),
    decreases n,
{
    if n >= 10 {
        append_decimal(s, n / 10);
    }
    s.append(digit_str(n % 10));
    proof {
        assert(final(s)@ =~= old(s)@ + decimal(n as nat));
    }
}

/// What `steel tp` tells the operator: the one target's name, or the
/// number of targets, and the world.
pub open spec fn spec_teleport_message(names: Seq<Seq<char>>, world: Seq<char>) -> Seq<char> {
    if names.len() == 1 {
        "Teleporting "@ + names[0] + " to "@ + world
    } else {
        "Teleporting "@ + decimal(names.len()) + " players to "@ + world
    }
}

/// Builds the message of `steel tp` for targets with `names` sent to the
/// world named `world`.
pub fn teleport_message(names: &[String], world: &str) -> (m: String)
    ensures
        m@ == spec_teleport_message(names@.map_values(|n: String| n@), world@),
{
    let mut m = String::from_str("Teleporting ");
    if names.len() == 1 {
        m.append(names[0].as_str());
        m.append(" to ");
    } else {
        append_decimal(&mut m, names.len());
        m.append(" players to ");
    }
    m.append(world);
    m
}

} // verus!

use steel_core::ip_access_policy::{
    BannedIP, IpAccessPolicy, IpBansFile, VanillaBannedIp, convert_vanilla_bans, BANNED_IP_EXPIRATION_KEY,
    BANNED_IP_REASON_KEY, DEFAULT_BAN_REASON, NEVER_EXPIRES,
};
use steel_core::net::IpAddress;
use steel_core::time::UtcTime;
use text_components::translation::Translation;
use text_components::{Modifier, TextComponent};

fn v4(a: u8, b: u8, c: u8, d: u8) -> IpAddress {
    IpAddress::V4(u32::from_be_bytes([a, b, c, d]))
}

fn at(secs: i64) -> UtcTime {
    UtcTime { secs, nanos: 0 }
}

fn entry(ip: IpAddress, expires: Option<UtcTime>) -> BannedIP {
    BannedIP {
        ip,
        created: at(1_000),
        source: "op".to_string(),
        expires,
        reason: TextComponent::plain("because"),
    }
}

#[test]
fn empty_policy_holds_nothing() {
    let p = IpAccessPolicy::empty();
    let ip = v4(10, 0, 0, 1);
    assert!(!p.is_banned(&ip));
    assert!(!p.is_shadowbanned(&ip));
    assert!(p.can_connect(&ip));
    assert!(p.get_banned_ips().is_empty());
    assert!(p.get_whitelist_ips().is_empty());
    assert!(p.get_shadowbanned_ips().is_empty());
    assert!(p.get_banned_reason(&ip).is_none());
}

#[test]
fn ban_then_banned_and_second_ban_refused() {
    let mut p = IpAccessPolicy::empty();
    let ip = v4(192, 168, 1, 7);
    assert!(p.ban_ip_at(ip, "op".to_string(), TextComponent::plain("r"), None, at(5)));
    assert!(p.is_banned(&ip));
    assert!(!p.ban_ip(ip, "op2".to_string(), TextComponent::plain("r2"), None));
    let bans = p.get_banned_ips();
    assert_eq!(bans.len(), 1);
    assert_eq!(bans[0].ip, ip);
    assert_eq!(bans[0].created, at(5));
    assert_eq!(bans[0].source, "op");
    assert!(!p.is_banned(&v4(192, 168, 1, 8)));
}

#[test]
fn ban_reads_the_clock() {
    let mut p = IpAccessPolicy::empty();
    let ip = IpAddress::V6(1);
    assert!(p.ban_ip(ip, "op".to_string(), TextComponent::plain("r"), Some(at(10))));
    let bans = p.get_banned_ips();
    assert_eq!(bans.len(), 1);
    assert!(bans[0].created.secs > 1_600_000_000);
    assert_eq!(bans[0].expires, Some(at(10)));
}

#[test]
fn unban_undoes_ban() {
    let mut p = IpAccessPolicy::empty();
    let a = v4(1, 2, 3, 4);
    let b = v4(5, 6, 7, 8);
    p.ban_ip_at(a, "op".to_string(), TextComponent::plain("x"), None, at(1));
    p.ban_ip_at(b, "op".to_string(), TextComponent::plain("y"), None, at(2));
    p.un_ban_ip(&b);
    assert!(!p.is_banned(&b));
    assert!(p.is_banned(&a));
    let bans = p.get_banned_ips();
    assert_eq!(bans.len(), 1);
    assert_eq!(bans[0].ip, a);
}

#[test]
fn unban_removes_every_entry_of_an_address() {
    let mut p = IpAccessPolicy::empty();
    let a = v4(1, 1, 1, 1);
    let b = v4(2, 2, 2, 2);
    p.replace_banned_ips(vec![entry(a, None), entry(b, None), entry(a, Some(at(3)))]);
    assert_eq!(p.get_banned_ips().len(), 3);
    p.un_ban_ip(&a);
    let bans = p.get_banned_ips();
    assert_eq!(bans.len(), 1);
    assert_eq!(bans[0].ip, b);
    assert!(!p.is_banned(&a));
}

#[test]
fn expire_sweep_keeps_permanent_and_future_bans() {
    let mut p = IpAccessPolicy::empty();
    let a = v4(1, 0, 0, 1);
    let b = v4(1, 0, 0, 2);
    let c = v4(1, 0, 0, 3);
    let d = v4(1, 0, 0, 4);
    p.replace_banned_ips(vec![
        entry(a, None),
        entry(b, Some(at(100))),
        entry(c, Some(at(200))),
        entry(d, Some(UtcTime { secs: 150, nanos: 1 })),
    ]);
    p.expire_bans_at(UtcTime { secs: 150, nanos: 0 });
    let ips: Vec<IpAddress> = p.get_banned_ips().iter().map(|b| b.ip).collect();
    assert_eq!(ips, vec![a, c, d]);
    assert!(!p.is_banned(&b));
    // A second sweep at the same time changes nothing.
    p.expire_bans_at(UtcTime { secs: 150, nanos: 0 });
    assert_eq!(p.get_banned_ips().len(), 3);
    // A ban expiring exactly now is gone.
    p.expire_bans_at(at(200));
    let ips: Vec<IpAddress> = p.get_banned_ips().iter().map(|b| b.ip).collect();
    assert_eq!(ips, vec![a]);
}

#[test]
fn expire_bans_with_clock_drops_past_bans() {
    let mut p = IpAccessPolicy::empty();
    let a = v4(3, 3, 3, 3);
    let b = v4(4, 4, 4, 4);
    p.replace_banned_ips(vec![entry(a, Some(at(10))), entry(b, Some(at(i64::MAX / 4)))]);
    p.expire_bans();
    assert!(!p.is_banned(&a));
    assert!(p.is_banned(&b));
}

#[test]
fn shadowban_blocks_connect_unless_whitelisted() {
    let mut p = IpAccessPolicy::empty();
    let a = v4(8, 8, 8, 8);
    let w = v4(9, 9, 9, 9);
    assert!(p.shadowban_ip(&a));
    assert!(!p.shadowban_ip(&a));
    assert!(p.is_shadowbanned(&a));
    assert!(!p.can_connect(&a));
    p.set_whitelist(&[w]);
    assert!(p.shadowban_ip(&w));
    assert!(p.can_connect(&w));
    // With a whitelist in force, only whitelisted addresses pass.
    let other = v4(10, 10, 10, 10);
    assert!(!p.can_connect(&other));
    p.un_shadowban_ip(&a);
    assert!(!p.is_shadowbanned(&a));
    assert!(!p.can_connect(&a));
    assert_eq!(p.get_shadowbanned_ips(), vec![w]);
    p.set_whitelist(&[]);
    assert!(p.can_connect(&a));
    assert!(!p.can_connect(&w));
}

#[test]
fn whitelist_snapshot_holds_each_address_once() {
    let mut p = IpAccessPolicy::empty();
    let a = v4(1, 1, 1, 1);
    let b = IpAddress::V6(0xfe80);
    p.set_whitelist(&[a, b, a]);
    let mut got = p.get_whitelist_ips();
    got.sort_by_key(|ip| match ip {
        IpAddress::V4(x) => (false, *x as u128),
        IpAddress::V6(x) => (true, *x),
    });
    assert_eq!(got, vec![a, b]);
}

#[test]
fn loaded_file_replaces_bans_and_shadowbans_but_not_whitelist() {
    let mut p = IpAccessPolicy::empty();
    let w = v4(7, 7, 7, 7);
    p.set_whitelist(&[w]);
    p.shadowban_ip(&v4(6, 6, 6, 6));
    let a = v4(5, 5, 5, 5);
    let s = v4(4, 4, 4, 4);
    p.apply_loaded_bans_file(IpBansFile { ip_banned: vec![entry(a, None)], shadowbanned: vec![s] });
    assert!(p.is_banned(&a));
    assert!(p.is_shadowbanned(&s));
    assert!(!p.is_shadowbanned(&v4(6, 6, 6, 6)));
    assert_eq!(p.get_whitelist_ips(), vec![w]);
}

#[test]
fn vanilla_import_only_with_entries() {
    let mut p = IpAccessPolicy::empty();
    p.shadowban_ip(&v4(6, 6, 6, 6));
    assert!(!p.try_import_vanilla_bans(None));
    assert!(p.is_shadowbanned(&v4(6, 6, 6, 6)));
    assert!(p.try_import_vanilla_bans(Some(vec![entry(v4(1, 2, 3, 4), None)])));
    assert!(p.is_banned(&v4(1, 2, 3, 4)));
    assert!(p.get_shadowbanned_ips().is_empty());
}

#[test]
fn banned_reason_is_that_of_the_first_entry() {
    let mut p = IpAccessPolicy::empty();
    let a = v4(1, 2, 3, 4);
    let mut first = entry(a, Some(at(77)));
    first.reason = TextComponent::plain("first");
    let mut second = entry(a, None);
    second.reason = TextComponent::plain("second");
    p.replace_banned_ips(vec![entry(v4(9, 9, 9, 9), None), first, second]);
    let notice = p.get_ban_notice(&a).unwrap();
    assert_eq!(notice.reason, TextComponent::plain("first"));
    assert_eq!(notice.expires, Some(at(77)));
    assert!(p.get_ban_notice(&v4(5, 5, 5, 5)).is_none());
}

#[test]
fn disconnect_message_of_a_permanent_ban() {
    let mut p = IpAccessPolicy::empty();
    let a = v4(1, 2, 3, 4);
    let mut ban = entry(a, None);
    ban.reason = TextComponent::plain("griefing");
    p.replace_banned_ips(vec![ban]);
    let expected = Translation::<1>(BANNED_IP_REASON_KEY)
        .message([TextComponent::plain("griefing")])
        .component()
        .add_child(
            Translation::<1>(BANNED_IP_EXPIRATION_KEY)
                .message([TextComponent::plain(NEVER_EXPIRES)])
                .component(),
        );
    assert_eq!(p.get_banned_reason(&a), Some(expected));
    assert_ne!(p.get_banned_reason(&a), Some(TextComponent::plain("griefing")));
    assert!(p.get_banned_reason(&v4(4, 3, 2, 1)).is_none());
}

#[test]
fn disconnect_message_of_a_temporary_ban_names_the_reason() {
    let mut p = IpAccessPolicy::empty();
    let a = v4(1, 2, 3, 4);
    p.replace_banned_ips(vec![entry(a, Some(at(1_700_000_000)))]);
    let message = p.get_banned_reason(&a).unwrap();
    let never = Translation::<1>(BANNED_IP_REASON_KEY)
        .message([TextComponent::plain("because")])
        .component()
        .add_child(
            Translation::<1>(BANNED_IP_EXPIRATION_KEY)
                .message([TextComponent::plain(NEVER_EXPIRES)])
                .component(),
        );
    assert_ne!(message, never);
}

#[test]
fn vanilla_entries_get_the_default_reason() {
    let mk = |reason: Option<TextComponent>| VanillaBannedIp {
        ip: v4(1, 1, 1, 1),
        created: at(1),
        source: "vanilla".to_string(),
        expires: None,
        reason,
    };
    let out = convert_vanilla_bans(vec![
        mk(None),
        mk(Some(TextComponent::plain(""))),
        mk(Some(TextComponent::plain("griefing"))),
    ]);
    assert_eq!(out.len(), 3);
    assert_eq!(out[0].reason, TextComponent::plain(DEFAULT_BAN_REASON));
    assert_eq!(out[1].reason, TextComponent::plain(DEFAULT_BAN_REASON));
    assert_eq!(out[2].reason, TextComponent::plain("griefing"));
    assert_eq!(out[2].source, "vanilla");
    let converted = BannedIP::from_vanilla(mk(Some(TextComponent::plain("x"))));
    assert_eq!(converted.reason, TextComponent::plain("x"));
}

#[test]
fn vanilla_reason_given_how_it_renders() {
    let mk = |reason: Option<TextComponent>| VanillaBannedIp {
        ip: v4(2, 2, 2, 2),
        created: at(3),
        source: "vanilla".to_string(),
        expires: Some(at(9)),
        reason,
    };
    let kept = BannedIP::from_vanilla_rendered(mk(Some(TextComponent::plain("x"))), false);
    assert_eq!(kept.reason, TextComponent::plain("x"));
    assert_eq!(kept.ip, v4(2, 2, 2, 2));
    assert_eq!(kept.created, at(3));
    assert_eq!(kept.expires, Some(at(9)));
    let replaced = BannedIP::from_vanilla_rendered(mk(Some(TextComponent::plain("x"))), true);
    assert_eq!(replaced.reason, TextComponent::plain(DEFAULT_BAN_REASON));
    let missing = BannedIP::from_vanilla_rendered(mk(None), false);
    assert_eq!(missing.reason, TextComponent::plain(DEFAULT_BAN_REASON));
}

#[test]
fn unshadowban_undoes_shadowban() {
    let mut p = IpAccessPolicy::empty();
    let keep = v4(1, 1, 1, 1);
    let a = v4(2, 2, 2, 2);
    p.shadowban_ip(&keep);
    let before = p.get_shadowbanned_ips();
    assert!(p.shadowban_ip(&a));
    p.un_shadowban_ip(&a);
    assert_eq!(p.get_shadowbanned_ips(), before);
}

#[test]
fn disconnect_message_at_a_fixed_offset() {
    let mut p = IpAccessPolicy::empty();
    let a = v4(1, 2, 3, 4);
    p.replace_banned_ips(vec![entry(a, Some(at(1_700_000_000)))]);
    let line = |text: &str| {
        Translation::<1>(BANNED_IP_REASON_KEY)
            .message([TextComponent::plain("because")])
            .component()
            .add_child(
                Translation::<1>(BANNED_IP_EXPIRATION_KEY)
                    .message([TextComponent::plain(text.to_string())])
                    .component(),
            )
    };
    assert_eq!(p.get_banned_reason_at_offset(&a, 0), Some(line("2023-11-14 22:13 UTC+00:00")));
    assert_eq!(p.get_banned_reason_at_offset(&a, 3600), Some(line("2023-11-14 23:13 UTC+01:00")));
    assert!(p.get_banned_reason_at_offset(&v4(9, 9, 9, 9), 0).is_none());
}

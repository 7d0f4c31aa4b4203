use steel_core::commands::{
    ban_ip, ban_ip_at, ban_ip_players_at, ban_reason, blacklist_ip_add, blacklist_ip_list,
    blacklist_ip_remove, expiry_after, first_switching, kick_player, pardon_ip, players_with_ip,
    source_name, steel_blacklist_ip_add, steel_blacklist_ip_remove, teleport_message,
    whitelist_ip_list, BanIpReport, BlacklistAddReport, BlacklistRemoveReport, CommandError,
    OnlinePlayer, PardonReport,
};
use steel_core::commands::{teleport_steps, TeleportStep};
use steel_core::ip_access_policy::IpAccessPolicy;
use steel_core::net::IpAddress;
use steel_core::time::UtcTime;
use text_components::translation::Translation;
use text_components::TextComponent;

fn v4(a: u8, b: u8, c: u8, d: u8) -> IpAddress {
    IpAddress::V4(u32::from_be_bytes([a, b, c, d]))
}

fn player(name: &str, ip: IpAddress) -> OnlinePlayer {
    OnlinePlayer { name: name.to_string(), ip }
}

fn now() -> UtcTime {
    UtcTime { secs: 1_700_000_000, nanos: 5 }
}

#[test]
fn reasons_and_sources() {
    assert_eq!(source_name(None), "Server");
    assert_eq!(source_name(Some("Steve".to_string())), "Steve");
    assert_eq!(ban_reason(None), TextComponent::plain("Banned by an operator."));
    let snbt = "{text:\"hi\",color:\"red\"}";
    let parsed = TextComponent::from_snbt(snbt).expect("valid SNBT");
    assert_eq!(ban_reason(Some(snbt.to_string())), parsed);
    assert_ne!(parsed, TextComponent::plain(snbt));
    let broken = "{text:";
    assert!(TextComponent::from_snbt(broken).is_err());
    assert_eq!(ban_reason(Some(broken.to_string())), TextComponent::plain(broken));
}

#[test]
fn expiries() {
    assert_eq!(expiry_after(now(), None), Ok(None));
    assert_eq!(expiry_after(now(), Some(90)), Ok(Some(UtcTime { secs: 1_700_000_000 + 5400, nanos: 5 })));
    assert_eq!(expiry_after(now(), Some(i64::MAX)), Err(CommandError::DurationOutOfRange));
}

#[test]
fn ban_ip_command() {
    let mut p = IpAccessPolicy::empty();
    let target = v4(10, 0, 0, 9);
    let players = vec![player("a", target), player("b", v4(10, 0, 0, 1)), player("c", target)];
    assert_eq!(
        ban_ip_at(&mut p, None, None, None, None, &players, now()).err(),
        Some(CommandError::InvalidIp)
    );
    match ban_ip_at(&mut p, Some("Op".to_string()), Some(target), None, Some(60), &players, now()) {
        Ok(BanIpReport::Banned { reason, disconnected, names }) => {
            assert_eq!(reason, TextComponent::plain("Banned by an operator."));
            assert_eq!(disconnected, vec![0, 2]);
            assert_eq!(names, "a, c");
        }
        _ => panic!("expected a ban"),
    }
    let bans = p.get_banned_ips();
    assert_eq!(bans.len(), 1);
    assert_eq!(bans[0].source, "Op");
    assert_eq!(bans[0].created, now());
    assert_eq!(bans[0].expires, Some(UtcTime { secs: 1_700_003_600, nanos: 5 }));
    assert!(matches!(
        ban_ip_at(&mut p, None, Some(target), None, None, &players, now()),
        Ok(BanIpReport::AlreadyBanned)
    ));
    assert_eq!(
        ban_ip_at(&mut p, None, Some(v4(1, 1, 1, 1)), None, Some(i64::MAX), &players, now()).err(),
        Some(CommandError::DurationOutOfRange)
    );
    assert!(!p.is_banned(&v4(1, 1, 1, 1)));
    assert!(matches!(ban_ip(&mut p, None, Some(v4(2, 2, 2, 2)), None, None, &[]), Ok(BanIpReport::Banned { .. })));
}

#[test]
fn ban_players_command() {
    let mut p = IpAccessPolicy::empty();
    let shared = v4(10, 0, 0, 9);
    let pre = v4(10, 0, 0, 8);
    p.ban_ip_at(pre, "x".to_string(), TextComponent::plain("x"), None, now());
    let players = vec![player("a", shared), player("b", pre), player("c", shared), player("d", v4(10, 0, 0, 7))];
    let report = ban_ip_players_at(&mut p, None, &players, Some("spam".to_string()), None, now()).unwrap();
    assert_eq!(report.banned, vec![true, false, false, true]);
    assert_eq!(report.banned_count, 2);
    assert_eq!(report.names, "a, d");
    let ips: Vec<IpAddress> = p.get_banned_ips().iter().map(|b| b.ip).collect();
    assert_eq!(ips, vec![pre, shared, v4(10, 0, 0, 7)]);
}

#[test]
fn pardon_command() {
    let mut p = IpAccessPolicy::empty();
    let a = v4(3, 3, 3, 3);
    assert_eq!(pardon_ip(&mut p, None), Err(CommandError::InvalidIp));
    assert_eq!(pardon_ip(&mut p, Some(a)), Ok(PardonReport::NotBanned));
    p.ban_ip_at(a, "x".to_string(), TextComponent::plain("x"), None, now());
    assert_eq!(pardon_ip(&mut p, Some(a)), Ok(PardonReport::Pardoned));
    assert!(!p.is_banned(&a));
}

#[test]
fn blacklist_commands() {
    let mut p = IpAccessPolicy::empty();
    let a = v4(4, 4, 4, 4);
    let players = vec![player("x", a), player("y", v4(5, 5, 5, 5))];
    assert!(matches!(blacklist_ip_add(&mut p, None, &players), Err(CommandError::InvalidIp)));
    match blacklist_ip_add(&mut p, Some(a), &players) {
        Ok(BlacklistAddReport::Blacklisted { disconnected }) => assert_eq!(disconnected, vec![0]),
        _ => panic!("expected a new blacklist entry"),
    }
    assert!(matches!(blacklist_ip_add(&mut p, Some(a), &players), Ok(BlacklistAddReport::AlreadyBlacklisted)));
    let again = steel_blacklist_ip_add(&mut p, Some(a), &players).unwrap();
    assert!(again.already_blacklisted);
    assert_eq!(again.disconnected, vec![0]);
    assert_eq!(blacklist_ip_list(&p), vec![a]);
    assert_eq!(blacklist_ip_remove(&mut p, Some(a)), BlacklistRemoveReport::Removed);
    assert_eq!(blacklist_ip_remove(&mut p, Some(a)), BlacklistRemoveReport::NotBlacklisted);
    assert_eq!(steel_blacklist_ip_remove(&mut p, Some(a)), Ok(false));
    assert_eq!(steel_blacklist_ip_remove(&mut p, None), Err(CommandError::InvalidIp));
    assert!(p.can_connect(&a));
}

#[test]
fn lists_are_sorted() {
    let mut p = IpAccessPolicy::empty();
    let ips = [IpAddress::V6(1), v4(10, 0, 0, 2), v4(9, 0, 0, 1), IpAddress::V6(0), v4(10, 0, 0, 2)];
    p.set_whitelist(&ips);
    assert_eq!(
        whitelist_ip_list(&p),
        vec![v4(9, 0, 0, 1), v4(10, 0, 0, 2), IpAddress::V6(0), IpAddress::V6(1)]
    );
    for ip in ips {
        p.shadowban_ip(&ip);
    }
    assert_eq!(blacklist_ip_list(&p).len(), 4);
}

#[test]
fn kick_and_teleport() {
    let kicked = Translation::<0>("multiplayer.disconnect.kicked").msg().component();
    let r = kick_player(&[], None);
    assert_eq!(r.reason, kicked);
    assert_eq!(r.messages, vec![Translation::<0>("commands.kick.owner.failed").msg().component()]);
    let r = kick_player(&["Alex".to_string(), "Sam".to_string()], Some(TextComponent::plain("bye")));
    assert_eq!(r.reason, TextComponent::plain("bye"));
    let success = |name: &str| {
        Translation::<2>("commands.kick.success")
            .message([TextComponent::plain(name.to_string()), TextComponent::plain("bye")])
            .component()
    };
    assert_eq!(r.messages, vec![success("Alex"), success("Sam")]);
    assert_eq!(teleport_message(&["Alex".to_string()], "minecraft:the_nether"), "Teleporting Alex to minecraft:the_nether");
    assert_eq!(
        teleport_message(&["a".to_string(), "b".to_string()], "minecraft:overworld"),
        "Teleporting 2 players to minecraft:overworld"
    );
    let many: Vec<String> = (0..123).map(|i| i.to_string()).collect();
    assert_eq!(teleport_message(&many, "w"), "Teleporting 123 players to w");
    assert_eq!(teleport_message(&[], "w"), "Teleporting 0 players to w");
    assert_eq!(first_switching(&[false, true, true]), Some(1));
    assert_eq!(first_switching(&[false, false]), None);
    assert_eq!(players_with_ip(&[player("q", v4(1, 1, 1, 1))], v4(1, 1, 1, 2)), Vec::<usize>::new());
}

#[test]
fn timed_bans_within_range() {
    let mut p = IpAccessPolicy::empty();
    let a = v4(10, 1, 1, 1);
    let players = vec![player("e", a), player("f", v4(10, 1, 1, 2))];
    match ban_ip_at(&mut p, None, Some(a), Some("spam".to_string()), Some(60 * 24 * 365), &players, now()) {
        Ok(BanIpReport::Banned { disconnected, names, .. }) => {
            assert_eq!(disconnected, vec![0]);
            assert_eq!(names, "e");
        }
        _ => panic!("a timed ban of a new address is stored"),
    }
    assert_eq!(
        p.get_banned_ips()[0].expires,
        Some(UtcTime { secs: 1_700_000_000 + 60 * 60 * 24 * 365, nanos: 5 })
    );
    assert!(matches!(
        ban_ip_at(&mut p, None, Some(a), None, Some(90), &players, now()),
        Ok(BanIpReport::AlreadyBanned)
    ));
    let report = ban_ip_players_at(&mut p, None, &players, None, Some(30), now()).unwrap();
    assert_eq!(report.banned, vec![false, true]);
    assert_eq!(p.get_banned_ips()[1].expires, Some(UtcTime { secs: 1_700_000_000 + 1800, nanos: 5 }));
}

#[test]
fn teleport_steps_by_domain() {
    assert_eq!(
        teleport_steps(&[true, false, true]),
        vec![TeleportStep::WorldSpawn, TeleportStep::DomainSwitch, TeleportStep::WorldSpawn]
    );
    assert!(teleport_steps(&[]).is_empty());
}

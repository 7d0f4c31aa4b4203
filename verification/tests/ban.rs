use steel_core::ban::{BannedIP, IpAccessPolicy};
use steel_core::net::IpAddress;
use steel_core::time::UtcTime;

fn v4(a: u8, b: u8, c: u8, d: u8) -> IpAddress {
    IpAddress::V4(u32::from_be_bytes([a, b, c, d]))
}

#[test]
fn legacy_ban_and_gates() {
    let mut p = IpAccessPolicy::empty();
    let a = v4(1, 2, 3, 4);
    assert!(p.can_join(a));
    assert!(p.can_join_preconnecting(a));
    p.ban_ip_at(a, "op".to_string(), "r".to_string(), None, UtcTime { secs: 1, nanos: 0 });
    assert!(!p.can_join(a));
    assert!(p.can_join_preconnecting(a));
    p.ban_ip(a, "op".to_string(), "again".to_string(), None);
    assert_eq!(p.banned_count(), 2);
    p.set_blacklisted_ips(vec![a]);
    assert!(!p.can_join_preconnecting(a));
    p.white_list_ip(v4(9, 9, 9, 9));
    assert_eq!(p.whitelisted_ips(), vec![v4(9, 9, 9, 9)]);
    assert_eq!(p.blacklisted_ips(), vec![a]);
    p.expire_bans();
    assert_eq!(p.banned_count(), 2);
    p.set_banned_ips(vec![BannedIP {
        ip: v4(5, 5, 5, 5),
        created: UtcTime { secs: 2, nanos: 0 },
        source: "s".to_string(),
        expires: None,
        reason: "x".to_string(),
    }]);
    assert!(!p.can_join(a));
    assert!(p.can_join(v4(9, 9, 9, 9)));
    assert!(!p.can_join_preconnecting(v4(7, 7, 7, 7)));
    assert!(p.can_join_preconnecting(v4(9, 9, 9, 9)));
    assert_eq!(p.banned_ips().len(), 1);
    p.set_whitelisted_ips(vec![]);
    assert!(p.whitelisted_ips().is_empty());
    assert!(p.can_join(a));
    assert!(!p.can_join(v4(5, 5, 5, 5)));
    assert!(p.can_join_preconnecting(v4(7, 7, 7, 7)));
}

#[test]
fn whitelist_gates_join_while_it_holds_an_address() {
    let mut p = IpAccessPolicy::empty();
    p.white_list_ip(v4(1, 2, 3, 4));
    assert!(p.can_join(v4(1, 2, 3, 4)));
    assert!(!p.can_join(v4(5, 6, 7, 8)));
    p.set_whitelisted_ips(vec![v4(5, 6, 7, 8)]);
    assert!(p.can_join(v4(5, 6, 7, 8)));
    assert!(!p.can_join(v4(1, 2, 3, 4)));
}

#[test]
fn legacy_expiry_sweep() {
    let mut p = IpAccessPolicy::empty();
    let a = v4(1, 1, 1, 1);
    let b = v4(2, 2, 2, 2);
    p.ban_ip_at(a, "op".to_string(), "r".to_string(), Some(UtcTime { secs: 100, nanos: 0 }), UtcTime { secs: 1, nanos: 0 });
    p.ban_ip_at(b, "op".to_string(), "r".to_string(), Some(UtcTime { secs: 300, nanos: 0 }), UtcTime { secs: 1, nanos: 0 });
    p.expire_bans_at(UtcTime { secs: 200, nanos: 0 });
    assert_eq!(p.banned_count(), 1);
    assert!(p.can_join(a));
    assert!(!p.can_join(b));
    p.expire_bans();
    assert_eq!(p.banned_count(), 0);
}

use steel_core::cli::{
    convert_banned_ip_apply, convert_banned_ip_check, entries_suffix, existing_steel_bans,
    ConvertFailure, VanillaBansFile,
};
use steel_core::ip_access_policy::{BannedIP, IpAccessPolicy};
use steel_core::net::IpAddress;
use steel_core::time::UtcTime;
use text_components::TextComponent;

#[test]
fn conversion_refuses_over_existing_bans() {
    assert_eq!(convert_banned_ip_check(0, false), Ok(()));
    assert_eq!(convert_banned_ip_check(3, false), Err(ConvertFailure::ExistingBans(3)));
    assert_eq!(convert_banned_ip_check(3, true), Ok(()));
    assert_eq!(entries_suffix(1), "y");
    assert_eq!(entries_suffix(0), "ies");
    assert_eq!(entries_suffix(2), "ies");
}

#[test]
fn conversion_replaces_bans() {
    let mut p = IpAccessPolicy::empty();
    let s = IpAddress::V4(7);
    p.shadowban_ip(&s);
    assert_eq!(convert_banned_ip_apply(&mut p, VanillaBansFile::Missing), Err(ConvertFailure::VanillaMissing));
    assert_eq!(convert_banned_ip_apply(&mut p, VanillaBansFile::Unreadable), Err(ConvertFailure::VanillaUnreadable));
    let entry = BannedIP {
        ip: IpAddress::V4(1),
        created: UtcTime { secs: 0, nanos: 0 },
        source: "vanilla".to_string(),
        expires: None,
        reason: TextComponent::plain("r"),
    };
    assert_eq!(convert_banned_ip_apply(&mut p, VanillaBansFile::Loaded(vec![entry])), Ok(1));
    assert!(p.is_banned(&IpAddress::V4(1)));
    assert!(p.is_shadowbanned(&s));
}

#[test]
fn only_bans_of_steels_own_file_count_as_existing() {
    assert_eq!(existing_steel_bans(true, 3), 3);
    assert_eq!(existing_steel_bans(false, 3), 0);
    assert_eq!(existing_steel_bans(true, 0), 0);
}

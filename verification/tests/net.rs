use steel_core::net::{from_key, sorted_addresses, IpAddress};

#[test]
fn keys_and_order() {
    let a = IpAddress::V4(0xffff_ffff);
    let b = IpAddress::V6(0);
    assert_eq!(a.key(), (false, 0xffff_ffff));
    assert_eq!(from_key(b.key()), b);
    assert!(a.precedes(&b));
    assert!(!b.precedes(&a));
    assert!(IpAddress::V6(1).precedes(&IpAddress::V6(2)));
    assert_eq!(
        sorted_addresses(vec![b, a, IpAddress::V4(3), a]),
        vec![IpAddress::V4(3), a, b]
    );
    assert!(sorted_addresses(vec![]).is_empty());
}

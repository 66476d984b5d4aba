use api::decimal::{format_u64, parse_u64};
use api::Permissions;

#[test]
fn test_permissions() {
    let user_perm = Permissions::TEXTURE_USE;
    let creator_perm = Permissions::TEXTURE_EDIT;
    let admin_perm = Permissions::GROUP_EDIT | Permissions::USER_EDIT;

    println!("{:?}", user_perm);
    println!("{:?}", creator_perm);
    println!("{:?}", admin_perm);
}

#[test]
fn flag_bits_are_the_documented_ones() {
    assert_eq!(Permissions::TEXTURE_EDIT, 1 << 0);
    assert_eq!(Permissions::TEXTURE_USE, 1 << 1);
    assert_eq!(Permissions::USER_EDIT, 1 << 20);
    assert_eq!(Permissions::GROUP_EDIT, 1 << 21);
    assert_eq!(Permissions::all().bits(), (1 << 0) | (1 << 1) | (1 << 20) | (1 << 21));
    assert!(Permissions::empty().is_empty());
    assert_eq!(Permissions::default(), Permissions::empty());
}

#[test]
fn contains_insert_remove_set() {
    let mut p = Permissions::empty();
    assert!(!p.contains(Permissions::TEXTURE_EDIT));
    p.insert(Permissions::TEXTURE_EDIT | Permissions::TEXTURE_USE);
    assert!(p.contains(Permissions::TEXTURE_EDIT));
    assert!(p.contains(Permissions::TEXTURE_USE));
    assert!(!p.contains(Permissions::TEXTURE_EDIT | Permissions::USER_EDIT));
    assert!(p.intersects(Permissions::TEXTURE_EDIT | Permissions::USER_EDIT));
    p.remove(Permissions::TEXTURE_EDIT);
    assert!(!p.contains(Permissions::TEXTURE_EDIT));
    assert!(p.contains(Permissions::TEXTURE_USE));
    p.set(Permissions::GROUP_EDIT, true);
    assert!(p.contains(Permissions::GROUP_EDIT));
    p.set(Permissions::GROUP_EDIT, false);
    assert!(!p.contains(Permissions::GROUP_EDIT));
    assert_eq!(p.bits(), Permissions::TEXTURE_USE);
}

#[test]
fn union_and_bitor_agree() {
    let a = Permissions::from_bits_retain(Permissions::USER_EDIT);
    let b = Permissions::from_bits_retain(Permissions::GROUP_EDIT);
    assert_eq!((a | b).bits(), Permissions::USER_EDIT | Permissions::GROUP_EDIT);
    assert_eq!(a.union(b), a | b);
}

#[test]
fn from_str_reads_decimal_bits() {
    assert_eq!(Permissions::from_str("3").bits(), 3);
    assert_eq!(Permissions::from_str("+3").bits(), 3);
    assert_eq!(Permissions::from_str("0003").bits(), 3);
    assert_eq!(Permissions::from_str("18446744073709551615").bits(), u64::MAX);
    assert_eq!(Permissions::from_str("18446744073709551616").bits(), 0);
    assert_eq!(Permissions::from_str("-1").bits(), 0);
    assert_eq!(Permissions::from_str("").bits(), 0);
    assert_eq!(Permissions::from_str("+").bits(), 0);
    assert_eq!(Permissions::from_str(" 3").bits(), 0);
    assert_eq!(Permissions::from_str("3a").bits(), 0);
}

#[test]
fn to_str_writes_decimal_bits() {
    assert_eq!(Permissions::empty().to_str(), "0");
    assert_eq!(Permissions::from_bits_retain(3145731).to_str(), "3145731");
    assert_eq!(Permissions::from_bits_retain(u64::MAX).to_str(), "18446744073709551615");
}

#[test]
fn text_round_trip_keeps_permissions() {
    for bits in [0u64, 1, 2, 9, 10, 1 << 20, 3145731, u64::MAX - 1, u64::MAX] {
        let p = Permissions::from_bits_retain(bits);
        assert_eq!(Permissions::from_str(&p.to_str()), p);
    }
}

#[test]
fn i64_round_trip_keeps_permissions() {
    for bits in [0u64, 3, 1 << 21, 1 << 63, u64::MAX] {
        let p = Permissions::from_bits_retain(bits);
        let stored: i64 = p.into();
        assert_eq!(Permissions::from(stored), p);
    }
    assert_eq!(Permissions::from(-1i64).bits(), u64::MAX);
}

#[test]
fn all_named_lists_each_flag() {
    let named = Permissions::all_named();
    assert_eq!(
        named,
        vec![
            (Permissions::TEXTURE_EDIT, "TEXTURE_EDIT"),
            (Permissions::TEXTURE_USE, "TEXTURE_USE"),
            (Permissions::USER_EDIT, "USER_EDIT"),
            (Permissions::GROUP_EDIT, "GROUP_EDIT"),
        ]
    );
}

#[test]
fn decimal_helpers() {
    assert_eq!(parse_u64("42"), Some(42));
    assert_eq!(parse_u64("4 2"), None);
    assert_eq!(format_u64(0), "0");
    assert_eq!(format_u64(1234567890), "1234567890");
}

#[test]
fn canonical_numerals_read_and_write_back() {
    for s in ["0", "7", "10", "1048579", "3145731", "18446744073709551615"] {
        assert_eq!(Permissions::from_str(s).to_str(), s);
    }
    // Not canonical: the written text differs.
    assert_eq!(Permissions::from_str("007").to_str(), "7");
    assert_eq!(Permissions::from_str("+7").to_str(), "7");
}

use entity_cache::permissions::{
    parse_u128, EncodingError, Permissions, ADMINISTRATOR, DEAFEN_MEMBERS, MANAGE_EMOJIS,
};

#[test]
fn test_permissions() {
    let permissions = Permissions::from_bits_truncate(DEAFEN_MEMBERS);

    assert_eq!(permissions.to_text(), "8388608");
    assert_eq!(Permissions::from_text("8388608"), Ok(permissions));
    assert_eq!(Permissions::from_u64(8388608), permissions);
}

#[test]
fn numeric_encoding() {
    let p = Permissions::from_bits_truncate(DEAFEN_MEMBERS);
    assert_eq!(p.to_u64(), Ok(8388608));
    assert_eq!(Permissions::empty().to_u64(), Ok(0));
    assert_eq!(Permissions::all().to_u64(), Ok(0x7FFF_FFFF));
}

#[test]
fn unnamed_bits_are_dropped() {
    let p = Permissions::from_bits_truncate(u128::MAX);
    assert_eq!(p.bits(), 0x7FFF_FFFF);
    assert_eq!(Permissions::from_bits(1u128 << 40), None);
    assert_eq!(Permissions::from_bits(ADMINISTRATOR).map(|p| p.bits()), Some(8));
    assert_eq!(Permissions::from_text("340282366920938463463374607431768211455").map(|p| p.bits()), Ok(0x7FFF_FFFF));
}

#[test]
fn flags_and_union() {
    let p = Permissions::from_bits_truncate(ADMINISTRATOR).union(Permissions::from_bits_truncate(MANAGE_EMOJIS));
    assert!(p.contains(ADMINISTRATOR));
    assert!(p.contains(ADMINISTRATOR | MANAGE_EMOJIS));
    assert!(!p.contains(DEAFEN_MEMBERS));
    assert_eq!(p.to_text(), "1073741832");
}

#[test]
fn decimal_parsing() {
    assert_eq!(parse_u128("0"), Some(0));
    assert_eq!(parse_u128("+42"), Some(42));
    assert_eq!(parse_u128(""), None);
    assert_eq!(parse_u128("+"), None);
    assert_eq!(parse_u128("-1"), None);
    assert_eq!(parse_u128("12a"), None);
    assert_eq!(parse_u128("340282366920938463463374607431768211455"), Some(u128::MAX));
    assert_eq!(parse_u128("340282366920938463463374607431768211456"), None);
    assert_eq!(parse_u128("3402823669209384634633746074317682114550"), None);
    assert_eq!(Permissions::from_text("abc"), Err(EncodingError::NotDecimal));
}

#[test]
fn text_encoding_is_decimal() {
    assert_eq!(Permissions::empty().to_text(), "0");
    assert_eq!(Permissions::all().to_text(), "2147483647");
}

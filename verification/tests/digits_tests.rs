use bridge_vaults_exporter::address::Address;
use bridge_vaults_exporter::digits::{dec_to_u32, u128_to_hex_fixed, u32_to_dec};
use bridge_vaults_exporter::printed_num::PrintedNum;

#[test]
fn u32_to_dec_renders_canonical_numerals() {
    assert_eq!(u32_to_dec(0), "0");
    assert_eq!(u32_to_dec(7), "7");
    assert_eq!(u32_to_dec(86400), "86400");
    assert_eq!(u32_to_dec(u32::MAX), "4294967295");
}

#[test]
fn dec_to_u32_parses_exactly() {
    assert_eq!(dec_to_u32("0"), Some(0));
    assert_eq!(dec_to_u32("86400"), Some(86400));
    assert_eq!(dec_to_u32("4294967295"), Some(u32::MAX));
    assert_eq!(dec_to_u32("4294967296"), None);
    assert_eq!(dec_to_u32(""), None);
    assert_eq!(dec_to_u32("12a"), None);
    assert_eq!(dec_to_u32("-1"), None);
    assert_eq!(dec_to_u32("99999999999999999999"), None);
}

#[test]
fn hex_rendering_is_fixed_width_lower_case() {
    assert_eq!(u128_to_hex_fixed(0, 8), "00000000");
    assert_eq!(u128_to_hex_fixed(0xdeadbeef, 8), "deadbeef");
    assert_eq!(u128_to_hex_fixed(0xff, 4), "00ff");
}

#[test]
fn address_round_trips_through_bytes_and_hex() {
    let mut bytes = vec![0u8; 20];
    bytes[0] = 0x12;
    bytes[3] = 0x34;
    bytes[19] = 0xef;
    let a = Address::from_bytes(&bytes);
    assert_eq!(a.to_bytes(), bytes);
    assert_eq!(a.to_hex(), "0x12000034000000000000000000000000000000ef");
}

#[test]
fn printed_num_prints_as_is_and_knows_zero() {
    let z = PrintedNum::zero();
    assert!(z.is_zero());
    assert_eq!(z.as_str(), "0");
    let one = PrintedNum::one();
    assert!(!one.is_zero());
    assert_eq!(one.as_str(), "1");
    let big = PrintedNum("123456789012345678901234567890");
    assert!(!big.is_zero());
    assert_eq!(big.as_str(), "123456789012345678901234567890");
    assert!(!PrintedNum("00").is_zero());
}

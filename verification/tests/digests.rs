use ledger_core::digest::{bytes32_equal, Digest};
use ledger_core::encoding::{append_bytes, u64_be_bytes};
use ledger_core::hasher::{hash_bytes, ShaHasher};
use ledger_core::payments::types::Address;
use sparse_merkle_tree::traits::Hasher;

fn hex(bytes: &[u8]) -> String {
    bytes.iter().map(|b| format!("{:02x}", b)).collect()
}

#[test]
fn zero_digest_is_all_zero() {
    let zero = Digest::zero();
    assert_eq!(zero.bytes, [0u8; 32]);
    assert!(zero.is_zero());
}

#[test]
fn a_single_set_bit_is_not_zero() {
    let mut bytes = [0u8; 32];
    bytes[17] = 0x80;
    assert!(!Digest::from_bytes(bytes).is_zero());
    let mut last = [0u8; 32];
    last[31] = 1;
    assert!(!Digest::from_bytes(last).is_zero());
}

#[test]
fn same_compares_every_byte() {
    let mut a = [7u8; 32];
    let b = [7u8; 32];
    assert!(Digest::from_bytes(a).same(&Digest::from_bytes(b)));
    assert!(bytes32_equal(&a, &b));
    a[31] = 8;
    assert!(!Digest::from_bytes(a).same(&Digest::from_bytes(b)));
    assert!(!bytes32_equal(&a, &b));
    a[31] = 7;
    a[0] = 0;
    assert!(!Digest::from_bytes(a).same(&Digest::from_bytes(b)));
}

#[test]
fn or_one_moves_only_the_zero_digest() {
    let mut one = [0u8; 32];
    one[31] = 1;
    assert_eq!(Digest::zero().or_one().bytes, one);
    let other = Digest::from_bytes([9u8; 32]);
    assert_eq!(other.or_one(), other);
    assert_eq!(Digest::from_bytes(one).or_one().bytes, one);
}

#[test]
fn u64_is_written_most_significant_byte_first() {
    assert_eq!(u64_be_bytes(0x0102_0304_0506_0708), [1, 2, 3, 4, 5, 6, 7, 8]);
    assert_eq!(u64_be_bytes(0), [0u8; 8]);
    assert_eq!(u64_be_bytes(1000), [0, 0, 0, 0, 0, 0, 0x03, 0xe8]);
    assert_eq!(u64_be_bytes(u64::MAX), [0xff; 8]);
    assert_eq!(u64_be_bytes(256), [0, 0, 0, 0, 0, 0, 1, 0]);
}

#[test]
fn append_bytes_keeps_what_was_there() {
    let mut buffer = vec![1u8, 2];
    append_bytes(&mut buffer, &[3, 4, 5]);
    assert_eq!(buffer, vec![1, 2, 3, 4, 5]);
    append_bytes(&mut buffer, &[]);
    assert_eq!(buffer, vec![1, 2, 3, 4, 5]);
}

#[test]
fn sha256_of_known_inputs() {
    assert_eq!(
        hex(&hash_bytes(b"abc").bytes),
        "ba7816bf8f01cfea414140de5dae2223b00361a396177a9cb410ff61f20015ad"
    );
    assert_eq!(
        hex(&hash_bytes(b"").bytes),
        "e3b0c44298fc1c149afbf4c8996fb92427ae41e4649b934ca495991b7852b855"
    );
}

#[test]
fn hasher_digests_the_concatenation_of_what_was_written() {
    let mut hasher = ShaHasher::new();
    hasher.absorb_byte(b'a');
    hasher.absorb(b"bc");
    assert_eq!(hasher.into_digest(), hash_bytes(b"abc"));
    assert_eq!(ShaHasher::new().into_digest(), hash_bytes(b""));
    assert_eq!(ShaHasher::default().into_digest(), hash_bytes(b""));
}

#[test]
fn hasher_serves_the_tree_through_its_trait() {
    let mut hasher = ShaHasher::default();
    Hasher::write_byte(&mut hasher, b'a');
    Hasher::write_byte(&mut hasher, b'b');
    Hasher::write_byte(&mut hasher, b'c');
    let out: [u8; 32] = Hasher::finish(hasher).into();
    assert_eq!(out, hash_bytes(b"abc").bytes);

    let mut hasher = ShaHasher::default();
    Hasher::write_h256(&mut hasher, &sparse_merkle_tree::H256::from([5u8; 32]));
    let out: [u8; 32] = Hasher::finish(hasher).into();
    assert_eq!(out, hash_bytes(&[5u8; 32]).bytes);
}

#[test]
fn address_of_small_numbers() {
    let mut expected = [0u8; 32];
    expected[31] = 1;
    assert_eq!(Address::from_decimal("1"), Some(Address(expected)));
    expected[31] = 2;
    assert_eq!(Address::from_decimal("2"), Some(Address(expected)));
    expected[31] = 0;
    expected[30] = 1;
    assert_eq!(Address::from_decimal("256"), Some(Address(expected)));
    assert_eq!(Address::from_decimal("0256"), Some(Address(expected)));
}

#[test]
fn address_of_the_empty_string_is_zero() {
    assert_eq!(Address::from_decimal(""), Some(Address([0u8; 32])));
    assert_eq!(Address::from_decimal("0"), Some(Address([0u8; 32])));
}

#[test]
fn address_of_the_largest_number() {
    let largest =
        "115792089237316195423570985008687907853269984665640564039457584007913129639935";
    assert_eq!(Address::from_decimal(largest), Some(Address([0xff; 32])));
    let too_large =
        "115792089237316195423570985008687907853269984665640564039457584007913129639936";
    assert_eq!(Address::from_decimal(too_large), None);
}

#[test]
fn address_of_what_is_no_decimal_number() {
    assert_eq!(Address::from_decimal("12a"), None);
    assert_eq!(Address::from_decimal("-1"), None);
    assert_eq!(Address::from_decimal("+1"), None);
    assert_eq!(Address::from_decimal(" 1"), None);
    assert_eq!(Address::from_decimal("0x10"), None);
    assert_eq!(Address::from_decimal("١"), None);
}

#[test]
fn address_key_is_the_address() {
    let address = Address::from_decimal("77").unwrap();
    assert_eq!(address.get_key().bytes, address.0);
    assert!(address.same(&Address::from_decimal("077").unwrap()));
    assert!(!address.same(&Address::from_decimal("78").unwrap()));
}

use upgrade_verifier::alias::apply_l2_to_l1_alias;
use upgrade_verifier::bytes::{address_from_u64, bytes_eq, is_all_zero, word_from_u64, word_is};

fn address_from_hex(s: &str) -> [u8; 20] {
    let mut a = [0u8; 20];
    for i in 0..20 {
        a[i] = u8::from_str_radix(&s[2 * i..2 * i + 2], 16).unwrap();
    }
    a
}

#[test]
fn alias_of_zero_is_the_offset() {
    assert_eq!(
        apply_l2_to_l1_alias([0u8; 20]),
        address_from_hex("1111000000000000000000000000000000001111")
    );
}

#[test]
fn alias_wraps_around() {
    assert_eq!(
        apply_l2_to_l1_alias([0xffu8; 20]),
        address_from_hex("1111000000000000000000000000000000001110")
    );
}

#[test]
fn alias_carries_between_bytes() {
    assert_eq!(
        apply_l2_to_l1_alias(address_from_u64(0xffff)),
        address_from_hex("1111000000000000000000000000000000011110")
    );
    assert_eq!(
        apply_l2_to_l1_alias(address_from_hex("36615cf349d7f6344891b1e7ca7c72883f5dc049")),
        address_from_hex("47725cf349d7f6344891b1e7ca7c72883f5dd15a")
    );
}

#[test]
fn words_and_addresses_from_numbers() {
    let w = word_from_u64(0x0102_0304_0506_0708);
    assert_eq!(&w[..24], &[0u8; 24]);
    assert_eq!(&w[24..], &[1, 2, 3, 4, 5, 6, 7, 8]);
    assert!(word_is(&w, 0x0102_0304_0506_0708));
    assert!(!word_is(&w, 0x0102_0304_0506_0709));
    let a = address_from_u64(0x10004);
    assert_eq!(a, address_from_hex("0000000000000000000000000000000000010004"));
    assert!(is_all_zero(&word_from_u64(0)));
    assert!(!is_all_zero(&word_from_u64(1)));
    assert!(bytes_eq(&[1, 2], &[1, 2]));
    assert!(!bytes_eq(&[1, 2], &[1, 2, 3]));
    assert!(!bytes_eq(&[1, 2], &[1, 3]));
}

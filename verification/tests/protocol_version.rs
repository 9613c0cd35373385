use upgrade_verifier::protocol_version::{
    get_expected_new_protocol_version, get_expected_old_protocol_version,
    get_expected_v28_protocol_version, parse_protocol_version, ProtocolVersion,
};

fn v(major: u64, minor: u64, patch: u64) -> ProtocolVersion {
    ProtocolVersion { major, minor, patch }
}

#[test]
fn expected_versions() {
    assert_eq!(get_expected_new_protocol_version(), v(0, 29, 1));
    assert_eq!(get_expected_old_protocol_version(), v(0, 28, 1));
    assert_eq!(get_expected_v28_protocol_version(), v(0, 28, 0));
}

#[test]
fn parse_accepts_leading_v_and_plus() {
    assert_eq!(parse_protocol_version("v0.29.1"), Some(v(0, 29, 1)));
    assert_eq!(parse_protocol_version("vv1.2.3"), Some(v(1, 2, 3)));
    assert_eq!(parse_protocol_version("+1.+2.3"), Some(v(1, 2, 3)));
    assert_eq!(
        parse_protocol_version("18446744073709551615.0.0"),
        Some(v(u64::MAX, 0, 0))
    );
}

#[test]
fn parse_rejects_malformed() {
    assert_eq!(parse_protocol_version("0.29"), None);
    assert_eq!(parse_protocol_version("0.29.1.0"), None);
    assert_eq!(parse_protocol_version("0..1"), None);
    assert_eq!(parse_protocol_version("0.29.x"), None);
    assert_eq!(parse_protocol_version("-0.29.1"), None);
    assert_eq!(parse_protocol_version("0.+.1"), None);
    assert_eq!(parse_protocol_version("18446744073709551616.0.0"), None);
    assert_eq!(parse_protocol_version(""), None);
}

#[test]
fn version_from_packed_word() {
    let mut w = [0u8; 32];
    // minor 29 in bits 32..64, patch 1 in the low 32 bits, major 2 above.
    w[23] = 2;
    w[27] = 29;
    w[31] = 1;
    // Bytes above the three fields are ignored.
    w[0] = 0xff;
    assert_eq!(ProtocolVersion::from_word(&w), v(2, 29, 1));
    let mut big = [0u8; 32];
    big[24] = 0x01;
    big[25] = 0x02;
    big[26] = 0x03;
    big[27] = 0x04;
    assert_eq!(ProtocolVersion::from_word(&big), v(0, 0x01020304, 0));
}

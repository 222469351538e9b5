use ncn_core::parse_hex_32;

#[test]
fn parses_lower_and_upper_case() {
    let text = "00112233445566778899aabbccddeeffAABBCCDDEEFF0123456789abcdefABCD";
    let bytes = parse_hex_32(text).unwrap();
    assert_eq!(bytes[0], 0x00);
    assert_eq!(bytes[1], 0x11);
    assert_eq!(bytes[15], 0xff);
    assert_eq!(bytes[16], 0xaa);
    assert_eq!(bytes[21], 0xff);
    assert_eq!(bytes[31], 0xcd);
    assert_eq!(bytes.to_vec(), hex::decode(text).unwrap());
}

#[test]
fn odd_length_is_invalid_hex() {
    let text = "0".repeat(63);
    assert_eq!(parse_hex_32(&text), Err("Invalid hex: Odd number of digits".to_string()));
}

#[test]
fn bad_character_is_invalid_hex() {
    let mut text = "a".repeat(64);
    text.replace_range(3..4, "g");
    assert_eq!(
        parse_hex_32(&text),
        Err("Invalid hex: Invalid character 'g' at position 3".to_string())
    );
}

#[test]
fn wrong_number_of_bytes() {
    let expected = Err("Expected 64 hex characters (32 bytes)".to_string());
    assert_eq!(parse_hex_32(&"ab".repeat(31)), expected);
    assert_eq!(parse_hex_32(&"ab".repeat(33)), expected);
    assert_eq!(parse_hex_32(""), expected);
}

#[test]
fn first_bad_character_is_reported() {
    let mut text = "0".repeat(64);
    text.replace_range(10..11, "z");
    text.replace_range(20..21, "g");
    assert_eq!(
        parse_hex_32(&text),
        Err("Invalid hex: Invalid character 'z' at position 10".to_string())
    );
}

#[test]
fn odd_length_is_reported_before_bad_characters() {
    assert_eq!(parse_hex_32("xyz"), Err("Invalid hex: Odd number of digits".to_string()));
}

#[test]
fn bad_character_in_second_digit_of_a_pair() {
    assert_eq!(
        parse_hex_32("0G"),
        Err("Invalid hex: Invalid character 'G' at position 1".to_string())
    );
}

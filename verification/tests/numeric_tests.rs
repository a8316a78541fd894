use krun::numeric::{parse_u32_bytes, u32_to_dec_string};

#[test]
fn format_zero() {
    assert_eq!(u32_to_dec_string(0), String::from("0"));
}

#[test]
fn format_port() {
    assert_eq!(u32_to_dec_string(5000), String::from("5000"));
}

#[test]
fn format_largest() {
    assert_eq!(u32_to_dec_string(u32::MAX), String::from("4294967295"));
}

#[test]
fn parse_plain_number() {
    assert_eq!(parse_u32_bytes(&b"55123".to_vec()), Some(55123));
}

#[test]
fn parse_with_plus_sign() {
    assert_eq!(parse_u32_bytes(&b"+42".to_vec()), Some(42));
}

#[test]
fn parse_leading_zeros() {
    assert_eq!(parse_u32_bytes(&b"0042".to_vec()), Some(42));
}

#[test]
fn parse_rejects_empty() {
    assert_eq!(parse_u32_bytes(&Vec::new()), None);
    assert_eq!(parse_u32_bytes(&b"+".to_vec()), None);
}

#[test]
fn parse_rejects_trailing_garbage() {
    assert_eq!(parse_u32_bytes(&b"12a".to_vec()), None);
    assert_eq!(parse_u32_bytes(&b"55123\n".to_vec()), None);
}

#[test]
fn parse_rejects_negative() {
    assert_eq!(parse_u32_bytes(&b"-1".to_vec()), None);
}

#[test]
fn parse_rejects_overflow() {
    assert_eq!(parse_u32_bytes(&b"4294967295".to_vec()), Some(u32::MAX));
    assert_eq!(parse_u32_bytes(&b"4294967296".to_vec()), None);
    assert_eq!(parse_u32_bytes(&b"99999999999999999999".to_vec()), None);
}

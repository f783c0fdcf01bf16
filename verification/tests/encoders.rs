use rama_client::builder::{
    rama_byte, rama_char, rama_function, rama_keyword, rama_long, rama_ops_function, rama_short,
};
use rama_client::text::{i64_to_decimal, parse_port, u64_to_decimal};
use rama_client::wire::WireValue;

fn encoded(v: &WireValue) -> &str {
    match v {
        WireValue::Str(s) => s.as_str(),
        _ => panic!("expected an encoded string value"),
    }
}

#[test]
fn long_negative() {
    assert_eq!(encoded(&rama_long(-42)), "#__L-42");
}

#[test]
fn long_zero_and_positive() {
    assert_eq!(encoded(&rama_long(0)), "#__L0");
    assert_eq!(encoded(&rama_long(7)), "#__L7");
    assert_eq!(encoded(&rama_long(1234567890123)), "#__L1234567890123");
}

#[test]
fn long_extremes() {
    assert_eq!(encoded(&rama_long(i64::MAX)), "#__L9223372036854775807");
    assert_eq!(encoded(&rama_long(i64::MIN)), "#__L-9223372036854775808");
}

#[test]
fn byte_values() {
    assert_eq!(encoded(&rama_byte(0)), "#__B0");
    assert_eq!(encoded(&rama_byte(-128)), "#__B-128");
    assert_eq!(encoded(&rama_byte(127)), "#__B127");
}

#[test]
fn short_values() {
    assert_eq!(encoded(&rama_short(-32768)), "#__S-32768");
    assert_eq!(encoded(&rama_short(32767)), "#__S32767");
    assert_eq!(encoded(&rama_short(-1)), "#__S-1");
}

#[test]
fn char_values() {
    assert_eq!(encoded(&rama_char('x')), "#__Cx");
    assert_eq!(encoded(&rama_char('0')), "#__C0");
    assert_eq!(encoded(&rama_char('é')), "#__Cé");
}

#[test]
fn keyword_values() {
    assert_eq!(encoded(&rama_keyword("user-id")), "#__Kuser-id");
    assert_eq!(encoded(&rama_keyword("")), "#__K");
}

#[test]
fn function_values() {
    assert_eq!(encoded(&rama_function("my.ns/pred")), "#__fmy.ns/pred");
}

#[test]
fn ops_function_values() {
    assert_eq!(encoded(&rama_ops_function("IS_EVEN")), "#__fOps.IS_EVEN");
}

#[test]
fn decimal_rendering() {
    assert_eq!(u64_to_decimal(0), "0");
    assert_eq!(u64_to_decimal(10), "10");
    assert_eq!(u64_to_decimal(u64::MAX), "18446744073709551615");
    assert_eq!(i64_to_decimal(-305), "-305");
}

#[test]
fn port_parsing_matches_standard_parse() {
    for s in ["0", "80", "8080", "+8080", "65535", "65536", "99999", "", "+", "12a", "a12", "-1"] {
        assert_eq!(parse_port(s), s.parse::<u16>().ok(), "port text {:?}", s);
    }
}

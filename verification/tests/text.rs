use approuter::text::{
    before, dec_chars, parse_u16, parse_u64, parse_u8, split_chars, str_chars, trim_chars,
    trim_end_char, trim_start_char,
};

fn s(v: Vec<char>) -> String {
    v.into_iter().collect()
}

#[test]
fn number_parsing() {
    assert_eq!(parse_u8(&str_chars("255")), Some(255));
    assert_eq!(parse_u8(&str_chars("256")), None);
    assert_eq!(parse_u16(&str_chars("+65535")), Some(65535));
    assert_eq!(parse_u16(&str_chars("65536")), None);
    assert_eq!(parse_u16(&str_chars("")), None);
    assert_eq!(parse_u16(&str_chars("8a")), None);
    assert_eq!(parse_u64(&str_chars("18446744073709551615")), Some(u64::MAX));
    assert_eq!(parse_u64(&str_chars("18446744073709551616")), None);
    assert_eq!(s(dec_chars(0)), "0");
    assert_eq!(s(dec_chars(1200)), "1200");
}

#[test]
fn trimming_and_splitting() {
    assert_eq!(s(trim_chars(&str_chars("  a b \t"))), "a b");
    assert_eq!(s(trim_end_char(&str_chars("x//"), '/')), "x");
    assert_eq!(s(trim_start_char(&str_chars("..x"), '.')), "x");
    assert_eq!(s(before(&str_chars("host:443"), ':')), "host");
    let parts: Vec<String> = split_chars(&str_chars("a..b"), '.').into_iter().map(s).collect();
    assert_eq!(parts, ["a", "", "b"]);
}

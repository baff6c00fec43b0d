use rigel::text::{chars_less, chars_of, str_concat, find_char, parse_u16, push_decimal, split_on};

#[test]
fn parse_u16_accepts_plain_and_plus_numbers() {
    assert_eq!(parse_u16("22"), Some(22));
    assert_eq!(parse_u16("+2222"), Some(2222));
    assert_eq!(parse_u16("0022"), Some(22));
    assert_eq!(parse_u16("65535"), Some(65535));
    assert_eq!(parse_u16("0"), Some(0));
}

#[test]
fn parse_u16_refuses_what_str_parse_refuses() {
    assert_eq!(parse_u16(""), None);
    assert_eq!(parse_u16("+"), None);
    assert_eq!(parse_u16("-1"), None);
    assert_eq!(parse_u16("65536"), None);
    assert_eq!(parse_u16("99999999999"), None);
    assert_eq!(parse_u16("22a"), None);
    assert_eq!(parse_u16(" 22"), None);
    assert_eq!(parse_u16("++1"), None);
}

#[test]
fn parse_u16_matches_std() {
    for s in ["1", "+7", "-0", "000", "65535", "65536", "12x", "", "+", "4294967296"] {
        assert_eq!(parse_u16(s), s.parse::<u16>().ok(), "input {s:?}");
    }
}

#[test]
fn push_decimal_writes_digits() {
    let mut s = String::from("n=");
    push_decimal(&mut s, 0);
    assert_eq!(s, "n=0");
    let mut t = String::new();
    push_decimal(&mut t, 18446744073709551615);
    assert_eq!(t, "18446744073709551615");
    let mut u = String::new();
    push_decimal(&mut u, 2222);
    assert_eq!(u, "2222");
}

#[test]
fn split_on_behaves_like_str_split() {
    for s in ["a,b,c", "", ",", "a,,b,", "no separator", ",lead"] {
        let expected: Vec<String> = s.split(',').map(|p| p.to_string()).collect();
        assert_eq!(split_on(s, ','), expected, "input {s:?}");
    }
}

#[test]
fn chars_round_trip_and_find() {
    let cs = chars_of("héllo wörld");
    assert_eq!(cs.len(), 11);
    assert_eq!(cs.iter().collect::<String>(), "héllo wörld");
    assert_eq!(find_char(&cs, ' '), Some(5));
    assert_eq!(find_char(&cs, 'z'), None);
    assert_eq!(str_concat("ab", "cd"), "abcd");
}

#[test]
fn chars_less_is_lexicographic() {
    let a = chars_of("abc");
    let b = chars_of("abd");
    let c = chars_of("ab");
    assert!(chars_less(&a, &b));
    assert!(!chars_less(&b, &a));
    assert!(chars_less(&c, &a));
    assert!(!chars_less(&a, &a));
    for (x, y) in [("a", "b"), ("é", "z"), ("Z", "a"), ("", "a"), ("b", "")] {
        assert_eq!(chars_less(&chars_of(x), &chars_of(y)), x < y, "{x:?} < {y:?}");
    }
}

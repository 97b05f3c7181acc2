use ikv::text::{i64_to_dec, parse_i64, parse_u128, split_chars, str_eq, u128_to_dec};

fn chars(s: &str) -> Vec<char> {
    s.chars().collect()
}

#[test]
fn parse_u128_plain() {
    assert_eq!(parse_u128(&chars("0")), Some(0));
    assert_eq!(parse_u128(&chars("100")), Some(100));
    assert_eq!(parse_u128(&chars("007")), Some(7));
    assert_eq!(
        parse_u128(&chars("340282366920938463463374607431768211455")),
        Some(u128::MAX)
    );
}

#[test]
fn parse_u128_signs() {
    assert_eq!(parse_u128(&chars("+15")), Some(15));
    assert_eq!(parse_u128(&chars("-15")), None);
    assert_eq!(parse_u128(&chars("+")), None);
}

#[test]
fn parse_u128_rejects() {
    assert_eq!(parse_u128(&chars("")), None);
    assert_eq!(parse_u128(&chars("abc")), None);
    assert_eq!(parse_u128(&chars("12x")), None);
    assert_eq!(parse_u128(&chars(" 12")), None);
    // one past u128::MAX
    assert_eq!(
        parse_u128(&chars("340282366920938463463374607431768211456")),
        None
    );
}

#[test]
fn parse_u128_agrees_with_std() {
    for s in [
        "0",
        "1",
        "42",
        "+42",
        "007",
        "",
        "+",
        "-",
        "9999999999999999999999999999999999999999",
        "340282366920938463463374607431768211455",
        "340282366920938463463374607431768211456",
        "12a",
    ] {
        assert_eq!(parse_u128(&chars(s)), s.parse::<u128>().ok(), "on {:?}", s);
    }
}

#[test]
fn parse_i64_plain() {
    assert_eq!(parse_i64(&chars("0")), Some(0));
    assert_eq!(parse_i64(&chars("12")), Some(12));
    assert_eq!(parse_i64(&chars("-12")), Some(-12));
    assert_eq!(parse_i64(&chars("+12")), Some(12));
    assert_eq!(parse_i64(&chars("9223372036854775807")), Some(i64::MAX));
    assert_eq!(parse_i64(&chars("-9223372036854775808")), Some(i64::MIN));
}

#[test]
fn parse_i64_rejects() {
    assert_eq!(parse_i64(&chars("")), None);
    assert_eq!(parse_i64(&chars("-")), None);
    assert_eq!(parse_i64(&chars("9223372036854775808")), None);
    assert_eq!(parse_i64(&chars("-9223372036854775809")), None);
    assert_eq!(parse_i64(&chars("1.5")), None);
}

#[test]
fn parse_i64_agrees_with_std() {
    for s in [
        "0",
        "-0",
        "+7",
        "-7",
        "9223372036854775807",
        "9223372036854775808",
        "-9223372036854775808",
        "-9223372036854775809",
        "",
        "+",
        "--1",
    ] {
        assert_eq!(parse_i64(&chars(s)), s.parse::<i64>().ok(), "on {:?}", s);
    }
}

#[test]
fn format_u128() {
    assert_eq!(u128_to_dec(0), "0");
    assert_eq!(u128_to_dec(7), "7");
    assert_eq!(u128_to_dec(12345), "12345");
    assert_eq!(u128_to_dec(u128::MAX), u128::MAX.to_string());
}

#[test]
fn format_i64() {
    assert_eq!(i64_to_dec(0), "0");
    assert_eq!(i64_to_dec(42), "42");
    assert_eq!(i64_to_dec(-7), "-7");
    assert_eq!(i64_to_dec(i64::MIN), i64::MIN.to_string());
}

#[test]
fn format_then_parse_round_trips() {
    for n in [0u128, 1, 9, 10, 255, 1_000_000, u128::MAX] {
        assert_eq!(parse_u128(&u128_to_dec(n).chars().collect::<Vec<_>>()), Some(n));
    }
    for v in [0i64, 1, -1, i64::MIN, i64::MAX] {
        assert_eq!(parse_i64(&i64_to_dec(v).chars().collect::<Vec<_>>()), Some(v));
    }
}

#[test]
fn split_matches_std_split() {
    for s in ["", "/", "a/b/c", "a//b", "/a", "a/", "abc"] {
        let got: Vec<String> = split_chars(s, '/')
            .into_iter()
            .map(|v| v.into_iter().collect())
            .collect();
        let want: Vec<String> = s.split('/').map(|p| p.to_string()).collect();
        assert_eq!(got, want, "on {:?}", s);
    }
}

#[test]
fn str_eq_compares_content() {
    assert!(str_eq("", ""));
    assert!(str_eq("abc", "abc"));
    assert!(!str_eq("abc", "abd"));
    assert!(!str_eq("abc", "ab"));
}

use rideviz_rs::text::{
    bearer_token, chars_of, find, format_u64, parse_fixed, parse_u16, str_eq, trim,
};

fn chars(text: &str) -> Vec<char> {
    text.chars().collect()
}

#[test]
fn texts_are_compared_and_split_into_characters() {
    assert_eq!(chars_of("añ☃"), vec!['a', 'ñ', '☃']);
    assert!(chars_of("").is_empty());
    assert!(str_eq("route", "route"));
    assert!(!str_eq("route", "Route"));
    assert!(!str_eq("route", "routes"));
}

#[test]
fn the_first_occurrence_is_found() {
    assert_eq!(find(&chars("a</svg>b</svg>"), &chars("</svg>")), Some(1));
    assert_eq!(find(&chars("abc"), &chars("abc")), Some(0));
    assert_eq!(find(&chars("abc"), &chars("c")), Some(2));
    assert_eq!(find(&chars("abc"), &chars("abcd")), None);
    assert_eq!(find(&chars("aab"), &chars("ab")), Some(1));
    assert_eq!(find(&chars("abc"), &chars("")), Some(0));
    assert_eq!(find(&chars(""), &chars("")), Some(0));
    assert_eq!(find(&chars(""), &chars("a")), None);
}

#[test]
fn numbers_are_written_in_decimal() {
    assert_eq!(format_u64(0), "0");
    assert_eq!(format_u64(7), "7");
    assert_eq!(format_u64(1_080), "1080");
    assert_eq!(format_u64(u64::MAX), "18446744073709551615");
}

#[test]
fn white_space_is_trimmed_at_both_ends() {
    assert_eq!(trim("  token \t\n"), "token");
    assert_eq!(trim("a b"), "a b");
    assert_eq!(trim(""), "");
    assert_eq!(trim(" \u{a0}\u{3000} "), "");
    assert_eq!(trim("\u{2003}x\u{85}"), "x");
    assert_eq!(trim("\u{200b}x"), "\u{200b}x");
}

#[test]
fn bearer_tokens_follow_the_scheme() {
    assert_eq!(bearer_token("Bearer abc.def.ghi"), Some("abc.def.ghi".to_string()));
    assert_eq!(bearer_token("Bearer   abc  "), Some("abc".to_string()));
    assert_eq!(bearer_token("Bearer "), Some(String::new()));
    assert_eq!(bearer_token("bearer abc"), None);
    assert_eq!(bearer_token("Bearer"), None);
    assert_eq!(bearer_token("Basic abc"), None);
    assert_eq!(bearer_token(""), None);
}

#[test]
fn decimal_numbers_are_read_to_a_fixed_point() {
    let degrees = |text: &str| parse_fixed(&chars(text), 7, i32::MAX as u64);
    assert_eq!(degrees("52.52"), Some(525_200_000));
    assert_eq!(degrees("13.405"), Some(134_050_000));
    assert_eq!(degrees("-0.0000001"), Some(-1));
    assert_eq!(degrees("+7"), Some(70_000_000));
    assert_eq!(degrees("7."), Some(70_000_000));
    assert_eq!(degrees(".5"), Some(5_000_000));
    assert_eq!(degrees("1.23456785"), Some(12_345_679));
    assert_eq!(degrees("1.23456784999"), Some(12_345_678));
    assert_eq!(degrees("214.7483647"), Some(2_147_483_647));
    assert_eq!(degrees("214.7483648"), None);
    assert_eq!(degrees("99999999999999999999999999"), None);
    assert_eq!(degrees(""), None);
    assert_eq!(degrees("-"), None);
    assert_eq!(degrees("."), None);
    assert_eq!(degrees("1e3"), None);
    assert_eq!(degrees("1.2.3"), None);
    assert_eq!(degrees(" 1"), None);
    assert_eq!(degrees("--1"), None);
    assert_eq!(degrees("-0"), Some(0));
    let metres = |text: &str| parse_fixed(&chars(text), 3, i32::MAX as u64);
    assert_eq!(metres("34"), Some(34_000));
    assert_eq!(metres("8848.86"), Some(8_848_860));
    assert_eq!(metres("-10.9996"), Some(-11_000));
    assert_eq!(parse_fixed(&chars("12.5"), 0, 100), Some(13));
    assert_eq!(parse_fixed(&chars("100.4"), 0, 100), Some(100));
    assert_eq!(parse_fixed(&chars("100.5"), 0, 100), None);
}

#[test]
fn counts_are_read_up_to_sixteen_bits() {
    assert_eq!(parse_u16(&chars("0")), Some(0));
    assert_eq!(parse_u16(&chars("142")), Some(142));
    assert_eq!(parse_u16(&chars("+142")), Some(142));
    assert_eq!(parse_u16(&chars("00065535")), Some(65_535));
    assert_eq!(parse_u16(&chars("65536")), None);
    assert_eq!(parse_u16(&chars("99999999999999999999999")), None);
    assert_eq!(parse_u16(&chars("-1")), None);
    assert_eq!(parse_u16(&chars("14.2")), None);
    assert_eq!(parse_u16(&chars("")), None);
    assert_eq!(parse_u16(&chars("+")), None);
    assert_eq!(parse_u16(&chars("1 ")), None);
}

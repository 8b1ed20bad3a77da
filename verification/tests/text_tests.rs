use panes::numbers::{
    decimal_len, parse_i32, parse_u32, push_decimal, push_grouped, push_zero_padded, to_decimal,
};
use panes::song::clock_string;
use panes::spans::{scan_string, volume_gauge_string};
use panes::status::format_to_duration;
use panes::text::{contains_lowercased, into_string, join, StringExt, SymbolsConfig};
use std::borrow::Cow;

fn symbols(ellipsis: &str) -> SymbolsConfig {
    SymbolsConfig {
        song: "S".to_string(),
        dir: "D".to_string(),
        playlist: "P".to_string(),
        marker: "M".to_string(),
        ellipsis: ellipsis.to_string(),
    }
}

#[test]
fn ellipsize_keeps_text_that_fits() {
    let text = "hello";
    let result = text.ellipsize(5, &symbols("..."));
    assert_eq!(result, "hello");
    assert!(matches!(result, Cow::Borrowed(_)));
}

#[test]
fn ellipsize_cuts_to_exactly_max_len() {
    let text = "hello world";
    let result = text.ellipsize(8, &symbols("..."));
    assert_eq!(result, "hello...");
    assert_eq!(result.chars().count(), 8);
    assert!(result.ends_with("..."));
}

#[test]
fn ellipsize_counts_characters_not_bytes() {
    let text = "čeština je hezká";
    let result = text.ellipsize(9, &symbols("…"));
    assert_eq!(result, "čeština …");
    assert_eq!(result.chars().count(), 9);
    let fits = "žluťoučký".to_string();
    assert_eq!(fits.ellipsize(9, &symbols("…")), "žluťoučký");
}

#[test]
fn ellipsize_with_marker_longer_than_limit_gives_the_marker() {
    let text = "hello world".to_string();
    assert_eq!(text.ellipsize(2, &symbols("...")), "...");
    assert_eq!(text.ellipsize(3, &symbols("...")), "...");
    assert_eq!(text.ellipsize(0, &symbols("")), "");
}

#[test]
fn ellipsize_on_cow_and_string() {
    let owned: Cow<'_, str> = Cow::Owned("abcdefgh".to_string());
    assert_eq!(owned.ellipsize(5, &symbols("..")), "abc..");
    let borrowed: Cow<'_, str> = Cow::Borrowed("abc");
    assert!(matches!(borrowed.ellipsize(5, &symbols("..")), Cow::Borrowed("abc")));
    assert_eq!("abcdefgh".to_string().ellipsize(7, &symbols("..")), "abcde..");
}

#[test]
fn contains_ignores_case() {
    assert!(contains_lowercased("Hello World", "WORLD"));
    assert!(contains_lowercased("Hello World", "o w"));
    assert!(contains_lowercased("Hello World", ""));
    assert!(!contains_lowercased("Hello World", "worlds"));
    assert!(contains_lowercased("ÀÉÎ", "àéî"));
    assert!(!contains_lowercased("", "a"));
}

#[test]
fn into_string_keeps_the_text() {
    assert_eq!(into_string(Cow::Borrowed("abc")), "abc");
    assert_eq!(into_string(Cow::Owned("xyz".to_string())), "xyz");
}

#[test]
fn join_puts_separator_between_parts() {
    let parts = vec!["a".to_string(), "b".to_string(), "c".to_string()];
    assert_eq!(join(&parts, ", "), "a, b, c");
    assert_eq!(join(&parts, ""), "abc");
    assert_eq!(join(&vec!["only".to_string()], "-"), "only");
    assert_eq!(join(&Vec::new(), "-"), "");
}

#[test]
fn decimal_text_of_numbers() {
    assert_eq!(to_decimal(0), "0");
    assert_eq!(to_decimal(7), "7");
    assert_eq!(to_decimal(10), "10");
    assert_eq!(to_decimal(1234567890), "1234567890");
    assert_eq!(to_decimal(u64::MAX), "18446744073709551615");
    assert_eq!(decimal_len(0), 1);
    assert_eq!(decimal_len(999), 3);
    assert_eq!(decimal_len(u64::MAX), 20);
    let mut out = "n=".to_string();
    push_decimal(&mut out, 42);
    assert_eq!(out, "n=42");
}

#[test]
fn zero_padding_fills_up_to_the_width() {
    let mut out = String::new();
    push_zero_padded(&mut out, 3, 2);
    assert_eq!(out, "03");
    let mut out = String::new();
    push_zero_padded(&mut out, 123, 2);
    assert_eq!(out, "123");
    let mut out = String::new();
    push_zero_padded(&mut out, 0, 3);
    assert_eq!(out, "000");
    let mut out = String::new();
    push_zero_padded(&mut out, 5, 0);
    assert_eq!(out, "5");
}

#[test]
fn grouping_by_thousands() {
    let mut out = String::new();
    push_grouped(&mut out, 1234567, ",");
    assert_eq!(out, "1,234,567");
    let mut out = String::new();
    push_grouped(&mut out, 1000, " ");
    assert_eq!(out, "1 000");
    let mut out = String::new();
    push_grouped(&mut out, 999, ",");
    assert_eq!(out, "999");
    let mut out = String::new();
    push_grouped(&mut out, 1002003, "");
    assert_eq!(out, "1002003");
}

#[test]
fn parse_u32_accepts_what_the_standard_parser_accepts() {
    for text in ["0", "7", "+7", "007", "4294967295", "4294967296", "-1", "-0", "", "+", "-", "1 ", " 1", "1_0", "12a", "٣", "99999999999999999999999"] {
        assert_eq!(parse_u32(text), text.parse::<u32>().ok(), "input {text:?}");
    }
    assert_eq!(parse_u32("42"), Some(42));
    assert_eq!(parse_u32("4294967295"), Some(u32::MAX));
    assert_eq!(parse_u32("4294967296"), None);
}

#[test]
fn parse_i32_accepts_what_the_standard_parser_accepts() {
    for text in ["0", "-0", "+0", "7", "-7", "+7", "2147483647", "2147483648", "-2147483648", "-2147483649", "", "+", "-", "--1", "+-1", "1-", "1.5", "0x10", "99999999999999999999999"] {
        assert_eq!(parse_i32(text), text.parse::<i32>().ok(), "input {text:?}");
    }
    assert_eq!(parse_i32("-2147483648"), Some(i32::MIN));
    assert_eq!(parse_i32("2147483647"), Some(i32::MAX));
}

#[test]
fn clock_text_is_minutes_and_two_digit_seconds() {
    assert_eq!(clock_string(123_000), "2:03");
    assert_eq!(clock_string(0), "0:00");
    assert_eq!(clock_string(59_999), "0:59");
    assert_eq!(clock_string(60_000), "1:00");
    assert_eq!(clock_string(3_600_000), "60:00");
}

#[test]
fn duration_text_leaves_out_leading_zero_units() {
    assert_eq!(format_to_duration(0, " "), "0s");
    assert_eq!(format_to_duration(59_000, " "), "59s");
    assert_eq!(format_to_duration(61_000, " "), "1m 1s");
    assert_eq!(format_to_duration(3_600_000, ","), "1h,0s");
    assert_eq!(format_to_duration(93_784_000, " "), "1d 2h 3m 4s");
    assert_eq!(format_to_duration(93_784_999, ""), "1d2h3m4s");
}

#[test]
fn volume_gauge_has_a_cell_for_every_eighth() {
    assert_eq!(volume_gauge_string(0), " 0%");
    assert_eq!(volume_gauge_string(12), " 12%");
    assert_eq!(volume_gauge_string(13), "▁ 13%");
    assert_eq!(volume_gauge_string(50), "▁▂▃▄ 50%");
    assert_eq!(volume_gauge_string(100), "▁▂▃▄▅▆▇█ 100%");
    assert_eq!(volume_gauge_string(200), "▁▂▃▄▅▆▇█ 100%");
}

#[test]
fn scan_sign_turns_every_tenth_of_a_second() {
    assert_eq!(scan_string(0), "⠋");
    assert_eq!(scan_string(99), "⠋");
    assert_eq!(scan_string(100), "⠙");
    assert_eq!(scan_string(950), "⠏");
    assert_eq!(scan_string(1000), "⠋");
}

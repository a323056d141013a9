//! Numbers as text, and text as numbers.

use peekbeam::mem_stats::format_bytes;
use peekbeam::order::rank;
use peekbeam::round::{div_half_even, micros_double, micros_of, push_micros, push_tenths, round_to_double};
use peekbeam::scan::{eq_ignore_ascii_case, lines, parse_number, split_once, trim, words, NumberError};
use peekbeam::text::{
    chars_of, decimal_text, push_decimal, push_hex, push_padded, push_signed_decimal, same_text,
};

#[test]
fn decimals_are_written_as_usual() {
    for n in [0u128, 7, 10, 99, 100, 12345, u64::MAX as u128, u128::MAX] {
        assert_eq!(decimal_text(n), n.to_string());
        let mut out = String::from("n=");
        push_decimal(&mut out, n);
        assert_eq!(out, format!("n={n}"));
    }
}

#[test]
fn negative_decimals_carry_a_sign() {
    for n in [0i32, 5, -1, -100, i32::MAX, i32::MIN] {
        let mut out = String::new();
        push_signed_decimal(&mut out, n);
        assert_eq!(out, n.to_string());
    }
}

#[test]
fn hexadecimals_are_lower_case() {
    for n in [0u16, 9, 10, 255, 0xabcd, 0xffff] {
        let mut out = String::new();
        push_hex(&mut out, n);
        assert_eq!(out, format!("{n:x}"));
    }
}

#[test]
fn padding_fills_up_and_never_cuts() {
    for (text, width) in [("", 3usize), ("ab", 5), ("äöü", 5), ("abc", 3), ("abcd", 3), ("", 0)] {
        let mut out = String::from("<");
        push_padded(&mut out, text, width);
        assert_eq!(out, format!("<{text:<width$}"));
    }
}

#[test]
fn texts_are_compared_by_their_characters() {
    assert!(same_text("", ""));
    assert!(same_text("größe", "größe"));
    assert!(!same_text("größe", "grösse"));
    assert!(!same_text("ab", "abc"));
    assert_eq!(chars_of("aé…"), vec!['a', 'é', '…']);
}

#[test]
fn white_space_is_trimmed_on_both_sides() {
    for text in ["", " ", "x", "  x y \n", "\u{a0}x\u{3000}", "\t\u{2003}a b\u{85}", "\u{200b}x"] {
        assert_eq!(trim(text), text.trim());
    }
}

#[test]
fn every_white_space_character_is_trimmed() {
    for c in '\0'..=char::MAX {
        let text = c.to_string();
        assert_eq!(trim(&text).is_empty(), c.is_whitespace(), "{c:?}");
    }
}

#[test]
fn text_is_split_at_the_first_separator() {
    for (text, sep) in [("a|b|c", "|"), ("|", "|"), ("abc", "|"), ("docker://x://y", "://"), ("", "|"), ("ab", "ab")] {
        assert_eq!(split_once(text, sep), text.split_once(sep));
    }
}

#[test]
fn lines_end_with_a_newline_or_two_characters() {
    for text in ["", "\n", "a", "a\n", "a\nb", "a\r\nb\r\n", "\n\na", "a\rb", "a\r", "a\n\r\n"] {
        assert_eq!(lines(text), text.lines().collect::<Vec<&str>>());
    }
}

#[test]
fn words_stand_between_white_space() {
    for text in ["", "  ", "a", " a b  c ", "anon\t12\n", "\u{a0}x\u{2003}y"] {
        assert_eq!(words(text), text.split_whitespace().collect::<Vec<&str>>());
    }
}

#[test]
fn numbers_are_read_within_their_range() {
    assert_eq!(parse_number("0", 10), Ok(0));
    assert_eq!(parse_number("+12", 100), Ok(12));
    assert_eq!(parse_number("007", 100), Ok(7));
    assert_eq!(parse_number("18446744073709551615", u64::MAX), Ok(u64::MAX));
    assert_eq!(parse_number("4294967295", u32::MAX as u64), Ok(u32::MAX as u64));
}

#[test]
fn what_is_no_number_is_refused() {
    assert_eq!(parse_number("", 10), Err(NumberError::Empty));
    assert_eq!(parse_number("+", 10), Err(NumberError::InvalidDigit));
    assert_eq!(parse_number("-1", 10), Err(NumberError::InvalidDigit));
    assert_eq!(parse_number(" 1", 10), Err(NumberError::InvalidDigit));
    assert_eq!(parse_number("1x", 10), Err(NumberError::InvalidDigit));
    assert_eq!(parse_number("4294967296", u32::MAX as u64), Err(NumberError::TooLarge));
    assert_eq!(parse_number("18446744073709551616", u64::MAX), Err(NumberError::TooLarge));
    assert_eq!(NumberError::Empty.message(), "".parse::<u32>().unwrap_err().to_string());
    assert_eq!(NumberError::InvalidDigit.message(), "x".parse::<u32>().unwrap_err().to_string());
    assert_eq!(NumberError::TooLarge.message(), "4294967296".parse::<u32>().unwrap_err().to_string());
}

#[test]
fn reading_agrees_with_the_standard_parser() {
    for text in ["", "+", "-", "0", "+0", "-0", "12", "4294967295", "4294967296", "99999999999999999999", "9999999999x", "1_000", "٣"] {
        match (parse_number(text, u32::MAX as u64), text.parse::<u32>()) {
            (Ok(n), Ok(m)) => assert_eq!(n, m as u64),
            (Err(e), Err(f)) => assert_eq!(e.message(), f.to_string(), "{text:?}"),
            (a, b) => panic!("{text:?}: {a:?} and {b:?}"),
        }
    }
}

#[test]
fn case_is_ignored_in_ascii_only() {
    assert!(eq_ignore_ascii_case("Node-1", "node-1"));
    assert!(!eq_ignore_ascii_case("node-1", "node-2"));
    assert!(!eq_ignore_ascii_case("Ä", "ä"));
    assert!(!eq_ignore_ascii_case("node", "node-1"));
}

#[test]
fn ties_go_to_the_even_neighbour() {
    assert_eq!(div_half_even(5, 10), 0);
    assert_eq!(div_half_even(15, 10), 2);
    assert_eq!(div_half_even(25, 10), 2);
    assert_eq!(div_half_even(26, 10), 3);
    assert_eq!(div_half_even(24, 10), 2);
}

#[test]
fn integers_become_the_nearest_double() {
    let mut n: u64 = 1;
    for k in 0..2000u64 {
        n = n.wrapping_mul(6364136223846793005).wrapping_add(1442695040888963407 + k);
        for v in [n, n >> 7, n >> 13, u64::MAX - k, (1 << 53) + k] {
            assert_eq!(round_to_double(v as u128, 1), v as f64 as u128);
        }
    }
}

#[test]
fn microseconds_are_shown_as_doubles_are() {
    let mut n: u64 = 12345;
    for k in 0..3000u64 {
        n = n.wrapping_mul(6364136223846793005).wrapping_add(1442695040888963407 + k);
        for ns in [k, 5 * k, 1000 * k + 5, n, n >> 9, n >> 23, n >> 40, u64::MAX - k] {
            let mut out = String::new();
            push_micros(&mut out, ns);
            assert_eq!(out, format!("{:.2}", ns as f64 / 1000.0), "{ns}");
        }
    }
}

#[test]
fn microseconds_have_two_decimals() {
    let mut out = String::new();
    push_micros(&mut out, 1_234_567);
    assert_eq!(out, "1234.57");
    assert_eq!(micros_of(1_234_567), 123457);
    let mut out = String::new();
    push_micros(&mut out, 0);
    assert_eq!(out, "0.00");
}

#[test]
fn longer_times_do_not_weigh_less() {
    let mut n: u64 = 99;
    for k in 0..2000u64 {
        n = n.wrapping_mul(6364136223846793005).wrapping_add(k);
        let m = n.saturating_add(k % 5);
        assert!(micros_double(n) <= micros_double(m));
        assert!(micros_of(n) <= micros_of(m));
        assert_eq!(
            micros_double(n) < micros_double(m),
            (n as f64 / 1000.0) < (m as f64 / 1000.0)
        );
    }
}

#[test]
fn tenths_have_one_decimal() {
    let mut out = String::new();
    push_tenths(&mut out, 105);
    assert_eq!(out, "10.5");
}

fn format_by_doubles(bytes: u64) -> String {
    let units = ["B", "KiB", "MiB", "GiB", "TiB"];
    let mut value = bytes as f64;
    let mut unit = 0;
    while value >= 1024.0 && unit < units.len() - 1 {
        value /= 1024.0;
        unit += 1;
    }
    if unit == 0 {
        format!("{bytes} {}", units[unit])
    } else {
        format!("{value:.1} {}", units[unit])
    }
}

#[test]
fn sizes_are_shown_in_binary_units() {
    assert_eq!(format_bytes(0), "0 B");
    assert_eq!(format_bytes(1023), "1023 B");
    assert_eq!(format_bytes(1024), "1.0 KiB");
    assert_eq!(format_bytes(1536), "1.5 KiB");
    assert_eq!(format_bytes(1048575), "1024.0 KiB");
    assert_eq!(format_bytes(1048576), "1.0 MiB");
    assert_eq!(format_bytes(5 * 1024 * 1024 * 1024), "5.0 GiB");
    assert_eq!(format_bytes(1 << 40), "1.0 TiB");
    assert_eq!(format_bytes(u64::MAX), "16777216.0 TiB");
}

#[test]
fn sizes_are_rounded_as_doubles_are() {
    let mut n: u64 = 3;
    for k in 0..3000u64 {
        n = n.wrapping_mul(6364136223846793005).wrapping_add(1442695040888963407 + k);
        for bytes in [k, 51 * k, n, n >> 11, n >> 20, n >> 33, n >> 45, u64::MAX - k, (1 << 60) + k] {
            assert_eq!(format_bytes(bytes), format_by_doubles(bytes), "{bytes}");
        }
    }
}

#[test]
fn a_shown_size_is_within_half_a_tenth() {
    // 1074 bytes are 1.0488 KiB, 1075 are 1.0498 KiB, 1076 are 1.0508 KiB.
    assert_eq!(format_bytes(1074), "1.0 KiB");
    assert_eq!(format_bytes(1075), "1.0 KiB");
    assert_eq!(format_bytes(1076), "1.1 KiB");
}

#[test]
fn rows_are_ranked_from_the_largest_down() {
    assert_eq!(rank(&vec![3, 1, 2]), vec![0, 2, 1]);
    assert_eq!(rank(&vec![]), Vec::<usize>::new());
    let keys: Vec<u128> = (0..200u128).map(|i| (i * 7919) % 31).collect();
    let mut expected: Vec<usize> = (0..keys.len()).collect();
    expected.sort_by(|a, b| keys[*b].cmp(&keys[*a]));
    assert_eq!(rank(&keys), expected);
}

#[test]
fn equal_rows_stay_in_order() {
    assert_eq!(rank(&vec![5, 5, 9, 5, 9]), vec![2, 4, 0, 1, 3]);
}

use pingpong_boxes::text::char_is_space;
use pingpong_boxes::{parse_count, parse_quantity};

#[test]
fn counts_are_read() {
    assert_eq!(parse_count("10"), Some(10));
    assert_eq!(parse_count("0"), Some(0));
    assert_eq!(parse_count("007"), Some(7));
    assert_eq!(parse_count("+42"), Some(42));
    assert_eq!(parse_count("  15\t\n"), Some(15));
    assert_eq!(parse_count("\u{a0}3\u{3000}"), Some(3));
}

#[test]
fn what_is_no_count_is_passed_over() {
    assert_eq!(parse_count(""), None);
    assert_eq!(parse_count("   "), None);
    assert_eq!(parse_count("+"), None);
    assert_eq!(parse_count("ten"), None);
    assert_eq!(parse_count("1 0"), None);
    assert_eq!(parse_count("10.0"), None);
    assert_eq!(parse_count("-3"), None);
    assert_eq!(parse_count("-0"), None);
    assert_eq!(parse_count("++3"), None);
    assert_eq!(parse_count("3+"), None);
    assert_eq!(parse_count("12a"), None);
    assert_eq!(parse_count("\u{0663}"), None);
    assert_eq!(parse_count("1e3"), None);
}

#[test]
fn counts_stop_at_the_largest() {
    let largest = format!("{}", usize::MAX);
    assert_eq!(parse_count(&largest), Some(usize::MAX));
    let beyond = format!("{}0", usize::MAX);
    assert_eq!(parse_count(&beyond), None);
    let next = format!("{}", usize::MAX as u128 + 1);
    assert_eq!(parse_count(&next), None);
    assert_eq!(parse_count("99999999999999999999999999999999999999999"), None);
    assert_eq!(parse_count("99999999999999999999999999999999999999999x"), None);
}

#[test]
fn counts_agree_with_the_standard_reader() {
    let texts = ["", "0", "1", "+1", "-1", " 5 ", "٣", "12345678901234567890", "0000000000000000000000001", "+-1", "1_000"];
    for t in texts {
        assert_eq!(parse_count(t), t.trim().parse::<usize>().ok());
    }
}

#[test]
fn whole_quantities_are_read() {
    assert_eq!(parse_quantity("10", 1), Some(10));
    assert_eq!(parse_quantity("-10", 1), Some(-10));
    assert_eq!(parse_quantity("+10", 1), Some(10));
    assert_eq!(parse_quantity("-0", 1), Some(0));
    assert_eq!(parse_quantity(" \t-0012  ", 1), Some(-12));
    assert_eq!(parse_quantity("2147483647", 1), Some(i32::MAX));
    assert_eq!(parse_quantity("-2147483648", 1), Some(i32::MIN));
    assert_eq!(parse_quantity("10", 64), Some(640));
    assert_eq!(parse_quantity("-3", 1000), Some(-3000));
}

#[test]
fn quantities_with_a_point_are_read() {
    assert_eq!(parse_quantity("10.0", 1), Some(10));
    assert_eq!(parse_quantity("1.0", 65536), Some(65536));
    assert_eq!(parse_quantity("10.5", 64), Some(672));
    assert_eq!(parse_quantity("-10.5", 64), Some(-672));
    assert_eq!(parse_quantity("1.25", 64), Some(80));
    assert_eq!(parse_quantity(".5", 64), Some(32));
    assert_eq!(parse_quantity("+.5", 2), Some(1));
    assert_eq!(parse_quantity("5.", 64), Some(320));
    assert_eq!(parse_quantity("0.1", 10), Some(1));
    assert_eq!(parse_quantity("0.01", 1000), Some(10));
    assert_eq!(parse_quantity("007.250", 4), Some(29));
}

#[test]
fn steps_are_cut_towards_zero() {
    assert_eq!(parse_quantity("10.5", 1), Some(10));
    assert_eq!(parse_quantity("-10.5", 1), Some(-10));
    assert_eq!(parse_quantity("0.999", 1), Some(0));
    assert_eq!(parse_quantity("-0.999", 1), Some(0));
    assert_eq!(parse_quantity("0.333", 3), Some(0));
    assert_eq!(parse_quantity("0.3334", 3), Some(1));
    assert_eq!(parse_quantity("0.1", 64), Some(6));
    assert_eq!(parse_quantity("-0.1", 64), Some(-6));
}

#[test]
fn no_digit_of_a_long_fraction_is_lost() {
    assert_eq!(parse_quantity("0.49999999999999999999999999999999999999999999", 2), Some(0));
    assert_eq!(parse_quantity("0.50000000000000000000000000000000000000000000", 2), Some(1));
    assert_eq!(parse_quantity("0.33333333333333333333333333333333333333333333", 3), Some(0));
    assert_eq!(parse_quantity("0.33333333333333333333333333333333333333333334", 3), Some(1));
    assert_eq!(parse_quantity("1.00000000000000000000000000000000000000000000", 7), Some(7));
}

#[test]
fn quantities_stop_at_the_ends_of_the_range() {
    assert_eq!(parse_quantity("2147483648", 1), None);
    assert_eq!(parse_quantity("-2147483649", 1), None);
    assert_eq!(parse_quantity("2147483647.999", 1), Some(i32::MAX));
    assert_eq!(parse_quantity("-2147483648.999", 1), Some(i32::MIN));
    assert_eq!(parse_quantity("99999999999999999999", 1), None);
    assert_eq!(parse_quantity("32767.99999", 65536), Some(i32::MAX));
    assert_eq!(parse_quantity("32768", 65536), None);
    assert_eq!(parse_quantity("-32768", 65536), Some(i32::MIN));
    assert_eq!(parse_quantity("-32768.00002", 65536), None);
    assert_eq!(parse_quantity("0.5", u32::MAX), Some(i32::MAX));
    assert_eq!(parse_quantity("-0.5", u32::MAX), Some(-i32::MAX));
    assert_eq!(parse_quantity("0.50000000012", u32::MAX), None);
    assert_eq!(parse_quantity("-0.50000000012", u32::MAX), Some(i32::MIN));
    assert_eq!(parse_quantity("1", u32::MAX), None);
}

#[test]
fn no_steps_in_a_unit_make_every_number_zero() {
    assert_eq!(parse_quantity("123456789012345678901234567890.5", 0), Some(0));
    assert_eq!(parse_quantity("-7", 0), Some(0));
    assert_eq!(parse_quantity("abc", 0), None);
    assert_eq!(parse_quantity("", 0), None);
}

#[test]
fn what_is_no_quantity_is_passed_over() {
    assert_eq!(parse_quantity("", 1), None);
    assert_eq!(parse_quantity("   ", 1), None);
    assert_eq!(parse_quantity("-", 1), None);
    assert_eq!(parse_quantity("+", 1), None);
    assert_eq!(parse_quantity(".", 1), None);
    assert_eq!(parse_quantity("-.", 1), None);
    assert_eq!(parse_quantity("- 1", 1), None);
    assert_eq!(parse_quantity("--1", 1), None);
    assert_eq!(parse_quantity("1.2.3", 1), None);
    assert_eq!(parse_quantity("1..2", 1), None);
    assert_eq!(parse_quantity("1,5", 1), None);
    assert_eq!(parse_quantity("1e3", 1), None);
    assert_eq!(parse_quantity("abc", 1), None);
    assert_eq!(parse_quantity("1.5x", 1), None);
    assert_eq!(parse_quantity("1 .5", 1), None);
    assert_eq!(parse_quantity("1.-5", 1), None);
}

#[test]
fn whole_quantities_agree_with_the_standard_reader() {
    let texts = ["", "0", "-1", "+1", " 5 ", "2147483647", "2147483648", "-2147483648", "-2147483649", "1-", "٣", "4294967296"];
    for t in texts {
        assert_eq!(parse_quantity(t, 1), t.trim().parse::<i32>().ok());
    }
}

#[test]
fn quantities_with_a_point_agree_with_floats_that_are_exact() {
    let texts = ["0.5", "10.0", "-3.25", "1.125", ".75", "6.", "+2.0625", "-0.0"];
    for t in texts {
        let steps: f64 = t.parse::<f64>().unwrap() * 64.0;
        assert_eq!(parse_quantity(t, 64), Some(steps.trunc() as i32));
    }
}

#[test]
fn blank_space_is_what_the_standard_says() {
    let mut code: u32 = 0;
    while code <= 0x3100 {
        if let Some(c) = char::from_u32(code) {
            assert_eq!(char_is_space(c), c.is_whitespace());
        }
        code += 1;
    }
    assert!(!char_is_space('\u{200b}'));
    assert!(!char_is_space('\u{feff}'));
}

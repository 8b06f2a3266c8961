use binance_survival_bot::clock::{yyyymmdd, Day};
use binance_survival_bot::fixed::{
    clamp_fixed, div_bounded, div_fixed, mul_bounded, mul_fixed, saturate, LIMIT, ONE,
};
use binance_survival_bot::numeral::{parse_fixed, parse_integer, parse_whole};
use binance_survival_bot::text::{
    comes_before, contains_text, fixed_string, insert_text, int_string, left_string, padded_string,
    right_string, same_text, starts_with_text, trim_text,
};

fn fx(v: f64) -> i128 {
    (v * 1e12).round() as i128
}

#[test]
fn products_and_quotients_are_rounded() {
    assert_eq!(mul_fixed(fx(1.5), fx(-2.0)), fx(-3.0));
    assert_eq!(mul_fixed(1, ONE / 2), 1);
    assert_eq!(div_fixed(fx(1.0), fx(3.0)), 333_333_333_333);
    assert_eq!(div_fixed(fx(2.0), fx(3.0)), 666_666_666_667);
    assert_eq!(mul_bounded(LIMIT, LIMIT), LIMIT);
    assert_eq!(div_bounded(LIMIT, 1), LIMIT);
    assert_eq!(saturate(-2 * LIMIT), -LIMIT);
    assert_eq!(clamp_fixed(5, 1, 3), 3);
}

#[test]
fn numbers_are_written_as_floats_are() {
    for v in [0.0, 1.5, -1.5, 0.125, 2.675, 1234.5678, -0.004, 99.995] {
        assert_eq!(fixed_string(fx(v), 4), format!("{v:.4}"));
    }
    assert_eq!(fixed_string(fx(0.125), 2), "0.12");
    assert_eq!(fixed_string(fx(0.375), 2), "0.38");
    assert_eq!(fixed_string(fx(2.5), 0), "2");
    assert_eq!(fixed_string(fx(-0.001), 2), format!("{:.2}", -0.001));
    assert_eq!(int_string(-7), "-7");
    assert_eq!(padded_string(7, 3), "007");
    assert_eq!(yyyymmdd(Day { year: 2024, month: 2, day: 9 }), "20240209");
}

#[test]
fn numbers_are_read() {
    assert_eq!(parse_fixed("1.5"), Some(fx(1.5)));
    assert_eq!(parse_fixed("-.5"), Some(fx(-0.5)));
    assert_eq!(parse_fixed("+7."), Some(fx(7.0)));
    assert_eq!(parse_fixed("0.0000000000005"), Some(1));
    for bad in ["", ".", "-", "1.2.3", "nan", " 1", "1_000", "e5", "1e", "1e+", "1e2e3", "1e2.5"] {
        assert_eq!(parse_fixed(bad), None, "{bad}");
    }
    for t in ["1e5", "1.5e-3", "-2E+2", "12.345e1", ".5e-2", "7.e0", "1e-13", "6e-13", "0e0"] {
        let v: f64 = t.parse().unwrap();
        assert_eq!(parse_fixed(t), Some(fx(v)), "{t}");
    }
    assert_eq!(parse_fixed("1e99999999999999999999999999"), Some(LIMIT));
    assert_eq!(parse_fixed("-1e99999999999999999999999999"), Some(-LIMIT));
    assert_eq!(parse_fixed("0e99999999999999999999999999"), Some(0));
    assert_eq!(parse_fixed("1e-99999999999999999999999999"), Some(0));
    assert_eq!(parse_fixed("1e12"), Some(LIMIT));
    assert_eq!(parse_fixed("1.1e12"), Some(LIMIT));
    for t in ["", "+", "-1", "0", "+7", "18446744073709551615", "18446744073709551616", "1x"] {
        assert_eq!(parse_whole(t, u64::MAX), t.parse::<u64>().ok(), "{t}");
    }
    for t in ["", "-", "-1", "+-1", "9223372036854775808", "-9223372036854775808", "--1", "+5"] {
        assert_eq!(parse_integer(t), t.parse::<i64>().ok(), "{t}");
    }
}

#[test]
fn texts_are_handled() {
    for t in ["", "  ", " a b ", "\u{3000}x\u{85}", "x"] {
        assert_eq!(trim_text(t), t.trim());
    }
    assert!(contains_text("abcabd", "abd") && !contains_text("ab", "abc") && contains_text("", ""));
    assert!(starts_with_text("abc", "ab") && !starts_with_text("a", "ab"));
    assert!(same_text("é", "é") && !same_text("a", "b"));
    assert!(comes_before("Ab", "ab") && comes_before("a", "aa") && !comes_before("a", "a"));
    let mut v = Vec::new();
    for t in ["b", "a", "b", "c"] {
        insert_text(&mut v, t);
    }
    assert_eq!(v, vec!["a", "b", "c"]);
    assert_eq!(left_string("é", 3), format!("{:<3}", "é"));
    assert_eq!(right_string("é", 3), format!("{:>3}", "é"));
    assert_eq!(right_string("long", 3), "long");
}

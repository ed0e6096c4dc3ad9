//! Tests of the CAPTCHA acceptance policy and the solver's retry loop.

use quiz_player::captcha::{accept, filter_digits, recognize, solve_from_readings};

#[test]
fn filter_keeps_digits_in_order() {
    assert_eq!(filter_digits("a1b2c3"), "123");
    assert_eq!(filter_digits(""), "");
    assert_eq!(filter_digits("abc"), "");
    assert_eq!(filter_digits("驗證碼90"), "90");
}

#[test]
fn accept_six_clean_digits_strict() {
    assert!(accept("123456", true));
}

#[test]
fn accept_rejects_corrupted_digit_strict() {
    // One digit was misread as a letter: only five digits survive.
    assert!(!accept("12a456", true));
    assert!(!accept("12a456", false));
}

#[test]
fn accept_noise_depends_on_strictness() {
    // Seven raw characters but six digits: strict rejects, relaxed accepts.
    assert!(!accept("123456X", true));
    assert!(accept("123456X", false));
}

#[test]
fn accept_rejects_five_digits_any_mode() {
    assert!(!accept("12345", true));
    assert!(!accept("12345", false));
}

#[test]
fn recognize_returns_filtered_digits() {
    assert_eq!(recognize("123456X", false), Some("123456".to_string()));
    assert_eq!(recognize("123456X", true), None);
    assert_eq!(recognize("123456", true), Some("123456".to_string()));
    assert_eq!(recognize("12345", false), None);
}

#[test]
fn solve_stops_at_first_valid_reading() {
    let readings = vec![
        "noise".to_string(),
        "12a456".to_string(),
        "123456".to_string(),
        "654321".to_string(),
    ];
    assert_eq!(
        solve_from_readings(&readings, true),
        Some((2, "123456".to_string()))
    );
}

#[test]
fn solve_strictness_changes_the_accepted_reading() {
    let readings = vec!["123456X".to_string(), "654321".to_string()];
    assert_eq!(
        solve_from_readings(&readings, true),
        Some((1, "654321".to_string()))
    );
    assert_eq!(
        solve_from_readings(&readings, false),
        Some((0, "123456".to_string()))
    );
}

#[test]
fn solve_exhausts_hopeless_readings() {
    let readings = vec!["".to_string(), "abc".to_string(), "12345".to_string()];
    assert_eq!(solve_from_readings(&readings, false), None);
}

use dangerust::guessing::{draw_secret, judge, parse_guess, Verdict, GUESS_END, GUESS_MIN};
use dangerust::number::parse_number;

#[test]
fn verdicts() {
    assert_eq!(judge(3, 7), Verdict::TooSmall);
    assert_eq!(judge(9, 7), Verdict::TooBig);
    assert_eq!(judge(7, 7), Verdict::Win);
}

#[test]
fn secret_stays_in_range() {
    for _ in 0..200 {
        let s = draw_secret();
        assert!(GUESS_MIN <= s && s < GUESS_END);
    }
}

#[test]
fn numbers_in_base_ten() {
    assert_eq!(parse_number("42"), Some(42));
    assert_eq!(parse_number("+42"), Some(42));
    assert_eq!(parse_number("007"), Some(7));
    assert_eq!(parse_number("4294967295"), Some(4294967295));
}

#[test]
fn texts_that_are_no_number() {
    assert_eq!(parse_number(""), None);
    assert_eq!(parse_number("+"), None);
    assert_eq!(parse_number("-1"), None);
    assert_eq!(parse_number("12a"), None);
    assert_eq!(parse_number("4294967296"), None);
    assert_eq!(parse_number("99999999999x"), None);
}

#[test]
fn guess_line_is_trimmed() {
    assert_eq!(parse_guess("  7\n"), Some(7));
    assert_eq!(parse_guess("\t12 \r\n"), Some(12));
    assert_eq!(parse_guess(" 1 2 \n"), None);
}

use dangerust::hex2rgb::{hex2rgb, is_color_code};

#[test]
fn code_with_hash() {
    assert_eq!(hex2rgb("#ff8000"), "255 128 0");
}

#[test]
fn code_without_hash_mixed_case() {
    assert_eq!(hex2rgb("00FF7f"), "0 255 127");
}

#[test]
fn bare_hash_gives_empty_text() {
    assert_eq!(hex2rgb("#"), "");
}

#[test]
fn odd_length_ends_in_one_digit_group() {
    assert_eq!(hex2rgb("#abc"), "171 12");
}

#[test]
fn signed_groups() {
    assert_eq!(hex2rgb("#-f+a-0"), "-15 10 0");
    assert!(is_color_code("ab-cde"));
    assert_eq!(hex2rgb("ab-cde"), "171 -12 222");
}

#[test]
fn recognised_codes() {
    assert!(is_color_code("#ff8000"));
    assert!(is_color_code("abcdef"));
    assert!(is_color_code("#"));
    assert!(is_color_code("#1"));
}

#[test]
fn refused_codes() {
    assert!(!is_color_code(""));
    assert!(!is_color_code("abc"));
    assert!(!is_color_code("abcdef0"));
    assert!(!is_color_code("#zz"));
    assert!(!is_color_code("#ab+"));
    assert!(!is_color_code("a-bcde"));
    assert!(!is_color_code("#ééé"));
}

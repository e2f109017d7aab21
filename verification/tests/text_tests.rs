use docker_native_manager::text::{
    blank, decimal_string, prefix_string, remove_all_string, signed_decimal_string, split_string,
    trim_leading_string,
};

#[test]
fn decimal_of_zero_and_large_numbers() {
    assert_eq!(decimal_string(0), "0");
    assert_eq!(decimal_string(7), "7");
    assert_eq!(decimal_string(12345), "12345");
    assert_eq!(decimal_string(u64::MAX), u64::MAX.to_string());
}

#[test]
fn signed_decimal_matches_display() {
    assert_eq!(signed_decimal_string(-42), "-42");
    assert_eq!(signed_decimal_string(0), "0");
    assert_eq!(signed_decimal_string(1700000000), "1700000000");
    assert_eq!(signed_decimal_string(i64::MIN), i64::MIN.to_string());
    assert_eq!(signed_decimal_string(i64::MAX), i64::MAX.to_string());
}

#[test]
fn prefix_cuts_by_characters() {
    assert_eq!(prefix_string("0123456789abcdef", 12), "0123456789ab");
    assert_eq!(prefix_string("short", 12), "short");
    assert_eq!(prefix_string("ééééé", 2), "éé");
}

#[test]
fn trim_leading_removes_every_leading_slash() {
    assert_eq!(trim_leading_string("//web", '/'), "web");
    assert_eq!(trim_leading_string("web/x", '/'), "web/x");
    assert_eq!(trim_leading_string("///", '/'), "");
}

#[test]
fn remove_all_is_like_replace_with_nothing() {
    for (s, p) in [
        ("sha256:abc", "sha256:"),
        ("sha256:sha256:x", "sha256:"),
        ("aaa", "aa"),
        ("no match here", "zz"),
        ("", "x"),
    ] {
        assert_eq!(remove_all_string(s, p), s.replace(p, ""));
    }
}

#[test]
fn split_is_like_str_split() {
    for s in ["a:b:c", "", "a::", ":", "nginx", "localhost:5000/app:v1"] {
        let expected: Vec<String> = s.split(':').map(|x| x.to_string()).collect();
        assert_eq!(split_string(s, ':'), expected);
    }
}

#[test]
fn blank_is_trim_is_empty() {
    for s in ["", "   ", "\t\n", " x ", "\u{3000}", "a"] {
        assert_eq!(blank(s), s.trim().is_empty());
    }
}

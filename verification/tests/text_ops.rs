use mu::error::MuError;
use mu::library::{track_id_of_name, track_lookups, TrackLookup};
use mu::text::{decimal_string, parse_i64_str, split_str, str_contains, trim_str};

#[test]
fn trim_unicode_space() {
    assert_eq!(trim_str("\u{3000} a b \t\n"), "a b");
    assert_eq!(trim_str("   "), "");
}

#[test]
fn parse_integers_like_std() {
    for s in ["0", "-0", "+12", "-9223372036854775808", "9223372036854775807", "", "+", "-", "1a", " 1", "99999999999999999999"] {
        assert_eq!(parse_i64_str(s), s.parse::<i64>().ok(), "{s:?}");
    }
}

#[test]
fn decimal_like_display() {
    for n in [0, 7, 10, -1, 1234567890, i64::MAX, i64::MIN] {
        assert_eq!(decimal_string(n), n.to_string());
    }
}

#[test]
fn split_and_contains() {
    assert_eq!(split_str("a::b", ':'), vec!["a", "", "b"]);
    assert_eq!(split_str("", ':'), vec![""]);
    assert!(str_contains("full album here", "album"));
    assert!(str_contains("x", ""));
    assert!(!str_contains("", "x"));
}

#[test]
fn lookups_by_id_then_title() {
    let l = track_lookups("12");
    assert_eq!(l.len(), 3);
    assert!(matches!(l[0], TrackLookup::ById(12)));
    assert!(matches!(&l[1], TrackLookup::ByTitle(t) if t == "12"));
    assert!(matches!(&l[2], TrackLookup::ByTitleSubstring(t) if t == "12"));
    let l = track_lookups("Song");
    assert_eq!(l.len(), 2);
    assert!(matches!(&l[0], TrackLookup::ByTitle(t) if t == "Song"));
    assert_eq!(track_id_of_name("x1"), None);
    assert_eq!(track_id_of_name("-3"), Some(-3));
}

#[test]
fn remaining_error_messages() {
    assert_eq!(MuError::Download("dl".into()).message(), "dl");
    assert_eq!(MuError::Io("io".into()).message(), "io");
    assert_eq!(MuError::ExternalTool("tool".into()).message(), "tool");
}

use mu::error::{json_error, json_ok};
use mu::music::escape_applescript;
use mu::playlist::validate_playlist_name;
use mu::podcast::{parse_duration, parse_rfc2822_date, sanitize_filename};

#[test]
fn validate_playlist_name_normal() {
    assert!(validate_playlist_name("My Playlist").is_ok());
}

#[test]
fn validate_playlist_name_empty() {
    assert!(validate_playlist_name("").is_err());
    assert!(validate_playlist_name("   ").is_err());
}

#[test]
fn validate_playlist_name_control_chars() {
    assert!(validate_playlist_name("bad\x00name").is_err());
    assert!(validate_playlist_name("bad\nnewline").is_err());
    assert!(validate_playlist_name("back\\slash").is_err());
}

#[test]
fn validate_playlist_name_too_long() {
    let long_name = "a".repeat(256);
    assert!(validate_playlist_name(&long_name).is_err());
    let ok_name = "a".repeat(255);
    assert!(validate_playlist_name(&ok_name).is_ok());
}

#[test]
fn json_error_format() {
    let result = json_error("something failed");
    let parsed: serde_json::Value = serde_json::from_str(&result).unwrap();
    assert_eq!(parsed["error"], "something failed");
}

#[test]
fn json_ok_format() {
    let result = json_ok("done");
    let parsed: serde_json::Value = serde_json::from_str(&result).unwrap();
    assert_eq!(parsed["ok"], true);
    assert_eq!(parsed["message"], "done");
}

#[test]
fn escape_applescript_quotes() {
    assert_eq!(escape_applescript(r#"say "hello""#), r#"say \"hello\""#);
}

#[test]
fn escape_applescript_backslashes() {
    assert_eq!(escape_applescript(r"path\to\file"), r"path\\to\\file");
}

#[test]
fn escape_applescript_combined() {
    assert_eq!(escape_applescript(r#"a\"b"#), r#"a\\\"b"#);
}

#[test]
fn escape_applescript_clean_input() {
    assert_eq!(escape_applescript("hello world"), "hello world");
}

#[test]
fn test_parse_duration() {
    assert_eq!(parse_duration("3661"), Some(3661));
    assert_eq!(parse_duration("61:01"), Some(3661));
    assert_eq!(parse_duration("1:01:01"), Some(3661));
    assert_eq!(parse_duration("05:30"), Some(330));
    assert_eq!(parse_duration("invalid"), None);
}

#[test]
fn test_parse_rfc2822_date() {
    let date = parse_rfc2822_date("Wed, 02 Oct 2024 10:00:00 GMT");
    assert!(date.is_some());
}

#[test]
fn test_sanitize_filename() {
    assert_eq!(sanitize_filename("Episode: Test?"), "Episode_ Test_");
    assert_eq!(sanitize_filename("Normal Title"), "Normal Title");
    assert_eq!(sanitize_filename("Path/With\\Slashes"), "Path_With_Slashes");
}

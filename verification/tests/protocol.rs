use mu::commands::{after_failed_import, toggled_favorite, warning, ImportRetry, ImportTally};
use mu::daemon::{client_message, dispatch, invalid_command_reply, not_responding_reply, DaemonCmd, Dispatch};
use mu::error::{applescript_error, is_retryable, json_error, json_ok, warnings_field, MuError};
use mu::player::PlayerCommand;

fn req(cmd: &str, tracks: Vec<&str>) -> DaemonCmd {
    DaemonCmd {
        cmd: cmd.to_string(),
        tracks: tracks.into_iter().map(String::from).collect(),
        titles: vec![],
        episode_ids: vec![],
    }
}

#[test]
fn dispatch_play_counts_tracks() {
    match dispatch(req("play", vec!["/a", "/b"])) {
        Dispatch::Send(PlayerCommand::Play { tracks, .. }, line) => {
            assert_eq!(tracks.len(), 2);
            assert_eq!(line, r#"{"ok":true,"action":"playing","tracks":2}"#);
        },
        _ => panic!("expected play"),
    }
}

#[test]
fn dispatch_play_without_tracks() {
    match dispatch(req("play", vec![])) {
        Dispatch::Reply(line) => assert_eq!(line, r#"{"error":"no tracks provided"}"#),
        _ => panic!("expected reply"),
    }
}

#[test]
fn dispatch_simple_commands() {
    for (name, action) in [("pause", "paused"), ("resume", "resumed"), ("next", "next"), ("previous", "previous"), ("stop", "stopped")] {
        match dispatch(req(name, vec![])) {
            Dispatch::Send(_, line) => assert_eq!(line, format!(r#"{{"ok":true,"action":"{action}"}}"#)),
            _ => panic!("expected send"),
        }
    }
    assert!(matches!(dispatch(req("status", vec![])), Dispatch::QueryStatus));
    assert!(matches!(dispatch(req("set_speed", vec![])), Dispatch::SetSpeed));
}

#[test]
fn dispatch_unknown_command() {
    match dispatch(req("dance", vec![])) {
        Dispatch::Reply(line) => assert_eq!(line, r#"{"error":"unknown command: dance"}"#),
        _ => panic!("expected reply"),
    }
    assert_eq!(invalid_command_reply("eof"), r#"{"error":"invalid command: eof"}"#);
    assert_eq!(not_responding_reply(), r#"{"error":"player not responding"}"#);
}

#[test]
fn client_message_wraps_words() {
    assert_eq!(client_message("pause"), r#"{"cmd":"pause"}"#);
    assert_eq!(client_message(r#"{"cmd":"play"}"#), r#"{"cmd":"play"}"#);
}

#[test]
fn error_messages() {
    assert_eq!(MuError::TrackNotFound.message(), "track not found");
    assert_eq!(MuError::PlaylistNotFound.message(), "playlist not found");
    assert_eq!(MuError::AppleScript("x".into()).message(), "AppleScript error: x");
    assert_eq!(MuError::Validation("bad".into()).message(), "validation error: bad");
    assert_eq!(
        MuError::DuplicateTrack { id: -42, title: "T".into() }.message(),
        "track already exists (id: -42, title: 'T')"
    );
    assert_eq!(
        MuError::DuplicateTrack { id: i64::MIN, title: "T".into() }.message(),
        format!("track already exists (id: {}, title: 'T')", i64::MIN)
    );
    assert_eq!(MuError::Db("db".into()).message(), "db");
}

#[test]
fn json_lines_are_exact() {
    assert_eq!(json_error("a\"b\n"), r#"{"error":"a\"b\n"}"#);
    assert_eq!(json_error("\u{1}\u{1f}\t\r\u{8}\u{c}\\é\u{7f}"), "{\"error\":\"\\u0001\\u001f\\t\\r\\b\\f\\\\é\u{7f}\"}");
    assert_eq!(json_ok("done"), r#"{"message":"done","ok":true}"#);
    let mut m = serde_json::Map::new();
    m.insert("ok".to_string(), serde_json::Value::Bool(true));
    m.insert("message".to_string(), serde_json::Value::String("done".to_string()));
    assert_eq!(json_ok("done"), serde_json::Value::Object(m).to_string());
}

#[test]
fn retry_only_busy_errors() {
    let busy = applescript_error("error (-54)");
    assert!(is_retryable(&busy));
    assert!(!is_retryable(&MuError::AppleScript("(-1)".into())));
    assert!(!is_retryable(&MuError::Download("(-54)".into())));
    assert!(after_failed_import(0, &busy) == ImportRetry::Retry { delay_secs: 2 });
    assert!(after_failed_import(1, &busy) == ImportRetry::Retry { delay_secs: 4 });
    assert!(after_failed_import(2, &busy) == ImportRetry::Retry { delay_secs: 8 });
    assert!(after_failed_import(3, &busy) == ImportRetry::GiveUp);
    assert!(after_failed_import(0, &MuError::TrackNotFound) == ImportRetry::GiveUp);
}

#[test]
fn tally_counts_and_warns() {
    let mut t = ImportTally::new();
    t.file_missing("/x.mp3");
    t.skip();
    t.record_import();
    t.import_failed("Song", Some(&MuError::AppleScript("boom".into())));
    t.import_failed("Other", None);
    t.id_not_saved("S", "locked");
    assert_eq!((t.imported, t.skipped, t.failed), (1, 1, 3));
    assert_eq!(
        t.warnings,
        vec![
            "file not found: /x.mp3".to_string(),
            "failed to import 'Song': AppleScript error: boom".to_string(),
            "failed to save apple_music_id for 'S': locked".to_string(),
        ]
    );
    assert_eq!(warning("failed: ", &MuError::TrackNotFound), "failed: track not found");
    assert!(toggled_favorite(false));
}

#[test]
fn warnings_field_only_when_warned() {
    assert_eq!(warnings_field(&vec![]), None);
    let w = warnings_field(&vec!["warn1".to_string(), "warn2".to_string()]).unwrap();
    assert_eq!(w, r#"["warn1","warn2"]"#);
    let parsed: serde_json::Value = serde_json::from_str(&w).unwrap();
    assert_eq!(parsed.as_array().unwrap().len(), 2);
    assert_eq!(warnings_field(&vec!["a \"b\"".to_string()]).unwrap(), r#"["a \"b\""]"#);
}

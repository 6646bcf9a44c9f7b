use mu::music::{
    add_track_to_playlist, add_track_to_playlist_by_id, add_track_to_playlist_smart, create_playlist,
    delete_playlist, delete_track, delete_track_by_path, get_library_stats, get_loved_track_ids,
    get_play_counts, get_playlist_track_ids, get_status, import_with_metadata, is_track_in_library,
    list_playlists, next_track, parse_id_list, parse_import_output, parse_library_stats,
    parse_play_counts, parse_playlists, parse_status_output, parse_true_output, pause, play_playlist,
    play_track, previous_track, remove_track_from_playlist, resume, script_error, set_track_loved, stop,
};

fn esc(s: &str) -> String {
    s.replace('\\', "\\\\").replace('"', "\\\"")
}

#[test]
fn import_script_with_artist_and_album() {
    let got = import_with_metadata("/m/a\"b.mp3", Some("Art"), Some("Al\\b"));
    let set_commands = [
        "set genre of theTrack to \"Music\"".to_string(),
        format!("set artist of theTrack to \"{}\"", esc("Art")),
        format!("set album of theTrack to \"{}\"", esc("Al\\b")),
    ]
    .join("\n            ");
    let path_str = esc("/m/a\"b.mp3");
    let fs = '\x1E';
    let want = format!(
        r#"tell application "Music"
            set theTrack to add POSIX file "{path_str}"
            {set_commands}
            set trackName to name of theTrack
            set trackId to persistent ID of theTrack
            return trackName & "{fs}" & trackId
        end tell"#
    );
    assert_eq!(got, want);
}

#[test]
fn import_script_genre_only() {
    let got = import_with_metadata("/m/x.mp3", None, None);
    assert!(got.contains("\n            set genre of theTrack to \"Music\"\n            set trackName"));
}

#[test]
fn play_scripts() {
    assert_eq!(
        play_track("My \"Song\""),
        "tell application \"Music\"\n            play (first track of library playlist 1 whose name contains \"My \\\"Song\\\"\")\n        end tell"
    );
    assert_eq!(play_playlist(None), "tell application \"Music\"\n            play library playlist 1\n        end tell");
    assert!(play_playlist(Some("focus")).contains("play playlist \"focus\""));
    assert_eq!(pause(), "tell application \"Music\" to pause");
    assert_eq!(resume(), "tell application \"Music\" to play");
    assert_eq!(stop(), "tell application \"Music\" to stop");
    assert_eq!(next_track(), "tell application \"Music\" to next track");
    assert_eq!(previous_track(), "tell application \"Music\" to previous track");
}

#[test]
fn playlist_scripts() {
    let c = create_playlist("a\"b");
    assert_eq!(
        c,
        "tell application \"Music\"\n            try\n                get playlist \"a\\\"b\"\n            on error\n                make new user playlist with properties {name:\"a\\\"b\"}\n            end try\n        end tell"
    );
    let by_name = add_track_to_playlist("Song", "pl");
    assert_eq!(by_name.len(), 2);
    assert_eq!(by_name[0], create_playlist("pl"));
    assert!(by_name[1].contains("whose name contains \"Song\""));
    let smart = add_track_to_playlist_smart(Some("ABC"), "Song", "pl");
    assert_eq!(smart, add_track_to_playlist_by_id("ABC", "pl"));
    assert!(smart[1].contains("whose persistent ID is \"ABC\""));
    assert!(remove_track_from_playlist("ABC", "pl").contains("set thePlaylist to user playlist \"pl\""));
    assert!(delete_playlist("pl").contains("delete playlist \"pl\""));
    assert!(get_playlist_track_ids("pl").contains("user playlist \"pl\""));
    assert!(delete_track("ABC").contains("persistent ID is \"ABC\""));
    assert!(delete_track_by_path("/x").contains("POSIX file \"/x\""));
    assert!(is_track_in_library("/x").contains("POSIX file \"/x\""));
}

#[test]
fn loved_script() {
    assert!(set_track_loved("ID", true).ends_with("set favorited of theTrack to true\n        end tell"));
    assert!(set_track_loved("ID", false).contains("to false"));
    assert!(get_loved_track_ids().contains("whose favorited is true"));
    assert!(get_play_counts().contains("played count"));
    assert!(list_playlists().contains("user playlists"));
    assert!(get_library_stats().contains("totalTime"));
    assert!(get_status().contains("player position"));
}

#[test]
fn parse_outputs() {
    let r = parse_import_output("My Song\x1EABCDEF\n");
    assert_eq!(r.track_name.as_deref(), Some("My Song"));
    assert_eq!(r.persistent_id.as_deref(), Some("ABCDEF"));
    let r = parse_import_output("Only");
    assert_eq!(r.persistent_id, None);
    assert!(parse_true_output(" true\n"));
    assert!(!parse_true_output("false"));
    assert_eq!(parse_id_list("A\x1DB\x1D\x1DC\x1D\n"), vec!["A", "B", "C"]);
    assert!(parse_id_list("").is_empty());
}

#[test]
fn parse_playlists_and_counts() {
    let p = parse_playlists("Chill\x1E12\x1DFocus\x1Ex\x1Dbad\x1D");
    assert_eq!(p.len(), 2);
    assert_eq!(p[0].name, "Chill");
    assert_eq!(p[0].track_count, 12);
    assert_eq!(p[1].track_count, 0);
    let c = parse_play_counts("P1\x1E3\x1DP2\x1E-1\x1D");
    assert_eq!(c, vec![("P1".to_string(), 3), ("P2".to_string(), -1)]);
    let (n, d) = parse_library_stats("42\x1E3600.5\n");
    assert_eq!(n, 42);
    assert_eq!(d.as_deref(), Some("3600.5"));
    let (n, d) = parse_library_stats("oops");
    assert_eq!(n, 0);
    assert_eq!(d, None);
}

#[test]
fn parse_status() {
    let s = parse_status_output("Song\x1E\x1EAlbum\x1Eplaying\x1E12.5\x1E200\n");
    assert_eq!(s.track.as_deref(), Some("Song"));
    assert_eq!(s.artist, None);
    assert_eq!(s.album.as_deref(), Some("Album"));
    assert_eq!(s.state, "playing");
    assert_eq!(s.position.as_deref(), Some("12.5"));
    assert_eq!(s.duration.as_deref(), Some("200"));
    let s = parse_status_output("\x1E\x1Estopped\x1E0\x1E0");
    assert_eq!(s.track, None);
    assert_eq!(s.state, "stopped");
    assert_eq!(s.position, None);
}

#[test]
fn script_error_trims() {
    match script_error("  execution error (-54)\n") {
        mu::error::MuError::AppleScript(m) => assert_eq!(m, "execution error (-54)"),
        _ => panic!("wrong variant"),
    }
}

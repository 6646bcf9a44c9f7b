use mu::error::MuError;
use mu::playlist::{
    group_playlist_rows, plan_additions, plan_favorite_sync, plan_play_counts, plan_removals, validate_playlist_name, Addition,
    LocalTrack,
};

fn s(x: &str) -> String {
    x.to_string()
}

fn local(title: &str, id: Option<&str>) -> LocalTrack {
    LocalTrack { title: s(title), apple_music_id: id.map(s) }
}

#[test]
fn rows_grouped_by_playlist_with_empty_ones() {
    let rows = vec![
        (s("chill"), s("A"), Some(s("ID1"))),
        (s("focus"), s("B"), None),
        (s("chill"), s("C"), Some(s("ID3"))),
    ];
    let names = vec![s("chill"), s("empty"), s("focus")];
    let gs = group_playlist_rows(&rows, &names);
    assert_eq!(gs.len(), 3);
    assert_eq!(gs[0].name, "chill");
    assert_eq!(gs[0].tracks.len(), 2);
    assert_eq!(gs[0].tracks[1].title, "C");
    assert_eq!(gs[1].name, "focus");
    assert_eq!(gs[1].tracks[0].apple_music_id, None);
    assert_eq!(gs[2].name, "empty");
    assert!(gs[2].tracks.is_empty());
}

#[test]
fn additions_skip_present_ids() {
    let l = vec![local("A", Some("ID1")), local("B", None), local("C", Some("ID3"))];
    let existing = vec![s("ID1")];
    let adds = plan_additions(&l, &existing);
    assert_eq!(adds.len(), 2);
    assert!(matches!(&adds[0], Addition::ByName(t) if t == "B"));
    assert!(matches!(&adds[1], Addition::ById(i) if i == "ID3"));
}

#[test]
fn removals_drop_extras_and_duplicates() {
    let l = vec![local("A", Some("ID1")), local("C", Some("ID3"))];
    let am = vec![s("ID1"), s("X"), s("ID3"), s("ID1"), s("ID3")];
    let rem = plan_removals(&l, &am);
    assert_eq!(rem, vec![s("X"), s("ID1"), s("ID3")]);
}

#[test]
fn favorite_sync_plan() {
    let loved = vec![s("P1"), s("P3")];
    let tracks = vec![(1, s("P1"), false), (2, s("P2"), true), (3, s("P3"), true), (4, s("P4"), false)];
    let plan = plan_favorite_sync(&loved, &tracks);
    assert_eq!(plan.set_favorite, vec![1]);
    assert_eq!(plan.clear_favorite, vec![2]);
}

#[test]
fn play_count_plan_last_pair_wins() {
    let counts = vec![(s("P1"), 3), (s("P2"), 5), (s("P1"), 9)];
    let tracks = vec![(10, s("P1")), (11, s("P9")), (12, s("P2"))];
    assert_eq!(plan_play_counts(&counts, &tracks), vec![(10, 9), (12, 5)]);
}

#[test]
fn additions_add_only_what_is_missing() {
    let l = vec![local("A", Some("ID1")), local("B", Some("ID2")), local("C", None)];
    let existing = vec![s("ID1"), s("ID2"), s("ID9")];
    let adds = plan_additions(&l, &existing);
    assert_eq!(adds.len(), 1);
    assert!(matches!(&adds[0], Addition::ByName(t) if t == "C"));
}

#[test]
fn playlist_names_counted_in_characters_and_checked_whole() {
    assert!(validate_playlist_name(&"é".repeat(255)).is_ok());
    assert!(validate_playlist_name(&"é".repeat(128)).is_ok());
    match validate_playlist_name(&"é".repeat(256)) {
        Err(MuError::Validation(m)) => assert_eq!(m, "playlist name too long (max 255 chars)"),
        _ => panic!("expected a validation error"),
    }
    match validate_playlist_name("x\n") {
        Err(MuError::Validation(m)) => assert_eq!(m, "playlist name contains invalid characters"),
        _ => panic!("expected a validation error"),
    }
    match validate_playlist_name(" \t ") {
        Err(MuError::Validation(m)) => assert_eq!(m, "playlist name cannot be empty"),
        _ => panic!("expected a validation error"),
    }
    assert!(validate_playlist_name("  padded name  ").is_ok());
}

#[test]
fn play_counts_touch_only_reported_tracks() {
    let counts = vec![(s("A"), 3), (s("B"), 1), (s("A"), 7)];
    let tracks = vec![(1, s("A")), (2, s("C")), (3, s("B"))];
    assert_eq!(plan_play_counts(&counts, &tracks), vec![(1, 7), (3, 1)]);
}

use mu::downloader::{
    artwork_file_name, clean_title, parse_album, parse_artist_title, parse_video_metadata, retag_args, retag_temp_path, search_query,
    track_metadata, wants_artwork,
};

#[test]
fn artist_and_title_split_at_dash() {
    let m = track_metadata("Daft Punk - Get Lucky (Official Video)", "DaftPunkVEVO").unwrap();
    assert_eq!(m.title, "Get Lucky");
    assert_eq!(m.artist.as_deref(), Some("Daft Punk"));
    assert_eq!(m.album, None);
}

#[test]
fn separators_tried_in_order() {
    let m = track_metadata("A | B - C", "x").unwrap();
    assert_eq!(m.artist.as_deref(), Some("A | B"));
    assert_eq!(m.title, "C");
    let m = track_metadata("Artist – Song", "x").unwrap();
    assert_eq!(m.artist.as_deref(), Some("Artist"));
    assert_eq!(m.title, "Song");
}

#[test]
fn uploader_becomes_artist() {
    let m = track_metadata("Song Title (Audio)", "Singer - Topic").unwrap();
    assert_eq!(m.title, "Song Title");
    assert_eq!(m.artist.as_deref(), Some("Singer"));
}

#[test]
fn channel_uploader_is_no_artist() {
    let m = track_metadata("Song Title", "Music Channel").unwrap();
    assert_eq!(m.artist, None);
    let m = track_metadata("Song Title", "YouTube Official").unwrap();
    assert_eq!(m.artist, None);
    let m = track_metadata("Song Title", "VEVO").unwrap();
    assert_eq!(m.artist, None);
}

#[test]
fn full_album_title_gives_album() {
    let m = track_metadata("Pink Floyd - The Wall (Full Album)", "x").unwrap();
    assert_eq!(m.artist.as_deref(), Some("Pink Floyd"));
    assert_eq!(m.title, "The Wall");
    assert_eq!(m.album.as_deref(), Some("The Wall"));
}

#[test]
fn clean_title_is_case_blind() {
    assert_eq!(clean_title("Song (OFFICIAL VIDEO) extra").as_deref(), Some("Song"));
    assert_eq!(clean_title("Song [Official Audio] (HD)").as_deref(), Some("Song"));
    assert_eq!(clean_title("Plain").as_deref(), Some("Plain"));
}

#[test]
fn clean_title_refuses_off_boundary_cut() {
    // The Kelvin sign lower-cases to one byte from three, so the suffix's byte
    // offset in the lower-cased title falls inside a character of the title.
    assert_eq!(clean_title("\u{212A}\u{212A}\u{e9}(HD)"), None);
}

#[test]
fn search_query_for_urls_and_words() {
    assert_eq!(search_query("https://youtube.com/watch?v=x"), "https://youtube.com/watch?v=x");
    assert_eq!(search_query("http://a"), "http://a");
    assert_eq!(search_query("some song"), "ytsearch1:some song");
}

#[test]
fn video_metadata_lines() {
    let m = parse_video_metadata("Title\nUploader\n215\nabc123\nhttps://img/x.jpg\n").unwrap();
    assert_eq!(m.raw_title, "Title");
    assert_eq!(m.uploader, "Uploader");
    assert_eq!(m.duration, 215);
    assert_eq!(m.video_id, "abc123");
    assert_eq!(m.thumbnail_url, "https://img/x.jpg");
    let m = parse_video_metadata("T\r\nU\r\nNA\r\nid\r\nNA").unwrap();
    assert_eq!(m.raw_title, "T");
    assert_eq!(m.duration, 0);
    assert_eq!(m.thumbnail_url, "NA");
}

#[test]
fn video_metadata_too_short() {
    assert_eq!(parse_video_metadata("a\nb\nc\nd").err().as_deref(), Some("could not parse metadata"));
}

#[test]
fn artwork_decisions() {
    assert!(!wants_artwork(""));
    assert!(!wants_artwork("NA"));
    assert!(wants_artwork("https://img"));
    assert_eq!(artwork_file_name("abc"), "abc.jpg");
}

#[test]
fn retag_arguments() {
    let a = retag_args("/t/x.mp3", "T", Some("A"), None);
    assert_eq!(a, vec!["-y", "-i", "/t/x.mp3", "-c", "copy", "-metadata", "title=T", "-metadata", "artist=A", "/t/x.mp3.tmp.mp3"]);
    let b = retag_args("f", "T", None, Some("Al"));
    assert_eq!(b, vec!["-y", "-i", "f", "-c", "copy", "-metadata", "title=T", "-metadata", "album=Al", "f.tmp.mp3"]);
    assert_eq!(retag_temp_path("f"), "f.tmp.mp3");
}

#[test]
fn clean_title_leaves_plain_titles_alone() {
    assert_eq!(clean_title("  Just A Song  ").as_deref(), Some("  Just A Song  "));
}

#[test]
fn clean_title_twice_changes_nothing() {
    let once = clean_title("Song (official video) [Official Audio] (HD)").unwrap();
    assert_eq!(once, "Song");
    assert_eq!(clean_title(&once).unwrap(), once);
    let once = clean_title("Track | Official Audio (4K)").unwrap();
    assert_eq!(clean_title(&once).unwrap(), once);
}

#[test]
fn artist_title_first_separator_in_list_order() {
    let (t, a) = parse_artist_title("A | B - C", "whoever").unwrap();
    assert_eq!(t, "C");
    assert_eq!(a.as_deref(), Some("A | B"));
    let (t, a) = parse_artist_title("Song Title", "My YouTube Channel").unwrap();
    assert_eq!(t, "Song Title");
    assert_eq!(a, None);
}

#[test]
fn album_from_full_album_title() {
    let album = parse_album("Band - Record (Full Album)", Some("Band")).unwrap();
    assert_eq!(album.as_deref(), Some("Record"));
    assert_eq!(parse_album("Band - Record", Some("Band")).unwrap(), None);
}

use mu::podcast::{
    artwork_extension, audio_extension, download_file_name, episode_from_item, parse_duration,
    parse_feed, parse_iso8601_date, parse_rfc2822_date, podcast_feed, RawChannel, RawItem,
};

const FEED: &str = r#"<?xml version="1.0"?>
<rss version="2.0" xmlns:itunes="http://www.itunes.com/dtds/podcast-1.0.dtd">
<channel>
<title>My Show</title>
<description>About things</description>
<itunes:author>Host</itunes:author>
<item>
  <title>Ep 1</title>
  <enclosure url="https://x/1.mp3" length="1" type="audio/mpeg"/>
  <guid>g1</guid>
  <pubDate>Wed, 02 Oct 2024 10:00:00 GMT</pubDate>
  <itunes:duration>1:01:01</itunes:duration>
</item>
<item>
  <title>No audio</title>
  <guid>g2</guid>
  <pubDate>Wed, 02 Oct 2024 10:00:00 GMT</pubDate>
</item>
</channel>
</rss>"#;

#[test]
fn feed_parses_episodes() {
    let (feed, eps) = parse_feed(FEED.as_bytes()).unwrap();
    assert_eq!(feed.title, "My Show");
    assert_eq!(feed.author, "Host");
    assert_eq!(feed.artwork_url, None);
    assert_eq!(eps.len(), 1);
    assert_eq!(eps[0].title, "Ep 1");
    assert_eq!(eps[0].guid, "g1");
    assert_eq!(eps[0].source_url, "https://x/1.mp3");
    assert_eq!(eps[0].duration_secs, Some(3661));
    assert_eq!(eps[0].pub_date, (1727863200, 0));
}

#[test]
fn feed_errors() {
    let e = parse_feed(b"not xml at all <").err().unwrap();
    assert!(e.starts_with("Failed to parse feed: ") || e == "No episodes found in feed");
    let empty = r#"<rss version="2.0"><channel><title>t</title></channel></rss>"#;
    assert_eq!(parse_feed(empty.as_bytes()).err().as_deref(), Some("No episodes found in feed"));
}

fn item() -> RawItem {
    RawItem {
        title: None,
        description: None,
        enclosure_url: Some("u".into()),
        guid: Some("g".into()),
        pub_date: Some("garbage".into()),
        first_dc_date: Some("2024-10-02T10:00:00Z".into()),
        itunes_duration: Some("05:30".into()),
    }
}

#[test]
fn item_defaults_and_fallback_date() {
    let e = episode_from_item(&item()).unwrap();
    assert_eq!(e.title, "Untitled Episode");
    assert_eq!(e.description, "");
    assert_eq!(e.pub_date, (1727863200, 0));
    assert_eq!(e.duration_secs, Some(330));
    let mut it = item();
    it.guid = None;
    assert!(episode_from_item(&it).is_none());
    let mut it = item();
    it.first_dc_date = None;
    assert!(episode_from_item(&it).is_none());
}

#[test]
fn channel_defaults() {
    let raw = RawChannel {
        title: "T".into(),
        description: "D".into(),
        itunes_author: None,
        itunes_image: None,
        image_url: Some("img".into()),
    };
    let f = podcast_feed(&raw);
    assert_eq!(f.author, "Unknown");
    assert_eq!(f.artwork_url.as_deref(), Some("img"));
}

#[test]
fn dates_and_durations() {
    assert_eq!(parse_rfc2822_date("Wed, 02 Oct 2024 10:00:00 GMT"), Some((1727863200, 0)));
    assert_eq!(parse_rfc2822_date("nope"), None);
    assert_eq!(parse_iso8601_date("2024-10-02T10:00:00.5Z"), Some((1727863200, 500_000_000)));
    assert_eq!(parse_duration("-5"), Some(-5));
    assert_eq!(parse_duration("+5"), Some(5));
    assert_eq!(parse_duration("1:2:3:4"), None);
    assert_eq!(parse_duration("a:1"), None);
    assert_eq!(parse_duration(""), None);
    assert_eq!(parse_duration("9223372036854775807"), Some(i64::MAX));
    assert_eq!(parse_duration("9223372036854775808"), None);
}

#[test]
fn download_extensions() {
    assert_eq!(audio_extension(Some("audio/mpeg"), "x"), "mp3");
    assert_eq!(audio_extension(Some("audio/mp4"), "x.mp3"), "m4a");
    assert_eq!(audio_extension(Some("text/html"), "x.m4a"), "m4a");
    assert_eq!(audio_extension(None, "x"), "mp3");
    assert_eq!(artwork_extension(Some("image/png"), "x"), "png");
    assert_eq!(artwork_extension(None, "x.jpeg"), "jpg");
    assert_eq!(artwork_extension(None, "x.webp"), "webp");
    assert_eq!(artwork_extension(Some("image/gif"), "x"), "jpg");
    assert_eq!(download_file_name("a/b?", "mp3"), "a_b_.mp3");
}

fn ep(guid: &str, secs: i64) -> mu::podcast::EpisodeData {
    mu::podcast::EpisodeData {
        title: guid.to_string(),
        description: String::new(),
        pub_date: (secs, 0),
        duration_secs: None,
        source_url: String::new(),
        guid: guid.to_string(),
    }
}

#[test]
fn latest_episodes_newest_first() {
    let eps = vec![ep("b", 20), ep("a", 10), ep("c", 30), ep("b2", 20)];
    let got: Vec<String> = mu::podcast::latest_episodes(eps, 3).into_iter().map(|e| e.guid).collect();
    // A stable sort keeps "b" before "b2"; read from the end, "b2" comes first.
    assert_eq!(got, vec!["c", "b2", "b"]);
    let all = mu::podcast::latest_episodes(vec![ep("x", 1)], 5);
    assert_eq!(all.len(), 1);
    let sorted: Vec<String> = mu::podcast::sort_episodes_by_date(vec![ep("z", 3), ep("y", 1), ep("w", 3)])
        .into_iter()
        .map(|e| e.guid)
        .collect();
    assert_eq!(sorted, vec!["y", "z", "w"]);
}

#[test]
fn parts_make_feed() {
    let raw = RawChannel {
        title: "T".into(),
        description: "D".into(),
        itunes_author: Some("A".into()),
        itunes_image: Some("it".into()),
        image_url: Some("img".into()),
    };
    let (f, eps) = mu::podcast::feed_from_parts(&raw, &vec![item()]).unwrap();
    assert_eq!(f.author, "A");
    assert_eq!(f.artwork_url.as_deref(), Some("it"));
    assert_eq!(eps.len(), 1);
    let mut bad = item();
    bad.enclosure_url = None;
    assert_eq!(
        mu::podcast::feed_from_parts(&raw, &vec![bad]).err().as_deref(),
        Some("No episodes found in feed")
    );
}

#[test]
fn feed_takes_channel_parts_as_written() {
    let xml = r#"<rss version="2.0" xmlns:itunes="http://www.itunes.com/dtds/podcast-1.0.dtd"><channel>
<title>T</title><description>D</description>
<image><url>https://x/img.png</url><title>i</title><link>https://x</link></image>
<item><enclosure url="https://x/a.mp3" length="1" type="audio/mpeg"/><guid>a</guid>
<pubDate>Wed, 02 Oct 2024 10:00:00 GMT</pubDate></item>
</channel></rss>"#;
    let (feed, eps) = parse_feed(xml.as_bytes()).unwrap();
    assert_eq!(feed.title, "T");
    assert_eq!(feed.description, "D");
    assert_eq!(feed.author, "Unknown");
    assert_eq!(feed.artwork_url.as_deref(), Some("https://x/img.png"));
    assert_eq!(eps[0].title, "Untitled Episode");
    assert_eq!(eps[0].description, "");
    assert_eq!(eps[0].duration_secs, None);
}

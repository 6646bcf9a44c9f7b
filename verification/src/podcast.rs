//! Podcast feeds: what is read from an RSS channel and its items, episode
//! durations, and the names under which files are kept.
use vstd::prelude::*;
use crate::text::{
    chars_of, str_ends_with, owned, parse_i64, parse_i64_str, push_char, split_char, split_str,
    str_contains, views, contains, ends_with, lemma_split_char_whole, lemma_split_char_then,
};

verus! {

// ---------------------------------------------------------------------------
// Durations
// ---------------------------------------------------------------------------

/// An iTunes duration: seconds ("3661"), "MM:SS" or "HH:MM:SS". Minutes and
/// hours are multiplied out with wrapping arithmetic, as in a release build.
pub open spec fn parse_duration_spec(s: Seq<char>) -> Option<i64> {
    let p = split_char(s, ':');
    if p.len() == 1 {
        parse_i64(s)
    } else if p.len() == 2 {
        match (parse_i64(p[0]), parse_i64(p[1])) {
            (Some(m), Some(sec)) => Some(m.wrapping_mul(60).wrapping_add(sec)),
            _ => None,
        }
    } else if p.len() == 3 {
        match (parse_i64(p[0]), parse_i64(p[1]), parse_i64(p[2])) {
            (Some(h), Some(m), Some(sec)) => Some(
                h.wrapping_mul(3600).wrapping_add(m.wrapping_mul(60)).wrapping_add(sec),
            ),
            _ => None,
        }
    } else {
        None
    }
}

proof fn lemma_crop_in_range(x: int)
    requires
        i64::MIN <= x <= i64::MAX,
    ensures
        vstd::wrapping::i64_specs::signed_crop(x) == x,
{
    let r: int = 0x1_0000_0000_0000_0000;
    if x >= 0 {
        vstd::arithmetic::div_mod::lemma_small_mod(x as nat, r as nat);
    } else {
        vstd::arithmetic::div_mod::lemma_small_mod((x + r) as nat, r as nat);
        vstd::arithmetic::div_mod::lemma_mod_add_multiples_vanish(x, r);
    }
}

/// An iTunes duration counts hours, minutes and seconds: "h:m:s" is
/// h·3600 + m·60 + s seconds and "m:s" is m·60 + s, where each field is a
/// decimal integer and the total (and each partial sum) fits an `i64`; a lone
/// number is that many seconds.
pub proof fn law_duration_counts_seconds(a: Seq<char>, b: Seq<char>, c: Seq<char>, h: i64, m: i64, sec: i64)
    requires
        !a.contains(':'),
        !b.contains(':'),
        !c.contains(':'),
        parse_i64(a) == Some(h),
        parse_i64(b) == Some(m),
        parse_i64(c) == Some(sec),
    ensures
        parse_duration_spec(a) == Some(h),
        i64::MIN <= h * 60 <= i64::MAX && i64::MIN <= h * 60 + m <= i64::MAX ==> parse_duration_spec(
            a + seq![':'] + b,
        ) == Some((h * 60 + m) as i64),
        i64::MIN <= h * 3600 <= i64::MAX && i64::MIN <= m * 60 <= i64::MAX && i64::MIN <= h * 3600 + m * 60
            <= i64::MAX && i64::MIN <= h * 3600 + m * 60 + sec <= i64::MAX ==> parse_duration_spec(
            a + seq![':'] + b + seq![':'] + c,
        ) == Some((h * 3600 + m * 60 + sec) as i64),
{
    lemma_split_char_whole(a, ':');
    lemma_split_char_then(a, ':', b);
    let ab = a + seq![':'] + b;
    lemma_split_char_then(ab, ':', c);
    assert(seq![a].push(b) =~= seq![a, b]);
    assert(seq![a, b].push(c) =~= seq![a, b, c]);
    if i64::MIN <= h * 60 <= i64::MAX && i64::MIN <= h * 60 + m <= i64::MAX {
        lemma_crop_in_range(h * 60);
    }
    if i64::MIN <= h * 3600 <= i64::MAX && i64::MIN <= m * 60 <= i64::MAX && i64::MIN <= h * 3600 + m * 60
        <= i64::MAX && i64::MIN <= h * 3600 + m * 60 + sec <= i64::MAX {
        lemma_crop_in_range(h * 3600);
        lemma_crop_in_range(m * 60);
    }
}

/// Reads an iTunes duration (HH:MM:SS, MM:SS or seconds) as seconds.
pub fn parse_duration(duration_str: &str) -> (r: Option<i64>)
    ensures
        r == parse_duration_spec(duration_str@),
{
    let parts = split_str(duration_str, ':');
    if parts.len() == 1 {
        parse_i64_str(duration_str)
    } else if parts.len() == 2 {
        assert(views(parts@)[0] == parts@[0]@);
        assert(views(parts@)[1] == parts@[1]@);
        let m = parse_i64_str(parts[0].as_str());
        let sec = parse_i64_str(parts[1].as_str());
        match (m, sec) {
            (Some(m), Some(sec)) => Some(m.wrapping_mul(60).wrapping_add(sec)),
            _ => None,
        }
    } else if parts.len() == 3 {
        assert(views(parts@)[0] == parts@[0]@);
        assert(views(parts@)[1] == parts@[1]@);
        assert(views(parts@)[2] == parts@[2]@);
        let h = parse_i64_str(parts[0].as_str());
        let m = parse_i64_str(parts[1].as_str());
        let sec = parse_i64_str(parts[2].as_str());
        match (h, m, sec) {
            (Some(h), Some(m), Some(sec)) => Some(
                h.wrapping_mul(3600).wrapping_add(m.wrapping_mul(60)).wrapping_add(sec),
            ),
            _ => None,
        }
    } else {
        None
    }
}

// ---------------------------------------------------------------------------
// File names
// ---------------------------------------------------------------------------

/// The characters that a file name may not hold become '_'.
pub open spec fn safe_char(c: char) -> char {
    if c == '/' || c == '\\' || c == ':' || c == '*' || c == '?' || c == '"' || c == '<' || c == '>'
        || c == '|' {
        '_'
    } else {
        c
    }
}

/// A title as a file name: unsafe characters replaced, cut to 100 characters.
pub open spec fn sanitize_filename_spec(s: Seq<char>) -> Seq<char> {
    let m = s.map_values(|c: char| safe_char(c));
    if m.len() <= 100 {
        m
    } else {
        m.take(100)
    }
}

/// Makes a podcast or episode title safe as a file name.
pub fn sanitize_filename(s: &str) -> (r: String)
    ensures
        r@ == sanitize_filename_spec(s@),
{
    let v = chars_of(s);
    let n: usize = if v.len() <= 100 { v.len() } else { 100 };
    let mut out = String::new();
    let mut i: usize = 0;
    while i < n
        invariant
            i <= n <= v.len(),
            n == (if v.len() <= 100 { v.len() } else { 100 }),
            out@ == v@.map_values(|c: char| safe_char(c)).take(i as int),
        decreases n - i,
    {
        let c = v[i];
        let d = if c == '/' || c == '\\' || c == ':' || c == '*' || c == '?' || c == '"' || c == '<'
            || c == '>' || c == '|' {
            '_'
        } else {
            c
        };
        push_char(&mut out, d);
        assert(v@.map_values(|c: char| safe_char(c)).take(i + 1) == v@.map_values(
            |c: char| safe_char(c),
        ).take(i as int).push(safe_char(v@[i as int])));
        i = i + 1;
    }
    assert(v@.map_values(|c: char| safe_char(c)).take(v@.len() as int) == v@.map_values(
        |c: char| safe_char(c),
    ));
    out
}

/// A sanitized name is at most 100 characters long and holds none of
/// `/ \ : * ? " < > |`.
pub proof fn law_sanitized_names_are_safe(s: Seq<char>)
    ensures
        sanitize_filename_spec(s).len() <= 100,
        forall|i: int| 0 <= i < sanitize_filename_spec(s).len() ==> {
            let c = #[trigger] sanitize_filename_spec(s)[i];
            c != '/' && c != '\\' && c != ':' && c != '*' && c != '?' && c != '"' && c != '<' && c != '>'
                && c != '|'
        },
{
    let m = s.map_values(|c: char| safe_char(c));
    assert forall|i: int| 0 <= i < sanitize_filename_spec(s).len() implies {
        let c = #[trigger] sanitize_filename_spec(s)[i];
        c != '/' && c != '\\' && c != ':' && c != '*' && c != '?' && c != '"' && c != '<' && c != '>'
            && c != '|'
    } by {
        assert(sanitize_filename_spec(s)[i] == m[i]);
        assert(m[i] == safe_char(s[i]));
    }
}

// ---------------------------------------------------------------------------
// Dates
// ---------------------------------------------------------------------------

/// The instant that chrono's `DateTime::parse_from_rfc2822` reads from `s`, as
/// seconds since the epoch and nanoseconds.
pub uninterp spec fn rfc2822_instant(s: Seq<char>) -> Option<(i64, u32)>;

/// The instant that chrono's `DateTime::parse_from_rfc3339` reads from `s`.
pub uninterp spec fn rfc3339_instant(s: Seq<char>) -> Option<(i64, u32)>;

/// Calls chrono's `DateTime::parse_from_rfc2822` and keeps the instant (UTC
/// seconds and nanoseconds); `None` where chrono refuses the text. The result
/// is named `rfc2822_instant`, a function of `s` alone; the date grammar is
/// not stated here.
#[verifier::external_body]
fn rfc2822(s: &str) -> (r: Option<(i64, u32)>)
    ensures
        r == rfc2822_instant(s@),
{
    chrono::DateTime::parse_from_rfc2822(s).ok().map(|d| (d.timestamp(), d.timestamp_subsec_nanos()))
}

/// Calls chrono's `DateTime::parse_from_rfc3339` and keeps the instant; the
/// result is named `rfc3339_instant`, a function of `s` alone.
#[verifier::external_body]
fn rfc3339(s: &str) -> (r: Option<(i64, u32)>)
    ensures
        r == rfc3339_instant(s@),
{
    chrono::DateTime::parse_from_rfc3339(s).ok().map(|d| (d.timestamp(), d.timestamp_subsec_nanos()))
}

/// Reads an RFC 2822 date, the common form in RSS feeds.
pub fn parse_rfc2822_date(date_str: &str) -> (r: Option<(i64, u32)>)
    ensures
        r == rfc2822_instant(date_str@),
{
    rfc2822(date_str)
}

/// Reads an ISO 8601 (RFC 3339) date, the form of the Dublin Core extension.
pub fn parse_iso8601_date(date_str: &str) -> (r: Option<(i64, u32)>)
    ensures
        r == rfc3339_instant(date_str@),
{
    rfc3339(date_str)
}

// ---------------------------------------------------------------------------
// Feeds
// ---------------------------------------------------------------------------

/// What a podcast's channel says of it.
pub struct PodcastFeed {
    pub title: String,
    pub author: String,
    pub description: String,
    pub artwork_url: Option<String>,
}

/// An episode read from a feed item. Its date is seconds since the epoch and
/// nanoseconds.
pub struct EpisodeData {
    pub title: String,
    pub description: String,
    pub pub_date: (i64, u32),
    pub duration_secs: Option<i64>,
    pub source_url: String,
    pub guid: String,
}

/// The parts of an RSS channel that a podcast is read from.
pub struct RawChannel {
    pub title: String,
    pub description: String,
    pub itunes_author: Option<String>,
    pub itunes_image: Option<String>,
    pub image_url: Option<String>,
}

/// The parts of an RSS item that an episode is read from.
pub struct RawItem {
    pub title: Option<String>,
    pub description: Option<String>,
    pub enclosure_url: Option<String>,
    pub guid: Option<String>,
    pub pub_date: Option<String>,
    pub first_dc_date: Option<String>,
    pub itunes_duration: Option<String>,
}

/// What a channel's parts hold, as text.
pub struct RawChannelV {
    pub title: Seq<char>,
    pub description: Seq<char>,
    pub itunes_author: Option<Seq<char>>,
    pub itunes_image: Option<Seq<char>>,
    pub image_url: Option<Seq<char>>,
}

/// What an item's parts hold, as text.
pub struct RawItemV {
    pub title: Option<Seq<char>>,
    pub description: Option<Seq<char>>,
    pub enclosure_url: Option<Seq<char>>,
    pub guid: Option<Seq<char>>,
    pub pub_date: Option<Seq<char>>,
    pub first_dc_date: Option<Seq<char>>,
    pub itunes_duration: Option<Seq<char>>,
}

impl View for RawChannel {
    type V = RawChannelV;

    open spec fn view(&self) -> RawChannelV {
        RawChannelV {
            title: self.title@,
            description: self.description@,
            itunes_author: ov(self.itunes_author),
            itunes_image: ov(self.itunes_image),
            image_url: ov(self.image_url),
        }
    }
}

impl View for RawItem {
    type V = RawItemV;

    open spec fn view(&self) -> RawItemV {
        RawItemV {
            title: ov(self.title),
            description: ov(self.description),
            enclosure_url: ov(self.enclosure_url),
            guid: ov(self.guid),
            pub_date: ov(self.pub_date),
            first_dc_date: ov(self.first_dc_date),
            itunes_duration: ov(self.itunes_duration),
        }
    }
}

/// The views of a sequence of items.
pub open spec fn items_view(items: Seq<RawItem>) -> Seq<RawItemV> {
    items.map_values(|i: RawItem| i@)
}

pub open spec fn ov(o: Option<String>) -> Option<Seq<char>> {
    match o {
        Some(s) => Some(s@),
        None => None,
    }
}

fn clone_opt(o: &Option<String>) -> (r: Option<String>)
    ensures
        ov(r) == ov(*o),
{
    match o {
        Some(s) => Some(s.clone()),
        None => None,
    }
}

/// The podcast of a channel: its author is the iTunes author or "Unknown", its
/// artwork the iTunes image, else the channel image.
pub fn podcast_feed(raw: &RawChannel) -> (f: PodcastFeed)
    ensures
        f.title@ == raw.title@,
        f.description@ == raw.description@,
        f.author@ == match ov(raw.itunes_author) {
            Some(a) => a,
            None => "Unknown"@,
        },
        ov(f.artwork_url) == match ov(raw.itunes_image) {
            Some(i) => Some(i),
            None => ov(raw.image_url),
        },
{
    PodcastFeed {
        title: raw.title.clone(),
        author: match &raw.itunes_author {
            Some(a) => a.clone(),
            None => owned("Unknown"),
        },
        description: raw.description.clone(),
        artwork_url: match &raw.itunes_image {
            Some(i) => Some(i.clone()),
            None => clone_opt(&raw.image_url),
        },
    }
}

/// An item's date: its RFC 2822 publication date, else the first Dublin Core
/// date read as RFC 3339.
pub open spec fn item_date(pub_date: Option<Seq<char>>, dc_date: Option<Seq<char>>) -> Option<(i64, u32)> {
    let first = match pub_date {
        Some(d) => rfc2822_instant(d),
        None => None,
    };
    match first {
        Some(t) => Some(t),
        None => match dc_date {
            Some(d) => rfc3339_instant(d),
            None => None,
        },
    }
}

/// The episode of an item: it needs an enclosure (the audio file), a GUID and
/// a date. Title "Untitled Episode" and an empty description stand in for
/// missing ones; the duration is the iTunes duration where it reads.
pub open spec fn episode_spec(item: RawItemV) -> Option<(Seq<char>, Seq<char>, (i64, u32), Option<i64>, Seq<char>, Seq<char>)> {
    match (item.enclosure_url, item.guid, item_date(item.pub_date, item.first_dc_date)) {
        (Some(url), Some(guid), Some(date)) => Some(
            (
                match item.title {
                    Some(t) => t,
                    None => "Untitled Episode"@,
                },
                match item.description {
                    Some(d) => d,
                    None => Seq::empty(),
                },
                date,
                match item.itunes_duration {
                    Some(d) => parse_duration_spec(d),
                    None => None,
                },
                url,
                guid,
            ),
        ),
        _ => None,
    }
}

pub open spec fn episode_view(e: EpisodeData) -> (Seq<char>, Seq<char>, (i64, u32), Option<i64>, Seq<char>, Seq<char>) {
    (e.title@, e.description@, e.pub_date, e.duration_secs, e.source_url@, e.guid@)
}

/// The episode of a feed item, if it has what an episode needs.
pub fn episode_from_item(item: &RawItem) -> (r: Option<EpisodeData>)
    ensures
        match r {
            Some(e) => episode_spec(item@) == Some(episode_view(e)),
            None => episode_spec(item@) is None,
        },
{
    let url = match &item.enclosure_url {
        Some(u) => u.clone(),
        None => return None,
    };
    let guid = match &item.guid {
        Some(g) => g.clone(),
        None => return None,
    };
    let first = match &item.pub_date {
        Some(d) => parse_rfc2822_date(d.as_str()),
        None => None,
    };
    let date = match first {
        Some(t) => t,
        None => match &item.first_dc_date {
            Some(d) => match parse_iso8601_date(d.as_str()) {
                Some(t) => t,
                None => return None,
            },
            None => return None,
        },
    };
    let duration = match &item.itunes_duration {
        Some(d) => parse_duration(d.as_str()),
        None => None,
    };
    let title = match &item.title {
        Some(t) => t.clone(),
        None => owned("Untitled Episode"),
    };
    let description = match &item.description {
        Some(d) => d.clone(),
        None => String::new(),
    };
    Some(EpisodeData { title, description, pub_date: date, duration_secs: duration, source_url: url, guid })
}

/// The episodes of a sequence of items, in order.
pub open spec fn episodes_spec(items: Seq<RawItemV>) -> Seq<(Seq<char>, Seq<char>, (i64, u32), Option<i64>, Seq<char>, Seq<char>)>
    decreases items.len(),
{
    if items.len() == 0 {
        Seq::empty()
    } else {
        let r = episodes_spec(items.drop_last());
        match episode_spec(items.last()) {
            Some(e) => r.push(e),
            None => r,
        }
    }
}

pub open spec fn episodes_view(es: Seq<EpisodeData>) -> Seq<(Seq<char>, Seq<char>, (i64, u32), Option<i64>, Seq<char>, Seq<char>)> {
    es.map_values(|e: EpisodeData| episode_view(e))
}

/// The episodes of a feed's items, skipping those that are no episode.
pub fn episodes_from_items(items: &Vec<RawItem>) -> (r: Vec<EpisodeData>)
    ensures
        episodes_view(r@) == episodes_spec(items_view(items@)),
{
    let mut out: Vec<EpisodeData> = Vec::new();
    let mut i: usize = 0;
    while i < items.len()
        invariant
            i <= items.len(),
            episodes_view(out@) == episodes_spec(items_view(items@).take(i as int)),
        decreases items.len() - i,
    {
        let ghost iv = items_view(items@);
        assert(iv.take(i + 1).drop_last() == iv.take(i as int));
        assert(iv.take(i + 1).last() == items@[i as int]@);
        let ghost before = episodes_view(out@);
        match episode_from_item(&items[i]) {
            Some(e) => {
                out.push(e);
                assert(episodes_view(out@) == before.push(episode_view(e)));
            },
            None => {},
        }
        i = i + 1;
    }
    assert(items_view(items@).take(items@.len() as int) == items_view(items@));
    out
}

/// What rss's `Channel::read_from` reads from a feed's bytes: the channel's
/// parts and the parts of each of its items in order, or the message of the
/// error that stopped it.
pub uninterp spec fn rss_feed_parts(bytes: Seq<u8>) -> Result<(RawChannelV, Seq<RawItemV>), Seq<char>>;

/// Parses the bytes with rss's `Channel::read_from` and copies out, as text,
/// the channel's `title`, `description`, iTunes `author` and `image`, and
/// `image` URL; on failure, the error's `Display` text. Claimed: the result is
/// the channel part of the named `rss_feed_parts` of the bytes.
#[verifier::external_body]
fn read_feed_channel(bytes: &[u8]) -> (r: Result<RawChannel, String>)
    ensures
        match (r, rss_feed_parts(bytes@)) {
            (Ok(c), Ok((cv, _))) => c@ == cv,
            (Err(e), Err(m)) => e@ == m,
            _ => false,
        },
{
    let ch = rss::Channel::read_from(bytes).map_err(|e| e.to_string())?;
    let it = ch.itunes_ext();
    Ok(RawChannel {
        title: ch.title().into(),
        description: ch.description().into(),
        itunes_author: it.and_then(|e| e.author()).map(String::from),
        itunes_image: it.and_then(|e| e.image()).map(String::from),
        image_url: ch.image().map(|i| i.url().into()),
    })
}

/// Parses the bytes with rss's `Channel::read_from` and copies out, for each of
/// the channel's `items` in order, as text, its `title`, `description`,
/// `enclosure` URL, `guid` value, `pub_date`, first Dublin Core date and iTunes
/// `duration`; on failure, the error's `Display` text. Claimed: the result is
/// the items part of the named `rss_feed_parts` of the bytes.
#[verifier::external_body]
fn read_feed_items(bytes: &[u8]) -> (r: Result<Vec<RawItem>, String>)
    ensures
        match (r, rss_feed_parts(bytes@)) {
            (Ok(its), Ok((_, itv))) => items_view(its@) == itv,
            (Err(e), Err(m)) => e@ == m,
            _ => false,
        },
{
    let ch = rss::Channel::read_from(bytes).map_err(|e| e.to_string())?;
    Ok(ch.items().iter().map(|i| RawItem {
        title: i.title().map(String::from),
        description: i.description().map(String::from),
        enclosure_url: i.enclosure().map(|e| e.url().into()),
        guid: i.guid().map(|g| g.value().into()),
        pub_date: i.pub_date().map(String::from),
        first_dc_date: i.dublin_core_ext().and_then(|d| d.dates().first()).cloned(),
        itunes_duration: i.itunes_ext().and_then(|e| e.duration()).map(String::from),
    }).collect())
}

pub open spec fn feed_view(f: PodcastFeed) -> (Seq<char>, Seq<char>, Seq<char>, Option<Seq<char>>) {
    (f.title@, f.author@, f.description@, ov(f.artwork_url))
}

/// What `podcast_feed` makes of a channel.
pub open spec fn podcast_feed_spec(raw: RawChannelV) -> (Seq<char>, Seq<char>, Seq<char>, Option<Seq<char>>) {
    (
        raw.title,
        match raw.itunes_author {
            Some(a) => a,
            None => "Unknown"@,
        },
        raw.description,
        match raw.itunes_image {
            Some(i) => Some(i),
            None => raw.image_url,
        },
    )
}

/// The podcast and episodes of a channel's parts: the error "No episodes found
/// in feed" when no item is an episode.
pub fn feed_from_parts(raw: &RawChannel, items: &Vec<RawItem>) -> (r: Result<(PodcastFeed, Vec<EpisodeData>), String>)
    ensures
        match r {
            Ok((f, eps)) => feed_view(f) == podcast_feed_spec(raw@) && episodes_view(eps@) == episodes_spec(
                items_view(items@),
            ) && eps.len() > 0,
            Err(e) => episodes_spec(items_view(items@)).len() == 0 && e@ == "No episodes found in feed"@,
        },
{
    let feed = podcast_feed(raw);
    let episodes = episodes_from_items(items);
    if episodes.len() == 0 {
        return Err(owned("No episodes found in feed"));
    }
    Ok((feed, episodes))
}

/// Reads a podcast and its episodes from a feed. A feed that rss does not
/// parse is the error "Failed to parse feed: <reason>"; otherwise the result
/// is that of `feed_from_parts` on the parts that rss read.
pub fn parse_feed(bytes: &[u8]) -> (r: Result<(PodcastFeed, Vec<EpisodeData>), String>)
    ensures
        match rss_feed_parts(bytes@) {
            Ok((c, its)) => match r {
                Ok((f, eps)) => feed_view(f) == podcast_feed_spec(c) && episodes_view(eps@)
                    == episodes_spec(its) && eps.len() > 0,
                Err(e) => episodes_spec(its).len() == 0 && e@ == "No episodes found in feed"@,
            },
            Err(m) => match r {
                Ok(_) => false,
                Err(e) => e@ == "Failed to parse feed: "@ + m,
            },
        },
{
    let parsed = match read_feed_channel(bytes) {
        Ok(raw) => match read_feed_items(bytes) {
            Ok(items) => Ok((raw, items)),
            Err(reason) => Err(reason),
        },
        Err(reason) => Err(reason),
    };
    match parsed {
        Ok((raw, items)) => feed_from_parts(&raw, &items),
        Err(reason) => {
            let mut m = owned("Failed to parse feed: ");
            m.append(reason.as_str());
            Err(m)
        },
    }
}

// ---------------------------------------------------------------------------
// The latest episodes
// ---------------------------------------------------------------------------

pub type EpisodeV = (Seq<char>, Seq<char>, (i64, u32), Option<i64>, Seq<char>, Seq<char>);

/// Instant `a` is strictly before instant `b`.
pub open spec fn date_before(a: (i64, u32), b: (i64, u32)) -> bool {
    a.0 < b.0 || (a.0 == b.0 && a.1 < b.1)
}

/// Where an episode of date `d` goes in `s` (searched from index `j`): before
/// the first episode that is strictly later, so after those of the same date.
pub open spec fn insert_pos_from(s: Seq<EpisodeV>, d: (i64, u32), j: int) -> int
    decreases s.len() - j,
{
    if j < 0 || j >= s.len() || date_before(d, s[j].2) {
        j
    } else {
        insert_pos_from(s, d, j + 1)
    }
}

/// The episodes ordered oldest first; episodes of the same date keep their
/// order (a stable sort by date).
pub open spec fn sort_by_date(s: Seq<EpisodeV>) -> Seq<EpisodeV>
    decreases s.len(),
{
    if s.len() == 0 {
        Seq::empty()
    } else {
        let sorted = sort_by_date(s.drop_last());
        sorted.insert(insert_pos_from(sorted, s.last().2, 0), s.last())
    }
}

/// The `max` latest episodes, newest first: the date-sorted list read from its end.
pub open spec fn latest_spec(s: Seq<EpisodeV>, max: int) -> Seq<EpisodeV> {
    let sorted = sort_by_date(s);
    let m = if max < sorted.len() { max } else { sorted.len() as int };
    Seq::new(m as nat, |k: int| sorted[sorted.len() - 1 - k])
}

proof fn lemma_insert_pos(s: Seq<EpisodeV>, d: (i64, u32), j: int)
    requires
        0 <= j <= s.len(),
    ensures
        j <= insert_pos_from(s, d, j) <= s.len(),
        forall|k: int| j <= k < insert_pos_from(s, d, j) ==> !date_before(d, #[trigger] s[k].2),
        insert_pos_from(s, d, j) < s.len() ==> date_before(d, s[insert_pos_from(s, d, j)].2),
    decreases s.len() - j,
{
    if j < s.len() && !date_before(d, s[j].2) {
        lemma_insert_pos(s, d, j + 1);
    }
}

proof fn lemma_sort_len(s: Seq<EpisodeV>)
    ensures
        sort_by_date(s).len() == s.len(),
    decreases s.len(),
{
    if s.len() > 0 {
        lemma_sort_len(s.drop_last());
        lemma_insert_pos(sort_by_date(s.drop_last()), s.last().2, 0);
    }
}

/// The date-sorted episodes are in order: none comes after a later one.
pub proof fn law_sorted_by_date(s: Seq<EpisodeV>)
    ensures
        forall|a: int, b: int|
            0 <= a < b < sort_by_date(s).len() ==> !date_before(#[trigger] sort_by_date(s)[b].2, #[trigger] sort_by_date(s)[a].2),
    decreases s.len(),
{
    if s.len() > 0 {
        let p = sort_by_date(s.drop_last());
        let e = s.last();
        law_sorted_by_date(s.drop_last());
        lemma_insert_pos(p, e.2, 0);
        let i = insert_pos_from(p, e.2, 0);
        let r = p.insert(i, e);
        assert forall|a: int, b: int| 0 <= a < b < r.len() implies !date_before(#[trigger] r[b].2, #[trigger] r[a].2) by {
            if b < i {
                assert(r[a] == p[a] && r[b] == p[b]);
            } else if b == i {
                assert(r[a] == p[a]);
                assert(!date_before(e.2, p[a].2));
            } else if a < i {
                assert(r[a] == p[a] && r[b] == p[b - 1]);
                if a < b - 1 {
                    assert(!date_before(p[b - 1].2, p[a].2));
                }
            } else if a == i {
                assert(r[b] == p[b - 1]);
                assert(!date_before(p[i].2, e.2) || date_before(e.2, p[i].2));
                if b - 1 > i {
                    assert(!date_before(p[b - 1].2, p[i].2));
                }
            } else {
                assert(r[a] == p[a - 1] && r[b] == p[b - 1]);
            }
        }
    }
}

/// The latest episodes come newest first, and there are `max` of them, or all
/// when there are fewer.
pub proof fn law_latest_newest_first(s: Seq<EpisodeV>, max: int)
    requires
        max >= 0,
    ensures
        latest_spec(s, max).len() == if max < s.len() { max } else { s.len() as int },
        forall|a: int, b: int|
            0 <= a < b < latest_spec(s, max).len() ==> !date_before(#[trigger] latest_spec(s, max)[a].2, #[trigger] latest_spec(s, max)[b].2),
{
    lemma_sort_len(s);
    law_sorted_by_date(s);
    let sorted = sort_by_date(s);
    let l = latest_spec(s, max);
    assert forall|a: int, b: int| 0 <= a < b < l.len() implies !date_before(#[trigger] l[a].2, #[trigger] l[b].2) by {
        assert(l[a] == sorted[sorted.len() - 1 - a]);
        assert(l[b] == sorted[sorted.len() - 1 - b]);
    }
}

fn date_before_exec(a: (i64, u32), b: (i64, u32)) -> (r: bool)
    ensures
        r == date_before(a, b),
{
    a.0 < b.0 || (a.0 == b.0 && a.1 < b.1)
}

/// The episodes ordered oldest first, the same dates keeping their order.
pub fn sort_episodes_by_date(episodes: Vec<EpisodeData>) -> (r: Vec<EpisodeData>)
    ensures
        episodes_view(r@) == sort_by_date(episodes_view(episodes@)),
{
    let mut sorted: Vec<EpisodeData> = Vec::new();
    let mut rest = episodes;
    let ghost all = episodes_view(rest@);
    let mut i: usize = 0;
    let n = rest.len();
    assert(all.skip(0) == all);
    while rest.len() > 0
        invariant
            i + rest.len() == n,
            n == all.len(),
            episodes_view(rest@) == all.skip(i as int),
            episodes_view(sorted@) == sort_by_date(all.take(i as int)),
        decreases rest.len(),
    {
        let ghost before_rest = episodes_view(rest@);
        let ghost raw = rest@;
        let e = rest.remove(0);
        proof {
            assert forall|k: int| 0 <= k < episodes_view(rest@).len() implies episodes_view(rest@)[k]
                == all.skip(i + 1)[k] by {
                assert(rest@[k] == raw[k + 1]);
                assert(before_rest[k + 1] == all.skip(i as int)[k + 1]);
            }
            assert(episode_view(e) == before_rest[0]);
            assert(before_rest[0] == all[i as int]);
            assert(all.take(i + 1).drop_last() == all.take(i as int));
            assert(all.take(i + 1).last() == all[i as int]);
            assert(episodes_view(rest@) =~= all.skip(i + 1));
        }
        let ghost sv = episodes_view(sorted@);
        let mut j: usize = 0;
        while j < sorted.len() && !date_before_exec(e.pub_date, sorted[j].pub_date)
            invariant
                j <= sorted.len(),
                sv == episodes_view(sorted@),
                insert_pos_from(sv, e.pub_date, j as int) == insert_pos_from(sv, e.pub_date, 0),
            decreases sorted.len() - j,
        {
            j = j + 1;
        }
        let ghost ev = episode_view(e);
        sorted.insert(j, e);
        assert(episodes_view(sorted@) =~= sv.insert(j as int, ev));
        i = i + 1;
    }
    assert(all.take(n as int) == all);
    sorted
}

/// The `max` latest episodes, newest first.
pub fn latest_episodes(episodes: Vec<EpisodeData>, max: usize) -> (r: Vec<EpisodeData>)
    ensures
        episodes_view(r@) == latest_spec(episodes_view(episodes@), max as int),
{
    let ghost given = episodes_view(episodes@);
    let mut sorted = sort_episodes_by_date(episodes);
    proof {
        lemma_sort_len(given);
    }
    let n = sorted.len();
    let m = if max < n { max } else { n };
    let mut out: Vec<EpisodeData> = Vec::new();
    let ghost sv = episodes_view(sorted@);
    while out.len() < m
        invariant
            m <= n,
            m == (if max < n { max } else { n }),
            out.len() <= m,
            sorted.len() + out.len() == n,
            sv.len() == n,
            episodes_view(sorted@) == sv.take(sorted.len() as int),
            forall|k: int| 0 <= k < out.len() ==> #[trigger] episodes_view(out@)[k] == sv[n - 1 - k],
        decreases m - out.len(),
    {
        let ghost raw = sorted@;
        let e = sorted.pop().unwrap();
        proof {
            assert(e == raw[raw.len() - 1]);
            assert(episodes_view(raw)[raw.len() - 1] == sv.take(raw.len() as int)[raw.len() - 1]);
            assert(sorted@ == raw.drop_last());
        }
        assert(episode_view(e) == sv[n - 1 - out.len()]);
        let ghost before = episodes_view(out@);
        out.push(e);
        assert(episodes_view(out@) == before.push(episode_view(e)));
        assert(episodes_view(sorted@) =~= sv.take(sorted.len() as int));
    }
    assert(sv == sort_by_date(given));
    assert(sv.len() == given.len());
    assert(out.len() == m);
    assert forall|k: int| 0 <= k < episodes_view(out@).len() implies episodes_view(out@)[k] == latest_spec(
        given,
        max as int,
    )[k] by {}
    assert(episodes_view(out@) =~= latest_spec(given, max as int));
    out
}

// ---------------------------------------------------------------------------
// File extensions of downloads
// ---------------------------------------------------------------------------

/// The extension of a downloaded episode: from its content type ("mpeg" or
/// "mp3" is mp3, "m4a" or "mp4" is m4a), else from its URL's ending, else mp3.
pub open spec fn audio_extension_spec(content_type: Option<Seq<char>>, url: Seq<char>) -> Seq<char> {
    let by_type = match content_type {
        Some(ct) => if contains(ct, "mpeg"@) || contains(ct, "mp3"@) {
            Some("mp3"@)
        } else if contains(ct, "m4a"@) || contains(ct, "mp4"@) {
            Some("m4a"@)
        } else {
            None
        },
        None => None,
    };
    match by_type {
        Some(e) => e,
        None => if ends_with(url, ".mp3"@) {
            "mp3"@
        } else if ends_with(url, ".m4a"@) {
            "m4a"@
        } else {
            "mp3"@
        },
    }
}

/// The extension under which a downloaded episode is saved.
pub fn audio_extension(content_type: Option<&str>, url: &str) -> (r: String)
    ensures
        r@ == audio_extension_spec(
            match content_type {
                Some(c) => Some(c@),
                None => None,
            },
            url@,
        ),
{
    if let Some(ct) = content_type {
        if str_contains(ct, "mpeg") || str_contains(ct, "mp3") {
            return owned("mp3");
        } else if str_contains(ct, "m4a") || str_contains(ct, "mp4") {
            return owned("m4a");
        }
    }
    if str_ends_with(url, ".mp3") {
        owned("mp3")
    } else if str_ends_with(url, ".m4a") {
        owned("m4a")
    } else {
        owned("mp3")
    }
}

/// The extension of downloaded artwork: from its content type ("jpeg" or "jpg",
/// "png", "webp"), else from its URL's ending, else jpg.
pub open spec fn artwork_extension_spec(content_type: Option<Seq<char>>, url: Seq<char>) -> Seq<char> {
    let by_type = match content_type {
        Some(ct) => if contains(ct, "jpeg"@) || contains(ct, "jpg"@) {
            Some("jpg"@)
        } else if contains(ct, "png"@) {
            Some("png"@)
        } else if contains(ct, "webp"@) {
            Some("webp"@)
        } else {
            None
        },
        None => None,
    };
    match by_type {
        Some(e) => e,
        None => if ends_with(url, ".jpg"@) || ends_with(url, ".jpeg"@) {
            "jpg"@
        } else if ends_with(url, ".png"@) {
            "png"@
        } else if ends_with(url, ".webp"@) {
            "webp"@
        } else {
            "jpg"@
        },
    }
}

/// The extension under which downloaded artwork is saved.
pub fn artwork_extension(content_type: Option<&str>, url: &str) -> (r: String)
    ensures
        r@ == artwork_extension_spec(
            match content_type {
                Some(c) => Some(c@),
                None => None,
            },
            url@,
        ),
{
    if let Some(ct) = content_type {
        if str_contains(ct, "jpeg") || str_contains(ct, "jpg") {
            return owned("jpg");
        } else if str_contains(ct, "png") {
            return owned("png");
        } else if str_contains(ct, "webp") {
            return owned("webp");
        }
    }
    if str_ends_with(url, ".jpg") || str_ends_with(url, ".jpeg") {
        owned("jpg")
    } else if str_ends_with(url, ".png") {
        owned("png")
    } else if str_ends_with(url, ".webp") {
        owned("webp")
    } else {
        owned("jpg")
    }
}

/// The file name of a download: the sanitized title with its extension.
pub fn download_file_name(title: &str, ext: &str) -> (r: String)
    ensures
        r@ == sanitize_filename_spec(title@) + "."@ + ext@,
{
    let mut s = sanitize_filename(title);
    s.append(".");
    s.append(ext);
    s
}

} // verus!

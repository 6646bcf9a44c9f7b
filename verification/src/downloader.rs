//! What a download makes of yt-dlp's answers: the search to run, the metadata
//! it printed, and the title, artist and album read from a video's title.
use vstd::prelude::*;
use crate::text::{
    chars_of, char_index_of_byte, char_index_of_byte_exec, contains, contains_exec, find, find_exec,
    lines, lines_exec, owned, parse_i64, parse_i64_str, push_char, replace_all, replace_exec,
    starts_with, str_starts_with, string_from_chars, string_from_range, trim, trim_chars, trim_str,
    utf8_len, utf8_len_prefix, views, boundary_from, lemma_trim_bounds, lemma_slice_lacks,
    lemma_before_first_lacks, trim_start_index, trim_end_index,
};

verus! {

/// What `mu add` reports of a downloaded track.
pub struct AddResult {
    pub added: bool,
    pub id: i64,
    pub title: String,
    pub artist: Option<String>,
    pub album: Option<String>,
    pub file: String,
    pub artwork: Option<String>,
}

// ---------------------------------------------------------------------------
// Lower case
// ---------------------------------------------------------------------------

/// What `str::to_lowercase` returns for `s`.
pub uninterp spec fn lowercase(s: Seq<char>) -> Seq<char>;

/// Every character of `s` is ASCII.
pub open spec fn is_ascii(s: Seq<char>) -> bool {
    forall|i: int| 0 <= i < s.len() ==> (#[trigger] s[i] as u32) < 0x80
}

/// The lower case of an ASCII character: `A` to `Z` become `a` to `z`.
pub open spec fn ascii_lower_char(c: char) -> char {
    match c {
        'A' => 'a',
        'B' => 'b',
        'C' => 'c',
        'D' => 'd',
        'E' => 'e',
        'F' => 'f',
        'G' => 'g',
        'H' => 'h',
        'I' => 'i',
        'J' => 'j',
        'K' => 'k',
        'L' => 'l',
        'M' => 'm',
        'N' => 'n',
        'O' => 'o',
        'P' => 'p',
        'Q' => 'q',
        'R' => 'r',
        'S' => 's',
        'T' => 't',
        'U' => 'u',
        'V' => 'v',
        'W' => 'w',
        'X' => 'x',
        'Y' => 'y',
        'Z' => 'z',
        _ => c,
    }
}

/// Each character of `s` in lower case, the ASCII way.
pub open spec fn ascii_lower(s: Seq<char>) -> Seq<char> {
    s.map_values(|c: char| ascii_lower_char(c))
}

/// Calls `str::to_lowercase`, whose result is named `lowercase`: the Unicode
/// lower-case mapping, a function of `s` alone. Of an ASCII string, the
/// result is the same string with `A` to `Z` turned into `a` to `z`; nothing
/// else is claimed of it, not even its length.
#[verifier::external_body]
fn to_lowercase(s: &str) -> (r: String)
    ensures
        r@ == lowercase(s@),
        is_ascii(s@) ==> r@ == ascii_lower(s@),
{
    s.to_lowercase()
}

/// An ASCII string in lower case is ASCII, as long as before, and its slices
/// are the lower case of the slices.
pub proof fn lemma_ascii_lower(s: Seq<char>)
    requires
        is_ascii(s),
    ensures
        is_ascii(ascii_lower(s)),
        ascii_lower(s).len() == s.len(),
        forall|a: int, b: int| 0 <= a <= b <= s.len() ==> #[trigger] ascii_lower(s.subrange(a, b))
            == ascii_lower(s).subrange(a, b),
{
    assert forall|a: int, b: int| 0 <= a <= b <= s.len() implies #[trigger] ascii_lower(s.subrange(a, b))
        == ascii_lower(s).subrange(a, b) by {
        assert(ascii_lower(s.subrange(a, b)) =~= ascii_lower(s).subrange(a, b));
    }
}

/// ASCII characters take one byte each.
pub proof fn lemma_ascii_utf8_len(s: Seq<char>)
    requires
        is_ascii(s),
    ensures
        utf8_len(s) == s.len(),
    decreases s.len(),
{
    if s.len() > 0 {
        assert(s.drop_last().len() + 1 == s.len());
        assert(s.last() == s[s.len() - 1]);
        lemma_ascii_utf8_len(s.drop_last());
    }
}

/// In an ASCII string every byte offset up to its length is a character
/// boundary, at the same index.
pub proof fn lemma_ascii_boundary(s: Seq<char>, k: int, b: int)
    requires
        is_ascii(s),
        0 <= k <= b <= s.len(),
    ensures
        boundary_from(s, k, b) == Some(b),
    decreases b - k,
{
    lemma_ascii_utf8_len(s.take(k));
    if k < b {
        lemma_ascii_boundary(s, k + 1, b);
    }
}

// ---------------------------------------------------------------------------
// Cleaning a title
// ---------------------------------------------------------------------------

/// The video suffixes that a title loses, in the order they are tried.
pub open spec fn title_suffixes() -> Seq<Seq<char>> {
    seq![
        "(Official Video)"@,
        "(Official Music Video)"@,
        "(Official Audio)"@,
        "(Official Lyric Video)"@,
        "(Lyric Video)"@,
        "(Audio)"@,
        "(Music Video)"@,
        "[Official Video]"@,
        "[Official Audio]"@,
        "[Official Music Video]"@,
        "(Full Album)"@,
        "[Full Album]"@,
        "(HD)"@,
        "(HQ)"@,
        "(4K)"@,
        "| Official Video"@,
        "| Official Audio"@,
    ]
}

pub const TITLE_SUFFIX_COUNT: usize = 17;

fn title_suffix(i: usize) -> (s: &'static str)
    requires
        i < TITLE_SUFFIX_COUNT,
    ensures
        s@ == title_suffixes()[i as int],
{
    match i {
        0 => "(Official Video)",
        1 => "(Official Music Video)",
        2 => "(Official Audio)",
        3 => "(Official Lyric Video)",
        4 => "(Lyric Video)",
        5 => "(Audio)",
        6 => "(Music Video)",
        7 => "[Official Video]",
        8 => "[Official Audio]",
        9 => "[Official Music Video]",
        10 => "(Full Album)",
        11 => "[Full Album]",
        12 => "(HD)",
        13 => "(HQ)",
        14 => "(4K)",
        15 => "| Official Video",
        _ => "| Official Audio",
    }
}

/// One step of cleaning: where the lower-cased suffix first occurs in the
/// lower-cased title, the title is cut at that byte offset and trimmed.
/// `None` when that offset is no character boundary of the title, where
/// slicing the title would panic.
pub open spec fn cut_at_suffix(t: Seq<char>, suffix: Seq<char>) -> Option<Seq<char>> {
    let lower = lowercase(t);
    match find(lower, lowercase(suffix)) {
        None => Some(t),
        Some(ci) => match char_index_of_byte(t, utf8_len(lower.take(ci)) as int) {
            Some(k) => Some(trim(t.take(k))),
            None => None,
        },
    }
}

/// The title after the suffixes from index `i` on have been cut.
pub open spec fn clean_from(t: Seq<char>, i: int) -> Option<Seq<char>>
    decreases TITLE_SUFFIX_COUNT - i,
{
    if i < 0 || i >= TITLE_SUFFIX_COUNT {
        Some(t)
    } else {
        match cut_at_suffix(t, title_suffixes()[i]) {
            Some(u) => clean_from(u, i + 1),
            None => None,
        }
    }
}

/// A title without its common video suffixes, each cut where it first occurs,
/// whatever its case. `None` where a cut would fall inside a character.
pub open spec fn clean_title_spec(title: Seq<char>) -> Option<Seq<char>> {
    clean_from(title, 0)
}

/// `u` is a slice of `t`.
pub open spec fn slice_of(u: Seq<char>, t: Seq<char>) -> bool {
    exists|a: int, b: int| 0 <= a <= b <= t.len() && u == t.subrange(a, b)
}

/// No suffix before index `n` of the list occurs in `s`, whatever its case.
pub open spec fn lacks_suffixes(s: Seq<char>, n: int) -> bool {
    forall|j: int| 0 <= j < n ==> !contains(ascii_lower(s), ascii_lower(#[trigger] title_suffixes()[j]))
}

proof fn lemma_suffixes_ascii()
    ensures
        forall|j: int| 0 <= j < TITLE_SUFFIX_COUNT ==> is_ascii(#[trigger] title_suffixes()[j])
            && title_suffixes()[j].len() > 0,
{
    reveal_strlit("(Official Video)");
    reveal_strlit("(Official Music Video)");
    reveal_strlit("(Official Audio)");
    reveal_strlit("(Official Lyric Video)");
    reveal_strlit("(Lyric Video)");
    reveal_strlit("(Audio)");
    reveal_strlit("(Music Video)");
    reveal_strlit("[Official Video]");
    reveal_strlit("[Official Audio]");
    reveal_strlit("[Official Music Video]");
    reveal_strlit("(Full Album)");
    reveal_strlit("[Full Album]");
    reveal_strlit("(HD)");
    reveal_strlit("(HQ)");
    reveal_strlit("(4K)");
    reveal_strlit("| Official Video");
    reveal_strlit("| Official Audio");
}

fn cut_at_suffix_exec(t: String, suffix: &str) -> (r: Option<String>)
    ensures
        r matches Some(u) ==> cut_at_suffix(t@, suffix@) == Some(u@),
        r is None ==> cut_at_suffix(t@, suffix@) is None,
        is_ascii(t@) && is_ascii(suffix@) && suffix@.len() > 0 ==> (r matches Some(u) && is_ascii(u@)
            && slice_of(u@, t@) && !contains(ascii_lower(u@), ascii_lower(suffix@)) && (!contains(
            ascii_lower(t@),
            ascii_lower(suffix@),
        ) ==> u@ == t@)),
{
    let lower = chars_of(to_lowercase(t.as_str()).as_str());
    let pat = chars_of(to_lowercase(suffix).as_str());
    match find_exec(&lower, &pat) {
        None => {
            assert(t@.subrange(0, t@.len() as int) == t@);
            Some(t)
        },
        Some(ci) => {
            let b = utf8_len_prefix(&lower, ci);
            let tv = chars_of(t.as_str());
            proof {
                if is_ascii(t@) && is_ascii(suffix@) && suffix@.len() > 0 {
                    lemma_ascii_lower(t@);
                    lemma_ascii_lower(suffix@);
                    lemma_ascii_utf8_len(lower@.take(ci as int));
                    lemma_ascii_boundary(t@, 0, ci as int);
                }
            }
            match char_index_of_byte_exec(&tv, b) {
                Some(k) => {
                    proof {
                        crate::text::lemma_boundary_from(tv@, 0, b as int);
                    }
                    let head = string_from_range(&tv, 0, k);
                    let hv = chars_of(head.as_str());
                    assert(tv@.subrange(0, k as int) == tv@.take(k as int));
                    let u = trim_chars(&hv);
                    proof {
                        if is_ascii(t@) && is_ascii(suffix@) && suffix@.len() > 0 {
                            let h = t@.take(k as int);
                            let a = trim_start_index(h);
                            let e = trim_end_index(h);
                            lemma_trim_bounds(h);
                            assert(u@ == t@.subrange(a, e));
                            assert(is_ascii(u@)) by {
                                assert forall|i: int| 0 <= i < u@.len() implies (#[trigger] u@[i] as u32) < 0x80 by {
                                    assert(u@[i] == t@[a + i]);
                                }
                            }
                            assert(ascii_lower(h) == lower@.take(k as int));
                            lemma_ascii_lower(h);
                            lemma_before_first_lacks(lower@, pat@);
                            lemma_slice_lacks(lower@.take(k as int), pat@, a, e);
                            assert(h.subrange(a, e) == u@);
                        }
                    }
                    Some(u)
                },
                None => None,
            }
        },
    }
}

/// None of the video suffixes "(Official Video)", "(Official Music Video)",
/// "(Official Audio)", "(Official Lyric Video)", "(Lyric Video)", "(Audio)",
/// "(Music Video)", "[Official Video]", "[Official Audio]",
/// "[Official Music Video]", "(Full Album)", "[Full Album]", "(HD)", "(HQ)",
/// "(4K)", "| Official Video" and "| Official Audio" occurs in `s`, in any case.
pub open spec fn free_of_video_suffixes(s: Seq<char>) -> bool {
    &&& !contains(ascii_lower(s), ascii_lower("(Official Video)"@))
    &&& !contains(ascii_lower(s), ascii_lower("(Official Music Video)"@))
    &&& !contains(ascii_lower(s), ascii_lower("(Official Audio)"@))
    &&& !contains(ascii_lower(s), ascii_lower("(Official Lyric Video)"@))
    &&& !contains(ascii_lower(s), ascii_lower("(Lyric Video)"@))
    &&& !contains(ascii_lower(s), ascii_lower("(Audio)"@))
    &&& !contains(ascii_lower(s), ascii_lower("(Music Video)"@))
    &&& !contains(ascii_lower(s), ascii_lower("[Official Video]"@))
    &&& !contains(ascii_lower(s), ascii_lower("[Official Audio]"@))
    &&& !contains(ascii_lower(s), ascii_lower("[Official Music Video]"@))
    &&& !contains(ascii_lower(s), ascii_lower("(Full Album)"@))
    &&& !contains(ascii_lower(s), ascii_lower("[Full Album]"@))
    &&& !contains(ascii_lower(s), ascii_lower("(HD)"@))
    &&& !contains(ascii_lower(s), ascii_lower("(HQ)"@))
    &&& !contains(ascii_lower(s), ascii_lower("(4K)"@))
    &&& !contains(ascii_lower(s), ascii_lower("| Official Video"@))
    &&& !contains(ascii_lower(s), ascii_lower("| Official Audio"@))
}

/// A text that lacks every suffix of the list is free of each of them.
proof fn lemma_free_of_video_suffixes(s: Seq<char>)
    requires
        lacks_suffixes(s, TITLE_SUFFIX_COUNT as int),
    ensures
        free_of_video_suffixes(s),
{
    assert(title_suffixes()[0] == "(Official Video)"@);
    assert(!contains(ascii_lower(s), ascii_lower(title_suffixes()[0])));
    assert(title_suffixes()[1] == "(Official Music Video)"@);
    assert(!contains(ascii_lower(s), ascii_lower(title_suffixes()[1])));
    assert(title_suffixes()[2] == "(Official Audio)"@);
    assert(!contains(ascii_lower(s), ascii_lower(title_suffixes()[2])));
    assert(title_suffixes()[3] == "(Official Lyric Video)"@);
    assert(!contains(ascii_lower(s), ascii_lower(title_suffixes()[3])));
    assert(title_suffixes()[4] == "(Lyric Video)"@);
    assert(!contains(ascii_lower(s), ascii_lower(title_suffixes()[4])));
    assert(title_suffixes()[5] == "(Audio)"@);
    assert(!contains(ascii_lower(s), ascii_lower(title_suffixes()[5])));
    assert(title_suffixes()[6] == "(Music Video)"@);
    assert(!contains(ascii_lower(s), ascii_lower(title_suffixes()[6])));
    assert(title_suffixes()[7] == "[Official Video]"@);
    assert(!contains(ascii_lower(s), ascii_lower(title_suffixes()[7])));
    assert(title_suffixes()[8] == "[Official Audio]"@);
    assert(!contains(ascii_lower(s), ascii_lower(title_suffixes()[8])));
    assert(title_suffixes()[9] == "[Official Music Video]"@);
    assert(!contains(ascii_lower(s), ascii_lower(title_suffixes()[9])));
    assert(title_suffixes()[10] == "(Full Album)"@);
    assert(!contains(ascii_lower(s), ascii_lower(title_suffixes()[10])));
    assert(title_suffixes()[11] == "[Full Album]"@);
    assert(!contains(ascii_lower(s), ascii_lower(title_suffixes()[11])));
    assert(title_suffixes()[12] == "(HD)"@);
    assert(!contains(ascii_lower(s), ascii_lower(title_suffixes()[12])));
    assert(title_suffixes()[13] == "(HQ)"@);
    assert(!contains(ascii_lower(s), ascii_lower(title_suffixes()[13])));
    assert(title_suffixes()[14] == "(4K)"@);
    assert(!contains(ascii_lower(s), ascii_lower(title_suffixes()[14])));
    assert(title_suffixes()[15] == "| Official Video"@);
    assert(!contains(ascii_lower(s), ascii_lower(title_suffixes()[15])));
    assert(title_suffixes()[16] == "| Official Audio"@);
    assert(!contains(ascii_lower(s), ascii_lower(title_suffixes()[16])));
}

/// Removes common video suffixes from a title. `None` where a suffix found in
/// the lower-cased title sits at a byte offset that falls inside a character
/// of the title itself, so that no cut can be made there.
///
/// An ASCII title is always cleaned: what is left is a slice of it in which
/// no listed suffix occurs in any case, and a title in which none occurs is
/// left exactly as it is. So cleaning a cleaned title gives it back.
pub fn clean_title(title: &str) -> (r: Option<String>)
    ensures
        r matches Some(u) ==> clean_title_spec(title@) == Some(u@),
        r is None ==> clean_title_spec(title@) is None,
        is_ascii(title@) ==> (r matches Some(u) && is_ascii(u@) && slice_of(u@, title@) && contains(
            title@,
            u@,
        ) && lacks_suffixes(u@, TITLE_SUFFIX_COUNT as int)),
        is_ascii(title@) && lacks_suffixes(title@, TITLE_SUFFIX_COUNT as int) ==> (r matches Some(u)
            && u@ == title@),
        is_ascii(title@) ==> (r matches Some(u) && free_of_video_suffixes(u@)),
{
    let mut result = owned(title);
    let mut i: usize = 0;
    proof {
        lemma_suffixes_ascii();
        assert(title@.subrange(0, title@.len() as int) == title@);
    }
    while i < TITLE_SUFFIX_COUNT
        invariant
            i <= TITLE_SUFFIX_COUNT,
            clean_from(result@, i as int) == clean_title_spec(title@),
            forall|j: int| 0 <= j < TITLE_SUFFIX_COUNT ==> is_ascii(#[trigger] title_suffixes()[j])
                && title_suffixes()[j].len() > 0,
            is_ascii(title@) ==> is_ascii(result@) && slice_of(result@, title@) && lacks_suffixes(
                result@,
                i as int,
            ),
            is_ascii(title@) && lacks_suffixes(title@, TITLE_SUFFIX_COUNT as int) ==> result@
                == title@,
        decreases TITLE_SUFFIX_COUNT - i,
    {
        let ghost before = result@;
        let suffix = title_suffix(i);
        match cut_at_suffix_exec(result, suffix) {
            Some(u) => {
                proof {
                    if is_ascii(title@) {
                        lemma_cut_keeps(title@, before, u@, i as int);
                    }
                }
                result = u;
            },
            None => {
                return None;
            },
        }
        i = i + 1;
    }
    proof {
        if is_ascii(title@) {
            let (a, b) = choose|a: int, b: int| 0 <= a <= b <= title@.len() && result@ == title@.subrange(a, b);
            assert forall|k: int| 0 <= k < result@.len() implies #[trigger] title@[a + k] == result@[k] by {}
            crate::text::lemma_contains_at(title@, result@, a);
            lemma_free_of_video_suffixes(result@);
        }
    }
    Some(result)
}

/// One cut keeps what the loop of `clean_title` knows of an ASCII title.
proof fn lemma_cut_keeps(title: Seq<char>, before: Seq<char>, u: Seq<char>, i: int)
    requires
        0 <= i < TITLE_SUFFIX_COUNT,
        is_ascii(title),
        is_ascii(before),
        slice_of(before, title),
        lacks_suffixes(before, i),
        is_ascii(u),
        slice_of(u, before),
        !contains(ascii_lower(u), ascii_lower(title_suffixes()[i])),
        !contains(ascii_lower(before), ascii_lower(title_suffixes()[i])) ==> u == before,
        lacks_suffixes(title, TITLE_SUFFIX_COUNT as int) ==> before == title,
    ensures
        slice_of(u, title),
        lacks_suffixes(u, i + 1),
        lacks_suffixes(title, TITLE_SUFFIX_COUNT as int) ==> u == title,
{
    let (a, b) = choose|a: int, b: int| 0 <= a <= b <= title.len() && before == title.subrange(a, b);
    let (c, d) = choose|c: int, d: int| 0 <= c <= d <= before.len() && u == before.subrange(c, d);
    assert(u == title.subrange(a + c, a + d));
    lemma_ascii_lower(before);
    assert forall|j: int| 0 <= j < i + 1 implies !contains(ascii_lower(u), ascii_lower(#[trigger] title_suffixes()[j])) by {
        if j < i {
            lemma_slice_lacks(ascii_lower(before), ascii_lower(title_suffixes()[j]), c, d);
        }
    }
    if lacks_suffixes(title, TITLE_SUFFIX_COUNT as int) {
        assert(!contains(ascii_lower(title), ascii_lower(title_suffixes()[i])));
    }
}

// ---------------------------------------------------------------------------
// Artist and title
// ---------------------------------------------------------------------------

/// The separators between artist and title, in the order they are tried.
pub open spec fn artist_separators() -> Seq<Seq<char>> {
    seq![" - "@, " – "@, " — "@, " | "@]
}

fn artist_separator(i: usize) -> (s: &'static str)
    requires
        i < 4,
    ensures
        s@ == artist_separators()[i as int],
{
    match i {
        0 => " - ",
        1 => " – ",
        2 => " — ",
        _ => " | ",
    }
}

/// The first separator from index `i` on that occurs in `raw`, with its position.
pub open spec fn first_separator_from(raw: Seq<char>, i: int) -> Option<(int, int)>
    decreases 4 - i,
{
    if i < 0 || i >= 4 {
        None
    } else {
        match find(raw, artist_separators()[i]) {
            Some(at) => Some((i, at)),
            None => first_separator_from(raw, i + 1),
        }
    }
}

/// The uploader's name without " - Topic", "VEVO" and "Official", trimmed.
pub open spec fn uploader_clean(uploader: Seq<char>) -> Seq<char> {
    trim(
        replace_all(
            replace_all(replace_all(uploader, " - Topic"@, Seq::empty()), "VEVO"@, Seq::empty()),
            "Official"@,
            Seq::empty(),
        ),
    )
}

/// An uploader name serves as artist when it is not empty and, lower-cased,
/// names neither "youtube" nor "channel".
pub open spec fn uploader_is_artist(u: Seq<char>) -> bool {
    u.len() > 0 && !contains(lowercase(u), "youtube"@) && !contains(lowercase(u), "channel"@)
}

/// Title and artist read from a video title: "Artist - Title" (or with "–", "—",
/// "|") splits at the first separator that occurs; otherwise the uploader is
/// the artist when it looks like one. `None` where cleaning the title panics.
pub open spec fn parse_artist_title_spec(raw: Seq<char>, uploader: Seq<char>) -> Option<
    (Seq<char>, Option<Seq<char>>),
> {
    match first_separator_from(raw, 0) {
        Some((i, at)) => {
            let sep = artist_separators()[i];
            let artist = trim(raw.take(at));
            let title = trim(raw.skip(at + sep.len()));
            match clean_title_spec(title) {
                Some(t) => Some((t, Some(artist))),
                None => None,
            }
        },
        None => match clean_title_spec(raw) {
            Some(t) => if uploader_is_artist(uploader_clean(uploader)) {
                Some((t, Some(uploader_clean(uploader))))
            } else {
                Some((t, None))
            },
            None => None,
        },
    }
}

fn replace_str(s: &Vec<char>, pat: &str, rep: &str) -> (r: Vec<char>)
    requires
        pat@.len() > 0,
    ensures
        r@ == replace_all(s@, pat@, rep@),
{
    let p = chars_of(pat);
    let q = chars_of(rep);
    replace_exec(s, &p, &q)
}

/// Title and artist of a video title with its uploader, as
/// `parse_artist_title_spec` says; `None` where cleaning the title panics.
pub fn parse_artist_title(raw_title: &str, uploader: &str) -> (r: Option<(String, Option<String>)>)
    ensures
        match r {
            Some((t, a)) => parse_artist_title_spec(raw_title@, uploader@) == Some(
                (
                    t@,
                    match a {
                        Some(x) => Some(x@),
                        None => None,
                    },
                ),
            ),
            None => parse_artist_title_spec(raw_title@, uploader@) is None,
        },
{
    let raw = chars_of(raw_title);
    let mut i: usize = 0;
    while i < 4
        invariant
            i <= 4,
            raw@ == raw_title@,
            first_separator_from(raw@, i as int) == first_separator_from(raw@, 0),
        decreases 4 - i,
    {
        let sep = chars_of(artist_separator(i));
        match find_exec(&raw, &sep) {
            Some(at) => {
                proof {
                    crate::text::lemma_find_from(raw@, sep@, 0);
                }
                let artist = {
                    let head = string_from_range(&raw, 0, at);
                    trim_str(head.as_str())
                };
                let rest = string_from_range(&raw, at + sep.len(), raw.len());
                let title = trim_str(rest.as_str());
                proof {
                    assert(raw@.subrange(0, at as int) == raw@.take(at as int));
                    assert(raw@.subrange(at + sep@.len(), raw@.len() as int) == raw@.skip(
                        at + sep@.len(),
                    ));
                }
                return match clean_title(title.as_str()) {
                    Some(t) => Some((t, Some(artist))),
                    None => None,
                };
            },
            None => {},
        }
        i = i + 1;
    }
    let up = chars_of(uploader);
    proof {
        reveal_strlit(" - Topic");
        reveal_strlit("VEVO");
        reveal_strlit("Official");
    }
    let u1 = replace_str(&up, " - Topic", "");
    let u2 = replace_str(&u1, "VEVO", "");
    let u3 = replace_str(&u2, "Official", "");
    let uc = trim_chars(&u3);
    proof {
        assert(""@ == Seq::<char>::empty()) by {
            reveal_strlit("");
        }
    }
    let looks_like_artist = if !uc.as_str().is_empty() {
        let lower = chars_of(to_lowercase(uc.as_str()).as_str());
        let yt = chars_of("youtube");
        let ch = chars_of("channel");
        !contains_exec(&lower, &yt) && !contains_exec(&lower, &ch)
    } else {
        false
    };
    match clean_title(raw_title) {
        Some(t) => if looks_like_artist {
            Some((t, Some(uc)))
        } else {
            Some((t, None))
        },
        None => None,
    }
}

// ---------------------------------------------------------------------------
// Album
// ---------------------------------------------------------------------------

/// The album read from a title that says it is a full album: the title without
/// "<artist> - " and "<artist> – ", cleaned. `Some(None)` when the title names
/// no full album; `None` where cleaning panics.
pub open spec fn parse_album_spec(title: Seq<char>, artist: Option<Seq<char>>) -> Option<
    Option<Seq<char>>,
> {
    let lower = lowercase(title);
    if contains(lower, "full album"@) || contains(lower, "complete album"@) {
        let base = match artist {
            Some(a) => replace_all(replace_all(title, a + " - "@, Seq::empty()), a + " – "@, Seq::empty()),
            None => title,
        };
        match clean_title_spec(base) {
            Some(t) => Some(Some(t)),
            None => None,
        }
    } else {
        Some(None)
    }
}

/// The album that a title names, as `parse_album_spec` says; `None` where
/// cleaning the title panics.
pub fn parse_album(title: &str, artist: Option<&str>) -> (r: Option<Option<String>>)
    ensures
        match r {
            Some(x) => parse_album_spec(
                title@,
                match artist {
                    Some(a) => Some(a@),
                    None => None,
                },
            ) == Some(
                match x {
                    Some(t) => Some(t@),
                    None => None,
                },
            ),
            None => parse_album_spec(
                title@,
                match artist {
                    Some(a) => Some(a@),
                    None => None,
                },
            ) is None,
        },
{
    let lower = chars_of(to_lowercase(title).as_str());
    let fa = chars_of("full album");
    let ca = chars_of("complete album");
    if contains_exec(&lower, &fa) || contains_exec(&lower, &ca) {
        let base: String = match artist {
            Some(a) => {
                let mut p1 = owned(a);
                p1.append(" - ");
                let mut p2 = owned(a);
                p2.append(" – ");
                let tv = chars_of(title);
                let p1v = chars_of(p1.as_str());
                let p2v = chars_of(p2.as_str());
                let empty: Vec<char> = Vec::new();
                proof {
                    reveal_strlit(" - ");
                    reveal_strlit(" – ");
                }
                let s1 = replace_exec(&tv, &p1v, &empty);
                let s2 = replace_exec(&s1, &p2v, &empty);
                assert(empty@ == Seq::<char>::empty());
                string_from_chars(&s2)
            },
            None => owned(title),
        };
        match clean_title(base.as_str()) {
            Some(t) => Some(Some(t)),
            None => None,
        }
    } else {
        Some(None)
    }
}

// ---------------------------------------------------------------------------
// Whole metadata
// ---------------------------------------------------------------------------

/// Title, artist and album that the library keeps for a video.
pub struct TrackMetadata {
    pub title: String,
    pub artist: Option<String>,
    pub album: Option<String>,
}

pub open spec fn opt_view(o: Option<String>) -> Option<Seq<char>> {
    match o {
        Some(s) => Some(s@),
        None => None,
    }
}

/// Title and artist from the video title and uploader, and the album from the
/// video title and that artist. `None` where a title cannot be cut where its
/// lower case says (see `clean_title`).
pub open spec fn track_metadata_spec(raw_title: Seq<char>, uploader: Seq<char>) -> Option<
    (Seq<char>, Option<Seq<char>>, Option<Seq<char>>),
> {
    match parse_artist_title_spec(raw_title, uploader) {
        Some((t, a)) => match parse_album_spec(raw_title, a) {
            Some(al) => Some((t, a, al)),
            None => None,
        },
        None => None,
    }
}

/// The title, artist and album of a video, read from its title and uploader.
pub fn track_metadata(raw_title: &str, uploader: &str) -> (r: Option<TrackMetadata>)
    ensures
        match r {
            Some(m) => track_metadata_spec(raw_title@, uploader@) == Some(
                (m.title@, opt_view(m.artist), opt_view(m.album)),
            ),
            None => track_metadata_spec(raw_title@, uploader@) is None,
        },
{
    match parse_artist_title(raw_title, uploader) {
        None => None,
        Some((title, artist)) => {
            let album = match &artist {
                Some(a) => parse_album(raw_title, Some(a.as_str())),
                None => parse_album(raw_title, None),
            };
            match album {
                None => None,
                Some(album) => Some(TrackMetadata { title, artist, album }),
            }
        },
    }
}

// ---------------------------------------------------------------------------
// yt-dlp
// ---------------------------------------------------------------------------

/// A URL is downloaded as it is; anything else is searched on YouTube.
pub open spec fn search_query_spec(query: Seq<char>) -> Seq<char> {
    if starts_with(query, "http://"@) || starts_with(query, "https://"@) {
        query
    } else {
        "ytsearch1:"@ + query
    }
}

/// What yt-dlp is asked for: the query itself when it is a URL, else the first
/// search result.
pub fn search_query(query: &str) -> (r: String)
    ensures
        r@ == search_query_spec(query@),
{
    if str_starts_with(query, "http://") || str_starts_with(query, "https://") {
        owned(query)
    } else {
        let mut s = owned("ytsearch1:");
        s.append(query);
        s
    }
}

/// The metadata that yt-dlp prints for a video, one field per line.
pub struct VideoMetadata {
    pub raw_title: String,
    pub uploader: String,
    pub duration: i64,
    pub video_id: String,
    pub thumbnail_url: String,
}

/// Reads yt-dlp's metadata: the lines of the trimmed output are title, uploader,
/// duration in seconds (0 where it is no integer), id and thumbnail URL.
/// Fewer than five lines is the error "could not parse metadata".
pub fn parse_video_metadata(output: &str) -> (r: Result<VideoMetadata, String>)
    ensures
        ({
            let ls = lines(trim(output@));
            match r {
                Ok(m) => ls.len() >= 5 && m.raw_title@ == ls[0] && m.uploader@ == ls[1]
                    && m.duration == (match parse_i64(ls[2]) {
                    Some(d) => d,
                    None => 0,
                }) && m.video_id@ == ls[3] && m.thumbnail_url@ == ls[4],
                Err(e) => ls.len() < 5 && e@ == "could not parse metadata"@,
            }
        }),
{
    let t = chars_of(trim_str(output).as_str());
    let ls = lines_exec(&t);
    if ls.len() < 5 {
        return Err(owned("could not parse metadata"));
    }
    assert(views(ls@)[0] == ls@[0]@);
    assert(views(ls@)[1] == ls@[1]@);
    assert(views(ls@)[2] == ls@[2]@);
    assert(views(ls@)[3] == ls@[3]@);
    assert(views(ls@)[4] == ls@[4]@);
    let duration = match parse_i64_str(ls[2].as_str()) {
        Some(d) => d,
        None => 0,
    };
    Ok(
        VideoMetadata {
            raw_title: ls[0].clone(),
            uploader: ls[1].clone(),
            duration,
            video_id: ls[3].clone(),
            thumbnail_url: ls[4].clone(),
        },
    )
}

/// A thumbnail is fetched unless its URL is empty or "NA".
pub fn wants_artwork(thumbnail_url: &str) -> (b: bool)
    ensures
        b == (thumbnail_url@.len() > 0 && thumbnail_url@ != "NA"@),
{
    let v = chars_of(thumbnail_url);
    let na = chars_of("NA");
    if v.len() == 0 {
        return false;
    }
    let same = v.len() == na.len() && crate::text::matches_at_exec(&v, &na, 0);
    proof {
        if same {
            assert forall|k: int| 0 <= k < v@.len() implies v@[k] == na@[k] by {
                assert(v@[0 + k] == na@[k]);
            }
            assert(v@ =~= na@);
        } else if v@ == na@ {
            assert(crate::text::matches_at(v@, na@, 0));
        }
    }
    !same
}

/// The file name of a video's artwork: its id with ".jpg".
pub fn artwork_file_name(video_id: &str) -> (r: String)
    ensures
        r@ == video_id@ + ".jpg"@,
{
    let mut s = owned(video_id);
    s.append(".jpg");
    s
}

/// Where ffmpeg writes the retagged file before it replaces the downloaded one.
pub fn retag_temp_path(file_path: &str) -> (r: String)
    ensures
        r@ == file_path@ + ".tmp.mp3"@,
{
    let mut s = owned(file_path);
    s.append(".tmp.mp3");
    s
}

/// The ffmpeg arguments that copy a file with our title, artist and album tags.
pub open spec fn retag_args_spec(
    file_path: Seq<char>,
    title: Seq<char>,
    artist: Option<Seq<char>>,
    album: Option<Seq<char>>,
) -> Seq<Seq<char>> {
    let base = seq!["-y"@, "-i"@, file_path, "-c"@, "copy"@, "-metadata"@, "title="@ + title];
    let with_artist = match artist {
        Some(a) => base + seq!["-metadata"@, "artist="@ + a],
        None => base,
    };
    let with_album = match album {
        Some(a) => with_artist + seq!["-metadata"@, "album="@ + a],
        None => with_artist,
    };
    with_album.push(file_path + ".tmp.mp3"@)
}

fn tagged(prefix: &str, value: &str) -> (r: String)
    ensures
        r@ == prefix@ + value@,
{
    let mut s = owned(prefix);
    s.append(value);
    s
}

/// The ffmpeg arguments that copy a file with our title, artist and album tags.
pub fn retag_args(file_path: &str, title: &str, artist: Option<&str>, album: Option<&str>) -> (r: Vec<
    String,
>)
    ensures
        views(r@) == retag_args_spec(
            file_path@,
            title@,
            match artist {
                Some(a) => Some(a@),
                None => None,
            },
            match album {
                Some(a) => Some(a@),
                None => None,
            },
        ),
{
    let mut args: Vec<String> = Vec::new();
    args.push(owned("-y"));
    args.push(owned("-i"));
    args.push(owned(file_path));
    args.push(owned("-c"));
    args.push(owned("copy"));
    args.push(owned("-metadata"));
    args.push(tagged("title=", title));
    let ghost base = views(args@);
    if let Some(a) = artist {
        args.push(owned("-metadata"));
        args.push(tagged("artist=", a));
    }
    let ghost mid = views(args@);
    if let Some(a) = album {
        args.push(owned("-metadata"));
        args.push(tagged("album=", a));
    }
    let ghost fin = views(args@);
    args.push(retag_temp_path(file_path));
    proof {
        assert(views(args@) == fin.push(file_path@ + ".tmp.mp3"@));
    }
    args
}

} // verus!

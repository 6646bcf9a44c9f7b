//! Apple Music through AppleScript: the scripts that each operation runs with
//! `osascript`, and what is read back from their output.
//!
//! Running `osascript` is the caller's part; every function here computes.
use vstd::prelude::*;
use crate::error::MuError;
use crate::text::{chars_of, owned, parse_i64, parse_i64_str, push_char, split_char, split_str, trim, trim_str, views};

verus! {

/// Separates the fields of one record in a script's output (ASCII Record Separator).
pub const FIELD_SEP: char = '\u{1e}';

/// Separates the records of a script's output (ASCII Group Separator).
pub const RECORD_SEP: char = '\u{1d}';

pub const IMPORT_HEAD: &'static str = "tell application \"Music\"\n            set theTrack to add POSIX file \"";
pub const IMPORT_MID: &'static str = "\"\n            ";
pub const IMPORT_TAIL: &'static str = "\n            set trackName to name of theTrack\n            set trackId to persistent ID of theTrack\n            return trackName & \"\u{1e}\" & trackId\n        end tell";
pub const IN_LIBRARY_HEAD: &'static str = "tell application \"Music\"\n            try\n                set matchingTracks to (every track of library playlist 1 whose location is (POSIX file \"";
pub const IN_LIBRARY_TAIL: &'static str = "\"))\n                return (count of matchingTracks) > 0\n            on error\n                return false\n            end try\n        end tell";
pub const PLAY_PLAYLIST_HEAD: &'static str = "tell application \"Music\"\n                try\n                    play playlist \"";
pub const PLAY_PLAYLIST_TAIL: &'static str = "\"\n                on error\n                    -- Playlist doesn't exist, try playing from library\n                    play library playlist 1\n                end try\n            end tell";
pub const PLAY_LIBRARY: &'static str = "tell application \"Music\"\n            play library playlist 1\n        end tell";
pub const PLAY_TRACK_HEAD: &'static str = "tell application \"Music\"\n            play (first track of library playlist 1 whose name contains \"";
pub const PLAY_TRACK_TAIL: &'static str = "\")\n        end tell";
pub const PAUSE: &'static str = "tell application \"Music\" to pause";
pub const RESUME: &'static str = "tell application \"Music\" to play";
pub const STOP: &'static str = "tell application \"Music\" to stop";
pub const NEXT_TRACK: &'static str = "tell application \"Music\" to next track";
pub const PREVIOUS_TRACK: &'static str = "tell application \"Music\" to previous track";
pub const STATUS: &'static str = "tell application \"Music\"\n        set output to \"\"\n        try\n            set t to current track\n            set trackName to name of t\n            set trackArtist to artist of t\n            set trackAlbum to album of t\n            set state to player state as string\n            set pos to player position\n            set dur to duration of t\n            set output to trackName & \"\u{1e}\" & trackArtist & \"\u{1e}\" & trackAlbum & \"\u{1e}\" & state & \"\u{1e}\" & pos & \"\u{1e}\" & dur\n        on error\n            set output to \"\u{1e}\u{1e}stopped\u{1e}0\u{1e}0\"\n        end try\n        return output\n    end tell";
pub const CREATE_PLAYLIST_HEAD: &'static str = "tell application \"Music\"\n            try\n                get playlist \"";
pub const CREATE_PLAYLIST_MID: &'static str = "\"\n            on error\n                make new user playlist with properties {name:\"";
pub const CREATE_PLAYLIST_TAIL: &'static str = "\"}\n            end try\n        end tell";
pub const ADD_BY_NAME_HEAD: &'static str = "tell application \"Music\"\n            set thePlaylist to playlist \"";
pub const ADD_BY_NAME_MID: &'static str = "\"\n            set theTrack to first track of library playlist 1 whose name contains \"";
pub const ADD_BY_NAME_TAIL: &'static str = "\"\n            duplicate theTrack to thePlaylist\n        end tell";
pub const DELETE_TRACK_HEAD: &'static str = "tell application \"Music\"\n            try\n                delete (first track of library playlist 1 whose persistent ID is \"";
pub const DELETE_TRACK_TAIL: &'static str = "\")\n            end try\n        end tell";
pub const DELETE_BY_PATH_HEAD: &'static str = "tell application \"Music\"\n            try\n                set matchingTracks to (every track of library playlist 1 whose location is (POSIX file \"";
pub const DELETE_BY_PATH_TAIL: &'static str = "\"))\n                repeat with t in matchingTracks\n                    delete t\n                end repeat\n            end try\n        end tell";
pub const REMOVE_FROM_PLAYLIST_HEAD: &'static str = "tell application \"Music\"\n            try\n                set thePlaylist to user playlist \"";
pub const REMOVE_FROM_PLAYLIST_MID: &'static str = "\"\n                delete (first track of thePlaylist whose persistent ID is \"";
pub const REMOVE_FROM_PLAYLIST_TAIL: &'static str = "\")\n            end try\n        end tell";
pub const ADD_BY_ID_HEAD: &'static str = "tell application \"Music\"\n            set thePlaylist to playlist \"";
pub const ADD_BY_ID_MID: &'static str = "\"\n            set theTrack to first track of library playlist 1 whose persistent ID is \"";
pub const ADD_BY_ID_TAIL: &'static str = "\"\n            duplicate theTrack to thePlaylist\n        end tell";
pub const PLAYLIST_IDS_HEAD: &'static str = "tell application \"Music\"\n            try\n                set thePlaylist to user playlist \"";
pub const PLAYLIST_IDS_TAIL: &'static str = "\"\n                set output to \"\"\n                repeat with t in tracks of thePlaylist\n                    set output to output & (persistent ID of t) & \"\u{1d}\"\n                end repeat\n                return output\n            on error\n                return \"\"\n            end try\n        end tell";
pub const DELETE_PLAYLIST_HEAD: &'static str = "tell application \"Music\"\n            try\n                delete playlist \"";
pub const DELETE_PLAYLIST_TAIL: &'static str = "\"\n            end try\n        end tell";
pub const LIST_PLAYLISTS: &'static str = "tell application \"Music\"\n        set output to \"\"\n        repeat with p in user playlists\n            set pName to name of p\n            set pCount to count of tracks of p\n            set output to output & pName & \"\u{1e}\" & pCount & \"\u{1d}\"\n        end repeat\n        return output\n    end tell";
pub const LIBRARY_STATS: &'static str = "tell application \"Music\"\n        set trackCount to count of tracks of library playlist 1\n        set durations to duration of every track of library playlist 1\n        set totalTime to 0\n        repeat with d in durations\n            set totalTime to totalTime + d\n        end repeat\n        return (trackCount as string) & \"\u{1e}\" & (totalTime as string)\n    end tell";
pub const SET_LOVED_HEAD: &'static str = "tell application \"Music\"\n            set theTrack to first track of library playlist 1 whose persistent ID is \"";
pub const SET_LOVED_MID: &'static str = "\"\n            set favorited of theTrack to ";
pub const SET_LOVED_TAIL: &'static str = "\n        end tell";
pub const LOVED_IDS: &'static str = "tell application \"Music\"\n        set output to \"\"\n        repeat with t in (every track of library playlist 1 whose favorited is true)\n            set output to output & (persistent ID of t) & \"\u{1d}\"\n        end repeat\n        return output\n    end tell";
pub const PLAY_COUNTS: &'static str = "tell application \"Music\"\n        set output to \"\"\n        repeat with t in (every track of library playlist 1)\n            set pid to persistent ID of t\n            set pc to played count of t\n            set output to output & pid & \"\u{1e}\" & pc & \"\u{1d}\"\n        end repeat\n        return output\n    end tell";

pub const SET_GENRE: &'static str = "set genre of theTrack to \"Music\"";
pub const SET_ARTIST: &'static str = "set artist of theTrack to \"";
pub const SET_ALBUM: &'static str = "set album of theTrack to \"";
pub const SETTING_SEP: &'static str = "\n            ";
pub const QUOTE: &'static str = "\"";

// ---------------------------------------------------------------------------
// Escaping
// ---------------------------------------------------------------------------

/// A backslash is doubled and a double quote gets a backslash before it.
pub open spec fn escape_char(c: char) -> Seq<char> {
    if c == '\\' {
        seq!['\\', '\\']
    } else if c == '"' {
        seq!['\\', '"']
    } else {
        seq![c]
    }
}

/// `s` made safe inside an AppleScript string literal.
pub open spec fn escaped(s: Seq<char>) -> Seq<char>
    decreases s.len(),
{
    if s.len() == 0 {
        Seq::empty()
    } else {
        escaped(s.drop_last()) + escape_char(s.last())
    }
}

/// Escapes backslashes and double quotes for an AppleScript string.
pub fn escape_applescript(s: &str) -> (r: String)
    ensures
        r@ == escaped(s@),
{
    let v = chars_of(s);
    let mut out = String::new();
    let mut i: usize = 0;
    while i < v.len()
        invariant
            i <= v.len(),
            v@ == s@,
            out@ == escaped(v@.take(i as int)),
        decreases v.len() - i,
    {
        let c = v[i];
        assert(v@.take(i + 1).drop_last() == v@.take(i as int));
        if c == '\\' {
            push_char(&mut out, '\\');
            push_char(&mut out, '\\');
        } else if c == '"' {
            push_char(&mut out, '\\');
            push_char(&mut out, '"');
        } else {
            push_char(&mut out, c);
        }
        i = i + 1;
    }
    assert(v@.take(v@.len() as int) == v@);
    out
}

/// Reading an AppleScript string literal's body from the front: a backslash
/// takes the next character as it is.
pub open spec fn unescape(t: Seq<char>) -> Seq<char>
    decreases t.len(),
{
    if t.len() == 0 {
        Seq::empty()
    } else if t[0] == '\\' && t.len() >= 2 {
        seq![t[1]] + unescape(t.skip(2))
    } else {
        seq![t[0]] + unescape(t.skip(1))
    }
}

/// The body of a string literal ends at no character of `t`: every double quote
/// and every backslash is taken by a backslash before it.
pub open spec fn stays_in_literal(t: Seq<char>) -> bool
    decreases t.len(),
{
    if t.len() == 0 {
        true
    } else if t[0] == '\\' {
        t.len() >= 2 && stays_in_literal(t.skip(2))
    } else {
        t[0] != '"' && stays_in_literal(t.skip(1))
    }
}

proof fn lemma_escaped_concat(a: Seq<char>, b: Seq<char>)
    ensures
        escaped(a + b) == escaped(a) + escaped(b),
    decreases b.len(),
{
    if b.len() == 0 {
        assert(a + b == a);
        assert(escaped(b) == Seq::<char>::empty());
        assert(escaped(a) + Seq::<char>::empty() == escaped(a));
    } else {
        lemma_escaped_concat(a, b.drop_last());
        assert((a + b).drop_last() == a + b.drop_last());
        assert((a + b).last() == b.last());
        assert(escaped(a) + escaped(b.drop_last()) + escape_char(b.last()) == escaped(a) + (escaped(
            b.drop_last(),
        ) + escape_char(b.last())));
    }
}

proof fn lemma_escaped_first(s: Seq<char>)
    requires
        s.len() > 0,
    ensures
        escaped(s) == escape_char(s[0]) + escaped(s.skip(1)),
{
    assert(s == seq![s[0]] + s.skip(1));
    lemma_escaped_concat(seq![s[0]], s.skip(1));
    let one = seq![s[0]];
    assert(one.drop_last() =~= Seq::<char>::empty());
    assert(one.last() == s[0]);
    assert(escaped(Seq::<char>::empty()) == Seq::<char>::empty());
    assert(escaped(one) == escaped(one.drop_last()) + escape_char(one.last()));
    assert(escaped(one) == Seq::<char>::empty() + escape_char(s[0]));
    assert(Seq::<char>::empty() + escape_char(s[0]) == escape_char(s[0]));
}

/// Escaping is undone by reading the literal back, and the escaped text never
/// ends the literal early: a name put between double quotes in a script is one
/// string literal whose value is the name.
pub proof fn law_escape_round_trip(s: Seq<char>)
    ensures
        unescape(escaped(s)) == s,
        stays_in_literal(escaped(s)),
    decreases s.len(),
{
    if s.len() == 0 {
        assert(escaped(s) == Seq::<char>::empty());
    } else {
        lemma_escaped_first(s);
        law_escape_round_trip(s.skip(1));
        let c = s[0];
        let t = escaped(s);
        let rest = escaped(s.skip(1));
        if c == '\\' || c == '"' {
            assert(t == seq!['\\', c] + rest);
            assert(t[0] == '\\' && t[1] == c);
            assert(t.skip(2) == rest);
        } else {
            assert(t == seq![c] + rest);
            assert(t[0] == c);
            assert(t.skip(1) == rest);
        }
        assert(s == seq![c] + s.skip(1));
    }
}

fn cat3(a: &str, b: &str, c: &str) -> (r: String)
    ensures
        r@ == a@ + b@ + c@,
{
    let mut s = owned(a);
    s.append(b);
    s.append(c);
    s
}

fn cat5(a: &str, b: &str, c: &str, d: &str, e: &str) -> (r: String)
    ensures
        r@ == a@ + b@ + c@ + d@ + e@,
{
    let mut s = owned(a);
    s.append(b);
    s.append(c);
    s.append(d);
    s.append(e);
    s
}

/// `head`, then `arg` escaped, then `tail`.
fn wrap_escaped(head: &str, arg: &str, tail: &str) -> (r: String)
    ensures
        r@ == head@ + escaped(arg@) + tail@,
{
    let e = escape_applescript(arg);
    cat3(head, e.as_str(), tail)
}

/// `head`, `a` escaped, `mid`, `b` escaped, `tail`.
fn wrap_escaped2(head: &str, a: &str, mid: &str, b: &str, tail: &str) -> (r: String)
    ensures
        r@ == head@ + escaped(a@) + mid@ + escaped(b@) + tail@,
{
    let ea = escape_applescript(a);
    let eb = escape_applescript(b);
    cat5(head, ea.as_str(), mid, eb.as_str(), tail)
}

pub open spec fn opt_view(o: Option<&str>) -> Option<Seq<char>> {
    match o {
        Some(s) => Some(s@),
        None => None,
    }
}

// ---------------------------------------------------------------------------
// Importing
// ---------------------------------------------------------------------------

/// The property settings of an import: genre "Music", then the artist and the
/// album when they are known, one per line.
pub open spec fn import_settings(artist: Option<Seq<char>>, album: Option<Seq<char>>) -> Seq<char> {
    let genre = SET_GENRE@;
    let with_artist = match artist {
        Some(a) => genre + SETTING_SEP@ + SET_ARTIST@ + escaped(a) + QUOTE@,
        None => genre,
    };
    match album {
        Some(a) => with_artist + SETTING_SEP@ + SET_ALBUM@ + escaped(a) + QUOTE@,
        None => with_artist,
    }
}

/// The script that adds a file to the library, sets its properties and returns
/// its name and persistent ID.
pub open spec fn import_script(path: Seq<char>, artist: Option<Seq<char>>, album: Option<Seq<char>>) -> Seq<char> {
    IMPORT_HEAD@ + escaped(path) + IMPORT_MID@ + import_settings(artist, album) + IMPORT_TAIL@
}

/// The script that imports the file at `path` with genre "Music" and the given
/// artist and album.
pub fn import_with_metadata(path: &str, artist: Option<&str>, album: Option<&str>) -> (r: String)
    ensures
        r@ == import_script(path@, opt_view(artist), opt_view(album)),
{
    let mut settings = owned(SET_GENRE);
    if let Some(a) = artist {
        let line = wrap_escaped(SET_ARTIST, a, QUOTE);
        settings.append(SETTING_SEP);
        settings.append(line.as_str());
    }
    if let Some(a) = album {
        let line = wrap_escaped(SET_ALBUM, a, QUOTE);
        settings.append(SETTING_SEP);
        settings.append(line.as_str());
    }
    let p = escape_applescript(path);
    cat5(IMPORT_HEAD, p.as_str(), IMPORT_MID, settings.as_str(), IMPORT_TAIL)
}

/// What an import reports: the track's name and its persistent ID.
pub struct ImportResult {
    pub track_name: Option<String>,
    pub persistent_id: Option<String>,
}

/// The pieces of the trimmed output between field separators.
pub open spec fn output_fields(output: Seq<char>) -> Seq<Seq<char>> {
    split_char(trim(output), FIELD_SEP)
}

/// An import's output is "name<FS>id": the first field is the name and the
/// second, when there is one, the persistent ID.
pub fn parse_import_output(output: &str) -> (r: ImportResult)
    ensures
        ({
            let f = output_fields(output@);
            &&& r.track_name matches Some(n) && n@ == f[0]
            &&& match r.persistent_id {
                Some(p) => f.len() > 1 && p@ == f[1],
                None => f.len() <= 1,
            }
        }),
{
    let t = trim_str(output);
    let parts = split_str(t.as_str(), FIELD_SEP);
    proof {
        crate::text::lemma_split_char_nonempty(t@, FIELD_SEP);
        assert(views(parts@)[0] == parts@[0]@);
    }
    let name = parts[0].clone();
    let pid = if parts.len() > 1 {
        assert(views(parts@)[1] == parts@[1]@);
        Some(parts[1].clone())
    } else {
        None
    };
    ImportResult { track_name: Some(name), persistent_id: pid }
}

/// The script that asks whether the file at `path` is in the library.
pub fn is_track_in_library(path: &str) -> (r: String)
    ensures
        r@ == IN_LIBRARY_HEAD@ + escaped(path@) + IN_LIBRARY_TAIL@,
{
    wrap_escaped(IN_LIBRARY_HEAD, path, IN_LIBRARY_TAIL)
}

/// A script answers yes when its trimmed output is "true".
pub fn parse_true_output(output: &str) -> (b: bool)
    ensures
        b == (trim(output@) == "true"@),
{
    let t = chars_of(trim_str(output).as_str());
    let yes = chars_of("true");
    let same = t.len() == yes.len() && crate::text::matches_at_exec(&t, &yes, 0);
    proof {
        if same {
            assert forall|k: int| 0 <= k < t@.len() implies t@[k] == yes@[k] by {
                assert(t@[0 + k] == yes@[k]);
            }
            assert(t@ =~= yes@);
        } else if t@ == yes@ {
            assert(crate::text::matches_at(t@, yes@, 0));
        }
    }
    same
}

// ---------------------------------------------------------------------------
// Playback
// ---------------------------------------------------------------------------

/// The script that plays a playlist by name (falling back to the whole library
/// when Music.app has no such playlist), or the whole library.
pub fn play_playlist(playlist: Option<&str>) -> (r: String)
    ensures
        r@ == match playlist {
            Some(name) => PLAY_PLAYLIST_HEAD@ + escaped(name@) + PLAY_PLAYLIST_TAIL@,
            None => PLAY_LIBRARY@,
        },
{
    match playlist {
        Some(name) => wrap_escaped(PLAY_PLAYLIST_HEAD, name, PLAY_PLAYLIST_TAIL),
        None => owned(PLAY_LIBRARY),
    }
}

/// The script that plays the first library track whose name contains `track_name`.
pub fn play_track(track_name: &str) -> (r: String)
    ensures
        r@ == PLAY_TRACK_HEAD@ + escaped(track_name@) + PLAY_TRACK_TAIL@,
{
    wrap_escaped(PLAY_TRACK_HEAD, track_name, PLAY_TRACK_TAIL)
}

/// The script that pauses playback.
pub fn pause() -> (r: String)
    ensures
        r@ == PAUSE@,
{
    owned(PAUSE)
}

/// The script that resumes playback.
pub fn resume() -> (r: String)
    ensures
        r@ == RESUME@,
{
    owned(RESUME)
}

/// The script that stops playback.
pub fn stop() -> (r: String)
    ensures
        r@ == STOP@,
{
    owned(STOP)
}

/// The script that skips to the next track.
pub fn next_track() -> (r: String)
    ensures
        r@ == NEXT_TRACK@,
{
    owned(NEXT_TRACK)
}

/// The script that goes back to the previous track.
pub fn previous_track() -> (r: String)
    ensures
        r@ == PREVIOUS_TRACK@,
{
    owned(PREVIOUS_TRACK)
}

/// The script that reports the current track and the player's state.
pub fn get_status() -> (r: String)
    ensures
        r@ == STATUS@,
{
    owned(STATUS)
}

/// The text fields of a status report. Position and duration stay text, for
/// the caller to read as numbers (0 where they are none).
pub struct StatusText {
    pub track: Option<String>,
    pub artist: Option<String>,
    pub album: Option<String>,
    pub state: String,
    pub position: Option<String>,
    pub duration: Option<String>,
}

/// An empty field is no value.
pub open spec fn non_empty(s: Seq<char>) -> Option<Seq<char>> {
    if s.len() == 0 {
        None
    } else {
        Some(s)
    }
}

pub open spec fn string_opt_view(o: Option<String>) -> Option<Seq<char>> {
    match o {
        Some(s) => Some(s@),
        None => None,
    }
}

fn non_empty_exec(s: &String) -> (r: Option<String>)
    ensures
        string_opt_view(r) == non_empty(s@),
{
    if s.as_str().is_empty() {
        None
    } else {
        Some(s.clone())
    }
}

/// A status report is six fields: track, artist, album, state, position and
/// duration. With fewer, nothing plays: state "stopped" and no numbers.
pub fn parse_status_output(output: &str) -> (r: StatusText)
    ensures
        ({
            let f = output_fields(output@);
            if f.len() >= 6 {
                &&& string_opt_view(r.track) == non_empty(f[0])
                &&& string_opt_view(r.artist) == non_empty(f[1])
                &&& string_opt_view(r.album) == non_empty(f[2])
                &&& r.state@ == f[3]
                &&& string_opt_view(r.position) == Some(f[4])
                &&& string_opt_view(r.duration) == Some(f[5])
            } else {
                &&& r.track is None && r.artist is None && r.album is None
                &&& r.state@ == "stopped"@
                &&& r.position is None && r.duration is None
            }
        }),
{
    let t = trim_str(output);
    let parts = split_str(t.as_str(), FIELD_SEP);
    if parts.len() >= 6 {
        proof {
            assert(views(parts@)[0] == parts@[0]@);
            assert(views(parts@)[1] == parts@[1]@);
            assert(views(parts@)[2] == parts@[2]@);
            assert(views(parts@)[3] == parts@[3]@);
            assert(views(parts@)[4] == parts@[4]@);
            assert(views(parts@)[5] == parts@[5]@);
        }
        StatusText {
            track: non_empty_exec(&parts[0]),
            artist: non_empty_exec(&parts[1]),
            album: non_empty_exec(&parts[2]),
            state: parts[3].clone(),
            position: Some(parts[4].clone()),
            duration: Some(parts[5].clone()),
        }
    } else {
        StatusText {
            track: None,
            artist: None,
            album: None,
            state: owned("stopped"),
            position: None,
            duration: None,
        }
    }
}

// ---------------------------------------------------------------------------
// Playlists
// ---------------------------------------------------------------------------

/// The script that makes a user playlist, unless one of that name exists.
pub open spec fn create_playlist_script(name: Seq<char>) -> Seq<char> {
    CREATE_PLAYLIST_HEAD@ + escaped(name) + CREATE_PLAYLIST_MID@ + escaped(name) + CREATE_PLAYLIST_TAIL@
}

/// The script that makes a user playlist, unless one of that name exists.
pub fn create_playlist(name: &str) -> (r: String)
    ensures
        r@ == create_playlist_script(name@),
{
    wrap_escaped2(CREATE_PLAYLIST_HEAD, name, CREATE_PLAYLIST_MID, name, CREATE_PLAYLIST_TAIL)
}

/// The script that copies the first library track whose name contains
/// `track_name` into a playlist.
pub open spec fn add_by_name_script(track_name: Seq<char>, playlist: Seq<char>) -> Seq<char> {
    ADD_BY_NAME_HEAD@ + escaped(playlist) + ADD_BY_NAME_MID@ + escaped(track_name) + ADD_BY_NAME_TAIL@
}

/// The script that copies the library track with a persistent ID into a playlist.
pub open spec fn add_by_id_script(persistent_id: Seq<char>, playlist: Seq<char>) -> Seq<char> {
    ADD_BY_ID_HEAD@ + escaped(playlist) + ADD_BY_ID_MID@ + escaped(persistent_id) + ADD_BY_ID_TAIL@
}

fn two(a: String, b: String) -> (r: Vec<String>)
    ensures
        views(r@) == seq![a@, b@],
{
    let mut v = Vec::new();
    v.push(a);
    v.push(b);
    assert(views(v@) =~= seq![a@, b@]);
    v
}

/// The scripts that add a track (by name) to a playlist, run in order, each
/// only if the one before succeeded: make sure the playlist exists, then copy
/// the track into it.
pub fn add_track_to_playlist(track_name: &str, playlist: &str) -> (r: Vec<String>)
    ensures
        views(r@) == seq![create_playlist_script(playlist@), add_by_name_script(track_name@, playlist@)],
{
    let create = create_playlist(playlist);
    let add = wrap_escaped2(ADD_BY_NAME_HEAD, playlist, ADD_BY_NAME_MID, track_name, ADD_BY_NAME_TAIL);
    two(create, add)
}

/// The scripts that add a track (by persistent ID) to a playlist, run in order.
pub fn add_track_to_playlist_by_id(persistent_id: &str, playlist: &str) -> (r: Vec<String>)
    ensures
        views(r@) == seq![create_playlist_script(playlist@), add_by_id_script(persistent_id@, playlist@)],
{
    let create = create_playlist(playlist);
    let add = wrap_escaped2(ADD_BY_ID_HEAD, playlist, ADD_BY_ID_MID, persistent_id, ADD_BY_ID_TAIL);
    two(create, add)
}

/// The persistent ID names a track precisely; without one, the track is found by name.
pub fn add_track_to_playlist_smart(persistent_id: Option<&str>, track_name: &str, playlist: &str) -> (r: Vec<String>)
    ensures
        views(r@) == match persistent_id {
            Some(pid) => seq![create_playlist_script(playlist@), add_by_id_script(pid@, playlist@)],
            None => seq![create_playlist_script(playlist@), add_by_name_script(track_name@, playlist@)],
        },
{
    match persistent_id {
        Some(pid) => add_track_to_playlist_by_id(pid, playlist),
        None => add_track_to_playlist(track_name, playlist),
    }
}

/// The script that deletes the library track with a persistent ID (and so
/// from every playlist).
pub fn delete_track(persistent_id: &str) -> (r: String)
    ensures
        r@ == DELETE_TRACK_HEAD@ + escaped(persistent_id@) + DELETE_TRACK_TAIL@,
{
    wrap_escaped(DELETE_TRACK_HEAD, persistent_id, DELETE_TRACK_TAIL)
}

/// The script that deletes every library track of a file.
pub fn delete_track_by_path(path: &str) -> (r: String)
    ensures
        r@ == DELETE_BY_PATH_HEAD@ + escaped(path@) + DELETE_BY_PATH_TAIL@,
{
    wrap_escaped(DELETE_BY_PATH_HEAD, path, DELETE_BY_PATH_TAIL)
}

/// The script that removes a track (by persistent ID) from one playlist only.
pub fn remove_track_from_playlist(persistent_id: &str, playlist: &str) -> (r: String)
    ensures
        r@ == REMOVE_FROM_PLAYLIST_HEAD@ + escaped(playlist@) + REMOVE_FROM_PLAYLIST_MID@ + escaped(
            persistent_id@,
        ) + REMOVE_FROM_PLAYLIST_TAIL@,
{
    wrap_escaped2(
        REMOVE_FROM_PLAYLIST_HEAD,
        playlist,
        REMOVE_FROM_PLAYLIST_MID,
        persistent_id,
        REMOVE_FROM_PLAYLIST_TAIL,
    )
}

/// The script that lists the persistent IDs of a playlist's tracks.
pub fn get_playlist_track_ids(playlist: &str) -> (r: String)
    ensures
        r@ == PLAYLIST_IDS_HEAD@ + escaped(playlist@) + PLAYLIST_IDS_TAIL@,
{
    wrap_escaped(PLAYLIST_IDS_HEAD, playlist, PLAYLIST_IDS_TAIL)
}

/// The script that deletes a playlist.
pub fn delete_playlist(name: &str) -> (r: String)
    ensures
        r@ == DELETE_PLAYLIST_HEAD@ + escaped(name@) + DELETE_PLAYLIST_TAIL@,
{
    wrap_escaped(DELETE_PLAYLIST_HEAD, name, DELETE_PLAYLIST_TAIL)
}

/// The script that lists the user playlists with their track counts.
pub fn list_playlists() -> (r: String)
    ensures
        r@ == LIST_PLAYLISTS@,
{
    owned(LIST_PLAYLISTS)
}

/// The script that reports the library's track count and total duration.
pub fn get_library_stats() -> (r: String)
    ensures
        r@ == LIBRARY_STATS@,
{
    owned(LIBRARY_STATS)
}

/// The script that sets whether a track is a favorite.
pub fn set_track_loved(persistent_id: &str, loved: bool) -> (r: String)
    ensures
        r@ == SET_LOVED_HEAD@ + escaped(persistent_id@) + SET_LOVED_MID@ + (if loved {
            "true"@
        } else {
            "false"@
        }) + SET_LOVED_TAIL@,
{
    let e = escape_applescript(persistent_id);
    let loved_str = if loved { "true" } else { "false" };
    cat5(SET_LOVED_HEAD, e.as_str(), SET_LOVED_MID, loved_str, SET_LOVED_TAIL)
}

/// The script that lists the persistent IDs of the favorite tracks.
pub fn get_loved_track_ids() -> (r: String)
    ensures
        r@ == LOVED_IDS@,
{
    owned(LOVED_IDS)
}

/// The script that lists every library track's persistent ID and play count.
pub fn get_play_counts() -> (r: String)
    ensures
        r@ == PLAY_COUNTS@,
{
    owned(PLAY_COUNTS)
}

// ---------------------------------------------------------------------------
// Reading outputs
// ---------------------------------------------------------------------------

/// The nonempty strings of `s`, in order.
pub open spec fn nonempty_parts(s: Seq<Seq<char>>) -> Seq<Seq<char>>
    decreases s.len(),
{
    if s.len() == 0 {
        Seq::empty()
    } else {
        let r = nonempty_parts(s.drop_last());
        if s.last().len() > 0 {
            r.push(s.last())
        } else {
            r
        }
    }
}

/// The records of an output: the nonempty pieces of the trimmed output between
/// record separators.
pub open spec fn output_records(output: Seq<char>) -> Seq<Seq<char>> {
    nonempty_parts(split_char(trim(output), RECORD_SEP))
}

fn records_exec(output: &str) -> (r: Vec<String>)
    ensures
        views(r@) == output_records(output@),
{
    let t = trim_str(output);
    let parts = split_str(t.as_str(), RECORD_SEP);
    let mut out: Vec<String> = Vec::new();
    let mut i: usize = 0;
    while i < parts.len()
        invariant
            i <= parts.len(),
            views(parts@) == split_char(t@, RECORD_SEP),
            views(out@) == nonempty_parts(views(parts@).take(i as int)),
        decreases parts.len() - i,
    {
        assert(views(parts@).take(i + 1).drop_last() == views(parts@).take(i as int));
        assert(views(parts@)[i as int] == parts@[i as int]@);
        if !parts[i].as_str().is_empty() {
            let ghost before = views(out@);
            out.push(parts[i].clone());
            assert(views(out@) == before.push(parts@[i as int]@));
        }
        i = i + 1;
    }
    assert(views(parts@).take(parts@.len() as int) == views(parts@));
    out
}

/// Reads a list of persistent IDs: one per record.
pub fn parse_id_list(output: &str) -> (r: Vec<String>)
    ensures
        views(r@) == output_records(output@),
{
    records_exec(output)
}

/// The records of the form "name<FS>count" read as pairs; a record with fewer
/// than two fields is skipped, and a count that is no integer is 0.
pub open spec fn named_counts(records: Seq<Seq<char>>) -> Seq<(Seq<char>, i64)>
    decreases records.len(),
{
    if records.len() == 0 {
        Seq::empty()
    } else {
        let r = named_counts(records.drop_last());
        let f = split_char(records.last(), FIELD_SEP);
        if f.len() >= 2 {
            r.push(
                (
                    f[0],
                    match parse_i64(f[1]) {
                        Some(n) => n,
                        None => 0,
                    },
                ),
            )
        } else {
            r
        }
    }
}

pub open spec fn pair_views(v: Seq<(String, i64)>) -> Seq<(Seq<char>, i64)> {
    v.map_values(|p: (String, i64)| (p.0@, p.1))
}

fn named_counts_exec(output: &str) -> (r: Vec<(String, i64)>)
    ensures
        pair_views(r@) == named_counts(output_records(output@)),
{
    let recs = records_exec(output);
    let mut out: Vec<(String, i64)> = Vec::new();
    let mut i: usize = 0;
    while i < recs.len()
        invariant
            i <= recs.len(),
            views(recs@) == output_records(output@),
            pair_views(out@) == named_counts(views(recs@).take(i as int)),
        decreases recs.len() - i,
    {
        assert(views(recs@).take(i + 1).drop_last() == views(recs@).take(i as int));
        assert(views(recs@)[i as int] == recs@[i as int]@);
        let f = split_str(recs[i].as_str(), FIELD_SEP);
        if f.len() >= 2 {
            assert(views(f@)[0] == f@[0]@);
            assert(views(f@)[1] == f@[1]@);
            let n = match parse_i64_str(f[1].as_str()) {
                Some(n) => n,
                None => 0,
            };
            let ghost before = pair_views(out@);
            out.push((f[0].clone(), n));
            assert(pair_views(out@) == before.push((f@[0]@, n)));
        }
        i = i + 1;
    }
    assert(views(recs@).take(recs@.len() as int) == views(recs@));
    out
}

/// A user playlist of Music.app and its number of tracks.
pub struct PlaylistInfo {
    pub name: String,
    pub track_count: i64,
}

pub open spec fn playlist_views(v: Seq<PlaylistInfo>) -> Seq<(Seq<char>, i64)> {
    v.map_values(|p: PlaylistInfo| (p.name@, p.track_count))
}

/// Reads the user playlists: each record is "name<FS>count".
pub fn parse_playlists(output: &str) -> (r: Vec<PlaylistInfo>)
    ensures
        playlist_views(r@) == named_counts(output_records(output@)),
{
    let pairs = named_counts_exec(output);
    let mut out: Vec<PlaylistInfo> = Vec::new();
    let mut i: usize = 0;
    while i < pairs.len()
        invariant
            i <= pairs.len(),
            playlist_views(out@) == pair_views(pairs@).take(i as int),
        decreases pairs.len() - i,
    {
        let (name, n) = (pairs[i].0.clone(), pairs[i].1);
        let ghost before = playlist_views(out@);
        out.push(PlaylistInfo { name, track_count: n });
        assert(playlist_views(out@) == before.push(pair_views(pairs@)[i as int]));
        assert(pair_views(pairs@).take(i + 1) == pair_views(pairs@).take(i as int).push(
            pair_views(pairs@)[i as int],
        ));
        i = i + 1;
    }
    assert(pair_views(pairs@).take(pairs@.len() as int) == pair_views(pairs@));
    out
}

/// Reads the play counts: each record is "persistent ID<FS>count".
pub fn parse_play_counts(output: &str) -> (r: Vec<(String, i64)>)
    ensures
        pair_views(r@) == named_counts(output_records(output@)),
{
    named_counts_exec(output)
}

/// The track count of a library report: its first field read as an integer, 0
/// where it is none; with the second field, the total duration, as text.
pub fn parse_library_stats(output: &str) -> (r: (i64, Option<String>))
    ensures
        ({
            let f = output_fields(output@);
            &&& r.0 == match parse_i64(f[0]) {
                Some(n) => n,
                None => 0,
            }
            &&& string_opt_view(r.1) == if f.len() > 1 {
                Some(f[1])
            } else {
                None
            }
        }),
{
    let t = trim_str(output);
    let parts = split_str(t.as_str(), FIELD_SEP);
    proof {
        crate::text::lemma_split_char_nonempty(t@, FIELD_SEP);
        assert(views(parts@)[0] == parts@[0]@);
    }
    let count = match parse_i64_str(parts[0].as_str()) {
        Some(n) => n,
        None => 0,
    };
    let total = if parts.len() > 1 {
        assert(views(parts@)[1] == parts@[1]@);
        Some(parts[1].clone())
    } else {
        None
    };
    (count, total)
}

/// The error of a failed script run: its trimmed standard error.
pub fn script_error(stderr: &str) -> (e: MuError)
    ensures
        e matches MuError::AppleScript(m) && m@ == trim(stderr@),
{
    crate::error::applescript_error(stderr)
}

} // verus!

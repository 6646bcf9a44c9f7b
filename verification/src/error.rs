//! The library's errors, their messages, and the JSON lines that report them.
use vstd::prelude::*;
use crate::text::{contains, owned, push_decimal, decimal, str_contains, trim, trim_str, views};

verus! {

/// An error of a `mu` command. Errors of the database and of I/O are held by
/// their messages.
pub enum MuError {
    Db(String),
    AppleScript(String),
    Download(String),
    Io(String),
    TrackNotFound,
    PlaylistNotFound,
    DuplicateTrack { id: i64, title: String },
    ExternalTool(String),
    Validation(String),
}

/// The message of an error, as its `Display` writes it.
pub open spec fn message_spec(e: MuError) -> Seq<char> {
    match e {
        MuError::Db(m) => m@,
        MuError::AppleScript(m) => "AppleScript error: "@ + m@,
        MuError::Download(m) => m@,
        MuError::Io(m) => m@,
        MuError::TrackNotFound => "track not found"@,
        MuError::PlaylistNotFound => "playlist not found"@,
        MuError::DuplicateTrack { id, title } => "track already exists (id: "@ + decimal(id as int)
            + ", title: '"@ + title@ + "')"@,
        MuError::ExternalTool(m) => m@,
        MuError::Validation(m) => "validation error: "@ + m@,
    }
}

impl MuError {
    /// The message of the error.
    pub fn message(&self) -> (m: String)
        ensures
            m@ == message_spec(*self),
    {
        match self {
            MuError::Db(m) => m.clone(),
            MuError::AppleScript(m) => {
                let mut s = owned("AppleScript error: ");
                s.append(m.as_str());
                s
            },
            MuError::Download(m) => m.clone(),
            MuError::Io(m) => m.clone(),
            MuError::TrackNotFound => owned("track not found"),
            MuError::PlaylistNotFound => owned("playlist not found"),
            MuError::DuplicateTrack { id, title } => {
                let mut s = owned("track already exists (id: ");
                push_decimal(&mut s, *id);
                s.append(", title: '");
                s.append(title.as_str());
                s.append("')");
                s
            },
            MuError::ExternalTool(m) => m.clone(),
            MuError::Validation(m) => {
                let mut s = owned("validation error: ");
                s.append(m.as_str());
                s
            },
        }
    }
}

/// The error that a failed `osascript` run gives: its trimmed standard error.
pub fn applescript_error(stderr: &str) -> (e: MuError)
    ensures
        e matches MuError::AppleScript(m) && m@ == trim(stderr@),
{
    MuError::AppleScript(trim_str(stderr))
}

/// Music.app answers error -54 while a file is still being written: such an
/// import is worth another try.
pub open spec fn is_retryable_spec(e: MuError) -> bool {
    e matches MuError::AppleScript(m) && contains(m@, "(-54)"@)
}

pub fn is_retryable(e: &MuError) -> (b: bool)
    ensures
        b == is_retryable_spec(*e),
{
    match e {
        MuError::AppleScript(m) => str_contains(m.as_str(), "(-54)"),
        _ => false,
    }
}

// ---------------------------------------------------------------------------
// JSON lines
// ---------------------------------------------------------------------------

/// The lower-case hex digit of `n`, for `n` below 16.
pub open spec fn hex_digit(n: u32) -> char {
    match n {
        0 => '0',
        1 => '1',
        2 => '2',
        3 => '3',
        4 => '4',
        5 => '5',
        6 => '6',
        7 => '7',
        8 => '8',
        9 => '9',
        10 => 'a',
        11 => 'b',
        12 => 'c',
        13 => 'd',
        14 => 'e',
        _ => 'f',
    }
}

/// How a JSON string writes the character `c`: a quote and a backslash behind
/// a backslash, the control characters with a short escape as `\b`, `\t`,
/// `\n`, `\f`, `\r`, the other control characters below 0x20 as `\u00XX`,
/// and every other character as it is.
pub open spec fn json_char(c: char) -> Seq<char> {
    if c == '"' {
        seq!['\\', '"']
    } else if c == '\\' {
        seq!['\\', '\\']
    } else if c == '\u{8}' {
        seq!['\\', 'b']
    } else if c == '\t' {
        seq!['\\', 't']
    } else if c == '\n' {
        seq!['\\', 'n']
    } else if c == '\u{c}' {
        seq!['\\', 'f']
    } else if c == '\r' {
        seq!['\\', 'r']
    } else if (c as u32) < 0x20 {
        seq!['\\', 'u', '0', '0', hex_digit((c as u32) / 16), hex_digit((c as u32) % 16)]
    } else {
        seq![c]
    }
}

/// The escaped characters of `s`, in order.
pub open spec fn json_escaped(s: Seq<char>) -> Seq<char>
    decreases s.len(),
{
    if s.len() == 0 {
        Seq::empty()
    } else {
        json_escaped(s.drop_last()) + json_char(s.last())
    }
}

/// The JSON string literal of `s`: its escaped characters between quotes.
pub open spec fn json_quoted(s: Seq<char>) -> Seq<char> {
    seq!['"'] + json_escaped(s) + seq!['"']
}

/// Calls `serde_json::to_string` on a string. It writes a quote, each
/// character escaped as `json_char` says, and a quote; writing a string into
/// memory does not fail.
#[verifier::external_body]
fn json_string(s: &str) -> (r: String)
    ensures
        r@ == json_quoted(s@),
{
    serde_json::to_string(s).unwrap_or_default()
}

/// `{"error":<msg>}`.
pub open spec fn json_error_spec(msg: Seq<char>) -> Seq<char> {
    "{"@ + json_quoted("error"@) + ":"@ + json_quoted(msg) + "}"@
}

/// The JSON line that reports an error: an object whose one key "error" holds `msg`.
pub fn json_error(msg: &str) -> (r: String)
    ensures
        r@ == json_error_spec(msg@),
{
    let mut s = owned("{");
    s.append(json_string("error").as_str());
    s.append(":");
    s.append(json_string(msg).as_str());
    s.append("}");
    s
}

/// `{"message":<msg>,"ok":true}`: the keys in the sorted order of a JSON map.
pub open spec fn json_ok_spec(msg: Seq<char>) -> Seq<char> {
    "{"@ + json_quoted("message"@) + ":"@ + json_quoted(msg) + ","@ + json_quoted(
        "ok"@,
    ) + ":true}"@
}

/// The JSON line that reports success with a message.
pub fn json_ok(msg: &str) -> (r: String)
    ensures
        r@ == json_ok_spec(msg@),
{
    let mut s = owned("{");
    s.append(json_string("message").as_str());
    s.append(":");
    s.append(json_string(msg).as_str());
    s.append(",");
    s.append(json_string("ok").as_str());
    s.append(":true}");
    s
}

/// The JSON strings of `items`, separated by commas.
pub open spec fn json_items(items: Seq<Seq<char>>) -> Seq<char>
    decreases items.len(),
{
    if items.len() == 0 {
        Seq::empty()
    } else if items.len() == 1 {
        json_quoted(items[0])
    } else {
        json_items(items.drop_last()) + ","@ + json_quoted(items.last())
    }
}

/// The JSON array of the strings `items`.
pub open spec fn json_array(items: Seq<Seq<char>>) -> Seq<char> {
    "["@ + json_items(items) + "]"@
}

/// The "warnings" field that a result line carries: none when there are no
/// warnings, else the JSON array of the warnings in order.
pub fn warnings_field(warnings: &Vec<String>) -> (r: Option<String>)
    ensures
        warnings@.len() == 0 <==> r is None,
        r matches Some(a) ==> a@ == json_array(views(warnings@)),
{
    if warnings.len() == 0 {
        return None;
    }
    let mut out = owned("[");
    let mut i: usize = 0;
    while i < warnings.len()
        invariant
            i <= warnings.len(),
            out@ == "["@ + json_items(views(warnings@).take(i as int)),
        decreases warnings.len() - i,
    {
        let ghost before = out@;
        let ghost vs = views(warnings@);
        assert(vs.take(i + 1).drop_last() == vs.take(i as int));
        assert(vs.take(i + 1).last() == warnings@[i as int]@);
        if i > 0 {
            out.append(",");
        }
        let q = json_string(warnings[i].as_str());
        out.append(q.as_str());
        proof {
            if i == 0 {
                assert(vs.take(0) =~= Seq::<Seq<char>>::empty());
                assert(vs.take(1)[0] == warnings@[0]@);
            }
        }
        assert(out@ == "["@ + json_items(vs.take(i + 1)));
        i = i + 1;
    }
    assert(views(warnings@).take(warnings@.len() as int) == views(warnings@));
    out.append("]");
    Some(out)
}

} // verus!

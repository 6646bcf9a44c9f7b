//! How a track named on the command line is looked up in the database.
use vstd::prelude::*;
use crate::text::{owned, parse_i64, parse_i64_str};

verus! {

/// One way of looking a track up.
pub enum TrackLookup {
    /// The track with this id.
    ById(i64),
    /// The track whose title is exactly this.
    ByTitle(String),
    /// The first track whose title contains this.
    ByTitleSubstring(String),
}

pub enum LookupView {
    ById(i64),
    ByTitle(Seq<char>),
    ByTitleSubstring(Seq<char>),
}

pub open spec fn lookup_view(l: TrackLookup) -> LookupView {
    match l {
        TrackLookup::ById(id) => LookupView::ById(id),
        TrackLookup::ByTitle(s) => LookupView::ByTitle(s@),
        TrackLookup::ByTitleSubstring(s) => LookupView::ByTitleSubstring(s@),
    }
}

/// The lookups to try in order until one finds a track: by id when the name
/// is an integer, then by exact title, then by title substring.
pub open spec fn track_lookups_spec(track: Seq<char>) -> Seq<LookupView> {
    let by_title = seq![LookupView::ByTitle(track), LookupView::ByTitleSubstring(track)];
    match parse_i64(track) {
        Some(id) => seq![LookupView::ById(id)] + by_title,
        None => by_title,
    }
}

/// The lookups that resolve a track given by id or title.
pub fn track_lookups(track: &str) -> (r: Vec<TrackLookup>)
    ensures
        r@.map_values(|l: TrackLookup| lookup_view(l)) == track_lookups_spec(track@),
{
    let mut r: Vec<TrackLookup> = Vec::new();
    if let Some(id) = parse_i64_str(track) {
        r.push(TrackLookup::ById(id));
    }
    r.push(TrackLookup::ByTitle(owned(track)));
    r.push(TrackLookup::ByTitleSubstring(owned(track)));
    assert(r@.map_values(|l: TrackLookup| lookup_view(l)) =~= track_lookups_spec(track@));
    r
}

/// A track id given on the command line: the name itself when it is an integer.
pub fn track_id_of_name(track: &str) -> (r: Option<i64>)
    ensures
        r == parse_i64(track@),
{
    parse_i64_str(track)
}

} // verus!

//! Playlists: which names are accepted, and how a sync brings each Music.app
//! playlist in line with the local one.
use vstd::prelude::*;
use crate::error::MuError;
use crate::text::{chars_of, control, is_control, owned, trim, trim_chars, views};

verus! {

/// The subcommands of `mu playlist`.
pub enum PlaylistAction {
    /// Create a new playlist.
    Create { name: String },
    /// Add a track to a playlist.
    Add { playlist: String, track: String },
    /// Remove a playlist.
    Remove { name: String },
    /// Remove a track from a playlist.
    RemoveTrack { playlist: String, track: String },
    /// List all playlists.
    List,
    /// Sync playlists with Apple Music.
    Sync,
}

// ---------------------------------------------------------------------------
// Names
// ---------------------------------------------------------------------------

/// What is wrong with a playlist name, if anything. The trimmed name must not
/// be empty and must have at most 255 characters, and the name must hold no
/// control character and no backslash.
pub open spec fn playlist_name_problem(name: Seq<char>) -> Option<Seq<char>> {
    let t = trim(name);
    if t.len() == 0 {
        Some("playlist name cannot be empty"@)
    } else if t.len() > 255 {
        Some("playlist name too long (max 255 chars)"@)
    } else if exists|i: int| 0 <= i < name.len() && (is_control(#[trigger] name[i]) || name[i] == '\\') {
        Some("playlist name contains invalid characters"@)
    } else {
        None
    }
}

/// Accepts a playlist name, or says why not.
pub fn validate_playlist_name(name: &str) -> (r: Result<(), MuError>)
    ensures
        match r {
            Ok(()) => playlist_name_problem(name@) is None,
            Err(e) => e matches MuError::Validation(m) && playlist_name_problem(name@) == Some(m@),
        },
{
    let v = chars_of(name);
    let t = chars_of(trim_chars(&v).as_str());
    if t.len() == 0 {
        return Err(MuError::Validation(owned("playlist name cannot be empty")));
    }
    if t.len() > 255 {
        return Err(MuError::Validation(owned("playlist name too long (max 255 chars)")));
    }
    let mut i: usize = 0;
    while i < v.len()
        invariant
            i <= v.len(),
            v@ == name@,
            t@ == trim(name@),
            0 < t@.len() <= 255,
            forall|k: int| 0 <= k < i ==> !(is_control(#[trigger] v@[k]) || v@[k] == '\\'),
        decreases v.len() - i,
    {
        if control(v[i]) || v[i] == '\\' {
            assert(is_control(v@[i as int]) || v@[i as int] == '\\');
            assert(playlist_name_problem(name@) == Some("playlist name contains invalid characters"@));
            return Err(MuError::Validation(owned("playlist name contains invalid characters")));
        }
        i = i + 1;
    }
    Ok(())
}

// ---------------------------------------------------------------------------
// Grouping the local playlists
// ---------------------------------------------------------------------------

/// A track of a local playlist: its title and, once imported, its persistent ID.
pub struct LocalTrack {
    pub title: String,
    pub apple_music_id: Option<String>,
}

/// A local playlist with its tracks in playlist order.
pub struct PlaylistGroup {
    pub name: String,
    pub tracks: Vec<LocalTrack>,
}

pub open spec fn id_view(o: Option<String>) -> Option<Seq<char>> {
    match o {
        Some(s) => Some(s@),
        None => None,
    }
}

pub open spec fn track_view(t: LocalTrack) -> (Seq<char>, Option<Seq<char>>) {
    (t.title@, id_view(t.apple_music_id))
}

pub open spec fn tracks_view(ts: Seq<LocalTrack>) -> Seq<(Seq<char>, Option<Seq<char>>)> {
    ts.map_values(|t: LocalTrack| track_view(t))
}

pub open spec fn group_view(g: PlaylistGroup) -> (Seq<char>, Seq<(Seq<char>, Option<Seq<char>>)>) {
    (g.name@, tracks_view(g.tracks@))
}

pub open spec fn groups_view(gs: Seq<PlaylistGroup>) -> Seq<(Seq<char>, Seq<(Seq<char>, Option<Seq<char>>)>)> {
    gs.map_values(|g: PlaylistGroup| group_view(g))
}

/// A row of the playlist listing: playlist name, track title, persistent ID.
pub open spec fn row_view(r: (String, String, Option<String>)) -> (Seq<char>, Seq<char>, Option<Seq<char>>) {
    (r.0@, r.1@, id_view(r.2))
}

pub open spec fn rows_view(rs: Seq<(String, String, Option<String>)>) -> Seq<(Seq<char>, Seq<char>, Option<Seq<char>>)> {
    rs.map_values(|r: (String, String, Option<String>)| row_view(r))
}

pub type GroupsV = Seq<(Seq<char>, Seq<(Seq<char>, Option<Seq<char>>)>)>;

/// The index of the group named `name`, if there is one.
pub open spec fn group_index(gs: GroupsV, name: Seq<char>) -> Option<int>
    decreases gs.len(),
{
    if gs.len() == 0 {
        None
    } else if gs.last().0 == name {
        Some(gs.len() - 1)
    } else {
        group_index(gs.drop_last(), name)
    }
}

/// The rows gathered by playlist: a row joins the group of its playlist, and a
/// playlist first met opens a new group at the end.
pub open spec fn group_rows(rows: Seq<(Seq<char>, Seq<char>, Option<Seq<char>>)>) -> GroupsV
    decreases rows.len(),
{
    if rows.len() == 0 {
        Seq::empty()
    } else {
        let gs = group_rows(rows.drop_last());
        let (name, title, id) = rows.last();
        match group_index(gs, name) {
            Some(k) => gs.update(k, (name, gs[k].1.push((title, id)))),
            None => gs.push((name, seq![(title, id)])),
        }
    }
}

/// The groups with an empty group added for each named playlist that has none.
pub open spec fn add_empty_groups(gs: GroupsV, names: Seq<Seq<char>>) -> GroupsV
    decreases names.len(),
{
    if names.len() == 0 {
        gs
    } else {
        let before = add_empty_groups(gs, names.drop_last());
        match group_index(before, names.last()) {
            Some(_) => before,
            None => before.push((names.last(), Seq::empty())),
        }
    }
}

/// Every local playlist with its tracks: those of the listing, then the empty ones.
pub open spec fn playlist_groups(rows: Seq<(Seq<char>, Seq<char>, Option<Seq<char>>)>, names: Seq<Seq<char>>) -> GroupsV {
    add_empty_groups(group_rows(rows), names)
}

pub proof fn lemma_group_index(gs: GroupsV, name: Seq<char>)
    ensures
        group_index(gs, name) matches Some(k) ==> 0 <= k < gs.len() && gs[k].0 == name,
        group_index(gs, name) is None ==> forall|k: int| 0 <= k < gs.len() ==> #[trigger] gs[k].0 != name,
    decreases gs.len(),
{
    if gs.len() > 0 {
        lemma_group_index(gs.drop_last(), name);
        if gs.last().0 != name && group_index(gs.drop_last(), name) is None {
            assert forall|k: int| 0 <= k < gs.len() implies #[trigger] gs[k].0 != name by {
                if k < gs.len() - 1 {
                    assert(gs[k] == gs.drop_last()[k]);
                }
            }
        }
    }
}

fn group_index_exec(gs: &Vec<PlaylistGroup>, name: &String) -> (r: Option<usize>)
    ensures
        match r {
            Some(k) => group_index(groups_view(gs@), name@) == Some(k as int),
            None => group_index(groups_view(gs@), name@) is None,
        },
{
    let mut i = gs.len();
    assert(groups_view(gs@).take(gs@.len() as int) == groups_view(gs@));
    while i > 0
        invariant
            i <= gs.len(),
            group_index(groups_view(gs@).take(i as int), name@) == group_index(groups_view(gs@), name@),
        decreases i,
    {
        let ghost g = groups_view(gs@).take(i as int);
        assert(g.drop_last() == groups_view(gs@).take(i - 1));
        assert(g.last() == group_view(gs@[i - 1]));
        if gs[i - 1].name == *name {
            return Some(i - 1);
        }
        i = i - 1;
    }
    assert(groups_view(gs@).take(gs@.len() as int) == groups_view(gs@));
    None
}

fn clone_id(o: &Option<String>) -> (r: Option<String>)
    ensures
        id_view(r) == id_view(*o),
{
    match o {
        Some(s) => Some(s.clone()),
        None => None,
    }
}

/// Gathers the listing's rows (playlist, title, persistent ID, in playlist
/// order) by playlist, and adds every named playlist that has no rows.
pub fn group_playlist_rows(rows: &Vec<(String, String, Option<String>)>, names: &Vec<String>) -> (gs: Vec<PlaylistGroup>)
    ensures
        groups_view(gs@) == playlist_groups(rows_view(rows@), views(names@)),
{
    let mut gs: Vec<PlaylistGroup> = Vec::new();
    let mut i: usize = 0;
    assert(groups_view(gs@) =~= Seq::<(Seq<char>, Seq<(Seq<char>, Option<Seq<char>>)>)>::empty());
    while i < rows.len()
        invariant
            i <= rows.len(),
            groups_view(gs@) == group_rows(rows_view(rows@).take(i as int)),
        decreases rows.len() - i,
    {
        let ghost pre = rows_view(rows@).take(i as int);
        assert(rows_view(rows@).take(i + 1).drop_last() == pre);
        assert(rows_view(rows@).take(i + 1).last() == row_view(rows@[i as int]));
        let name = &rows[i].0;
        let t = LocalTrack { title: rows[i].1.clone(), apple_music_id: clone_id(&rows[i].2) };
        let ghost old_gs = groups_view(gs@);
        match group_index_exec(&gs, name) {
            Some(k) => {
                proof {
                    lemma_group_index(old_gs, name@);
                }
                let mut g = gs.remove(k);
                let ghost gv = group_view(g);
                let ghost old_tracks = tracks_view(g.tracks@);
                g.tracks.push(t);
                assert(tracks_view(g.tracks@) == old_tracks.push(track_view(t)));
                gs.insert(k, g);
                assert(groups_view(gs@) =~= old_gs.update(
                    k as int,
                    (name@, old_gs[k as int].1.push((rows@[i as int].1@, id_view(rows@[i as int].2)))),
                ));
            },
            None => {
                let mut tracks = Vec::new();
                tracks.push(t);
                assert(tracks_view(tracks@) =~= seq![track_view(t)]);
                gs.push(PlaylistGroup { name: name.clone(), tracks });
                assert(groups_view(gs@) =~= old_gs.push(
                    (name@, seq![(rows@[i as int].1@, id_view(rows@[i as int].2))]),
                ));
            },
        }
        i = i + 1;
    }
    assert(rows_view(rows@).take(rows@.len() as int) == rows_view(rows@));
    let ghost grouped = groups_view(gs@);
    let mut j: usize = 0;
    while j < names.len()
        invariant
            j <= names.len(),
            groups_view(gs@) == add_empty_groups(grouped, views(names@).take(j as int)),
        decreases names.len() - j,
    {
        assert(views(names@).take(j + 1).drop_last() == views(names@).take(j as int));
        assert(views(names@).take(j + 1).last() == names@[j as int]@);
        let ghost old_gs = groups_view(gs@);
        match group_index_exec(&gs, &names[j]) {
            Some(_) => {},
            None => {
                let empty: Vec<LocalTrack> = Vec::new();
                assert(tracks_view(empty@) =~= Seq::empty());
                gs.push(PlaylistGroup { name: names[j].clone(), tracks: empty });
                assert(groups_view(gs@) =~= old_gs.push((names@[j as int]@, Seq::empty())));
            },
        }
        j = j + 1;
    }
    assert(views(names@).take(names@.len() as int) == views(names@));
    gs
}

/// The names of some groups.
pub open spec fn group_names(gs: GroupsV) -> Seq<Seq<char>> {
    gs.map_values(|g: (Seq<char>, Seq<(Seq<char>, Option<Seq<char>>)>)| g.0)
}

proof fn lemma_group_rows_distinct(rows: Seq<(Seq<char>, Seq<char>, Option<Seq<char>>)>)
    ensures
        group_names(group_rows(rows)).no_duplicates(),
        forall|k: int| 0 <= k < rows.len() ==> group_names(group_rows(rows)).contains(#[trigger] rows[k].0),
    decreases rows.len(),
{
    if rows.len() > 0 {
        let p = rows.drop_last();
        lemma_group_rows_distinct(p);
        let gs = group_rows(p);
        let (name, title, id) = rows.last();
        lemma_group_index(gs, name);
        let r = group_rows(rows);
        assert forall|k: int| 0 <= k < rows.len() implies group_names(r).contains(#[trigger] rows[k].0) by {
            if k < rows.len() - 1 {
                assert(rows[k] == p[k]);
                let j = choose|j: int| 0 <= j < group_names(gs).len() && group_names(gs)[j] == p[k].0;
                assert(group_names(r)[j] == p[k].0);
            } else {
                match group_index(gs, name) {
                    Some(i) => {
                        assert(group_names(r)[i] == name);
                    },
                    None => {
                        assert(group_names(r)[gs.len() as int] == name);
                    },
                }
            }
        }
        match group_index(gs, name) {
            Some(i) => {
                assert(group_names(r) =~= group_names(gs));
            },
            None => {
                assert(group_names(r) =~= group_names(gs).push(name));
                assert(!group_names(gs).contains(name));
            },
        }
    }
}

/// Grouping the listing gives each local playlist exactly once: the groups'
/// names hold no duplicate, and every playlist that the listing or the list
/// of names mentions has its group.
pub proof fn law_each_playlist_grouped_once(
    rows: Seq<(Seq<char>, Seq<char>, Option<Seq<char>>)>,
    names: Seq<Seq<char>>,
)
    ensures
        group_names(playlist_groups(rows, names)).no_duplicates(),
        forall|k: int| 0 <= k < rows.len() ==> group_names(playlist_groups(rows, names)).contains(#[trigger] rows[k].0),
        forall|k: int| 0 <= k < names.len() ==> group_names(playlist_groups(rows, names)).contains(#[trigger] names[k]),
    decreases names.len(),
{
    if names.len() == 0 {
        lemma_group_rows_distinct(rows);
    } else {
        let p = names.drop_last();
        law_each_playlist_grouped_once(rows, p);
        let before = playlist_groups(rows, p);
        let r = playlist_groups(rows, names);
        let last = names.last();
        lemma_group_index(before, last);
        match group_index(before, last) {
            Some(i) => {
                assert(r == before);
                assert forall|k: int| 0 <= k < names.len() implies group_names(r).contains(#[trigger] names[k]) by {
                    if k < names.len() - 1 {
                        assert(names[k] == p[k]);
                    } else {
                        assert(group_names(r)[i] == last);
                    }
                }
            },
            None => {
                assert(group_names(r) =~= group_names(before).push(last));
                assert(!group_names(before).contains(last));
                assert forall|k: int| 0 <= k < rows.len() implies group_names(r).contains(#[trigger] rows[k].0) by {
                    let j = choose|j: int| 0 <= j < group_names(before).len() && group_names(before)[j] == rows[k].0;
                    assert(group_names(r)[j] == rows[k].0);
                }
                assert forall|k: int| 0 <= k < names.len() implies group_names(r).contains(#[trigger] names[k]) by {
                    if k < names.len() - 1 {
                        assert(names[k] == p[k]);
                        let j = choose|j: int| 0 <= j < group_names(before).len() && group_names(before)[j] == p[k];
                        assert(group_names(r)[j] == p[k]);
                    } else {
                        assert(group_names(r)[before.len() as int] == last);
                    }
                }
            },
        }
    }
}

pub type RowV = (Seq<char>, Seq<char>, Option<Seq<char>>);

/// The (title, persistent ID) pairs of the listing's rows for playlist `n`,
/// in listing order.
pub open spec fn rows_for(rows: Seq<RowV>, n: Seq<char>) -> Seq<(Seq<char>, Option<Seq<char>>)> {
    rows.filter(in_playlist(n)).map_values(|r: RowV| (r.1, r.2))
}

/// The rows of playlist `n`.
pub open spec fn in_playlist(n: Seq<char>) -> spec_fn(RowV) -> bool {
    |r: RowV| r.0 == n
}

proof fn lemma_rows_for_push(p: Seq<RowV>, e: RowV, n: Seq<char>)
    ensures
        rows_for(p.push(e), n) == if e.0 == n {
            rows_for(p, n).push((e.1, e.2))
        } else {
            rows_for(p, n)
        },
{
    p.lemma_filter_push(e, in_playlist(n));
    let f = p.filter(in_playlist(n));
    if e.0 == n {
        assert(f.push(e).map_values(|r: RowV| (r.1, r.2)) =~= f.map_values(|r: RowV| (r.1, r.2)).push((e.1, e.2)));
    }
}

proof fn lemma_rows_for_absent(rows: Seq<RowV>, n: Seq<char>)
    requires
        forall|i: int| 0 <= i < rows.len() ==> #[trigger] rows[i].0 != n,
    ensures
        rows_for(rows, n) == Seq::<(Seq<char>, Option<Seq<char>>)>::empty(),
    decreases rows.len(),
{
    if rows.len() == 0 {
        assert(rows.filter(in_playlist(n)) =~= Seq::<RowV>::empty()) by {
            reveal(Seq::filter);
        }
        assert(rows_for(rows, n) =~= Seq::<(Seq<char>, Option<Seq<char>>)>::empty());
    } else {
        let p = rows.drop_last();
        assert forall|i: int| 0 <= i < p.len() implies #[trigger] p[i].0 != n by {
            assert(p[i] == rows[i]);
        }
        lemma_rows_for_absent(p, n);
        assert(rows == p.push(rows.last()));
        lemma_rows_for_push(p, rows.last(), n);
    }
}

proof fn lemma_group_rows_hold(rows: Seq<RowV>)
    ensures
        forall|k: int| 0 <= k < group_rows(rows).len() ==> (#[trigger] group_rows(rows)[k]).1 == rows_for(
            rows,
            group_rows(rows)[k].0,
        ),
    decreases rows.len(),
{
    if rows.len() > 0 {
        let p = rows.drop_last();
        lemma_group_rows_hold(p);
        lemma_group_rows_distinct(p);
        let gs = group_rows(p);
        let (name, title, id) = rows.last();
        assert(rows == p.push(rows.last()));
        lemma_group_index(gs, name);
        let r = group_rows(rows);
        assert forall|k: int| 0 <= k < r.len() implies (#[trigger] r[k]).1 == rows_for(rows, r[k].0) by {
            lemma_rows_for_push(p, rows.last(), r[k].0);
            match group_index(gs, name) {
                Some(k0) => {
                    if k != k0 {
                        assert(group_names(gs)[k] == gs[k].0);
                        assert(group_names(gs)[k0] == gs[k0].0);
                        assert(gs[k].0 != name);
                    }
                },
                None => {
                    if k == gs.len() {
                        assert forall|i: int| 0 <= i < p.len() implies #[trigger] p[i].0 != name by {
                            if p[i].0 == name {
                                let j = choose|j: int| 0 <= j < group_names(gs).len() && group_names(gs)[j] == p[i].0;
                                assert(gs[j].0 == name);
                            }
                        }
                        lemma_rows_for_absent(p, name);
                        assert(seq![(title, id)] =~= Seq::<(Seq<char>, Option<Seq<char>>)>::empty().push((title, id)));
                    }
                },
            }
        }
    }
}

/// Each local playlist's group holds exactly the tracks that the listing gives
/// that playlist, with their titles and persistent IDs, in listing order; a
/// playlist without rows gets an empty group.
pub proof fn law_groups_hold_their_rows(rows: Seq<RowV>, names: Seq<Seq<char>>)
    ensures
        forall|k: int| 0 <= k < playlist_groups(rows, names).len() ==> (#[trigger] playlist_groups(rows, names)[k]).1
            == rows_for(rows, playlist_groups(rows, names)[k].0),
    decreases names.len(),
{
    if names.len() == 0 {
        lemma_group_rows_hold(rows);
    } else {
        let p = names.drop_last();
        law_groups_hold_their_rows(rows, p);
        law_each_playlist_grouped_once(rows, p);
        let before = playlist_groups(rows, p);
        let last = names.last();
        lemma_group_index(before, last);
        let r = playlist_groups(rows, names);
        if group_index(before, last) is None {
            assert forall|i: int| 0 <= i < rows.len() implies #[trigger] rows[i].0 != last by {
                let j = choose|j: int| 0 <= j < group_names(before).len() && group_names(before)[j] == rows[i].0;
                assert(before[j].0 == rows[i].0);
            }
            lemma_rows_for_absent(rows, last);
            assert forall|k: int| 0 <= k < r.len() implies (#[trigger] r[k]).1 == rows_for(rows, r[k].0) by {
                if k < before.len() {
                    assert(r[k] == before[k]);
                }
            }
        }
    }
}

// ---------------------------------------------------------------------------
// Planning a sync
// ---------------------------------------------------------------------------

/// How a missing track is added to a Music.app playlist.
pub enum Addition {
    /// By its persistent ID.
    ById(String),
    /// By title, for a track that has no persistent ID.
    ByName(String),
}

pub enum AdditionView {
    ById(Seq<char>),
    ByName(Seq<char>),
}

pub open spec fn addition_view(a: Addition) -> AdditionView {
    match a {
        Addition::ById(s) => AdditionView::ById(s@),
        Addition::ByName(s) => AdditionView::ByName(s@),
    }
}

pub open spec fn additions_view(a: Seq<Addition>) -> Seq<AdditionView> {
    a.map_values(|x: Addition| addition_view(x))
}

/// The additions that a local playlist needs: each track with a persistent ID
/// that the Music.app playlist lacks, and each track without one (by title).
pub open spec fn additions(local: Seq<(Seq<char>, Option<Seq<char>>)>, existing: Seq<Seq<char>>) -> Seq<AdditionView>
    decreases local.len(),
{
    if local.len() == 0 {
        Seq::empty()
    } else {
        let r = additions(local.drop_last(), existing);
        let (title, id) = local.last();
        match id {
            Some(pid) => if existing.contains(pid) {
                r
            } else {
                r.push(AdditionView::ById(pid))
            },
            None => r.push(AdditionView::ByName(title)),
        }
    }
}

fn contains_string(v: &Vec<String>, s: &String) -> (b: bool)
    ensures
        b == views(v@).contains(s@),
{
    let mut i: usize = 0;
    while i < v.len()
        invariant
            i <= v.len(),
            forall|k: int| 0 <= k < i ==> views(v@)[k] != s@,
        decreases v.len() - i,
    {
        if v[i] == *s {
            assert(views(v@)[i as int] == s@);
            return true;
        }
        i = i + 1;
    }
    false
}

/// The tracks to add to a Music.app playlist that holds the persistent IDs `existing`.
pub fn plan_additions(local: &Vec<LocalTrack>, existing: &Vec<String>) -> (r: Vec<Addition>)
    ensures
        additions_view(r@) == additions(tracks_view(local@), views(existing@)),
{
    let mut out: Vec<Addition> = Vec::new();
    let mut i: usize = 0;
    while i < local.len()
        invariant
            i <= local.len(),
            additions_view(out@) == additions(tracks_view(local@).take(i as int), views(existing@)),
        decreases local.len() - i,
    {
        assert(tracks_view(local@).take(i + 1).drop_last() == tracks_view(local@).take(i as int));
        assert(tracks_view(local@).take(i + 1).last() == track_view(local@[i as int]));
        let ghost before = additions_view(out@);
        match &local[i].apple_music_id {
            Some(pid) => {
                if !contains_string(existing, pid) {
                    out.push(Addition::ById(pid.clone()));
                    assert(additions_view(out@) == before.push(AdditionView::ById(pid@)));
                }
            },
            None => {
                out.push(Addition::ByName(local[i].title.clone()));
                assert(additions_view(out@) == before.push(AdditionView::ByName(local@[i as int].title@)));
            },
        }
        i = i + 1;
    }
    assert(tracks_view(local@).take(local@.len() as int) == tracks_view(local@));
    out
}

/// Nothing is added beyond what is missing: each addition by ID is the ID of
/// a local track that the Music.app playlist lacks, and each addition by name
/// is a local track without an ID.
pub proof fn law_additions_only_missing(local: Seq<(Seq<char>, Option<Seq<char>>)>, existing: Seq<Seq<char>>)
    ensures
        forall|j: int| 0 <= j < additions(local, existing).len() ==> match #[trigger] additions(local, existing)[j] {
            AdditionView::ById(pid) => !existing.contains(pid) && exists|k: int| 0 <= k < local.len() && local[k].1 == Some(pid),
            AdditionView::ByName(t) => exists|k: int| 0 <= k < local.len() && local[k] == (t, None::<Seq<char>>),
        },
    decreases local.len(),
{
    if local.len() > 0 {
        let p = local.drop_last();
        law_additions_only_missing(p, existing);
        let r = additions(p, existing);
        let a = additions(local, existing);
        assert forall|j: int| 0 <= j < a.len() implies match #[trigger] a[j] {
            AdditionView::ById(pid) => !existing.contains(pid) && exists|k: int| 0 <= k < local.len() && local[k].1 == Some(pid),
            AdditionView::ByName(t) => exists|k: int| 0 <= k < local.len() && local[k] == (t, None::<Seq<char>>),
        } by {
            if j < r.len() {
                assert(a[j] == r[j]);
                match r[j] {
                    AdditionView::ById(pid) => {
                        let k = choose|k: int| 0 <= k < p.len() && p[k].1 == Some(pid);
                        assert(local[k] == p[k]);
                    },
                    AdditionView::ByName(t) => {
                        let k = choose|k: int| 0 <= k < p.len() && p[k] == (t, None::<Seq<char>>);
                        assert(local[k] == p[k]);
                    },
                }
            } else {
                assert(local[local.len() - 1] == local.last());
            }
        }
    }
}

/// A sync adds every local track that Music.app lacks: a track with a
/// persistent ID is already there or added by that ID, and a track without
/// one is added by title.
pub proof fn law_additions_cover_local(local: Seq<(Seq<char>, Option<Seq<char>>)>, existing: Seq<Seq<char>>)
    ensures
        forall|k: int| 0 <= k < local.len() ==> match #[trigger] local[k].1 {
            Some(pid) => existing.contains(pid) || additions(local, existing).contains(AdditionView::ById(pid)),
            None => additions(local, existing).contains(AdditionView::ByName(local[k].0)),
        },
    decreases local.len(),
{
    if local.len() > 0 {
        let p = local.drop_last();
        law_additions_cover_local(p, existing);
        let r = additions(p, existing);
        let a = additions(local, existing);
        assert forall|k: int| 0 <= k < local.len() implies match #[trigger] local[k].1 {
            Some(pid) => existing.contains(pid) || a.contains(AdditionView::ById(pid)),
            None => a.contains(AdditionView::ByName(local[k].0)),
        } by {
            if k < local.len() - 1 {
                assert(local[k] == p[k]);
                match p[k].1 {
                    Some(pid) => {
                        if !existing.contains(pid) {
                            let j = choose|j: int| 0 <= j < r.len() && r[j] == AdditionView::ById(pid);
                            assert(a[j] == r[j]);
                        }
                    },
                    None => {
                        let j = choose|j: int| 0 <= j < r.len() && r[j] == AdditionView::ByName(p[k].0);
                        assert(a[j] == r[j]);
                    },
                }
            } else {
                match local[k].1 {
                    Some(pid) => {
                        if !existing.contains(pid) {
                            assert(a[a.len() - 1] == AdditionView::ById(pid));
                        }
                    },
                    None => {
                        assert(a[a.len() - 1] == AdditionView::ByName(local[k].0));
                    },
                }
            }
        }
    }
}

/// The persistent IDs of a local playlist.
pub open spec fn local_ids(local: Seq<(Seq<char>, Option<Seq<char>>)>) -> Seq<Seq<char>>
    decreases local.len(),
{
    if local.len() == 0 {
        Seq::empty()
    } else {
        let r = local_ids(local.drop_last());
        match local.last().1 {
            Some(pid) => r.push(pid),
            None => r,
        }
    }
}

/// The entries of a Music.app playlist to remove, in order: those the local
/// playlist does not hold, and every repeat of an entry met before.
pub open spec fn removals(ids: Seq<Seq<char>>, am: Seq<Seq<char>>) -> Seq<Seq<char>>
    decreases am.len(),
{
    if am.len() == 0 {
        Seq::empty()
    } else {
        let r = removals(ids, am.drop_last());
        let x = am.last();
        if !ids.contains(x) || am.drop_last().contains(x) {
            r.push(x)
        } else {
            r
        }
    }
}

/// The entries of a Music.app playlist that a sync keeps.
pub open spec fn kept(ids: Seq<Seq<char>>, am: Seq<Seq<char>>) -> Seq<Seq<char>>
    decreases am.len(),
{
    if am.len() == 0 {
        Seq::empty()
    } else {
        let r = kept(ids, am.drop_last());
        let x = am.last();
        if !ids.contains(x) || am.drop_last().contains(x) {
            r
        } else {
            r.push(x)
        }
    }
}

fn local_ids_exec(local: &Vec<LocalTrack>) -> (r: Vec<String>)
    ensures
        views(r@) == local_ids(tracks_view(local@)),
{
    let mut out: Vec<String> = Vec::new();
    let mut i: usize = 0;
    while i < local.len()
        invariant
            i <= local.len(),
            views(out@) == local_ids(tracks_view(local@).take(i as int)),
        decreases local.len() - i,
    {
        assert(tracks_view(local@).take(i + 1).drop_last() == tracks_view(local@).take(i as int));
        assert(tracks_view(local@).take(i + 1).last() == track_view(local@[i as int]));
        if let Some(pid) = &local[i].apple_music_id {
            let ghost before = views(out@);
            out.push(pid.clone());
            assert(views(out@) == before.push(pid@));
        }
        i = i + 1;
    }
    assert(tracks_view(local@).take(local@.len() as int) == tracks_view(local@));
    out
}

fn prefix_contains(v: &Vec<String>, n: usize, s: &String) -> (b: bool)
    requires
        n <= v.len(),
    ensures
        b == views(v@).take(n as int).contains(s@),
{
    let mut i: usize = 0;
    while i < n
        invariant
            i <= n <= v.len(),
            forall|k: int| 0 <= k < i ==> views(v@)[k] != s@,
        decreases n - i,
    {
        if v[i] == *s {
            assert(views(v@).take(n as int)[i as int] == s@);
            return true;
        }
        i = i + 1;
    }
    assert forall|k: int| 0 <= k < n implies views(v@).take(n as int)[k] != s@ by {
        assert(views(v@).take(n as int)[k] == views(v@)[k]);
    }
    false
}

/// The entries to remove from a Music.app playlist whose persistent IDs are
/// `am_ids`, so that it holds each track of the local playlist once.
pub fn plan_removals(local: &Vec<LocalTrack>, am_ids: &Vec<String>) -> (r: Vec<String>)
    ensures
        views(r@) == removals(local_ids(tracks_view(local@)), views(am_ids@)),
{
    let ids = local_ids_exec(local);
    let mut out: Vec<String> = Vec::new();
    let mut i: usize = 0;
    while i < am_ids.len()
        invariant
            i <= am_ids.len(),
            views(ids@) == local_ids(tracks_view(local@)),
            views(out@) == removals(views(ids@), views(am_ids@).take(i as int)),
        decreases am_ids.len() - i,
    {
        let ghost t = views(am_ids@).take(i + 1);
        assert(t.drop_last() == views(am_ids@).take(i as int));
        assert(t.last() == am_ids@[i as int]@);
        let x = &am_ids[i];
        if !contains_string(&ids, x) || prefix_contains(am_ids, i, x) {
            let ghost before = views(out@);
            out.push(x.clone());
            assert(views(out@) == before.push(x@));
        }
        i = i + 1;
    }
    assert(views(am_ids@).take(am_ids@.len() as int) == views(am_ids@));
    out
}

// ---------------------------------------------------------------------------
// Laws of a sync
// ---------------------------------------------------------------------------

/// After a sync's removals, a Music.app playlist holds no entry twice and none
/// that the local playlist lacks, keeps every local entry it held, and every
/// entry is either kept or removed.
pub proof fn law_sync_leaves_each_local_track_once(ids: Seq<Seq<char>>, am: Seq<Seq<char>>)
    ensures
        kept(ids, am).no_duplicates(),
        forall|x: Seq<char>| #[trigger] kept(ids, am).contains(x) ==> ids.contains(x) && am.contains(x),
        forall|x: Seq<char>| ids.contains(x) && am.contains(x) ==> #[trigger] kept(ids, am).contains(x),
        kept(ids, am).len() + removals(ids, am).len() == am.len(),
    decreases am.len(),
{
    if am.len() > 0 {
        let p = am.drop_last();
        let x = am.last();
        law_sync_leaves_each_local_track_once(ids, p);
        assert forall|y: Seq<char>| #[trigger] kept(ids, am).contains(y) implies ids.contains(y)
            && am.contains(y) by {
            if kept(ids, p).contains(y) {
                let k = choose|k: int| 0 <= k < p.len() && p[k] == y;
                assert(am[k] == y);
            } else {
                assert(y == x);
                assert(am[am.len() - 1] == x);
            }
        }
        assert forall|y: Seq<char>| ids.contains(y) && am.contains(y) implies #[trigger] kept(
            ids,
            am,
        ).contains(y) by {
            let k = choose|k: int| 0 <= k < am.len() && am[k] == y;
            if k < am.len() - 1 {
                assert(p[k] == y);
                assert(p.contains(y));
                assert(kept(ids, p).contains(y));
                let j = choose|j: int| 0 <= j < kept(ids, p).len() && kept(ids, p)[j] == y;
                if !ids.contains(x) || p.contains(x) {
                } else {
                    assert(kept(ids, am)[j] == y);
                }
            } else {
                assert(y == x);
                if p.contains(x) {
                    assert(kept(ids, p).contains(x));
                    let j = choose|j: int| 0 <= j < kept(ids, p).len() && kept(ids, p)[j] == x;
                    assert(kept(ids, am)[j] == x);
                } else {
                    assert(kept(ids, am)[kept(ids, am).len() - 1] == x);
                }
            }
        }
        if ids.contains(x) && !p.contains(x) {
            assert(!kept(ids, p).contains(x));
            assert(kept(ids, am) == kept(ids, p).push(x));
            assert forall|a: int, b: int| 0 <= a < b < kept(ids, am).len() implies kept(ids, am)[a]
                != kept(ids, am)[b] by {
                if b == kept(ids, am).len() - 1 {
                    assert(kept(ids, p)[a] == kept(ids, am)[a]);
                    assert(kept(ids, p).contains(kept(ids, am)[a]));
                } else {
                    assert(kept(ids, p)[a] == kept(ids, am)[a]);
                    assert(kept(ids, p)[b] == kept(ids, am)[b]);
                }
            }
        }
    }
}

// ---------------------------------------------------------------------------
// Favorites and play counts
// ---------------------------------------------------------------------------

/// The local changes that bring the favorites in line with Music.app.
pub struct FavoriteSync {
    /// Tracks that Music.app loves and that are no favorite here.
    pub set_favorite: Vec<i64>,
    /// Tracks that are favorites here and that Music.app no longer loves.
    pub clear_favorite: Vec<i64>,
}

pub type FavRow = (i64, Seq<char>, bool);

pub open spec fn fav_rows_view(rs: Seq<(i64, String, bool)>) -> Seq<FavRow> {
    rs.map_values(|r: (i64, String, bool)| (r.0, r.1@, r.2))
}

/// The tracks (id, persistent ID, favorite) that Music.app loves and are no
/// favorite here.
pub open spec fn to_set(loved: Seq<Seq<char>>, rows: Seq<FavRow>) -> Seq<i64>
    decreases rows.len(),
{
    if rows.len() == 0 {
        Seq::empty()
    } else {
        let r = to_set(loved, rows.drop_last());
        let (id, pid, fav) = rows.last();
        if loved.contains(pid) && !fav {
            r.push(id)
        } else {
            r
        }
    }
}

/// The tracks that are favorites here and that Music.app does not love.
pub open spec fn to_clear(loved: Seq<Seq<char>>, rows: Seq<FavRow>) -> Seq<i64>
    decreases rows.len(),
{
    if rows.len() == 0 {
        Seq::empty()
    } else {
        let r = to_clear(loved, rows.drop_last());
        let (id, pid, fav) = rows.last();
        if !loved.contains(pid) && fav {
            r.push(id)
        } else {
            r
        }
    }
}

/// Plans a favorites sync over the tracks that have a persistent ID.
pub fn plan_favorite_sync(loved_ids: &Vec<String>, tracks: &Vec<(i64, String, bool)>) -> (r: FavoriteSync)
    ensures
        r.set_favorite@ == to_set(views(loved_ids@), fav_rows_view(tracks@)),
        r.clear_favorite@ == to_clear(views(loved_ids@), fav_rows_view(tracks@)),
{
    let mut set: Vec<i64> = Vec::new();
    let mut clear: Vec<i64> = Vec::new();
    let mut i: usize = 0;
    while i < tracks.len()
        invariant
            i <= tracks.len(),
            set@ == to_set(views(loved_ids@), fav_rows_view(tracks@).take(i as int)),
            clear@ == to_clear(views(loved_ids@), fav_rows_view(tracks@).take(i as int)),
        decreases tracks.len() - i,
    {
        assert(fav_rows_view(tracks@).take(i + 1).drop_last() == fav_rows_view(tracks@).take(i as int));
        assert(fav_rows_view(tracks@).take(i + 1).last() == (tracks@[i as int].0, tracks@[i as int].1@, tracks@[i as int].2));
        let loved = contains_string(loved_ids, &tracks[i].1);
        if loved && !tracks[i].2 {
            set.push(tracks[i].0);
        } else if !loved && tracks[i].2 {
            clear.push(tracks[i].0);
        }
        i = i + 1;
    }
    assert(fav_rows_view(tracks@).take(tracks@.len() as int) == fav_rows_view(tracks@));
    FavoriteSync { set_favorite: set, clear_favorite: clear }
}

/// A track's favorite flag after a sync's changes.
pub open spec fn favorite_after(loved: Seq<Seq<char>>, row: FavRow) -> bool {
    let (id, pid, fav) = row;
    if loved.contains(pid) && !fav {
        true
    } else if !loved.contains(pid) && fav {
        false
    } else {
        fav
    }
}

/// After a favorites sync every track with a persistent ID is a favorite
/// exactly when Music.app loves it.
pub proof fn law_favorite_sync_agrees(loved: Seq<Seq<char>>, row: FavRow)
    ensures
        favorite_after(loved, row) == loved.contains(row.1),
{
}

/// The play count that a list of (persistent ID, count) pairs gives an ID: the
/// last pair for it wins, as when the pairs fill a map in order.
pub open spec fn count_for(counts: Seq<(Seq<char>, i64)>, pid: Seq<char>) -> Option<i64>
    decreases counts.len(),
{
    if counts.len() == 0 {
        None
    } else if counts.last().0 == pid {
        Some(counts.last().1)
    } else {
        count_for(counts.drop_last(), pid)
    }
}

pub open spec fn count_rows_view(rs: Seq<(i64, String)>) -> Seq<(i64, Seq<char>)> {
    rs.map_values(|r: (i64, String)| (r.0, r.1@))
}

/// The (track id, count) updates of a play count sync, in track order.
pub open spec fn count_updates(counts: Seq<(Seq<char>, i64)>, rows: Seq<(i64, Seq<char>)>) -> Seq<(i64, i64)>
    decreases rows.len(),
{
    if rows.len() == 0 {
        Seq::empty()
    } else {
        let r = count_updates(counts, rows.drop_last());
        match count_for(counts, rows.last().1) {
            Some(c) => r.push((rows.last().0, c)),
            None => r,
        }
    }
}

fn count_for_exec(counts: &Vec<(String, i64)>, pid: &String) -> (r: Option<i64>)
    ensures
        r == count_for(crate::music::pair_views(counts@), pid@),
{
    let mut i = counts.len();
    assert(crate::music::pair_views(counts@).take(counts@.len() as int) == crate::music::pair_views(counts@));
    while i > 0
        invariant
            i <= counts.len(),
            count_for(crate::music::pair_views(counts@).take(i as int), pid@) == count_for(
                crate::music::pair_views(counts@),
                pid@,
            ),
        decreases i,
    {
        let ghost t = crate::music::pair_views(counts@).take(i as int);
        assert(t.drop_last() == crate::music::pair_views(counts@).take(i - 1));
        assert(t.last() == (counts@[i - 1].0@, counts@[i - 1].1));
        if counts[i - 1].0 == *pid {
            return Some(counts[i - 1].1);
        }
        i = i - 1;
    }
    assert(crate::music::pair_views(counts@).take(counts@.len() as int) == crate::music::pair_views(counts@));
    None
}

/// Plans a play count sync: each track with a persistent ID that Music.app
/// reports a count for gets that count.
pub fn plan_play_counts(counts: &Vec<(String, i64)>, tracks: &Vec<(i64, String)>) -> (r: Vec<(i64, i64)>)
    ensures
        r@ == count_updates(crate::music::pair_views(counts@), count_rows_view(tracks@)),
{
    let mut out: Vec<(i64, i64)> = Vec::new();
    let mut i: usize = 0;
    while i < tracks.len()
        invariant
            i <= tracks.len(),
            out@ == count_updates(crate::music::pair_views(counts@), count_rows_view(tracks@).take(i as int)),
        decreases tracks.len() - i,
    {
        assert(count_rows_view(tracks@).take(i + 1).drop_last() == count_rows_view(tracks@).take(i as int));
        assert(count_rows_view(tracks@).take(i + 1).last() == (tracks@[i as int].0, tracks@[i as int].1@));
        if let Some(c) = count_for_exec(counts, &tracks[i].1) {
            out.push((tracks[i].0, c));
        }
        i = i + 1;
    }
    assert(count_rows_view(tracks@).take(tracks@.len() as int) == count_rows_view(tracks@));
    out
}

/// A play count sync sets each track that Music.app reports a count for to
/// that count (the last pair for its ID), and touches no other track: every
/// update is such a track with its count.
pub proof fn law_play_counts_follow_music(counts: Seq<(Seq<char>, i64)>, rows: Seq<(i64, Seq<char>)>)
    ensures
        forall|k: int| 0 <= k < rows.len() && #[trigger] count_for(counts, rows[k].1) is Some ==> count_updates(
            counts,
            rows,
        ).contains((rows[k].0, count_for(counts, rows[k].1)->Some_0)),
        forall|j: int| 0 <= j < count_updates(counts, rows).len() ==> exists|k: int| 0 <= k < rows.len() && count_for(
            counts,
            rows[k].1,
        ) == Some(#[trigger] count_updates(counts, rows)[j].1) && count_updates(counts, rows)[j].0 == rows[k].0,
    decreases rows.len(),
{
    if rows.len() > 0 {
        let p = rows.drop_last();
        law_play_counts_follow_music(counts, p);
        let r = count_updates(counts, p);
        let u = count_updates(counts, rows);
        assert forall|k: int| 0 <= k < rows.len() && #[trigger] count_for(counts, rows[k].1) is Some implies u.contains(
            (rows[k].0, count_for(counts, rows[k].1)->Some_0),
        ) by {
            if k < rows.len() - 1 {
                assert(rows[k] == p[k]);
                assert(count_for(counts, p[k].1) is Some);
                let j = choose|j: int| 0 <= j < r.len() && r[j] == (p[k].0, count_for(counts, p[k].1)->Some_0);
                assert(u[j] == r[j]);
            } else {
                assert(rows[k] == rows.last());
                assert(u[u.len() - 1] == (rows[k].0, count_for(counts, rows[k].1)->Some_0));
            }
        }
        assert forall|j: int| 0 <= j < u.len() implies exists|k: int| 0 <= k < rows.len() && count_for(
            counts,
            rows[k].1,
        ) == Some(#[trigger] u[j].1) && u[j].0 == rows[k].0 by {
            if j < r.len() {
                assert(u[j] == r[j]);
                let k = choose|k: int| 0 <= k < p.len() && count_for(counts, p[k].1) == Some(#[trigger] r[j].1) && r[j].0 == p[k].0;
                assert(rows[k] == p[k]);
            } else {
                assert(rows[rows.len() - 1] == rows.last());
            }
        }
    }
}

} // verus!

//! The playback daemon's decisions: a queue of tracks, a current position, and
//! what the audio sink is told to do on each command and on each tick.
//!
//! The sink itself (decoding, output, pausing) belongs to the caller: it performs
//! the order that each step returns and reports back whether a track started.
use vstd::prelude::*;
use crate::text::views;

verus! {

/// How many ticks pass between two saves of an episode's progress.
pub const PROGRESS_TICKS: u32 = 300;

/// What the daemon reports of the player.
pub struct Status {
    pub playing: bool,
    pub paused: bool,
    pub track: Option<String>,
    pub track_index: usize,
    pub total_tracks: usize,
}

/// A command for the player.
pub enum PlayerCommand {
    /// Replace the queue and start from its first track.
    Play { tracks: Vec<String>, titles: Vec<String>, episode_ids: Vec<i64> },
    Pause,
    Resume,
    Next,
    Previous,
    Stop,
}

/// What the audio sink is told to do.
pub enum SinkOrder {
    Pause,
    Resume,
    /// Stop what plays and start nothing.
    Stop,
    /// Stop what plays, then start the file at this path.
    StopAndStart(String),
}

/// What a tick that finds the sink empty asks for.
pub struct FinishOrder {
    /// An episode that has played to its end.
    pub completed_episode: Option<i64>,
    /// The next file to start, if the queue has one.
    pub start: Option<String>,
}

/// The player's state.
pub struct Player {
    tracks: Vec<String>,
    titles: Vec<String>,
    episode_ids: Vec<i64>,
    current_index: usize,
    active: bool,
    progress_counter: u32,
}

/// The state of a player, as values.
pub struct PlayerView {
    pub tracks: Seq<Seq<char>>,
    pub titles: Seq<Seq<char>>,
    pub episode_ids: Seq<i64>,
    pub current: int,
    pub active: bool,
    pub counter: int,
}

pub enum CommandView {
    Play { tracks: Seq<Seq<char>>, titles: Seq<Seq<char>>, episode_ids: Seq<i64> },
    Pause,
    Resume,
    Next,
    Previous,
    Stop,
}

pub enum OrderView {
    Pause,
    Resume,
    Stop,
    StopAndStart(Seq<char>),
}

pub struct StatusView {
    pub playing: bool,
    pub paused: bool,
    pub track: Option<Seq<char>>,
    pub track_index: int,
    pub total_tracks: int,
}

impl PlayerCommand {
    pub open spec fn view(&self) -> CommandView {
        match self {
            PlayerCommand::Play { tracks, titles, episode_ids } => CommandView::Play {
                tracks: views(tracks@),
                titles: views(titles@),
                episode_ids: episode_ids@,
            },
            PlayerCommand::Pause => CommandView::Pause,
            PlayerCommand::Resume => CommandView::Resume,
            PlayerCommand::Next => CommandView::Next,
            PlayerCommand::Previous => CommandView::Previous,
            PlayerCommand::Stop => CommandView::Stop,
        }
    }
}

impl SinkOrder {
    pub open spec fn view(&self) -> OrderView {
        match self {
            SinkOrder::Pause => OrderView::Pause,
            SinkOrder::Resume => OrderView::Resume,
            SinkOrder::Stop => OrderView::Stop,
            SinkOrder::StopAndStart(p) => OrderView::StopAndStart(p@),
        }
    }
}

impl Status {
    pub open spec fn view(&self) -> StatusView {
        StatusView {
            playing: self.playing,
            paused: self.paused,
            track: match self.track {
                Some(t) => Some(t@),
                None => None,
            },
            track_index: self.track_index as int,
            total_tracks: self.total_tracks as int,
        }
    }
}

/// A player keeps its position inside the queue while it plays, and its tick
/// counter below the save interval.
pub open spec fn well_formed(v: PlayerView) -> bool {
    &&& 0 <= v.current
    &&& (v.tracks.len() == 0 || v.current < v.tracks.len())
    &&& v.active ==> v.current < v.tracks.len()
    &&& 0 <= v.counter < PROGRESS_TICKS
}

/// The state and order after a command.
pub open spec fn after_command(v: PlayerView, c: CommandView) -> (PlayerView, OrderView) {
    match c {
        CommandView::Play { tracks, titles, episode_ids } => {
            let w = PlayerView { tracks, titles, episode_ids, current: 0, active: false, counter: 0 };
            if tracks.len() > 0 {
                (w, OrderView::StopAndStart(tracks[0]))
            } else {
                (w, OrderView::Stop)
            }
        },
        CommandView::Pause => (v, OrderView::Pause),
        CommandView::Resume => (v, OrderView::Resume),
        CommandView::Next => {
            if v.current + 1 < v.tracks.len() {
                (
                    PlayerView { current: v.current + 1, active: false, ..v },
                    OrderView::StopAndStart(v.tracks[v.current + 1]),
                )
            } else {
                (PlayerView { active: false, ..v }, OrderView::Stop)
            }
        },
        CommandView::Previous => {
            let c = if v.current > 0 { v.current - 1 } else { v.current };
            if c < v.tracks.len() {
                (PlayerView { current: c, active: false, ..v }, OrderView::StopAndStart(v.tracks[c]))
            } else {
                (PlayerView { current: c, ..v }, OrderView::Stop)
            }
        },
        CommandView::Stop => (
            PlayerView {
                tracks: Seq::empty(),
                titles: Seq::empty(),
                episode_ids: Seq::empty(),
                active: false,
                counter: 0,
                ..v
            },
            OrderView::Stop,
        ),
    }
}

/// The episode at the current position, when it is one (its id is positive).
pub open spec fn current_episode(v: PlayerView) -> Option<i64> {
    if 0 <= v.current < v.episode_ids.len() && v.episode_ids[v.current] > 0 {
        Some(v.episode_ids[v.current])
    } else {
        None
    }
}

/// The state after a tick that looks whether the playing track has ended, with
/// the episode that completed and the next file to start.
pub open spec fn after_finish_check(v: PlayerView, sink_empty: bool) -> (
    PlayerView,
    Option<i64>,
    Option<Seq<char>>,
) {
    if v.active && sink_empty {
        if v.current + 1 < v.tracks.len() {
            (
                PlayerView { current: v.current + 1, active: false, counter: 0, ..v },
                current_episode(v),
                Some(v.tracks[v.current + 1]),
            )
        } else {
            (PlayerView { active: false, ..v }, current_episode(v), None)
        }
    } else {
        (v, None, None)
    }
}

/// The state after a tick that counts playing time, with the episode whose
/// progress is to be saved.
pub open spec fn after_progress_tick(v: PlayerView, sink_paused: bool) -> (PlayerView, Option<i64>) {
    if v.active && !sink_paused {
        if v.counter + 1 >= PROGRESS_TICKS {
            (PlayerView { counter: 0, ..v }, current_episode(v))
        } else {
            (PlayerView { counter: v.counter + 1, ..v }, None)
        }
    } else {
        (v, None)
    }
}

/// What the player reports, given whether the sink is paused.
pub open spec fn status_of(v: PlayerView, sink_paused: bool) -> StatusView {
    StatusView {
        playing: v.active && !sink_paused,
        paused: sink_paused,
        track: if 0 <= v.current < v.titles.len() {
            Some(v.titles[v.current])
        } else {
            None
        },
        track_index: v.current,
        total_tracks: v.tracks.len() as int,
    }
}

impl Player {
    pub closed spec fn view(&self) -> PlayerView {
        PlayerView {
            tracks: views(self.tracks@),
            titles: views(self.titles@),
            episode_ids: self.episode_ids@,
            current: self.current_index as int,
            active: self.active,
            counter: self.progress_counter as int,
        }
    }

    #[verifier::type_invariant]
    closed spec fn inv(self) -> bool {
        well_formed(self.view())
    }

    /// A player with an empty queue.
    pub fn new() -> (p: Player)
        ensures
            p@.tracks.len() == 0,
            p@.titles.len() == 0,
            p@.episode_ids.len() == 0,
            p@.current == 0,
            !p@.active,
            p@.counter == 0,
    {
        let p = Player {
            tracks: Vec::new(),
            titles: Vec::new(),
            episode_ids: Vec::new(),
            current_index: 0,
            active: false,
            progress_counter: 0,
        };
        assert(views(p.tracks@) == Seq::<Seq<char>>::empty());
        p
    }

    fn track_clone(&self, i: usize) -> (s: String)
        requires
            i < self.tracks.len(),
        ensures
            s@ == self@.tracks[i as int],
    {
        self.tracks[i].clone()
    }

    /// Performs a command; the sink is to carry out the returned order.
    pub fn handle(&mut self, cmd: PlayerCommand) -> (order: SinkOrder)
        ensures
            (final(self)@, order@) == after_command(old(self)@, cmd@),
            well_formed(final(self)@),
    {
        proof {
            use_type_invariant(&*self);
        }
        match cmd {
            PlayerCommand::Play { tracks, titles, episode_ids } => {
                let first = if tracks.len() > 0 {
                    Some(tracks[0].clone())
                } else {
                    None
                };
                self.active = false;
                self.progress_counter = 0;
                self.current_index = 0;
                self.tracks = tracks;
                self.titles = titles;
                self.episode_ids = episode_ids;
                match first {
                    Some(p) => SinkOrder::StopAndStart(p),
                    None => SinkOrder::Stop,
                }
            },
            PlayerCommand::Pause => SinkOrder::Pause,
            PlayerCommand::Resume => SinkOrder::Resume,
            PlayerCommand::Next => {
                if self.tracks.len() > 0 && self.current_index < self.tracks.len() - 1 {
                    let next = self.current_index + 1;
                    let p = self.track_clone(next);
                    self.current_index = next;
                    self.active = false;
                    SinkOrder::StopAndStart(p)
                } else {
                    self.active = false;
                    SinkOrder::Stop
                }
            },
            PlayerCommand::Previous => {
                if self.current_index > 0 {
                    self.current_index = self.current_index - 1;
                }
                if self.current_index < self.tracks.len() {
                    let p = self.track_clone(self.current_index);
                    self.active = false;
                    SinkOrder::StopAndStart(p)
                } else {
                    SinkOrder::Stop
                }
            },
            PlayerCommand::Stop => {
                self.active = false;
                self.tracks = Vec::new();
                self.titles = Vec::new();
                self.episode_ids = Vec::new();
                self.progress_counter = 0;
                proof {
                    assert(views(self.tracks@) == Seq::<Seq<char>>::empty());
                    assert(views(self.titles@) == Seq::<Seq<char>>::empty());
                }
                SinkOrder::Stop
            },
        }
    }

    /// Records whether the file that the last order started did start.
    pub fn started(&mut self, ok: bool)
        requires
            old(self)@.current < old(self)@.tracks.len(),
        ensures
            final(self)@ == (PlayerView { active: ok, ..old(self)@ }),
    {
        proof {
            use_type_invariant(&*self);
        }
        self.active = ok;
    }

    fn current_episode_exec(&self) -> (e: Option<i64>)
        ensures
            e == current_episode(self@),
    {
        if self.current_index < self.episode_ids.len() && self.episode_ids[self.current_index] > 0 {
            Some(self.episode_ids[self.current_index])
        } else {
            None
        }
    }

    /// A tick: if the track that played has ended, moves to the next one.
    pub fn finish_check(&mut self, sink_empty: bool) -> (order: FinishOrder)
        ensures
            ({
                let (w, done, start) = after_finish_check(old(self)@, sink_empty);
                &&& final(self)@ == w
                &&& order.completed_episode == done
                &&& match order.start {
                    Some(p) => start == Some(p@),
                    None => start is None,
                }
            }),
            well_formed(final(self)@),
    {
        proof {
            use_type_invariant(&*self);
        }
        if self.active && sink_empty {
            let done = self.current_episode_exec();
            if self.current_index < self.tracks.len() - 1 {
                let next = self.current_index + 1;
                let p = self.track_clone(next);
                self.current_index = next;
                self.progress_counter = 0;
                self.active = false;
                FinishOrder { completed_episode: done, start: Some(p) }
            } else {
                self.active = false;
                FinishOrder { completed_episode: done, start: None }
            }
        } else {
            FinishOrder { completed_episode: None, start: None }
        }
    }

    /// A tick of playing time: every `PROGRESS_TICKS` ticks of an unpaused
    /// track, the current episode's progress is to be saved.
    pub fn progress_tick(&mut self, sink_paused: bool) -> (save: Option<i64>)
        ensures
            (final(self)@, save) == after_progress_tick(old(self)@, sink_paused),
            well_formed(final(self)@),
    {
        proof {
            use_type_invariant(&*self);
        }
        if self.active && !sink_paused {
            if self.progress_counter + 1 >= PROGRESS_TICKS {
                self.progress_counter = 0;
                self.current_episode_exec()
            } else {
                self.progress_counter = self.progress_counter + 1;
                None
            }
        } else {
            None
        }
    }

    /// What the player reports, given whether the sink is paused.
    pub fn status(&self, sink_paused: bool) -> (s: Status)
        ensures
            s@ == status_of(self@, sink_paused),
    {
        let track = if self.current_index < self.titles.len() {
            Some(self.titles[self.current_index].clone())
        } else {
            None
        };
        Status {
            playing: self.active && !sink_paused,
            paused: sink_paused,
            track,
            track_index: self.current_index,
            total_tracks: self.tracks.len(),
        }
    }
}

impl View for Player {
    type V = PlayerView;

    open spec fn view(&self) -> PlayerView {
        Player::view(self)
    }
}

// ---------------------------------------------------------------------------
// Laws
// ---------------------------------------------------------------------------

/// Every command, and every tick, keeps a well-formed player well-formed.
pub proof fn law_steps_keep_well_formed(v: PlayerView, c: CommandView, empty: bool, paused: bool)
    requires
        well_formed(v),
    ensures
        well_formed(after_command(v, c).0),
        well_formed(after_finish_check(v, empty).0),
        well_formed(after_progress_tick(v, paused).0),
{
}

/// After `Stop` the queue is empty, nothing plays, and the status says so.
pub proof fn law_stop_empties_queue(v: PlayerView, paused: bool)
    ensures
        ({
            let (w, order) = after_command(v, CommandView::Stop);
            &&& w.tracks.len() == 0
            &&& !w.active
            &&& order == OrderView::Stop
            &&& !status_of(w, paused).playing
            &&& status_of(w, paused).total_tracks == 0
            &&& status_of(w, paused).track is None
        }),
{
}

/// `Play` with tracks starts the first of them, at position 0.
pub proof fn law_play_starts_first(v: PlayerView, tracks: Seq<Seq<char>>, titles: Seq<Seq<char>>, ids: Seq<i64>)
    requires
        tracks.len() > 0,
    ensures
        ({
            let (w, order) = after_command(v, CommandView::Play { tracks, titles, episode_ids: ids });
            &&& w.current == 0
            &&& w.tracks == tracks
            &&& order == OrderView::StopAndStart(tracks[0])
        }),
{
}

/// `Next` and then `Previous` come back to the track that played, and start it again.
pub proof fn law_next_then_previous(v: PlayerView)
    requires
        well_formed(v),
        v.current + 1 < v.tracks.len(),
    ensures
        ({
            let (w, _) = after_command(v, CommandView::Next);
            let (u, order) = after_command(w, CommandView::Previous);
            &&& u.current == v.current
            &&& u.tracks == v.tracks
            &&& order == OrderView::StopAndStart(v.tracks[v.current])
        }),
{
}

/// `Next` on the last track stops playback and keeps the position.
pub proof fn law_next_past_end_stops(v: PlayerView)
    requires
        well_formed(v),
        v.current + 1 >= v.tracks.len(),
    ensures
        ({
            let (w, order) = after_command(v, CommandView::Next);
            &&& order == OrderView::Stop
            &&& !w.active
            &&& w.current == v.current
        }),
{
}

/// When the last track of the queue ends, the player goes idle and starts nothing.
pub proof fn law_queue_end_goes_idle(v: PlayerView)
    requires
        well_formed(v),
        v.active,
        v.current + 1 == v.tracks.len(),
    ensures
        ({
            let (w, _, start) = after_finish_check(v, true);
            &&& !w.active
            &&& start is None
        }),
{
}

/// The position only moves within the queue: after any command or tick on a
/// well-formed player, a player that plays has a current track.
pub proof fn law_playing_has_a_track(v: PlayerView, c: CommandView, paused: bool)
    requires
        well_formed(v),
    ensures
        status_of(after_command(v, c).0, paused).playing ==> after_command(v, c).0.current
            < after_command(v, c).0.tracks.len(),
{
}

/// What the player reports stays consistent in every state that its steps
/// reach: the index is below the number of tracks, unless there are none, and
/// it never reports playing and paused at once.
pub proof fn law_status_is_consistent(v: PlayerView, paused: bool)
    requires
        well_formed(v),
    ensures
        status_of(v, paused).total_tracks == 0 || status_of(v, paused).track_index < status_of(
            v,
            paused,
        ).total_tracks,
        !(status_of(v, paused).playing && status_of(v, paused).paused),
{
}

/// `Previous` on the first track restarts it: the position stays.
pub proof fn law_previous_on_first_stays(v: PlayerView)
    requires
        well_formed(v),
        v.current == 0,
        v.tracks.len() > 0,
    ensures
        ({
            let (w, order) = after_command(v, CommandView::Previous);
            &&& w.current == 0
            &&& order == OrderView::StopAndStart(v.tracks[0])
        }),
{
}

/// Pause and Resume only order the sink: the player's queue, position,
/// playing flag and progress stay as they were. So a track that was paused and
/// resumed still advances to the next one when it ends, as if never paused.
pub proof fn law_pause_resume_keep_state(v: PlayerView, sink_empty: bool)
    ensures
        after_command(v, CommandView::Pause).0 == v,
        after_command(v, CommandView::Pause).1 == OrderView::Pause,
        after_command(v, CommandView::Resume).0 == v,
        after_command(v, CommandView::Resume).1 == OrderView::Resume,
        after_finish_check(after_command(after_command(v, CommandView::Pause).0, CommandView::Resume).0, sink_empty)
            == after_finish_check(v, sink_empty),
        v.active && v.current + 1 < v.tracks.len() ==> after_finish_check(
            after_command(after_command(v, CommandView::Pause).0, CommandView::Resume).0,
            true,
        ).2 == Some(v.tracks[v.current + 1]),
{
}

} // verus!

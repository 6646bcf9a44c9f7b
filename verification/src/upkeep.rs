//! The decisions of the podcast upkeep runs: the hourly update in the daemon,
//! the `update` command, and the weekly cleanup. The runs themselves fetch,
//! download and delete; these functions say what each step is to do.
use vstd::prelude::*;

verus! {

/// The storage limit that holds when none is configured: 5 GiB.
pub const DEFAULT_MAX_STORAGE: i64 = 5368709120;

/// What the hourly update does for a podcast.
#[derive(PartialEq, Eq, Structural, Debug, Clone, Copy)]
pub enum LoopAction {
    /// Storage is full: free space and leave the podcast for the next round.
    CleanupAndSkip,
    /// Fetch the feed and look for new episodes.
    Fetch,
}

/// The hourly update fetches a podcast only while the storage in use stays
/// below the limit.
pub fn update_loop_action(current_storage: i64, max_storage: i64) -> (a: LoopAction)
    ensures
        a == (if current_storage >= max_storage {
            LoopAction::CleanupAndSkip
        } else {
            LoopAction::Fetch
        }),
{
    if current_storage >= max_storage {
        LoopAction::CleanupAndSkip
    } else {
        LoopAction::Fetch
    }
}

/// What becomes of an episode of a feed.
#[derive(PartialEq, Eq, Structural, Debug, Clone, Copy)]
pub enum EpisodeAction {
    /// It is known already: nothing to do.
    Skip,
    /// It is new and the podcast does not download: record it without a file.
    Record,
    /// It is new and the podcast downloads: fetch its file, then record it.
    Download,
}

/// A known episode is skipped; a new one is downloaded where the podcast
/// downloads automatically, else recorded without a file.
pub fn episode_action(known: bool, auto_download: bool) -> (a: EpisodeAction)
    ensures
        a == (if known {
            EpisodeAction::Skip
        } else if auto_download {
            EpisodeAction::Download
        } else {
            EpisodeAction::Record
        }),
{
    if known {
        EpisodeAction::Skip
    } else if auto_download {
        EpisodeAction::Download
    } else {
        EpisodeAction::Record
    }
}

/// The counts that the `update` command reports for a podcast.
#[derive(PartialEq, Eq, Structural, Debug, Clone, Copy)]
pub struct UpdateTally {
    /// Episodes that were not known before.
    pub new_episodes: u64,
    /// New episodes whose file was downloaded.
    pub downloaded: u64,
}

impl UpdateTally {
    /// No episode counted yet.
    pub fn new() -> (t: UpdateTally)
        ensures
            t.new_episodes == 0,
            t.downloaded == 0,
            tally_well_formed(t),
    {
        UpdateTally { new_episodes: 0, downloaded: 0 }
    }
}

/// The counts after one episode of a feed: every episode that is not skipped
/// is new, and a download counts when its file came.
pub open spec fn tally_after(t: UpdateTally, action: EpisodeAction, download_ok: bool) -> UpdateTally {
    match action {
        EpisodeAction::Skip => t,
        EpisodeAction::Record => UpdateTally { new_episodes: (t.new_episodes + 1) as u64, ..t },
        EpisodeAction::Download => UpdateTally {
            new_episodes: (t.new_episodes + 1) as u64,
            downloaded: if download_ok {
                (t.downloaded + 1) as u64
            } else {
                t.downloaded
            },
        },
    }
}

/// A tally counts no more downloads than new episodes.
pub open spec fn tally_well_formed(t: UpdateTally) -> bool {
    t.downloaded <= t.new_episodes
}

/// Counts an episode once its action was carried out; `download_ok` says
/// whether a download brought its file.
pub fn count_episode(t: UpdateTally, action: EpisodeAction, download_ok: bool) -> (r: UpdateTally)
    requires
        tally_well_formed(t),
        t.new_episodes < u64::MAX,
    ensures
        r == tally_after(t, action, download_ok),
        tally_well_formed(r),
{
    match action {
        EpisodeAction::Skip => t,
        EpisodeAction::Record => UpdateTally { new_episodes: t.new_episodes + 1, downloaded: t.downloaded },
        EpisodeAction::Download => UpdateTally {
            new_episodes: t.new_episodes + 1,
            downloaded: if download_ok {
                t.downloaded + 1
            } else {
                t.downloaded
            },
        },
    }
}

/// The cleanup runs on Sundays, or on any day when forced.
pub fn cleanup_allowed(force: bool, is_sunday: bool) -> (r: bool)
    ensures
        r == (force || is_sunday),
{
    force || is_sunday
}

/// The total of the sizes, each read as an unsigned number, wrapping at
/// `u64::MAX` as release builds do.
pub open spec fn freed_sum(sizes: Seq<i64>) -> int
    decreases sizes.len(),
{
    if sizes.len() == 0 {
        0
    } else {
        freed_sum(sizes.drop_last()) + (sizes.last() as u64) as int
    }
}

/// The bytes freed by the cleanup: the total of the sizes of the episodes it
/// removed, modulo 2^64.
pub fn freed_total(sizes: &Vec<i64>) -> (t: u64)
    ensures
        t as int == freed_sum(sizes@) % 0x1_0000_0000_0000_0000,
{
    let mut t: u64 = 0;
    let mut i: usize = 0;
    while i < sizes.len()
        invariant
            i <= sizes.len(),
            t as int == freed_sum(sizes@.take(i as int)) % 0x1_0000_0000_0000_0000,
        decreases sizes.len() - i,
    {
        assert(sizes@.take(i + 1).drop_last() == sizes@.take(i as int));
        assert(sizes@.take(i + 1).last() == sizes@[i as int]);
        let s: u64 = sizes[i] as u64;
        let ghost before = freed_sum(sizes@.take(i as int));
        proof {
            lemma_wrapping_step(before, t as int, s as int);
        }
        t = t.wrapping_add(s);
        i = i + 1;
    }
    assert(sizes@.take(sizes@.len() as int) == sizes@);
    t
}

proof fn lemma_wrapping_step(sum: int, t: int, s: int)
    requires
        t == sum % 0x1_0000_0000_0000_0000,
    ensures
        (t + s) % 0x1_0000_0000_0000_0000 == (sum + s) % 0x1_0000_0000_0000_0000,
{
    vstd::arithmetic::div_mod::lemma_add_mod_noop(sum, s, 0x1_0000_0000_0000_0000);
    vstd::arithmetic::div_mod::lemma_mod_twice(s, 0x1_0000_0000_0000_0000);
    vstd::arithmetic::div_mod::lemma_add_mod_noop(t, s, 0x1_0000_0000_0000_0000);
}

} // verus!

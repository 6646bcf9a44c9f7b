//! The command line's subcommands, and the rules of importing into Music.app:
//! when an import is tried again, and what a run of imports reports.
use vstd::prelude::*;
use crate::error::{is_retryable, is_retryable_spec, message_spec, MuError};
use crate::text::{owned, views};

verus! {

/// The subcommands of `mu fav`.
pub enum FavAction {
    /// Toggle favorite on a track.
    Toggle { track: String },
    /// Sync favorites from Apple Music to local DB.
    Sync,
    /// List favorite tracks.
    List,
}

/// The subcommands of `mu plays`.
#[derive(Clone, Copy)]
pub enum PlaysAction {
    /// Sync play counts from Apple Music to local DB.
    Sync,
    /// List tracks by play count (descending).
    List,
}

/// A favorite toggles.
pub fn toggled_favorite(current: bool) -> (r: bool)
    ensures
        r == !current,
{
    !current
}

// ---------------------------------------------------------------------------
// Retrying an import
// ---------------------------------------------------------------------------

/// An import is tried at most this many times.
pub const IMPORT_ATTEMPTS: u32 = 4;

/// What follows a failed import.
#[derive(PartialEq, Eq, Structural)]
pub enum ImportRetry {
    /// Wait this many seconds, then try again.
    Retry { delay_secs: u64 },
    /// Report the error.
    GiveUp,
}

/// The wait before attempt `next` (1, 2 or 3): `1 << next` seconds.
pub open spec fn retry_delay(next: int) -> u64 {
    if next == 1 {
        2
    } else if next == 2 {
        4
    } else {
        8
    }
}

/// After attempt `attempt` (counted from 0) failed with `e`: a retryable error
/// is tried again while attempts remain, after a wait that doubles each time.
pub open spec fn after_failed_import_spec(attempt: int, e: MuError) -> ImportRetry {
    if is_retryable_spec(e) && attempt + 1 < IMPORT_ATTEMPTS {
        ImportRetry::Retry { delay_secs: retry_delay(attempt + 1) }
    } else {
        ImportRetry::GiveUp
    }
}

/// Decides what follows a failed import attempt.
pub fn after_failed_import(attempt: u32, error: &MuError) -> (r: ImportRetry)
    requires
        attempt < IMPORT_ATTEMPTS,
    ensures
        r == after_failed_import_spec(attempt as int, *error),
{
    if is_retryable(error) && attempt + 1 < IMPORT_ATTEMPTS {
        let next: u64 = (attempt + 1) as u64;
        let delay: u64 = 1u64 << next;
        proof {
            if next == 1 {
                assert(1u64 << 1u64 == 2) by (bit_vector);
            } else if next == 2 {
                assert(1u64 << 2u64 == 4) by (bit_vector);
            } else {
                assert(1u64 << 3u64 == 8) by (bit_vector);
            }
        }
        ImportRetry::Retry { delay_secs: delay }
    } else {
        ImportRetry::GiveUp
    }
}

/// An import that keeps failing with a retryable error is tried four times in
/// all, after waits of 2, 4 and 8 seconds; a failure that is not retryable ends
/// the attempts at once.
pub proof fn law_import_attempts_are_bounded(e: MuError)
    ensures
        is_retryable_spec(e) ==> after_failed_import_spec(0, e) == (ImportRetry::Retry { delay_secs: 2 })
            && after_failed_import_spec(1, e) == (ImportRetry::Retry { delay_secs: 4 })
            && after_failed_import_spec(2, e) == (ImportRetry::Retry { delay_secs: 8 })
            && after_failed_import_spec(3, e) == ImportRetry::GiveUp,
        !is_retryable_spec(e) ==> forall|a: int| #[trigger] after_failed_import_spec(a, e) == ImportRetry::GiveUp,
{
}

// ---------------------------------------------------------------------------
// The checks made on each track of a run of imports
// ---------------------------------------------------------------------------

/// What a run of imports does with a track before importing it.
#[derive(PartialEq, Eq, Structural, Debug, Clone, Copy)]
pub enum TrackPlan {
    /// Its file is missing: the track fails and nothing is imported.
    FileMissing,
    /// Ask Music.app whether it has the file: skip the track if so, else import it.
    AskLibrary,
    /// Delete the track that Music.app holds for it, if any, then import it.
    ReplaceThenImport,
}

/// A missing file comes first; then `mu migrate` (which checks what Music.app
/// has) asks the library, and `mu reimport` replaces the old track.
pub fn track_plan(file_exists: bool, check_existing: bool) -> (p: TrackPlan)
    ensures
        p == (if !file_exists {
            TrackPlan::FileMissing
        } else if check_existing {
            TrackPlan::AskLibrary
        } else {
            TrackPlan::ReplaceThenImport
        }),
{
    if !file_exists {
        TrackPlan::FileMissing
    } else if check_existing {
        TrackPlan::AskLibrary
    } else {
        TrackPlan::ReplaceThenImport
    }
}

// ---------------------------------------------------------------------------
// What a run of imports reports
// ---------------------------------------------------------------------------

/// The counts and warnings of a run of imports (`mu migrate`, `mu reimport`).
pub struct ImportTally {
    pub imported: i64,
    pub skipped: i64,
    pub failed: i64,
    pub warnings: Vec<String>,
}

impl ImportTally {
    /// Nothing done yet.
    pub fn new() -> (t: ImportTally)
        ensures
            t.imported == 0 && t.skipped == 0 && t.failed == 0 && t.warnings@.len() == 0,
    {
        ImportTally { imported: 0, skipped: 0, failed: 0, warnings: Vec::new() }
    }

    /// A track whose file is missing fails, with the warning
    /// "file not found: <path>".
    pub fn file_missing(&mut self, file_path: &str)
        requires
            old(self).failed < i64::MAX,
        ensures
            final(self).failed == old(self).failed + 1,
            final(self).imported == old(self).imported,
            final(self).skipped == old(self).skipped,
            views(final(self).warnings@) == views(old(self).warnings@).push("file not found: "@ + file_path@),
    {
        let mut w = owned("file not found: ");
        w.append(file_path);
        let ghost before = views(self.warnings@);
        self.warnings.push(w);
        assert(views(self.warnings@) == before.push(w@));
        self.failed = self.failed + 1;
    }

    /// A track that Music.app already holds is skipped.
    pub fn skip(&mut self)
        requires
            old(self).skipped < i64::MAX,
        ensures
            final(self).skipped == old(self).skipped + 1,
            final(self).imported == old(self).imported,
            final(self).failed == old(self).failed,
            final(self).warnings@ == old(self).warnings@,
    {
        self.skipped = self.skipped + 1;
    }

    /// A track was imported.
    pub fn record_import(&mut self)
        requires
            old(self).imported < i64::MAX,
        ensures
            final(self).imported == old(self).imported + 1,
            final(self).skipped == old(self).skipped,
            final(self).failed == old(self).failed,
            final(self).warnings@ == old(self).warnings@,
    {
        self.imported = self.imported + 1;
    }

    /// The persistent ID of an imported track could not be saved: the warning
    /// "failed to save apple_music_id for '<title>': <reason>".
    pub fn id_not_saved(&mut self, title: &str, reason: &str)
        ensures
            final(self).imported == old(self).imported,
            final(self).skipped == old(self).skipped,
            final(self).failed == old(self).failed,
            views(final(self).warnings@) == views(old(self).warnings@).push(
                "failed to save apple_music_id for '"@ + title@ + "': "@ + reason@,
            ),
    {
        let mut w = owned("failed to save apple_music_id for '");
        w.append(title);
        w.append("': ");
        w.append(reason);
        let ghost before = views(self.warnings@);
        self.warnings.push(w);
        assert(views(self.warnings@) == before.push(w@));
    }

    /// A track that no attempt imported fails, with the warning
    /// "failed to import '<title>': <error>" for the last error.
    pub fn import_failed(&mut self, title: &str, last_error: Option<&MuError>)
        requires
            old(self).failed < i64::MAX,
        ensures
            final(self).failed == old(self).failed + 1,
            final(self).imported == old(self).imported,
            final(self).skipped == old(self).skipped,
            views(final(self).warnings@) == match last_error {
                Some(e) => views(old(self).warnings@).push(
                    "failed to import '"@ + title@ + "': "@ + message_spec(*e),
                ),
                None => views(old(self).warnings@),
            },
    {
        self.failed = self.failed + 1;
        if let Some(e) = last_error {
            let mut w = owned("failed to import '");
            w.append(title);
            w.append("': ");
            w.append(e.message().as_str());
            let ghost before = views(self.warnings@);
            self.warnings.push(w);
            assert(views(self.warnings@) == before.push(w@));
        }
    }
}

/// A warning: what failed, then the error's message.
pub fn warning(what: &str, e: &MuError) -> (w: String)
    ensures
        w@ == what@ + message_spec(*e),
{
    let mut w = owned(what);
    w.append(e.message().as_str());
    w
}

/// A warning whose reason is a message (of a database error, say).
pub fn warning_text(what: &str, reason: &str) -> (w: String)
    ensures
        w@ == what@ + reason@,
{
    let mut w = owned(what);
    w.append(reason);
    w
}

} // verus!

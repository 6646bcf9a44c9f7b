use mu::commands::{track_plan, TrackPlan};
use mu::upkeep::{
    cleanup_allowed, count_episode, episode_action, freed_total, update_loop_action, EpisodeAction, LoopAction,
    UpdateTally, DEFAULT_MAX_STORAGE,
};

#[test]
fn full_storage_skips_fetching() {
    assert_eq!(update_loop_action(DEFAULT_MAX_STORAGE, DEFAULT_MAX_STORAGE), LoopAction::CleanupAndSkip);
    assert_eq!(update_loop_action(DEFAULT_MAX_STORAGE + 1, DEFAULT_MAX_STORAGE), LoopAction::CleanupAndSkip);
    assert_eq!(update_loop_action(0, DEFAULT_MAX_STORAGE), LoopAction::Fetch);
    assert_eq!(DEFAULT_MAX_STORAGE, 5 * 1024 * 1024 * 1024);
}

#[test]
fn episode_actions() {
    assert_eq!(episode_action(true, true), EpisodeAction::Skip);
    assert_eq!(episode_action(true, false), EpisodeAction::Skip);
    assert_eq!(episode_action(false, true), EpisodeAction::Download);
    assert_eq!(episode_action(false, false), EpisodeAction::Record);
}

#[test]
fn update_counts_new_and_downloaded() {
    let mut t = UpdateTally::new();
    t = count_episode(t, episode_action(true, true), false);
    t = count_episode(t, episode_action(false, true), true);
    t = count_episode(t, episode_action(false, true), false);
    t = count_episode(t, episode_action(false, false), false);
    assert_eq!(t, UpdateTally { new_episodes: 3, downloaded: 1 });
}

#[test]
fn cleanup_only_on_sunday_unless_forced() {
    assert!(cleanup_allowed(true, false));
    assert!(cleanup_allowed(false, true));
    assert!(!cleanup_allowed(false, false));
}

#[test]
fn freed_bytes_add_up() {
    assert_eq!(freed_total(&vec![]), 0);
    assert_eq!(freed_total(&vec![1024, 2048, 1]), 3073);
    assert_eq!(freed_total(&vec![-1, 2]), 1);
}

#[test]
fn track_checks_in_order() {
    assert_eq!(track_plan(false, true), TrackPlan::FileMissing);
    assert_eq!(track_plan(false, false), TrackPlan::FileMissing);
    assert_eq!(track_plan(true, true), TrackPlan::AskLibrary);
    assert_eq!(track_plan(true, false), TrackPlan::ReplaceThenImport);
}

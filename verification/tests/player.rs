use mu::player::{Player, PlayerCommand, SinkOrder};

fn paths(n: usize) -> Vec<String> {
    (0..n).map(|i| format!("/music/{i}.mp3")).collect()
}

fn titles(n: usize) -> Vec<String> {
    (0..n).map(|i| format!("Song {i}")).collect()
}

fn start_path(o: &SinkOrder) -> Option<String> {
    match o {
        SinkOrder::StopAndStart(p) => Some(p.clone()),
        _ => None,
    }
}

fn play(p: &mut Player, n: usize, ids: Vec<i64>) -> SinkOrder {
    p.handle(PlayerCommand::Play { tracks: paths(n), titles: titles(n), episode_ids: ids })
}

#[test]
fn play_starts_first_track() {
    let mut p = Player::new();
    let o = play(&mut p, 3, vec![]);
    assert_eq!(start_path(&o), Some("/music/0.mp3".to_string()));
    p.started(true);
    let s = p.status(false);
    assert!(s.playing);
    assert!(!s.paused);
    assert_eq!(s.track, Some("Song 0".to_string()));
    assert_eq!(s.track_index, 0);
    assert_eq!(s.total_tracks, 3);
}

#[test]
fn play_without_tracks_only_stops() {
    let mut p = Player::new();
    let o = play(&mut p, 0, vec![]);
    assert!(matches!(o, SinkOrder::Stop));
    assert!(!p.status(false).playing);
}

#[test]
fn next_then_previous_returns() {
    let mut p = Player::new();
    play(&mut p, 3, vec![]);
    p.started(true);
    let o = p.handle(PlayerCommand::Next);
    assert_eq!(start_path(&o), Some("/music/1.mp3".to_string()));
    p.started(true);
    let o = p.handle(PlayerCommand::Previous);
    assert_eq!(start_path(&o), Some("/music/0.mp3".to_string()));
    p.started(true);
    assert_eq!(p.status(false).track_index, 0);
}

#[test]
fn previous_on_first_restarts_it() {
    let mut p = Player::new();
    play(&mut p, 2, vec![]);
    p.started(true);
    let o = p.handle(PlayerCommand::Previous);
    assert_eq!(start_path(&o), Some("/music/0.mp3".to_string()));
}

#[test]
fn next_past_end_stops() {
    let mut p = Player::new();
    play(&mut p, 1, vec![]);
    p.started(true);
    let o = p.handle(PlayerCommand::Next);
    assert!(matches!(o, SinkOrder::Stop));
    let s = p.status(false);
    assert!(!s.playing);
    assert_eq!(s.track_index, 0);
}

#[test]
fn stop_clears_queue() {
    let mut p = Player::new();
    play(&mut p, 3, vec![]);
    p.started(true);
    let o = p.handle(PlayerCommand::Stop);
    assert!(matches!(o, SinkOrder::Stop));
    let s = p.status(false);
    assert_eq!(s.total_tracks, 0);
    assert_eq!(s.track, None);
    assert!(!s.playing);
}

#[test]
fn pause_and_resume_orders() {
    let mut p = Player::new();
    play(&mut p, 1, vec![]);
    p.started(true);
    assert!(matches!(p.handle(PlayerCommand::Pause), SinkOrder::Pause));
    let s = p.status(true);
    assert!(s.paused);
    assert!(!s.playing);
    assert!(matches!(p.handle(PlayerCommand::Resume), SinkOrder::Resume));
}

#[test]
fn finished_track_advances_and_completes_episode() {
    let mut p = Player::new();
    play(&mut p, 2, vec![7, 0]);
    p.started(true);
    let f = p.finish_check(false);
    assert_eq!(f.completed_episode, None);
    assert_eq!(f.start, None);
    let f = p.finish_check(true);
    assert_eq!(f.completed_episode, Some(7));
    assert_eq!(f.start, Some("/music/1.mp3".to_string()));
    p.started(true);
    let f = p.finish_check(true);
    assert_eq!(f.completed_episode, None);
    assert_eq!(f.start, None);
    assert!(!p.status(false).playing);
}

#[test]
fn progress_saved_every_300_ticks() {
    let mut p = Player::new();
    play(&mut p, 1, vec![42]);
    p.started(true);
    for _ in 0..299 {
        assert_eq!(p.progress_tick(false), None);
    }
    assert_eq!(p.progress_tick(false), Some(42));
    assert_eq!(p.progress_tick(true), None);
}

#[test]
fn failed_start_is_not_playing() {
    let mut p = Player::new();
    play(&mut p, 2, vec![]);
    p.started(false);
    assert!(!p.status(false).playing);
}

#[test]
fn status_stays_in_range_through_any_commands() {
    let mut p = Player::new();
    let cmds = vec![
        PlayerCommand::Next,
        PlayerCommand::Previous,
        PlayerCommand::Play { tracks: paths(2), titles: titles(2), episode_ids: vec![] },
        PlayerCommand::Next,
        PlayerCommand::Next,
        PlayerCommand::Previous,
        PlayerCommand::Previous,
        PlayerCommand::Previous,
        PlayerCommand::Pause,
        PlayerCommand::Stop,
        PlayerCommand::Previous,
    ];
    for c in cmds {
        p.handle(c);
        for paused in [false, true] {
            let s = p.status(paused);
            assert!(s.total_tracks == 0 || s.track_index < s.total_tracks);
            assert!(!(s.playing && s.paused));
        }
    }
}

#[test]
fn previous_on_first_track_restarts_it() {
    let mut p = Player::new();
    play(&mut p, 3, vec![]);
    p.started(true);
    let o = p.handle(PlayerCommand::Previous);
    assert_eq!(start_path(&o), Some("/music/0.mp3".to_string()));
    assert_eq!(p.status(false).track_index, 0);
}

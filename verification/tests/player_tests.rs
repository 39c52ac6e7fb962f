use music_player::player::{Player, FULL_VOLUME, NORMAL_SPEED};
use music_player::queue::QueueError;
use music_player::sink::{
    play, PlaybackError, PlaybackMode, SinkCommand, SinkFailure, SinkState,
};
use music_player::song::Song;

fn track(name: &str) -> Song {
    Song { name: name.to_string(), file: format!("./data/songs/{}.mp3", name) }
}

fn player_with(names: &[&str]) -> Player {
    let mut p = Player::new();
    for name in names {
        p.queue(track(name));
    }
    p
}

#[test]
fn new_player_is_paused_with_nothing_loaded() {
    let mut p = Player::new();
    assert_eq!(p.mode, PlaybackMode::Paused);
    assert_eq!(p.loaded, None);
    assert_eq!(p.volume(), FULL_VOLUME);
    assert_eq!(p.speed(), NORMAL_SPEED);
    assert_eq!(p.volume(), 1000);
    assert_eq!(p.speed(), 1000);
    assert_eq!(p.queue.queue.len(), 0);
    assert_eq!(p.current(), Err(QueueError::EmptyQueue));
}

#[test]
fn play_on_idle_loads_then_second_play_pauses_without_reload() {
    let mut p = player_with(&["A"]);
    assert_eq!(p.play(SinkState::Idle), Ok(SinkCommand::LoadAndPlay(track("A"))));
    assert_eq!(p.mode, PlaybackMode::Playing);
    assert_eq!(p.loaded, Some(track("A")));
    assert_eq!(p.play(SinkState::Playing), Ok(SinkCommand::Pause));
    assert_eq!(p.mode, PlaybackMode::Paused);
    assert_eq!(p.loaded, Some(track("A")));
    assert_eq!(p.play(SinkState::Paused), Ok(SinkCommand::Resume));
    assert_eq!(p.mode, PlaybackMode::Playing);
}

#[test]
fn failed_load_keeps_the_cursor_and_pauses() {
    let mut p = player_with(&["A", "B"]);
    p.next();
    assert_eq!(p.play(SinkState::Idle), Ok(SinkCommand::LoadAndPlay(track("B"))));
    let error = p.playback_failed(SinkFailure::FileNotFound);
    assert_eq!(
        error,
        Some(PlaybackError { song: track("B"), cause: SinkFailure::FileNotFound })
    );
    assert_eq!(p.queue.current_index, 1);
    assert_eq!(p.queue.queue.len(), 2);
    assert_eq!(p.mode, PlaybackMode::Paused);
    assert_eq!(p.loaded, None);
    assert_eq!(p.current(), Ok(track("B")));
    // the caller can try again without moving the cursor
    assert_eq!(p.play(SinkState::Idle), Ok(SinkCommand::LoadAndPlay(track("B"))));
}

#[test]
fn failure_with_nothing_loaded_reports_no_song() {
    let mut p = player_with(&["A"]);
    assert_eq!(p.playback_failed(SinkFailure::DeviceUnavailable), None);
    assert_eq!(p.mode, PlaybackMode::Paused);
    assert_eq!(p.queue.current_index, 0);
}

#[test]
fn each_cause_is_carried_by_the_error() {
    for cause in [
        SinkFailure::DeviceUnavailable,
        SinkFailure::DecodeFailure,
        SinkFailure::FileNotFound,
    ] {
        let mut p = player_with(&["A"]);
        assert!(p.play(SinkState::Idle).is_ok());
        let error = p.playback_failed(cause).unwrap();
        assert_eq!(error.cause, cause);
        assert_eq!(error.song, track("A"));
    }
}

#[test]
fn play_on_an_empty_queue_is_reported_and_changes_nothing() {
    let mut p = Player::new();
    assert_eq!(p.play(SinkState::Idle), Err(QueueError::EmptyQueue));
    assert_eq!(p.play(SinkState::Playing), Err(QueueError::EmptyQueue));
    assert_eq!(p.play(SinkState::Paused), Err(QueueError::EmptyQueue));
    assert_eq!(p.mode, PlaybackMode::Paused);
    assert_eq!(p.loaded, None);
}

#[test]
fn a_moved_cursor_makes_the_next_play_load_the_new_song() {
    let mut p = player_with(&["A", "B", "C"]);
    assert_eq!(p.play(SinkState::Idle), Ok(SinkCommand::LoadAndPlay(track("A"))));
    p.next();
    assert_eq!(p.mode, PlaybackMode::Playing);
    assert_eq!(p.loaded, Some(track("A")));
    assert_eq!(p.play(SinkState::Playing), Ok(SinkCommand::LoadAndPlay(track("B"))));
    assert_eq!(p.loaded, Some(track("B")));
    assert_eq!(p.play(SinkState::Playing), Ok(SinkCommand::Pause));
    assert_eq!(p.to_place(2), Ok(()));
    assert_eq!(p.play(SinkState::Paused), Ok(SinkCommand::LoadAndPlay(track("C"))));
    assert_eq!(p.mode, PlaybackMode::Playing);
}

#[test]
fn a_sink_that_ran_out_gets_the_current_song_again() {
    let mut p = player_with(&["A"]);
    assert_eq!(p.play(SinkState::Idle), Ok(SinkCommand::LoadAndPlay(track("A"))));
    assert_eq!(p.play(SinkState::Idle), Ok(SinkCommand::LoadAndPlay(track("A"))));
    assert_eq!(p.mode, PlaybackMode::Playing);
}

#[test]
fn navigation_goes_to_the_queue_and_leaves_the_mode() {
    let mut p = player_with(&["A", "B", "C"]);
    assert!(p.play(SinkState::Idle).is_ok());
    p.next();
    assert_eq!(p.queue.current_index, 1);
    assert_eq!(p.current(), Ok(track("B")));
    p.previous();
    assert_eq!(p.queue.current_index, 0);
    p.previous();
    assert_eq!(p.queue.current_index, 0);
    assert_eq!(p.to_place(2), Ok(()));
    p.next();
    assert_eq!(p.queue.current_index, 2);
    assert_eq!(p.to_place(3), Err(QueueError::OutOfRange));
    assert_eq!(p.queue.current_index, 2);
    assert_eq!(p.mode, PlaybackMode::Playing);
    assert_eq!(p.loaded, Some(track("A")));
}

#[test]
fn clear_empties_queue_and_sink() {
    let mut p = player_with(&["A", "B"]);
    assert!(p.play(SinkState::Idle).is_ok());
    assert_eq!(p.clear(), SinkCommand::Stop);
    assert_eq!(p.queue.queue.len(), 0);
    assert_eq!(p.queue.current_index, 0);
    assert_eq!(p.mode, PlaybackMode::Paused);
    assert_eq!(p.loaded, None);
    assert_eq!(p.play(SinkState::Idle), Err(QueueError::EmptyQueue));
}

#[test]
fn volume_above_full_is_brought_down() {
    let mut p = Player::new();
    assert_eq!(p.set_volume(250), SinkCommand::SetVolume(250));
    assert_eq!(p.volume(), 250);
    assert_eq!(p.set_volume(1000), SinkCommand::SetVolume(1000));
    assert_eq!(p.set_volume(1001), SinkCommand::SetVolume(1000));
    assert_eq!(p.volume(), 1000);
    assert_eq!(p.set_volume(u32::MAX), SinkCommand::SetVolume(1000));
    assert_eq!(p.set_volume(0), SinkCommand::SetVolume(0));
    assert_eq!(p.volume(), 0);
}

#[test]
fn speed_zero_is_refused() {
    let mut p = Player::new();
    assert_eq!(p.set_speed(1500), Some(SinkCommand::SetSpeed(1500)));
    assert_eq!(p.speed(), 1500);
    assert_eq!(p.set_speed(0), None);
    assert_eq!(p.speed(), 1500);
    assert_eq!(p.set_speed(1), Some(SinkCommand::SetSpeed(1)));
    assert_eq!(p.speed(), 1);
}

#[test]
fn plain_toggle_resumes_a_paused_sink_and_pauses_any_other() {
    assert_eq!(play(true), SinkCommand::Resume);
    assert_eq!(play(false), SinkCommand::Pause);
}

#[test]
fn sink_state_is_read_off_the_flags() {
    assert_eq!(SinkState::from_flags(true, false), SinkState::Idle);
    assert_eq!(SinkState::from_flags(true, true), SinkState::Idle);
    assert_eq!(SinkState::from_flags(false, true), SinkState::Paused);
    assert_eq!(SinkState::from_flags(false, false), SinkState::Playing);
}

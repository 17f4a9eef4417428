use subtitle_fast::playback::{format_frames, format_time, seek_relative_frames, PlaybackToggle};

#[test]
fn toggle_without_player_does_nothing() {
    let mut state = PlaybackToggle::new();
    assert!(!state.toggle_playback(false));
    assert_eq!(state, PlaybackToggle { paused: false, pending_paused: None });
}

#[test]
fn toggle_waits_for_player_report() {
    let mut state = PlaybackToggle::new();
    assert!(state.toggle_playback(true));
    assert_eq!(state, PlaybackToggle { paused: true, pending_paused: Some(true) });
    state.sync_paused(false);
    assert_eq!(state, PlaybackToggle { paused: true, pending_paused: Some(true) });
    state.sync_paused(true);
    assert_eq!(state, PlaybackToggle { paused: true, pending_paused: None });
}

#[test]
fn sync_without_pending_follows_player() {
    let mut state = PlaybackToggle::new();
    state.sync_paused(true);
    assert_eq!(state, PlaybackToggle { paused: true, pending_paused: None });
    state.sync_paused(false);
    assert!(!state.paused);
}

#[test]
fn new_handles_start_paused() {
    let mut state = PlaybackToggle::new();
    state.toggle_playback(true);
    state.reset_for_handles();
    assert_eq!(state, PlaybackToggle { paused: true, pending_paused: None });
}

#[test]
fn jog_stays_within_video() {
    assert_eq!(seek_relative_frames(false, 7, Some(10), 100), Some(17));
    assert_eq!(seek_relative_frames(false, -20, Some(10), 100), Some(0));
    assert_eq!(seek_relative_frames(false, 7, Some(98), 100), Some(99));
    assert_eq!(seek_relative_frames(false, 1000, Some(10), 0), Some(1010));
}

#[test]
fn jog_forward_after_end_is_refused() {
    assert_eq!(seek_relative_frames(true, 7, Some(10), 100), None);
    assert_eq!(seek_relative_frames(true, -7, Some(10), 100), Some(3));
    assert_eq!(seek_relative_frames(false, 7, None, 100), None);
}

#[test]
fn time_label_pads_seconds() {
    assert_eq!(format_time(0), "0:00");
    assert_eq!(format_time(65), "1:05");
    assert_eq!(format_time(600), "10:00");
    assert_eq!(format_time(3599), "59:59");
    assert_eq!(format_time(3600), "60:00");
}

#[test]
fn frames_label_shows_known_total() {
    assert_eq!(format_frames(42, Some(100)), "42 / 100");
    assert_eq!(format_frames(42, Some(0)), "42");
    assert_eq!(format_frames(42, None), "42");
}

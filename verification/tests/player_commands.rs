use subtitle_fast::player::{
    remove_preprocessor, upsert_preprocessor, PlaybackUpdate, PlayerCommand, PlayerLoop,
    PreprocessorEntry, SeekOutcome, VideoOpenOptions,
};

type Loop = PlayerLoop<u64, u32>;
type Command = PlayerCommand<u64, u32>;

#[test]
fn open_resets_loop_state() {
    let mut state = Loop::new();
    let (go_on, updates) = state.handle_command(Command::Open("a.mp4".to_string(), VideoOpenOptions::paused()));
    assert!(go_on);
    assert_eq!(updates, vec![PlaybackUpdate::ResetForOpen(true)]);
    assert_eq!(state.input_path, Some("a.mp4".to_string()));
    assert!(state.paused);
    assert!(state.prime_first_frame);
    assert!(state.open_requested);
    assert_eq!(state.open_start_frame, None);
}

#[test]
fn default_open_options_play_from_start() {
    let options = VideoOpenOptions::default();
    assert!(!options.paused);
    assert_eq!(options.start_frame, None);
}

#[test]
fn toggle_and_scrub_publish_updates() {
    let mut state = Loop::new();
    assert_eq!(state.handle_command(Command::TogglePause).1, vec![PlaybackUpdate::Paused(true)]);
    assert_eq!(state.handle_command(Command::TogglePause).1, vec![PlaybackUpdate::Paused(false)]);
    assert_eq!(state.handle_command(Command::BeginScrub).1, vec![PlaybackUpdate::Scrubbing(true)]);
    assert!(state.scrubbing);
    assert_eq!(state.handle_command(Command::EndScrub).1, vec![PlaybackUpdate::Scrubbing(false)]);
    assert_eq!(state.handle_command(Command::Pause).1, vec![PlaybackUpdate::Paused(true)]);
    assert_eq!(state.handle_command(Command::Play).1, vec![PlaybackUpdate::Paused(false)]);
}

#[test]
fn replay_while_scrubbing_ends_scrub() {
    let mut state = Loop::new();
    state.handle_command(Command::BeginScrub);
    state.handle_command(Command::Pause);
    let (_, updates) = state.handle_command(Command::Replay);
    assert_eq!(
        updates,
        vec![PlaybackUpdate::Paused(false), PlaybackUpdate::Scrubbing(false), PlaybackUpdate::ResetForReplay]
    );
    assert!(!state.paused);
    assert!(!state.scrubbing);
    assert!(state.open_requested);
}

#[test]
fn seek_taken_by_decoder_waits_for_serial() {
    let mut state = Loop::new();
    let (_, updates) = state.handle_command(Command::Seek { seek: 42, frame: Some(1000), outcome: SeekOutcome::Started(5) });
    assert_eq!(updates, vec![PlaybackUpdate::SeekPreview(42)]);
    assert_eq!(state.pending_seek, None);
    assert_eq!(state.seek_serial, Some(5));
    assert_eq!(state.pending_seek_frame, Some(1000));
    assert!(!state.open_requested);
}

#[test]
fn seek_without_decoder_reopens() {
    let mut state = Loop::new();
    state.handle_command(Command::Seek { seek: 7, frame: None, outcome: SeekOutcome::NoSession });
    assert_eq!(state.pending_seek, Some(7));
    assert_eq!(state.seek_serial, None);
    assert!(state.open_requested);
}

#[test]
fn hooks_are_kept_one_per_key() {
    let mut state = Loop::new();
    state.handle_command(Command::SetPreprocessor { key: "view".to_string(), preprocessor: 1 });
    state.handle_command(Command::SetPreprocessor { key: "overlay".to_string(), preprocessor: 2 });
    state.handle_command(Command::SetPreprocessor { key: "view".to_string(), preprocessor: 3 });
    assert!(state.refresh_cached);
    let keys: Vec<(String, u32)> = state.preprocessors.iter().map(|e| (e.key.clone(), e.hook)).collect();
    assert_eq!(keys, vec![("view".to_string(), 3), ("overlay".to_string(), 2)]);
    state.handle_command(Command::RemovePreprocessor("view".to_string()));
    assert_eq!(state.preprocessors.len(), 1);
    assert_eq!(state.preprocessors[0].key, "overlay");
}

#[test]
fn removing_missing_hook_needs_no_redraw() {
    let mut state = Loop::new();
    state.handle_command(Command::RemovePreprocessor("view".to_string()));
    assert!(!state.refresh_cached);
}

#[test]
fn shutdown_stops_and_clears() {
    let mut state = Loop::new();
    state.handle_command(Command::Open("a.mp4".to_string(), VideoOpenOptions::default()));
    state.handle_command(Command::SetPreprocessor { key: "view".to_string(), preprocessor: 1 });
    let (go_on, updates) = state.handle_command(Command::Shutdown);
    assert!(!go_on);
    assert!(updates.is_empty());
    assert_eq!(state.input_path, None);
    assert!(state.preprocessors.is_empty());
    assert!(!state.refresh_cached);
    assert!(!state.open_requested);
}

#[test]
fn upsert_and_remove_report_changes() {
    let mut hooks: Vec<PreprocessorEntry<u32>> = Vec::new();
    assert!(upsert_preprocessor(&mut hooks, "a".to_string(), 1));
    assert!(upsert_preprocessor(&mut hooks, "a".to_string(), 2));
    assert_eq!(hooks.len(), 1);
    assert_eq!(hooks[0].hook, 2);
    assert!(!remove_preprocessor(&mut hooks, "b"));
    assert!(remove_preprocessor(&mut hooks, "a"));
    assert!(hooks.is_empty());
}

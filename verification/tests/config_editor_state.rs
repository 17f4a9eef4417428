use subtitle_fast::config_editor::{
    CloseRequest, ConfigEditorState, LoadOutcome, RoiFieldErrors,
};
use subtitle_fast::config_form::ConfigValues;

fn no_roi_errors() -> RoiFieldErrors {
    RoiFieldErrors { x: None, y: None, width: None, height: None }
}

fn editor() -> ConfigEditorState {
    ConfigEditorState::new(Some("/tmp/cfg/config.toml".to_string()))
}

#[test]
fn new_editor_counts_defaults_as_saved() {
    let state = editor();
    assert!(state.status.is_none());
    assert!(!state.autosave_enabled);
    assert!(!state.is_dirty(&ConfigValues::default_example()));
}

#[test]
fn validation_reports_each_field() {
    let mut state = editor();
    let mut values = ConfigValues::default_example();
    assert!(state.validate_fields(&values, no_roi_errors()));
    values.sps = "abc".to_string();
    values.target = "300".to_string();
    values.decoder_channel_capacity = "0".to_string();
    let roi = RoiFieldErrors { x: Some("ROI X must be between 0 and 1".to_string()), y: None, width: None, height: None };
    assert!(!state.validate_fields(&values, roi));
    assert_eq!(state.field_errors.sps.as_deref(), Some("Detection samples/sec must be a number"));
    assert_eq!(state.field_errors.target.as_deref(), Some("Detection target must be 0-255"));
    assert_eq!(state.field_errors.delta, None);
    assert_eq!(state.field_errors.roi_x.as_deref(), Some("ROI X must be between 0 and 1"));
    assert_eq!(
        state.field_errors.decoder_channel_capacity.as_deref(),
        Some("Decoder channel capacity must be at least 1")
    );
}

#[test]
fn dirty_when_a_field_changed() {
    let state = editor();
    let mut values = ConfigValues::default_example();
    values.target = "231".to_string();
    assert!(state.is_dirty(&values));
}

#[test]
fn autosave_only_when_enabled_valid_and_dirty() {
    let mut state = editor();
    let mut values = ConfigValues::default_example();
    values.delta = "20".to_string();
    assert!(!state.autosave_due(&values, no_roi_errors()));
    state.autosave_enabled = true;
    assert!(state.autosave_due(&values, no_roi_errors()));
    values.delta = "x".to_string();
    assert!(!state.autosave_due(&values, no_roi_errors()));
    assert!(!state.autosave_due(&ConfigValues::default_example(), no_roi_errors()));
}

#[test]
fn save_refuses_invalid_values() {
    let mut state = editor();
    let mut values = ConfigValues::default_example();
    values.sps = "0".to_string();
    let result = state.prepare_save(&values, no_roi_errors(), Ok(true), true);
    assert_eq!(result.err(), Some("Invalid configuration values".to_string()));
    assert!(state.status.is_none());
}

#[test]
fn save_needs_a_config_path() {
    let mut state = ConfigEditorState::new(None);
    let values = ConfigValues::default_example();
    let result = state.prepare_save(&values, no_roi_errors(), Ok(true), true);
    assert_eq!(result.err(), Some("Config path unavailable".to_string()));
    assert_eq!(state.status, Some(("Config path unavailable".to_string(), true)));
}

#[test]
fn save_reports_region_error() {
    let mut state = editor();
    let values = ConfigValues::default_example();
    let result = state.prepare_save(&values, no_roi_errors(), Err("ROI X is invalid".to_string()), true);
    assert_eq!(result.err(), Some("ROI X is invalid".to_string()));
}

#[test]
fn save_plan_describes_file() {
    let mut state = editor();
    state.output_path = Some("/tmp/out.srt".to_string());
    let mut values = ConfigValues::default_example();
    values.detector_backend = "onnx".to_string();
    let plan = state.prepare_save(&values, no_roi_errors(), Ok(true), true).ok().unwrap();
    assert_eq!(plan.path, "/tmp/cfg/config.toml");
    assert_eq!(plan.parent, "/tmp/cfg");
    assert!(plan.detector_changed);
    let detection = plan.config.detection.unwrap();
    assert_eq!(detection.samples_per_second, Some(7));
    assert_eq!(detection.detector.as_deref(), Some("onnx"));
    assert_eq!(plan.config.output.unwrap().path.as_deref(), Some("/tmp/out.srt"));
}

#[test]
fn save_needs_a_parent_directory() {
    let mut state = ConfigEditorState::new(Some("/".to_string()));
    let values = ConfigValues::default_example();
    let result = state.prepare_save(&values, no_roi_errors(), Ok(true), false);
    assert_eq!(result.err(), Some("Config path has no parent directory".to_string()));
    assert!(state.status.is_none());
}

#[test]
fn save_outcomes_update_status() {
    let mut state = editor();
    state.save_failed("Failed to write config: denied".to_string(), false);
    assert!(state.status.is_none());
    state.save_failed("Failed to write config: denied".to_string(), true);
    assert_eq!(state.status, Some(("Failed to write config: denied".to_string(), true)));
    let mut values = ConfigValues::default_example();
    values.sps = "9".to_string();
    state.save_succeeded(&values);
    assert!(state.status.is_none());
    assert!(!state.is_dirty(&values));
}

#[test]
fn loading_without_path_reports_it() {
    let mut state = editor();
    assert!(state.finish_load(None, LoadOutcome::Missing { defaults_written: true }).is_none());
    assert_eq!(state.status, Some(("Config path unavailable".to_string(), true)));
}

#[test]
fn loading_a_file_shows_it() {
    let mut state = editor();
    let mut values = ConfigValues::default_example();
    values.sps = "3".to_string();
    let shown = state
        .finish_load(
            Some("/tmp/cfg/config.toml".to_string()),
            LoadOutcome::Loaded { values, output_path: Some("/tmp/x.srt".to_string()) },
        )
        .unwrap();
    assert_eq!(shown.sps, "3");
    assert!(!state.is_dirty(&shown));
    assert_eq!(state.output_path.as_deref(), Some("/tmp/x.srt"));
}

#[test]
fn loading_failures_fall_back_to_defaults() {
    let mut state = editor();
    let shown = state
        .finish_load(Some("/tmp/cfg/config.toml".to_string()), LoadOutcome::ReadFailed("bad toml".to_string()))
        .unwrap();
    assert_eq!(shown.target, "230");
    assert_eq!(state.status, Some(("Failed to read config: bad toml".to_string(), true)));
    let mut other = editor();
    other.finish_load(Some("/tmp/cfg/config.toml".to_string()), LoadOutcome::Missing { defaults_written: false });
    assert_eq!(other.status, Some(("Failed to create config file.".to_string(), true)));
}

#[test]
fn closing_with_unsaved_changes_asks_once() {
    let mut state = editor();
    let clean = ConfigValues::default_example();
    assert_eq!(state.should_close(&clean), CloseRequest::Close);
    let mut dirty = ConfigValues::default_example();
    dirty.delta = "5".to_string();
    assert_eq!(state.should_close(&dirty), CloseRequest::AskToSave);
    assert_eq!(state.should_close(&dirty), CloseRequest::Stay);
    assert!(!state.close_prompt_answered(Some(0), false));
    assert!(!state.close_prompt_open);
    assert_eq!(state.should_close(&dirty), CloseRequest::AskToSave);
    assert!(!state.close_prompt_answered(None, true));
    assert_eq!(state.should_close(&dirty), CloseRequest::AskToSave);
    assert!(state.close_prompt_answered(Some(1), false));
    assert_eq!(state.should_close(&dirty), CloseRequest::Close);
}

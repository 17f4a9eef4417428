use subtitle_fast::subtitle_editor::{seconds_text, SubtitleEditorForm, TimingCheck};

fn strings(items: &[&str]) -> Vec<String> {
    items.iter().map(|s| s.to_string()).collect()
}

fn loaded_form() -> SubtitleEditorForm {
    let mut form = SubtitleEditorForm::new(true);
    let lines = strings(&["Hello\\nWorld", "  "]);
    form.load_selected(7, Some(("1.00", "2.50", &lines)));
    form
}

#[test]
fn new_form_is_empty() {
    let form = SubtitleEditorForm::new(true);
    assert_eq!(form.selected_id(), None);
    assert!(!form.is_dirty());
    assert!(form.status().is_none());
    assert_eq!(form.search_query(), "");
    assert!(form.collect_lines().is_empty());
}

#[test]
fn new_form_reports_missing_video() {
    let form = SubtitleEditorForm::new(false);
    assert_eq!(
        form.status(),
        Some(("Video file not found for this session.".to_string(), true))
    );
}

#[test]
fn loading_normalizes_lines() {
    let form = loaded_form();
    assert_eq!(form.selected_id(), Some(7));
    assert!(!form.is_dirty());
    assert_eq!(form.collect_lines(), strings(&["Hello", "World"]));
}

#[test]
fn editing_a_line_marks_dirty() {
    let mut form = loaded_form();
    form.edit_line_text(0, "  Hi  ");
    assert!(form.is_dirty());
    assert_eq!(form.collect_lines(), strings(&["Hi", "World"]));
}

#[test]
fn editing_without_selection_stays_clean() {
    let mut form = SubtitleEditorForm::new(true);
    form.edit_start_text("3");
    form.edit_line_text(0, "text");
    assert!(!form.is_dirty());
    assert_eq!(form.collect_lines(), strings(&["text"]));
}

#[test]
fn deleted_lines_are_not_collected() {
    let mut form = loaded_form();
    form.toggle_line_deleted(1);
    assert_eq!(form.collect_lines(), strings(&["Hello"]));
    assert!(form.is_dirty());
    form.toggle_line_deleted(1);
    assert_eq!(form.collect_lines(), strings(&["Hello", "World"]));
}

#[test]
fn toggling_missing_line_changes_nothing() {
    let mut form = loaded_form();
    form.toggle_line_deleted(9);
    assert!(!form.is_dirty());
    assert_eq!(form.collect_lines(), strings(&["Hello", "World"]));
}

#[test]
fn added_blank_line_is_not_collected() {
    let mut form = loaded_form();
    form.add_line_input();
    assert!(form.is_dirty());
    assert_eq!(form.collect_lines(), strings(&["Hello", "World"]));
    form.edit_line_text(2, "Again\nMore");
    assert_eq!(form.collect_lines(), strings(&["Hello", "World", "Again", "More"]));
}

#[test]
fn apply_sends_selected_lines() {
    let mut form = loaded_form();
    assert_eq!(form.apply_selected(TimingCheck::Ordered), Some((7, strings(&["Hello", "World"]))));
    assert!(form.status().is_none());
}

#[test]
fn apply_without_selection_fails() {
    let mut form = SubtitleEditorForm::new(true);
    assert_eq!(form.apply_selected(TimingCheck::Ordered), None);
    assert_eq!(form.status(), Some(("Select a subtitle first.".to_string(), true)));
}

#[test]
fn apply_reports_timing_problems_first() {
    let mut form = loaded_form();
    let message = "Start time (s) is required.".to_string();
    assert_eq!(form.apply_selected(TimingCheck::Invalid(message.clone())), None);
    assert_eq!(form.status(), Some((message, true)));
    assert_eq!(form.apply_selected(TimingCheck::EndBeforeStart), None);
    assert_eq!(form.status(), Some(("End time must be >= start time.".to_string(), true)));
}

#[test]
fn apply_refuses_empty_text() {
    let mut form = loaded_form();
    form.toggle_line_deleted(0);
    form.toggle_line_deleted(1);
    assert_eq!(form.apply_selected(TimingCheck::Ordered), None);
    assert_eq!(form.status(), Some(("Subtitle text cannot be empty.".to_string(), true)));
}

#[test]
fn saved_edit_clears_dirty() {
    let mut form = loaded_form();
    form.edit_end_text("4.00");
    assert!(form.is_dirty());
    form.edit_saved(Ok(()));
    assert!(!form.is_dirty());
    assert_eq!(form.status(), Some(("Subtitle updated.".to_string(), false)));
    form.edit_saved(Err("update failed".to_string()));
    assert_eq!(form.status(), Some(("update failed".to_string(), true)));
}

#[test]
fn reload_only_clean_selected_subtitle() {
    let mut form = loaded_form();
    assert!(form.should_reload(7));
    assert!(!form.should_reload(8));
    form.edit_start_text("0.50");
    assert!(!form.should_reload(7));
}

#[test]
fn reset_clears_everything() {
    let mut form = loaded_form();
    form.edit_line_text(0, "changed");
    form.set_status("note".to_string(), false);
    form.reset();
    assert_eq!(form.selected_id(), None);
    assert!(!form.is_dirty());
    assert!(form.status().is_none());
    assert!(form.collect_lines().is_empty());
}

#[test]
fn loading_missing_subtitle_clears_selection() {
    let mut form = loaded_form();
    form.load_selected(3, None);
    assert_eq!(form.selected_id(), None);
    assert!(form.collect_lines().is_empty());
}

#[test]
fn search_query_follows_search_box() {
    let mut form = SubtitleEditorForm::new(true);
    form.set_search_text("hello");
    assert_eq!(form.search_query(), "hello");
}

#[test]
fn seconds_text_requires_a_value() {
    assert_eq!(seconds_text("Start", "   "), Err("Start time (s) is required.".to_string()));
    assert_eq!(seconds_text("End", " 1.5 "), Ok("1.5".to_string()));
}

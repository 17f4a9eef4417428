use subtitle_fast::text_input::{cursor_blink_on, CaretPaint, InputKind, StyledRun, TextInput};

fn input_with(kind: InputKind, text: &str) -> TextInput {
    let mut input = TextInput::new("placeholder", kind);
    input.set_text(text);
    input
}

#[test]
fn new_input_is_empty_with_cursor_at_start() {
    let input = TextInput::new("Search", InputKind::Text);
    assert_eq!(input.text(), "");
    assert_eq!(input.placeholder(), "Search");
    assert_eq!(input.cursor_offset(), 0);
    assert!(!input.is_invalid());
    assert!(input.marked_text_range().is_none());
}

#[test]
fn set_invalid_marks_input() {
    let mut input = TextInput::new("", InputKind::Integer);
    input.set_invalid(true);
    assert!(input.is_invalid());
    input.set_invalid(false);
    assert!(!input.is_invalid());
}

#[test]
fn set_text_puts_cursor_at_end() {
    let input = input_with(InputKind::Text, "héllo");
    assert_eq!(input.text(), "héllo");
    assert_eq!(input.cursor_offset(), 6);
    let (range, reversed) = input.selected_text_range();
    assert_eq!(range, 5..5);
    assert!(!reversed);
}

#[test]
fn integer_input_keeps_only_digits() {
    let mut input = TextInput::new("", InputKind::Integer);
    input.replace_text_in_range(None, "12a3-4");
    assert_eq!(input.text(), "1234");
    assert_eq!(input.cursor_offset(), 4);
}

#[test]
fn float_input_refuses_second_point() {
    let mut input = input_with(InputKind::Float, "1.5");
    input.replace_text_in_range(None, "2.7");
    assert_eq!(input.text(), "1.527");
    assert_eq!(input.cursor_offset(), 5);
}

#[test]
fn float_input_accepts_point_when_replacing_the_old_one() {
    let mut input = input_with(InputKind::Float, "1.5");
    input.select_all();
    input.replace_text_in_range(None, "3.25.1x");
    assert_eq!(input.text(), "3.251");
}

#[test]
fn text_input_drops_line_breaks() {
    let mut input = TextInput::new("", InputKind::Text);
    input.replace_text_in_range(None, "a\nb\rc");
    assert_eq!(input.text(), "abc");
}

#[test]
fn filter_input_reports_kept_text() {
    let input = input_with(InputKind::Float, "0.5");
    assert_eq!(input.filter_input(&(0..3), "1.2"), "1.2");
    assert_eq!(input.filter_input(&(3..3), "1.2"), "12");
}

#[test]
fn utf16_offsets_convert_both_ways() {
    let input = input_with(InputKind::Text, "a\u{1F600}b");
    assert_eq!(input.offset_to_utf16(0), 0);
    assert_eq!(input.offset_to_utf16(1), 1);
    assert_eq!(input.offset_to_utf16(5), 3);
    assert_eq!(input.offset_to_utf16(6), 4);
    assert_eq!(input.offset_from_utf16(1), 1);
    assert_eq!(input.offset_from_utf16(3), 5);
    assert_eq!(input.offset_from_utf16(4), 6);
    // An offset inside the surrogate pair lands after the character.
    assert_eq!(input.offset_from_utf16(2), 5);
    assert_eq!(input.offset_to_utf16(2), 3);
    assert_eq!(input.range_to_utf16(&(1..5)), 1..3);
    assert_eq!(input.range_from_utf16(&(1..3)), 1..5);
}

#[test]
fn boundaries_step_over_whole_characters() {
    let input = input_with(InputKind::Text, "a\u{1F600}b");
    assert_eq!(input.previous_boundary(0), 0);
    assert_eq!(input.previous_boundary(5), 1);
    assert_eq!(input.previous_boundary(6), 5);
    assert_eq!(input.previous_boundary(100), 5);
    assert_eq!(input.next_boundary(0), 1);
    assert_eq!(input.next_boundary(1), 5);
    assert_eq!(input.next_boundary(5), 6);
    assert_eq!(input.next_boundary(6), 6);
}

#[test]
fn arrows_move_by_character() {
    let mut input = input_with(InputKind::Text, "abc");
    input.left();
    assert_eq!(input.cursor_offset(), 2);
    input.left();
    input.right();
    assert_eq!(input.cursor_offset(), 2);
    input.home();
    assert_eq!(input.cursor_offset(), 0);
    input.left();
    assert_eq!(input.cursor_offset(), 0);
    input.end();
    assert_eq!(input.cursor_offset(), 3);
}

#[test]
fn shift_arrows_select_and_flip() {
    let mut input = input_with(InputKind::Text, "abc");
    input.select_left();
    input.select_left();
    let (range, reversed) = input.selected_text_range();
    assert_eq!(range, 1..3);
    assert!(reversed);
    assert_eq!(input.cursor_offset(), 1);
    assert_eq!(input.copy(), Some("bc".to_string()));
    input.select_right();
    input.select_right();
    input.select_right();
    let (range, reversed) = input.selected_text_range();
    assert_eq!(range, 3..3);
    assert!(reversed);
}

#[test]
fn left_with_selection_collapses_to_start() {
    let mut input = input_with(InputKind::Text, "abcd");
    input.select_left();
    input.select_left();
    input.left();
    assert_eq!(input.selected_text_range().0, 2..2);
    input.select_right();
    input.right();
    assert_eq!(input.selected_text_range().0, 3..3);
}

#[test]
fn backspace_removes_whole_multibyte_character() {
    let mut input = input_with(InputKind::Text, "a\u{1F600}");
    input.backspace();
    assert_eq!(input.text(), "a");
    assert_eq!(input.cursor_offset(), 1);
}

#[test]
fn delete_removes_next_character() {
    let mut input = input_with(InputKind::Text, "abc");
    input.home();
    input.delete();
    assert_eq!(input.text(), "bc");
    assert_eq!(input.cursor_offset(), 0);
}

#[test]
fn select_all_then_backspace_clears() {
    let mut input = input_with(InputKind::Text, "subtitle");
    input.select_all();
    input.backspace();
    assert_eq!(input.text(), "");
    assert_eq!(input.cursor_offset(), 0);
}

#[test]
fn copy_without_selection_gives_nothing() {
    let input = input_with(InputKind::Text, "abc");
    assert_eq!(input.copy(), None);
}

#[test]
fn cut_removes_selection() {
    let mut input = input_with(InputKind::Text, "abc");
    input.select_left();
    input.select_left();
    assert_eq!(input.cut(), Some("bc".to_string()));
    assert_eq!(input.text(), "a");
    assert_eq!(input.cursor_offset(), 1);
    let mut empty = input_with(InputKind::Text, "abc");
    assert_eq!(empty.cut(), None);
    assert_eq!(empty.text(), "abc");
}

#[test]
fn paste_turns_newlines_into_spaces() {
    let mut input = TextInput::new("", InputKind::Text);
    input.paste("x\ny\nz");
    assert_eq!(input.text(), "x y z");
    assert_eq!(input.cursor_offset(), 5);
}

#[test]
fn composition_marks_and_commits() {
    let mut input = TextInput::new("", InputKind::Text);
    input.replace_and_mark_text_in_range(None, "ni", Some(0..2));
    assert_eq!(input.text(), "ni");
    assert_eq!(input.marked_text_range(), Some(0..2));
    assert_eq!(input.selected_text_range().0, 0..2);
    input.replace_text_in_range(None, "\u{4F60}");
    assert_eq!(input.text(), "\u{4F60}");
    assert_eq!(input.cursor_offset(), 3);
    assert!(input.marked_text_range().is_none());
}

#[test]
fn composition_without_selection_leaves_nothing_marked() {
    let mut input = input_with(InputKind::Text, "ab");
    input.replace_and_mark_text_in_range(Some(0..1), "x", None);
    assert_eq!(input.text(), "xb");
    assert_eq!(input.cursor_offset(), 1);
    assert!(input.marked_text_range().is_none());
    input.unmark_text();
    assert!(input.marked_text_range().is_none());
}

#[test]
fn text_for_range_reports_actual_range() {
    let input = input_with(InputKind::Text, "a\u{1F600}b");
    let (text, actual) = input.text_for_range(1..3);
    assert_eq!(text, "\u{1F600}");
    assert_eq!(actual, 1..3);
    let (text, actual) = input.text_for_range(2..4);
    assert_eq!(text, "b");
    assert_eq!(actual, 3..4);
}

#[test]
fn mouse_drag_extends_selection() {
    let mut input = input_with(InputKind::Text, "hello");
    input.on_mouse_down(1, false);
    input.on_mouse_move(4);
    input.on_mouse_up();
    input.on_mouse_move(5);
    assert_eq!(input.selected_text_range().0, 1..4);
    input.on_mouse_down(2, true);
    assert_eq!(input.selected_text_range().0, 1..2);
}

#[test]
fn empty_input_shows_its_placeholder_in_one_run() {
    let input = TextInput::new("Search", InputKind::Text);
    let (text, placeholder, runs) = input.display_line();
    assert_eq!(text, "Search");
    assert!(placeholder);
    assert_eq!(runs, vec![StyledRun { len: 6, underline: false }]);
}

#[test]
fn composing_text_is_underlined_between_plain_runs() {
    let mut input = input_with(InputKind::Text, "ab");
    input.move_to(1);
    input.replace_and_mark_text_in_range(None, "é", Some(1..2));
    assert_eq!(input.text(), "aéb");
    let (text, placeholder, runs) = input.display_line();
    assert_eq!(text, "aéb");
    assert!(!placeholder);
    assert_eq!(
        runs,
        vec![
            StyledRun { len: 1, underline: false },
            StyledRun { len: 2, underline: true },
            StyledRun { len: 1, underline: false }
        ]
    );
}

#[test]
fn marked_range_at_the_end_leaves_no_empty_run() {
    let mut input = input_with(InputKind::Text, "ab");
    input.replace_and_mark_text_in_range(None, "cd", Some(2..4));
    let (_, _, runs) = input.display_line();
    assert_eq!(
        runs,
        vec![StyledRun { len: 2, underline: false }, StyledRun { len: 2, underline: true }]
    );
}

#[test]
fn caret_blinks_every_half_second_while_focused() {
    assert!(cursor_blink_on(true, 0));
    assert!(cursor_blink_on(true, 499));
    assert!(!cursor_blink_on(true, 500));
    assert!(cursor_blink_on(true, 1000));
    assert!(!cursor_blink_on(false, 0));
}

#[test]
fn caret_or_selection_is_painted() {
    let mut input = input_with(InputKind::Text, "abc");
    assert_eq!(input.caret_paint(true), CaretPaint::Cursor);
    assert_eq!(input.caret_paint(false), CaretPaint::Selection);
    input.select_to(1);
    assert_eq!(input.caret_paint(true), CaretPaint::Selection);
}

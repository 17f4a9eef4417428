use subtitle_fast::color_picker::{color_options, ColorPicker};

#[test]
fn palette_lists_nine_colours() {
    let options = color_options();
    assert_eq!(options.len(), 9);
    assert_eq!(options[0], ("Crimson", 0xE53935));
    assert_eq!(options[8], ("Magenta", 0xD81B60));
}

#[test]
fn new_picker_starts_on_first_colour() {
    let (picker, color) = ColorPicker::new();
    assert_eq!(picker, ColorPicker { open: false, selected: 0, enabled: false });
    assert_eq!(color, 0xE53935);
}

#[test]
fn choosing_publishes_only_changes() {
    let (mut picker, _) = ColorPicker::new();
    assert_eq!(picker.set_selected(0), None);
    assert_eq!(picker.set_selected(2), Some(0xFDD835));
    assert_eq!(picker.selected_color(), 0xFDD835);
    assert_eq!(picker.set_selected(20), Some(0xE53935));
}

#[test]
fn disabled_picker_does_not_open() {
    let (mut picker, _) = ColorPicker::new();
    picker.toggle_open();
    assert!(!picker.open);
    picker.set_enabled(true);
    picker.toggle_open();
    assert!(picker.open);
    picker.set_enabled(false);
    assert!(!picker.open);
}

#[test]
fn selecting_closes_popup() {
    let (mut picker, _) = ColorPicker::new();
    picker.set_enabled(true);
    picker.toggle_open();
    assert_eq!(picker.select(4), Some(0x43A047));
    assert!(!picker.open);
    assert_eq!(picker.select(4), None);
}

use subtitle_fast::luma_controls::{LumaField, VideoLumaControls, VideoLumaValues};

#[test]
fn sliders_start_at_default_band() {
    let (controls, values) = VideoLumaControls::new();
    assert_eq!(values, VideoLumaValues { target: 230, delta: 12 });
    assert_eq!(controls.value(LumaField::Target), 230);
    assert_eq!(controls.value(LumaField::Delta), 12);
    assert!(!controls.enabled);
}

#[test]
fn set_values_publishes_only_changes() {
    let (mut controls, _) = VideoLumaControls::new();
    assert_eq!(controls.set_values(230, 12), None);
    assert_eq!(controls.set_values(200, 12), Some(VideoLumaValues { target: 200, delta: 12 }));
    assert_eq!(controls.set_value(LumaField::Delta, 12), None);
    assert_eq!(controls.set_value(LumaField::Delta, 30), Some(VideoLumaValues { target: 200, delta: 30 }));
}

#[test]
fn disabling_ends_drag_and_hover() {
    let (mut controls, _) = VideoLumaControls::new();
    controls.set_enabled(true);
    controls.begin_drag(LumaField::Target, Some(100));
    assert_eq!(controls.dragging, Some(LumaField::Target));
    assert!(controls.target_state.hovered);
    assert_eq!(controls.target, 100);
    controls.set_enabled(false);
    assert_eq!(controls.dragging, None);
    assert!(!controls.target_state.hovered);
    assert_eq!(controls.target_state.hover_token, 1);
}

#[test]
fn drag_follows_pointer_until_release() {
    let (mut controls, _) = VideoLumaControls::new();
    assert_eq!(controls.update_drag(Some(50)), None);
    controls.begin_drag(LumaField::Delta, None);
    assert_eq!(controls.update_drag(Some(40)), Some(VideoLumaValues { target: 230, delta: 40 }));
    assert_eq!(controls.update_drag(None), None);
    assert_eq!(controls.end_drag(Some(45), false), Some(VideoLumaValues { target: 230, delta: 45 }));
    assert_eq!(controls.dragging, None);
    assert!(!controls.delta_state.hovered);
    assert!(controls.delta_state.hover_from);
}

#[test]
fn hover_changes_bump_token() {
    let (mut controls, _) = VideoLumaControls::new();
    assert!(controls.set_hovered(LumaField::Target, true));
    assert!(!controls.set_hovered(LumaField::Target, true));
    assert!(controls.set_hovered(LumaField::Target, false));
    assert_eq!(controls.target_state.hover_token, 2);
    assert!(controls.target_state.hover_from);
    assert_eq!(controls.delta_state.hover_token, 0);
}

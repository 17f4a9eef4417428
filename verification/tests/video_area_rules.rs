use subtitle_fast::session::{VideoToolbarState, VideoViewMode};
use subtitle_fast::toolbar::{
    preprocessor_choice, toolbar_availability, view_button_clickable, PreprocessorChoice,
    ReplayOverlay, ToolbarLinks,
};

fn links(controls: bool) -> ToolbarLinks {
    ToolbarLinks { controls, roi_overlay: true, luma: true, color: true, roi: true }
}

fn state(view: VideoViewMode, highlight: bool) -> VideoToolbarState {
    VideoToolbarState {
        view,
        roi_visible: false,
        highlight_visible: highlight,
        validator_overlay_visible: false,
    }
}

#[test]
fn toggles_respond_only_with_what_they_need() {
    let all = toolbar_availability(links(true));
    assert!(all.roi && all.highlight && all.validator);
    assert_eq!(toolbar_availability(links(false)), toolbar_availability(ToolbarLinks {
        controls: false,
        roi_overlay: false,
        luma: false,
        color: false,
        roi: false
    }));
    let no_roi = toolbar_availability(ToolbarLinks { roi: false, ..links(true) });
    assert!(no_roi.highlight && !no_roi.validator);
    assert!(view_button_clickable(true, false));
    assert!(!view_button_clickable(true, true));
    assert!(!view_button_clickable(false, false));
}

#[test]
fn preprocessor_follows_the_toggles_and_the_view() {
    assert_eq!(preprocessor_choice(state(VideoViewMode::Y, true), links(false)), PreprocessorChoice::Untouched);
    assert_eq!(
        preprocessor_choice(state(VideoViewMode::Y, true), links(true)),
        PreprocessorChoice::Overlay { highlight: true, validator: false, grayscale: true }
    );
    assert_eq!(preprocessor_choice(state(VideoViewMode::Y, false), links(true)), PreprocessorChoice::LumaPlane);
    assert_eq!(preprocessor_choice(state(VideoViewMode::Yuv, false), links(true)), PreprocessorChoice::Remove);
}

#[test]
fn replay_overlay_shows_after_the_end_until_dismissed() {
    let mut overlay = ReplayOverlay::new();
    assert!(!overlay.sync(true, false, false));
    assert!(overlay.sync(true, true, false));
    assert!(overlay.visible);
    overlay.replay_pressed();
    assert!(!overlay.sync(true, true, false));
    assert!(!overlay.visible);
    assert!(!overlay.sync(false, true, false));
    assert!(!overlay.dismissed);
    assert!(overlay.sync(true, true, false));
    assert!(overlay.sync(true, true, true));
    overlay.reset();
    assert_eq!(overlay, ReplayOverlay::new());
}

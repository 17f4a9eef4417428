//! Small rules of the video area: which toolbar buttons respond, which
//! frame preprocessor the toolbar asks for, and when the replay overlay
//! shows over an ended video.

use vstd::prelude::*;

use crate::session::{VideoToolbarState, VideoViewMode};

verus! {

/// What the toolbar is connected to.
#[derive(Clone, Copy, Debug, PartialEq, Eq, Structural)]
pub struct ToolbarLinks {
    /// Player controls (a video is loaded).
    pub controls: bool,
    pub roi_overlay: bool,
    pub luma: bool,
    pub color: bool,
    pub roi: bool,
}

/// Which toggle buttons respond to clicks.
#[derive(Clone, Copy, Debug, PartialEq, Eq, Structural)]
pub struct ToolbarAvailability {
    pub roi: bool,
    pub highlight: bool,
    pub validator: bool,
}

/// The toggles respond only with a video loaded: the region toggle with a
/// region overlay, the highlight with the luma and colour settings, the
/// validator overlay with those and the region settings too.
pub fn toolbar_availability(links: ToolbarLinks) -> (res: ToolbarAvailability)
    ensures
        res.roi == (links.controls && links.roi_overlay),
        res.highlight == (links.controls && links.luma && links.color),
        res.validator == (links.controls && links.luma && links.color && links.roi),
{
    ToolbarAvailability {
        roi: links.controls && links.roi_overlay,
        highlight: links.controls && links.luma && links.color,
        validator: links.controls && links.luma && links.color && links.roi,
    }
}

/// A view-mode button responds when a video is loaded and it is not the
/// current mode.
pub fn view_button_clickable(enabled: bool, active: bool) -> (res: bool)
    ensures
        res == (enabled && !active),
{
    enabled && !active
}

/// The frame preprocessor the toolbar asks the player for.
#[derive(Clone, Copy, Debug, PartialEq, Eq, Structural)]
pub enum PreprocessorChoice {
    /// No player to ask.
    Untouched,
    /// The luma and region overlay, in grayscale or not.
    Overlay { highlight: bool, validator: bool, grayscale: bool },
    /// The luma plane alone.
    LumaPlane,
    /// No preprocessor.
    Remove,
}

/// The preprocessor: none without a player; the overlay when the
/// highlight or the validator overlay is on and the luma, colour and
/// region settings are linked; else the luma plane in `Y` view, or none.
pub fn preprocessor_choice(state: VideoToolbarState, links: ToolbarLinks) -> (res: PreprocessorChoice)
    ensures
        !links.controls ==> res == PreprocessorChoice::Untouched,
        links.controls && (state.highlight_visible || state.validator_overlay_visible) && links.luma
            && links.color && links.roi ==> res == (PreprocessorChoice::Overlay {
            highlight: state.highlight_visible,
            validator: state.validator_overlay_visible,
            grayscale: state.view == VideoViewMode::Y,
        }),
        links.controls && !((state.highlight_visible || state.validator_overlay_visible)
            && links.luma && links.color && links.roi) ==> res == (if state.view == VideoViewMode::Y {
            PreprocessorChoice::LumaPlane
        } else {
            PreprocessorChoice::Remove
        }),
{
    if !links.controls {
        return PreprocessorChoice::Untouched;
    }
    if (state.highlight_visible || state.validator_overlay_visible) && links.luma && links.color
        && links.roi {
        return PreprocessorChoice::Overlay {
            highlight: state.highlight_visible,
            validator: state.validator_overlay_visible,
            grayscale: state.view == VideoViewMode::Y,
        };
    }
    match state.view {
        VideoViewMode::Yuv => PreprocessorChoice::Remove,
        VideoViewMode::Y => PreprocessorChoice::LumaPlane,
    }
}

/// The replay overlay over an ended video, and whether the viewer
/// dismissed it.
#[derive(Clone, Copy, Debug, PartialEq, Eq, Structural)]
pub struct ReplayOverlay {
    pub visible: bool,
    pub dismissed: bool,
}

impl ReplayOverlay {
    /// Hidden, not dismissed.
    pub fn new() -> (res: ReplayOverlay)
        ensures
            res == (ReplayOverlay { visible: false, dismissed: false }),
    {
        ReplayOverlay { visible: false, dismissed: false }
    }

    /// Follows the playback state: the overlay shows once playback ended
    /// with a frame shown and no scrubbing, unless dismissed; a dismissal
    /// lasts until playback is no longer ended. Returns whether the
    /// visibility changed.
    pub fn sync(&mut self, ended: bool, has_frame: bool, scrubbing: bool) -> (changed: bool)
        ensures
            final(self).dismissed == (old(self).dismissed && ended && has_frame && !scrubbing),
            final(self).visible == (ended && has_frame && !scrubbing && !final(self).dismissed),
            changed == (final(self).visible != old(self).visible),
    {
        let shown_ended = ended && has_frame && !scrubbing;
        if !shown_ended {
            self.dismissed = false;
        }
        let visible = shown_ended && !self.dismissed;
        let changed = self.visible != visible;
        self.visible = visible;
        changed
    }

    /// The replay button was pressed: hide the overlay until playback ends
    /// again.
    pub fn replay_pressed(&mut self)
        ensures
            *final(self) == (ReplayOverlay { visible: false, dismissed: true }),
    {
        self.dismissed = true;
        self.visible = false;
    }

    /// A video was opened or reloaded: hidden, not dismissed.
    pub fn reset(&mut self)
        ensures
            *final(self) == (ReplayOverlay { visible: false, dismissed: false }),
    {
        self.dismissed = false;
        self.visible = false;
    }
}

} // verus!

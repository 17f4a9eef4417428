//! The luma band sliders (target and delta): their values, which one is
//! being dragged, hover state, and when a change must be published.

use vstd::prelude::*;

use crate::settings::{DEFAULT_DELTA, DEFAULT_TARGET};

verus! {

/// One of the two sliders.
#[derive(Clone, Copy, Debug, PartialEq, Eq, Structural)]
pub enum LumaField {
    Target,
    Delta,
}

/// The band values the sliders publish.
#[derive(Clone, Copy, Debug, PartialEq, Eq, Structural)]
pub struct VideoLumaValues {
    pub target: u8,
    pub delta: u8,
}

/// Hover state of one slider; the token changes with every hover change
/// so an animation can tell it was superseded.
#[derive(Clone, Copy, Debug, PartialEq, Eq, Structural)]
pub struct SliderState {
    pub hovered: bool,
    pub hover_from: bool,
    pub hover_token: u64,
}

/// The sliders' state.
#[derive(Clone, Copy, Debug, PartialEq, Eq, Structural)]
pub struct VideoLumaControls {
    pub target: u8,
    pub delta: u8,
    pub dragging: Option<LumaField>,
    pub enabled: bool,
    pub target_state: SliderState,
    pub delta_state: SliderState,
}

/// A slider that is not hovered.
pub open spec fn idle_slider() -> SliderState {
    SliderState { hovered: false, hover_from: false, hover_token: 0 }
}

impl VideoLumaControls {
    /// Disabled sliders at the default band; also the values they publish.
    pub fn new() -> (res: (VideoLumaControls, VideoLumaValues))
        ensures
            res.0 == (VideoLumaControls {
                target: DEFAULT_TARGET,
                delta: DEFAULT_DELTA,
                dragging: None,
                enabled: false,
                target_state: idle_slider(),
                delta_state: idle_slider(),
            }),
            res.1 == (VideoLumaValues { target: DEFAULT_TARGET, delta: DEFAULT_DELTA }),
    {
        let idle = SliderState { hovered: false, hover_from: false, hover_token: 0 };
        (
            VideoLumaControls {
                target: DEFAULT_TARGET,
                delta: DEFAULT_DELTA,
                dragging: None,
                enabled: false,
                target_state: idle,
                delta_state: idle,
            },
            VideoLumaValues { target: DEFAULT_TARGET, delta: DEFAULT_DELTA },
        )
    }

    /// Enables or disables the sliders; a change ends any drag and clears
    /// the hover state (keeping the tokens).
    pub fn set_enabled(&mut self, enabled: bool)
        ensures
            old(self).enabled == enabled ==> *final(self) == *old(self),
            old(self).enabled != enabled ==> *final(self) == (VideoLumaControls {
                enabled,
                dragging: None,
                target_state: SliderState {
                    hovered: false,
                    hover_from: false,
                    ..old(self).target_state
                },
                delta_state: SliderState {
                    hovered: false,
                    hover_from: false,
                    ..old(self).delta_state
                },
                ..*old(self)
            }),
    {
        if self.enabled == enabled {
            return;
        }
        self.enabled = enabled;
        self.dragging = None;
        self.target_state.hovered = false;
        self.target_state.hover_from = false;
        self.delta_state.hovered = false;
        self.delta_state.hover_from = false;
    }

    /// Sets both values; returns the values to publish when they changed.
    pub fn set_values(&mut self, target: u8, delta: u8) -> (res: Option<VideoLumaValues>)
        ensures
            old(self).target == target && old(self).delta == delta ==> res is None && *final(self)
                == *old(self),
            !(old(self).target == target && old(self).delta == delta) ==> res == Some(
                VideoLumaValues { target, delta },
            ) && *final(self) == (VideoLumaControls { target, delta, ..*old(self) }),
    {
        if self.target == target && self.delta == delta {
            return None;
        }
        self.target = target;
        self.delta = delta;
        Some(VideoLumaValues { target: self.target, delta: self.delta })
    }

    /// The value of one slider.
    pub fn value(&self, field: LumaField) -> (res: u8)
        ensures
            res == (match field {
                LumaField::Target => self.target,
                LumaField::Delta => self.delta,
            }),
    {
        match field {
            LumaField::Target => self.target,
            LumaField::Delta => self.delta,
        }
    }

    /// Sets one slider; returns the values to publish when it changed.
    pub fn set_value(&mut self, field: LumaField, value: u8) -> (res: Option<VideoLumaValues>)
        ensures
            old(self).value_of(field) == value ==> res is None && *final(self) == *old(self),
            old(self).value_of(field) != value ==> *final(self) == old(self).with_value(field, value)
                && res == Some(
                VideoLumaValues { target: final(self).target, delta: final(self).delta },
            ),
    {
        let changed = match field {
            LumaField::Target => {
                if self.target == value {
                    false
                } else {
                    self.target = value;
                    true
                }
            },
            LumaField::Delta => {
                if self.delta == value {
                    false
                } else {
                    self.delta = value;
                    true
                }
            },
        };
        if changed {
            Some(VideoLumaValues { target: self.target, delta: self.delta })
        } else {
            None
        }
    }

    /// The value of one slider.
    pub open spec fn value_of(self, field: LumaField) -> u8 {
        match field {
            LumaField::Target => self.target,
            LumaField::Delta => self.delta,
        }
    }

    /// The state with one slider at `value`.
    pub open spec fn with_value(self, field: LumaField, value: u8) -> Self {
        match field {
            LumaField::Target => VideoLumaControls { target: value, ..self },
            LumaField::Delta => VideoLumaControls { delta: value, ..self },
        }
    }

    /// The hover state of one slider.
    pub open spec fn slider(self, field: LumaField) -> SliderState {
        match field {
            LumaField::Target => self.target_state,
            LumaField::Delta => self.delta_state,
        }
    }

    /// The pointer entered or left a slider: a change is recorded with the
    /// previous state and a new token (wrapping).
    pub fn set_hovered(&mut self, field: LumaField, hovered: bool) -> (res: bool)
        ensures
            res == (old(self).slider(field).hovered != hovered),
            !res ==> *final(self) == *old(self),
            res ==> final(self).slider(field) == (SliderState {
                hover_from: old(self).slider(field).hovered,
                hovered,
                hover_token: if old(self).slider(field).hover_token == u64::MAX {
                    0
                } else {
                    (old(self).slider(field).hover_token + 1) as u64
                },
            }),
            final(self).target == old(self).target,
            final(self).delta == old(self).delta,
            final(self).dragging == old(self).dragging,
            final(self).enabled == old(self).enabled,
            field == LumaField::Target ==> final(self).delta_state == old(self).delta_state,
            field == LumaField::Delta ==> final(self).target_state == old(self).target_state,
    {
        let mut state = match field {
            LumaField::Target => self.target_state,
            LumaField::Delta => self.delta_state,
        };
        if state.hovered == hovered {
            return false;
        }
        state.hover_from = state.hovered;
        state.hovered = hovered;
        state.hover_token = state.hover_token.wrapping_add(1);
        match field {
            LumaField::Target => self.target_state = state,
            LumaField::Delta => self.delta_state = state,
        }
        true
    }

    /// A drag starts on a slider: it is dragged and hovered, and takes the
    /// value under the pointer when there is one.
    pub fn begin_drag(&mut self, field: LumaField, value: Option<u8>) -> (res: Option<
        VideoLumaValues,
    >)
        ensures
            final(self).dragging == Some(field),
            final(self).slider(field).hovered,
            match value {
                Some(v) => final(self).value_of(field) == v && res == (if old(self).value_of(field)
                    == v {
                    None
                } else {
                    Some(VideoLumaValues { target: final(self).target, delta: final(self).delta })
                }),
                None => res is None && final(self).target == old(self).target && final(self).delta
                    == old(self).delta,
            },
    {
        self.dragging = Some(field);
        self.set_hovered(field, true);
        match value {
            Some(v) => self.set_value(field, v),
            None => None,
        }
    }

    /// The pointer moved: a dragged slider takes the value under it.
    pub fn update_drag(&mut self, value: Option<u8>) -> (res: Option<VideoLumaValues>)
        ensures
            final(self).dragging == old(self).dragging,
            match (old(self).dragging, value) {
                (Some(field), Some(v)) => final(self).value_of(field) == v && res == (if old(
                    self,
                ).value_of(field) == v {
                    None
                } else {
                    Some(VideoLumaValues { target: final(self).target, delta: final(self).delta })
                }),
                _ => res is None && *final(self) == *old(self),
            },
    {
        let field = match self.dragging {
            Some(field) => field,
            None => return None,
        };
        match value {
            Some(v) => self.set_value(field, v),
            None => None,
        }
    }

    /// The drag ends: the slider takes the value under the pointer when
    /// there is one, stops being dragged, and stays hovered only when the
    /// pointer is still over it.
    pub fn end_drag(&mut self, value: Option<u8>, still_over: bool) -> (res: Option<
        VideoLumaValues,
    >)
        ensures
            final(self).dragging is None,
            old(self).dragging is None ==> res is None && *final(self) == *old(self),
            old(self).dragging matches Some(field) ==> final(self).slider(field).hovered == still_over
                && match value {
                Some(v) => final(self).value_of(field) == v && res == (if old(self).value_of(field)
                    == v {
                    None
                } else {
                    Some(VideoLumaValues { target: final(self).target, delta: final(self).delta })
                }),
                None => res is None && final(self).target == old(self).target && final(self).delta
                    == old(self).delta,
            },
    {
        let field = match self.dragging {
            Some(field) => field,
            None => return None,
        };
        let published = match value {
            Some(v) => self.set_value(field, v),
            None => None,
        };
        self.dragging = None;
        self.set_hovered(field, still_over);
        published
    }
}

} // verus!

//! Playback controls under the video: the play/pause button's state while
//! the player catches up, frame jogging, and the time and frame labels.

use vstd::prelude::*;

use crate::text::{decimal_spec, format_decimal};

verus! {

/// The play/pause button: what it shows, and the state it asked the player
/// for that the player has not reported yet.
#[derive(Clone, Copy, Debug, PartialEq, Eq, Structural)]
pub struct PlaybackToggle {
    pub paused: bool,
    pub pending_paused: Option<bool>,
}

impl PlaybackToggle {
    /// The state after a press: flipped, waiting for the player to report
    /// the new state.
    pub open spec fn toggled(self) -> PlaybackToggle {
        PlaybackToggle { paused: !self.paused, pending_paused: Some(!self.paused) }
    }

    /// The state after the player reported `paused`: while a request is
    /// pending only the requested state is taken, and ends the wait.
    pub open spec fn synced(self, paused: bool) -> PlaybackToggle {
        match self.pending_paused {
            Some(pending) => if pending == paused {
                PlaybackToggle { paused, pending_paused: None }
            } else {
                self
            },
            None => PlaybackToggle { paused, pending_paused: None },
        }
    }

    /// The state of fresh controls: playing, nothing pending.
    pub fn new() -> (res: PlaybackToggle)
        ensures
            res == (PlaybackToggle { paused: false, pending_paused: None }),
    {
        PlaybackToggle { paused: false, pending_paused: None }
    }

    /// New player handles: paused, nothing pending.
    pub fn reset_for_handles(&mut self)
        ensures
            *final(self) == (PlaybackToggle { paused: true, pending_paused: None }),
    {
        self.paused = true;
        self.pending_paused = None;
    }

    /// The button was pressed: without a player nothing happens (and
    /// `false` is returned); else the button flips at once, remembers the
    /// state it asked for, and `true` says to send the toggle.
    pub fn toggle_playback(&mut self, has_player: bool) -> (res: bool)
        ensures
            res == has_player,
            !has_player ==> *final(self) == *old(self),
            has_player ==> *final(self) == old(self).toggled(),
    {
        if !has_player {
            return false;
        }
        self.paused = !self.paused;
        self.pending_paused = Some(self.paused);
        true
    }

    /// The player reported `paused`. While a request is pending only the
    /// requested state is taken (and ends the wait); reports of the old
    /// state are ignored.
    pub fn sync_paused(&mut self, paused: bool)
        ensures
            *final(self) == old(self).synced(paused),
    {
        match self.pending_paused {
            Some(pending) => {
                if pending == paused {
                    self.pending_paused = None;
                    self.paused = paused;
                }
            },
            None => {
                if self.paused != paused {
                    self.paused = paused;
                }
            },
        }
    }
}

/// A press of the button is not undone by the player's late report of the
/// state it had before; its report of the new state settles the button.
pub proof fn lemma_toggle_survives_stale_report(state: PlaybackToggle)
    ensures
        state.toggled().synced(state.paused) == state.toggled(),
        state.toggled().synced(!state.paused) == (PlaybackToggle {
            paused: !state.paused,
            pending_paused: None,
        }),
{
}

/// The frame to jog to: `delta` frames from the current one, kept at or
/// above 0 and, when the total is known, at or below the last frame. No
/// jog forward once the video ended, nor without a current frame.
pub open spec fn jog_target(ended: bool, delta: int, current: Option<u64>, total_frames: u64) -> Option<
    int,
> {
    if ended && delta > 0 {
        None
    } else {
        match current {
            None => None,
            Some(frame) => {
                let target = frame + delta;
                let floored = if target < 0 {
                    0
                } else {
                    target
                };
                if total_frames > 0 && floored > total_frames - 1 {
                    Some(total_frames - 1)
                } else {
                    Some(floored)
                }
            },
        }
    }
}

/// The frame to seek to when jogging by `delta_frames` (see
/// [`jog_target`]), or none when there is no jog.
pub fn seek_relative_frames(
    ended: bool,
    delta_frames: i64,
    current_frame: Option<u64>,
    total_frames: u64,
) -> (res: Option<u64>)
    requires
        current_frame matches Some(f) ==> f <= i64::MAX && i64::MIN <= f + delta_frames <= i64::MAX,
        total_frames <= i64::MAX,
    ensures
        match jog_target(ended, delta_frames as int, current_frame, total_frames) {
            Some(t) => res == Some(t as u64),
            None => res is None,
        },
{
    if ended && delta_frames > 0 {
        return None;
    }
    let current = match current_frame {
        Some(frame) => frame,
        None => return None,
    };
    let mut target = current as i64 + delta_frames;
    if target < 0 {
        target = 0;
    }
    if total_frames > 0 {
        let max_index = total_frames.saturating_sub(1) as i64;
        if target > max_index {
            target = max_index;
        }
    }
    Some(target as u64)
}

/// `n` (below 60) as two digits.
pub open spec fn two_digits(n: nat) -> Seq<char> {
    if n < 10 {
        seq!['0'] + decimal_spec(n)
    } else {
        decimal_spec(n)
    }
}

/// A playback time: whole minutes, a colon, and two-digit seconds.
pub open spec fn time_label(total_secs: nat) -> Seq<char> {
    decimal_spec(total_secs / 60) + seq![':'] + two_digits(total_secs % 60)
}

/// Formats a playback position of `total_secs` whole seconds as `m:ss`.
pub fn format_time(total_secs: u64) -> (res: String)
    ensures
        res@ == time_label(total_secs as nat),
{
    let minutes = total_secs / 60;
    let seconds = total_secs % 60;
    let mut label = format_decimal(minutes);
    label.append(":");
    if seconds < 10 {
        label.append("0");
    }
    let digits = format_decimal(seconds);
    label.append(digits.as_str());
    proof {
        reveal_strlit(":");
        reveal_strlit("0");
    }
    label
}

/// The frames counter: frames seen, and the total when it is known.
pub open spec fn frames_label(samples_seen: nat, total_frames: Option<u64>) -> Seq<char> {
    match total_frames {
        Some(total) if total > 0 => decimal_spec(samples_seen) + " / "@ + decimal_spec(total as nat),
        _ => decimal_spec(samples_seen),
    }
}

/// Formats the frames counter as `seen / total`, or `seen` when the total
/// is unknown.
pub fn format_frames(samples_seen: u64, total_frames: Option<u64>) -> (res: String)
    ensures
        res@ == frames_label(samples_seen as nat, total_frames),
{
    let mut label = format_decimal(samples_seen);
    match total_frames {
        Some(total) => {
            if total > 0 {
                label.append(" / ");
                let digits = format_decimal(total);
                label.append(digits.as_str());
            }
        },
        None => {},
    }
    label
}

} // verus!

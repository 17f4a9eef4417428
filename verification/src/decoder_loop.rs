//! The decisions of the video player's decode loop: what the loop waits on
//! next, and what it does with an opened decoder, a decoded frame, the end
//! of the stream or a handled command. Opening files, decoding, pacing
//! frames against the clock and sending them to the window are left to the
//! caller, which reports back as events.

use vstd::prelude::*;

use crate::player::PlayerLoop;

verus! {

/// The open decoder session, as far as the loop's decisions need it.
#[derive(Clone, Copy, Debug, PartialEq, Eq, Structural)]
pub struct DecodeSession {
    /// Whether a decoder session is open.
    pub open: bool,
    /// The serial of the frames currently shown.
    pub active_serial: Option<u64>,
    /// Whether the playback clock runs for the current serial.
    pub started: bool,
}

/// What the loop waits on next.
#[derive(Clone, Copy, Debug, PartialEq, Eq, Structural)]
pub enum LoopWait {
    /// An open was asked for: check the input file, then report it.
    CheckInput,
    /// Nothing is open: wait for the next command.
    AwaitCommand,
    /// Paused with nothing to show: poll for a command, briefly.
    PollCommand,
    /// Decode the next frame, or take a command if one comes first.
    DecodeOrCommand,
}

/// What became of the pending seek when a decoder was opened.
#[derive(Clone, Copy, Debug, PartialEq, Eq, Structural)]
pub enum SeekOnOpen {
    /// No seek was pending.
    NonePending,
    /// The decoder took it; frames of this serial answer it.
    Taken(u64),
    /// The decoder refused it.
    Refused,
}

/// What the caller reports to the loop.
#[derive(Clone, Copy, Debug, PartialEq, Eq, Structural)]
pub enum DecoderEvent {
    /// The input file was checked: `None` when no input is set, else
    /// whether it exists.
    InputChecked(Option<bool>),
    /// A decoder was opened, and the pending seek, if any, was handed to it.
    Opened(SeekOnOpen),
    /// The decoder could not be opened.
    OpenFailed,
    /// A frame came, with its serial and its index when known.
    Frame { serial: u64, index: Option<u64> },
    /// The stream ended, or failed.
    StreamEnded,
    /// A command was handled, while polling paused (`true`) or while
    /// decoding.
    CommandHandled(bool),
}

/// What the caller does after an event.
#[derive(Clone, Copy, Debug, PartialEq, Eq, Structural)]
pub enum DecoderAction {
    Nothing,
    /// Publish that playback ended.
    PublishEnded,
    /// Open a decoder on the input, from this frame when given.
    OpenDecoder(Option<u64>),
    /// Keep the new session: publish that playback has not ended, reset
    /// the clock.
    KeepSession,
    /// Drop the newly opened decoder; the open is tried again.
    DropSession,
    /// Stop the loop.
    Stop,
    /// Drop the frame.
    SkipFrame,
    /// Show the frame: restart the clock first when its serial is new
    /// (`reset_clock`) and when it starts now (`start_clock`); wait for its
    /// time when `pace`; record its index unless it answers a seek at
    /// most one frame off the target.
    ShowFrame { reset_clock: bool, start_clock: bool, pace: bool, record_index: bool },
    /// Close the session to open the new input; reset the clock.
    CloseSession,
}

/// Whether the loop is paused for the viewer: paused or scrubbing.
pub open spec fn paused_like<S, H>(p: PlayerLoop<S, H>) -> bool {
    p.paused || p.scrubbing
}

/// What the loop waits on next.
pub open spec fn next_wait_spec<S, H>(p: PlayerLoop<S, H>, s: DecodeSession) -> LoopWait {
    if !s.open {
        if p.open_requested {
            LoopWait::CheckInput
        } else {
            LoopWait::AwaitCommand
        }
    } else if paused_like(p) && p.seek_serial is None && !(p.prime_first_frame && !p.has_frame) {
        LoopWait::PollCommand
    } else {
        LoopWait::DecodeOrCommand
    }
}

/// Whether a frame of `serial` at `index` answers the pending seek and
/// lands at most one frame off its target, so that its index is not shown.
pub open spec fn seek_frame_suppressed<S, H>(
    p: PlayerLoop<S, H>,
    serial: u64,
    index: Option<u64>,
) -> bool {
    &&& p.seek_serial == Some(serial)
    &&& p.pending_seek_frame is Some
    &&& index is Some
    &&& -1 <= index->Some_0 - p.pending_seek_frame->Some_0 <= 1
}

/// What the loop waits on next: a requested open first, else a command
/// when nothing is open; polling while paused unless a seek's frame or the
/// first frame is still to be shown; else decoding.
pub fn next_wait<S: Copy, H>(player: &PlayerLoop<S, H>, session: &DecodeSession) -> (res: LoopWait)
    ensures
        res == next_wait_spec(*player, *session),
        session.open && player.seek_serial is Some ==> res == LoopWait::DecodeOrCommand,
        session.open && !player.paused && !player.scrubbing ==> res == LoopWait::DecodeOrCommand,
        session.open && player.prime_first_frame && !player.has_frame ==> res
            == LoopWait::DecodeOrCommand,
{
    if !session.open {
        if player.open_requested {
            LoopWait::CheckInput
        } else {
            LoopWait::AwaitCommand
        }
    } else if (player.paused || player.scrubbing) && player.seek_serial.is_none() && !(
    player.prime_first_frame && !player.has_frame) {
        LoopWait::PollCommand
    } else {
        LoopWait::DecodeOrCommand
    }
}

/// What the loop waits on, case by case. With nothing open it never
/// decodes or polls, and checks the input exactly when an open was asked
/// for. With a session open it decodes whenever a seek is pending (so the
/// seek's frame is shown even while paused), whenever the first frame is
/// still to be shown, and whenever playback is neither paused nor
/// scrubbing; it polls for commands only when none of these holds.
pub proof fn lemma_next_wait_cases<S, H>(p: PlayerLoop<S, H>, s: DecodeSession)
    ensures
        !s.open ==> (next_wait_spec(p, s) == LoopWait::CheckInput <==> p.open_requested),
        !s.open ==> next_wait_spec(p, s) != LoopWait::PollCommand && next_wait_spec(p, s)
            != LoopWait::DecodeOrCommand,
        s.open && p.seek_serial is Some ==> next_wait_spec(p, s) == LoopWait::DecodeOrCommand,
        s.open && p.prime_first_frame && !p.has_frame ==> next_wait_spec(p, s)
            == LoopWait::DecodeOrCommand,
        s.open && !p.paused && !p.scrubbing ==> next_wait_spec(p, s) == LoopWait::DecodeOrCommand,
        s.open ==> (next_wait_spec(p, s) == LoopWait::PollCommand <==> ((p.paused || p.scrubbing)
            && p.seek_serial is None && !(p.prime_first_frame && !p.has_frame))),
        s.open ==> next_wait_spec(p, s) != LoopWait::CheckInput && next_wait_spec(p, s)
            != LoopWait::AwaitCommand,
{
}

/// One step of the decode loop: applies `event` to the loop's state and
/// says what the caller does next.
pub fn decode_step<S: Copy, H>(
    player: &mut PlayerLoop<S, H>,
    session: &mut DecodeSession,
    event: DecoderEvent,
) -> (action: DecoderAction)
    ensures
        final(player).input_path == old(player).input_path,
        final(player).paused == old(player).paused,
        final(player).scrubbing == old(player).scrubbing,
        final(player).preprocessors == old(player).preprocessors,
        final(player).refresh_cached == old(player).refresh_cached,
        match event {
            DecoderEvent::InputChecked(found) => {
                &&& *final(session) == *old(session)
                &&& final(player).has_frame == old(player).has_frame
                &&& final(player).prime_first_frame == old(player).prime_first_frame
                &&& final(player).pending_seek == old(player).pending_seek
                &&& final(player).pending_seek_frame == old(player).pending_seek_frame
                &&& final(player).seek_serial == old(player).seek_serial
                &&& match found {
                    Some(true) => {
                        &&& action == DecoderAction::OpenDecoder(old(player).open_start_frame)
                        &&& final(player).open_start_frame is None
                        &&& final(player).open_requested == old(player).open_requested
                    },
                    Some(false) => {
                        &&& action == DecoderAction::PublishEnded
                        &&& !final(player).open_requested
                        &&& final(player).open_start_frame == old(player).open_start_frame
                    },
                    None => {
                        &&& action == DecoderAction::Nothing
                        &&& !final(player).open_requested
                        &&& final(player).open_start_frame == old(player).open_start_frame
                    },
                }
            },
            DecoderEvent::Opened(seek) => {
                &&& final(player).has_frame == old(player).has_frame
                &&& final(player).prime_first_frame == old(player).prime_first_frame
                &&& final(player).pending_seek_frame == old(player).pending_seek_frame
                &&& final(player).open_start_frame == old(player).open_start_frame
                &&& match seek {
                    SeekOnOpen::Refused => {
                        &&& action == DecoderAction::DropSession
                        &&& *final(session) == *old(session)
                        &&& final(player).pending_seek == old(player).pending_seek
                        &&& final(player).seek_serial is None
                        &&& final(player).open_requested
                    },
                    _ => {
                        &&& action == DecoderAction::KeepSession
                        &&& *final(session) == (DecodeSession {
                            open: true,
                            active_serial: None,
                            started: false,
                        })
                        &&& !final(player).open_requested
                        &&& match seek {
                            SeekOnOpen::Taken(serial) => final(player).pending_seek is None
                                && final(player).seek_serial == Some(serial),
                            _ => final(player).pending_seek == old(player).pending_seek
                                && final(player).seek_serial == old(player).seek_serial,
                        }
                    },
                }
            },
            DecoderEvent::OpenFailed => {
                &&& action == DecoderAction::Stop
                &&& *final(session) == *old(session)
                &&& final(player).has_frame == old(player).has_frame
                &&& final(player).prime_first_frame == old(player).prime_first_frame
                &&& final(player).pending_seek == old(player).pending_seek
                &&& final(player).pending_seek_frame == old(player).pending_seek_frame
                &&& final(player).seek_serial == old(player).seek_serial
                &&& final(player).open_requested == old(player).open_requested
                &&& final(player).open_start_frame == old(player).open_start_frame
            },
            DecoderEvent::Frame { serial, index } => {
                &&& final(player).pending_seek == old(player).pending_seek
                &&& final(player).open_requested == old(player).open_requested
                &&& final(player).open_start_frame == old(player).open_start_frame
                &&& final(session).open == old(session).open
                &&& if old(player).seek_serial is Some && old(player).seek_serial != Some(serial) {
                    &&& action == DecoderAction::SkipFrame
                    &&& *final(session) == *old(session)
                    &&& final(player).has_frame == old(player).has_frame
                    &&& final(player).prime_first_frame == old(player).prime_first_frame
                    &&& final(player).pending_seek_frame == old(player).pending_seek_frame
                    &&& final(player).seek_serial == old(player).seek_serial
                } else {
                    let reset = old(session).active_serial != Some(serial);
                    let was_started = !reset && old(session).started;
                    let start = !was_started && !paused_like(*old(player));
                    &&& action == DecoderAction::ShowFrame {
                        reset_clock: reset,
                        start_clock: start,
                        pace: !paused_like(*old(player)),
                        record_index: !seek_frame_suppressed(*old(player), serial, index),
                    }
                    &&& final(session).active_serial == Some(serial)
                    &&& final(session).started == (was_started || start)
                    &&& final(player).has_frame
                    &&& final(player).prime_first_frame == (old(player).prime_first_frame
                        && !paused_like(*old(player)))
                    &&& if old(player).seek_serial == Some(serial) {
                        final(player).seek_serial is None && final(player).pending_seek_frame is None
                    } else {
                        final(player).seek_serial == old(player).seek_serial
                            && final(player).pending_seek_frame == old(player).pending_seek_frame
                    }
                }
            },
            DecoderEvent::StreamEnded => {
                &&& action == DecoderAction::PublishEnded
                &&& !final(session).open
                &&& final(session).active_serial == old(session).active_serial
                &&& final(session).started == old(session).started
                &&& !final(player).has_frame
                &&& !final(player).open_requested
                &&& final(player).seek_serial is None
                &&& final(player).prime_first_frame == old(player).prime_first_frame
                &&& final(player).pending_seek == old(player).pending_seek
                &&& final(player).pending_seek_frame == old(player).pending_seek_frame
                &&& final(player).open_start_frame == old(player).open_start_frame
            },
            DecoderEvent::CommandHandled(while_paused) => {
                &&& final(player).has_frame == old(player).has_frame
                &&& final(player).prime_first_frame == old(player).prime_first_frame
                &&& final(player).pending_seek == old(player).pending_seek
                &&& final(player).pending_seek_frame == old(player).pending_seek_frame
                &&& final(player).open_requested == old(player).open_requested
                &&& final(player).open_start_frame == old(player).open_start_frame
                &&& if !old(player).open_requested {
                    &&& action == DecoderAction::Nothing
                    &&& *final(session) == *old(session)
                    &&& final(player).seek_serial == old(player).seek_serial
                } else if while_paused {
                    &&& action == DecoderAction::Nothing
                    &&& *final(session) == (DecodeSession { open: false, ..*old(session) })
                    &&& final(player).seek_serial == old(player).seek_serial
                } else {
                    &&& action == DecoderAction::CloseSession
                    &&& *final(session) == (DecodeSession {
                        open: false,
                        active_serial: None,
                        started: false,
                    })
                    &&& final(player).seek_serial is None
                }
            },
        },
{
    match event {
        DecoderEvent::InputChecked(found) => match found {
            Some(true) => {
                let start = player.open_start_frame;
                player.open_start_frame = None;
                DecoderAction::OpenDecoder(start)
            },
            Some(false) => {
                player.open_requested = false;
                DecoderAction::PublishEnded
            },
            None => {
                player.open_requested = false;
                DecoderAction::Nothing
            },
        },
        DecoderEvent::Opened(seek) => {
            match seek {
                SeekOnOpen::Refused => {
                    player.seek_serial = None;
                    player.open_requested = true;
                    return DecoderAction::DropSession;
                },
                SeekOnOpen::Taken(serial) => {
                    player.pending_seek = None;
                    player.seek_serial = Some(serial);
                },
                SeekOnOpen::NonePending => {},
            }
            player.open_requested = false;
            *session = DecodeSession { open: true, active_serial: None, started: false };
            DecoderAction::KeepSession
        },
        DecoderEvent::OpenFailed => DecoderAction::Stop,
        DecoderEvent::Frame { serial, index } => {
            if let Some(pending) = player.seek_serial {
                if pending != serial {
                    return DecoderAction::SkipFrame;
                }
            }
            let reset = session.active_serial != Some(serial);
            if reset {
                session.active_serial = Some(serial);
                session.started = false;
            }
            let mut suppress = false;
            if player.seek_serial == Some(serial) {
                if let (Some(target), Some(actual)) = (player.pending_seek_frame, index) {
                    let off = if actual >= target {
                        actual - target
                    } else {
                        target - actual
                    };
                    if off <= 1 {
                        suppress = true;
                    }
                }
                player.pending_seek_frame = None;
                player.seek_serial = None;
            }
            let paused_like = player.paused || player.scrubbing;
            let mut start = false;
            if !session.started && !paused_like {
                session.started = true;
                start = true;
            }
            player.has_frame = true;
            if paused_like && player.prime_first_frame {
                player.prime_first_frame = false;
            }
            DecoderAction::ShowFrame {
                reset_clock: reset,
                start_clock: start,
                pace: !paused_like,
                record_index: !suppress,
            }
        },
        DecoderEvent::StreamEnded => {
            player.has_frame = false;
            session.open = false;
            player.open_requested = false;
            player.seek_serial = None;
            DecoderAction::PublishEnded
        },
        DecoderEvent::CommandHandled(while_paused) => {
            if !player.open_requested {
                DecoderAction::Nothing
            } else if while_paused {
                session.open = false;
                DecoderAction::Nothing
            } else {
                *session = DecodeSession { open: false, active_serial: None, started: false };
                player.seek_serial = None;
                DecoderAction::CloseSession
            }
        },
    }
}

} // verus!

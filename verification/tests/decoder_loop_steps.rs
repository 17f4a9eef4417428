use subtitle_fast::decoder_loop::{
    decode_step, next_wait, DecodeSession, DecoderAction, DecoderEvent, LoopWait, SeekOnOpen,
};
use subtitle_fast::player::PlayerLoop;

fn closed() -> DecodeSession {
    DecodeSession { open: false, active_serial: None, started: false }
}

fn player() -> PlayerLoop<u32, u8> {
    PlayerLoop::new()
}

#[test]
fn nothing_open_waits_for_a_command_then_checks_the_input() {
    let mut p = player();
    let mut s = closed();
    assert_eq!(next_wait(&p, &s), LoopWait::AwaitCommand);
    p.open_requested = true;
    p.open_start_frame = Some(40);
    assert_eq!(next_wait(&p, &s), LoopWait::CheckInput);
    assert_eq!(decode_step(&mut p, &mut s, DecoderEvent::InputChecked(Some(true))), DecoderAction::OpenDecoder(Some(40)));
    assert_eq!(p.open_start_frame, None);
}

#[test]
fn missing_input_ends_playback_and_drops_the_request() {
    let mut p = player();
    let mut s = closed();
    p.open_requested = true;
    assert_eq!(decode_step(&mut p, &mut s, DecoderEvent::InputChecked(Some(false))), DecoderAction::PublishEnded);
    assert!(!p.open_requested);
    p.open_requested = true;
    assert_eq!(decode_step(&mut p, &mut s, DecoderEvent::InputChecked(None)), DecoderAction::Nothing);
    assert!(!p.open_requested);
}

#[test]
fn a_seek_before_the_open_is_handed_to_the_new_decoder() {
    let mut p = player();
    let mut s = closed();
    p.open_requested = true;
    p.pending_seek = Some(7);
    p.pending_seek_frame = Some(100);
    assert_eq!(decode_step(&mut p, &mut s, DecoderEvent::Opened(SeekOnOpen::Refused)), DecoderAction::DropSession);
    assert!(p.open_requested);
    assert_eq!(p.pending_seek, Some(7));
    assert!(!s.open);
    assert_eq!(decode_step(&mut p, &mut s, DecoderEvent::Opened(SeekOnOpen::Taken(3))), DecoderAction::KeepSession);
    assert_eq!(p.pending_seek, None);
    assert_eq!(p.seek_serial, Some(3));
    assert!(!p.open_requested);
    assert_eq!(s, DecodeSession { open: true, active_serial: None, started: false });
}

#[test]
fn frames_of_older_serials_are_dropped_while_a_seek_is_pending() {
    let mut p = player();
    let mut s = DecodeSession { open: true, active_serial: Some(2), started: true };
    p.seek_serial = Some(3);
    p.pending_seek_frame = Some(100);
    assert_eq!(decode_step(&mut p, &mut s, DecoderEvent::Frame { serial: 2, index: Some(50) }), DecoderAction::SkipFrame);
    let action = decode_step(&mut p, &mut s, DecoderEvent::Frame { serial: 3, index: Some(101) });
    assert_eq!(
        action,
        DecoderAction::ShowFrame { reset_clock: true, start_clock: true, pace: true, record_index: false }
    );
    assert_eq!(p.seek_serial, None);
    assert_eq!(p.pending_seek_frame, None);
    assert_eq!(s.active_serial, Some(3));
    assert!(s.started);
    let action = decode_step(&mut p, &mut s, DecoderEvent::Frame { serial: 3, index: Some(102) });
    assert_eq!(
        action,
        DecoderAction::ShowFrame { reset_clock: false, start_clock: false, pace: true, record_index: true }
    );
}

#[test]
fn a_seek_frame_two_off_the_target_is_recorded() {
    let mut p = player();
    let mut s = DecodeSession { open: true, active_serial: None, started: false };
    p.seek_serial = Some(1);
    p.pending_seek_frame = Some(100);
    let action = decode_step(&mut p, &mut s, DecoderEvent::Frame { serial: 1, index: Some(98) });
    assert_eq!(
        action,
        DecoderAction::ShowFrame { reset_clock: true, start_clock: true, pace: true, record_index: true }
    );
}

#[test]
fn paused_loop_polls_until_the_first_frame_is_primed() {
    let mut p = player();
    let mut s = DecodeSession { open: true, active_serial: None, started: false };
    p.paused = true;
    p.prime_first_frame = true;
    assert_eq!(next_wait(&p, &s), LoopWait::DecodeOrCommand);
    let action = decode_step(&mut p, &mut s, DecoderEvent::Frame { serial: 0, index: Some(0) });
    assert_eq!(
        action,
        DecoderAction::ShowFrame { reset_clock: true, start_clock: false, pace: false, record_index: true }
    );
    assert!(!p.prime_first_frame);
    assert!(p.has_frame);
    assert!(!s.started);
    assert_eq!(next_wait(&p, &s), LoopWait::PollCommand);
}

#[test]
fn the_stream_ends_on_an_error_or_at_its_end() {
    let mut p = player();
    let mut s = DecodeSession { open: true, active_serial: Some(1), started: true };
    p.has_frame = true;
    p.seek_serial = Some(4);
    assert_eq!(decode_step(&mut p, &mut s, DecoderEvent::StreamEnded), DecoderAction::PublishEnded);
    assert!(!s.open);
    assert!(!p.has_frame);
    assert_eq!(p.seek_serial, None);
    assert_eq!(decode_step(&mut p, &mut s, DecoderEvent::OpenFailed), DecoderAction::Stop);
}

#[test]
fn a_new_open_closes_the_session() {
    let mut p = player();
    let mut s = DecodeSession { open: true, active_serial: Some(1), started: true };
    assert_eq!(decode_step(&mut p, &mut s, DecoderEvent::CommandHandled(false)), DecoderAction::Nothing);
    assert!(s.open);
    p.open_requested = true;
    p.seek_serial = Some(2);
    assert_eq!(decode_step(&mut p, &mut s, DecoderEvent::CommandHandled(true)), DecoderAction::Nothing);
    assert_eq!(s, DecodeSession { open: false, active_serial: Some(1), started: true });
    assert_eq!(p.seek_serial, Some(2));
    s.open = true;
    assert_eq!(decode_step(&mut p, &mut s, DecoderEvent::CommandHandled(false)), DecoderAction::CloseSession);
    assert_eq!(s, closed());
    assert_eq!(p.seek_serial, None);
}

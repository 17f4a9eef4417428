use subtitle_fast::detection::{
    export_dialog_seed, export_seed_from_parts, select_next_backend, status_text, toggle_command,
    AttemptOutcome, BackendAttempts, BackendUnavailable, DetectionRunState, DetectionTask,
    NextStep, StartGate, SubtitleRecord, SubtitleUpdate, SubtitleUpdateKind, ToggleCommand,
};
use subtitle_fast::detection::{open_run, settle_attempt, task_row, TaskAction, TaskControl, TaskIcon};

fn update(kind: SubtitleUpdateKind, id: u64, text: &str) -> SubtitleUpdate<String> {
    SubtitleUpdate { kind, record: SubtitleRecord { id, subtitle: text.to_string() } }
}

#[test]
fn run_state_predicates() {
    assert!(!DetectionRunState::Idle.is_running());
    assert!(DetectionRunState::Running.is_running());
    assert!(DetectionRunState::Paused.is_running());
    assert!(DetectionRunState::Paused.is_paused());
    assert!(!DetectionRunState::Running.is_paused());
}

#[test]
fn start_pause_cancel_cycle() {
    let mut task: DetectionTask<String> = DetectionTask::new();
    assert!(matches!(task.start_gate(), StartGate::NoVideo));
    task.set_video_path(Some("/v.mp4".into()));
    match task.start_gate() {
        StartGate::Proceed(p) => assert_eq!(p, "/v.mp4"),
        other => panic!("unexpected {other:?}"),
    }
    let (state, signals) = task.mark_started();
    assert_eq!(state, DetectionRunState::Running);
    assert!(signals.reset_progress && signals.broadcast_reset);
    assert!(matches!(task.start_gate(), StartGate::Busy(DetectionRunState::Running)));
    // No pause handle yet: toggling does nothing.
    assert_eq!(task.toggle_pause(), (DetectionRunState::Running, None));
    task.set_pause_handle();
    assert_eq!(task.toggle_pause(), (DetectionRunState::Paused, Some(true)));
    assert_eq!(task.toggle_pause(), (DetectionRunState::Running, Some(false)));
    task.apply_updates(vec![update(SubtitleUpdateKind::New, 1, "a")]);
    let (state, signals) = task.cancel();
    assert_eq!(state, DetectionRunState::Idle);
    assert!(signals.send_cancel);
    assert_eq!(signals.set_paused, Some(false));
    assert!(!task.has_subtitles());
    assert!(!task.has_pause_handle && !task.cancel_armed);
    let (state, signals) = task.cancel();
    assert_eq!(state, DetectionRunState::Idle);
    assert!(!signals.send_cancel && !signals.reset_progress);
}

#[test]
fn finish_keeps_subtitles() {
    let mut task: DetectionTask<String> = DetectionTask::new();
    task.set_video_path(Some("/v.mp4".into()));
    task.mark_started();
    task.set_pause_handle();
    task.apply_updates(vec![update(SubtitleUpdateKind::New, 1, "a")]);
    let signals = task.finish();
    assert_eq!(signals.set_paused, Some(false));
    assert_eq!(task.run_state(), DetectionRunState::Idle);
    assert!(task.has_subtitles());
}

#[test]
fn updates_upsert_by_id() {
    let mut task: DetectionTask<String> = DetectionTask::new();
    let messages = task.apply_updates(vec![
        update(SubtitleUpdateKind::New, 1, "one"),
        update(SubtitleUpdateKind::New, 2, "two"),
        update(SubtitleUpdateKind::Updated, 1, "uno"),
        update(SubtitleUpdateKind::Updated, 3, "three"),
    ]);
    assert_eq!(
        messages,
        vec![
            (SubtitleUpdateKind::New, 1),
            (SubtitleUpdateKind::New, 2),
            (SubtitleUpdateKind::Updated, 1),
            (SubtitleUpdateKind::Updated, 3),
        ]
    );
    let stored: Vec<(u64, String)> =
        task.subtitles.iter().map(|r| (r.id, r.subtitle.clone())).collect();
    assert_eq!(
        stored,
        vec![(1, "uno".to_string()), (2, "two".to_string()), (3, "three".to_string())]
    );
}

#[test]
fn next_backend_selection() {
    let available: Vec<String> = vec!["videotoolbox".into(), "ffmpeg".into(), "mock".into()];
    let tried: Vec<String> = vec!["videotoolbox".into()];
    assert_eq!(select_next_backend(&available, &tried), Some("ffmpeg".to_string()));
    let all = available.clone();
    assert_eq!(select_next_backend(&available, &all), None);
}

#[test]
fn fallback_rules() {
    assert_eq!(
        BackendAttempts::new(Vec::new(), "ffmpeg".into(), false).unwrap_err(),
        BackendUnavailable::NoBackend
    );
    assert_eq!(
        BackendAttempts::new(vec!["mock".into()], "ffmpeg".into(), false).unwrap_err(),
        BackendUnavailable::NotAvailable
    );
    let mut a = BackendAttempts::new(vec!["dxva".into(), "mft".into()], "dxva".into(), false).unwrap();
    a.begin_attempt();
    match a.after_attempt(AttemptOutcome::ProviderFailed) {
        NextStep::Retry(b) => assert_eq!(b, "mft"),
        other => panic!("unexpected {other:?}"),
    }
    a.begin_attempt();
    assert!(matches!(a.after_attempt(AttemptOutcome::SetupFailed), NextStep::Finish));
    let mut b = BackendAttempts::new(vec!["dxva".into(), "mft".into()], "dxva".into(), false).unwrap();
    b.begin_attempt();
    assert!(matches!(
        b.after_attempt(AttemptOutcome::PipelineFailed { processed: 3 }),
        NextStep::Finish
    ));
    assert!(matches!(
        b.after_attempt(AttemptOutcome::PipelineFailed { processed: 0 }),
        NextStep::Retry(_)
    ));
    let mut locked = BackendAttempts::new(vec!["dxva".into(), "mft".into()], "dxva".into(), true).unwrap();
    locked.begin_attempt();
    assert!(matches!(locked.after_attempt(AttemptOutcome::ProviderFailed), NextStep::Finish));
    assert!(matches!(b.after_attempt(AttemptOutcome::Completed), NextStep::Finish));
}

#[test]
fn status_and_toggle() {
    assert_eq!(status_text(DetectionRunState::Running, true), "Done");
    assert_eq!(status_text(DetectionRunState::Idle, false), "Idle");
    assert_eq!(status_text(DetectionRunState::Running, false), "Processing");
    assert_eq!(status_text(DetectionRunState::Paused, false), "Paused");
    assert_eq!(toggle_command(DetectionRunState::Idle, true), ToggleCommand::Nothing);
    assert_eq!(toggle_command(DetectionRunState::Idle, false), ToggleCommand::Start);
    assert_eq!(toggle_command(DetectionRunState::Paused, false), ToggleCommand::TogglePause);
}

#[test]
fn export_seed() {
    assert_eq!(
        export_dialog_seed(Some("/videos/clip.final.mp4"), None),
        ("/videos".to_string(), Some("clip.final.srt".to_string()))
    );
    assert_eq!(
        export_dialog_seed(None, Some("/work")),
        ("/work".to_string(), Some("subtitles.srt".to_string()))
    );
    assert_eq!(
        export_dialog_seed(None, None),
        (".".to_string(), Some("subtitles.srt".to_string()))
    );
    assert_eq!(
        export_seed_from_parts(None, Some(".hidden".into())),
        (".".to_string(), Some(".hidden.srt".to_string()))
    );
    assert_eq!(
        export_seed_from_parts(Some("/d".into()), None),
        ("/d".to_string(), Some("subtitles.srt".to_string()))
    );
}

#[test]
fn task_rows_offer_the_buttons_of_their_state() {
    let idle = task_row(DetectionRunState::Idle, false, false);
    assert_eq!(idle.status_icon, TaskIcon::Film);
    assert!(!idle.bright);
    assert_eq!(idle.controls, vec![TaskControl { icon: TaskIcon::Play, action: TaskAction::Start }]);

    let running = task_row(DetectionRunState::Running, false, false);
    assert!(running.bright);
    assert_eq!(
        running.controls,
        vec![
            TaskControl { icon: TaskIcon::Pause, action: TaskAction::Pause },
            TaskControl { icon: TaskIcon::Stop, action: TaskAction::Cancel }
        ]
    );

    let paused = task_row(DetectionRunState::Paused, false, true);
    assert_eq!(paused.status_icon, TaskIcon::Pause);
    assert!(paused.bright);
    assert_eq!(paused.controls[0], TaskControl { icon: TaskIcon::Play, action: TaskAction::Pause });

    let done = task_row(DetectionRunState::Idle, true, false);
    assert_eq!(done.status_icon, TaskIcon::Check);
    assert!(done.bright);
    assert!(done.controls.is_empty());
}

#[test]
fn every_way_a_run_ends_leaves_the_task_idle() {
    let mut task: DetectionTask<String> = DetectionTask::new();
    task.set_video_path(Some("/v/a.mp4".to_string()));
    task.mark_started();
    let (opened, signals) = open_run(&mut task, Vec::new(), "ffmpeg".into(), false);
    assert_eq!(opened.unwrap_err(), BackendUnavailable::NoBackend);
    assert!(signals.is_some());
    assert_eq!(task.run_state(), DetectionRunState::Idle);

    task.mark_started();
    let (opened, signals) = open_run(&mut task, vec!["dxva".into(), "mft".into()], "dxva".into(), false);
    let mut attempts = opened.unwrap();
    assert!(signals.is_none());
    assert_eq!(task.run_state(), DetectionRunState::Running);
    attempts.begin_attempt();
    match settle_attempt(&mut task, &mut attempts, AttemptOutcome::ProviderFailed) {
        (NextStep::Retry(b), None) => assert_eq!(b, "mft"),
        _ => panic!("expected a retry"),
    }
    assert_eq!(task.run_state(), DetectionRunState::Running);
    attempts.begin_attempt();
    match settle_attempt(&mut task, &mut attempts, AttemptOutcome::Completed) {
        (NextStep::Finish, Some(_)) => {}
        _ => panic!("expected the end"),
    }
    assert_eq!(task.run_state(), DetectionRunState::Idle);
}

#[test]
fn fallback_takes_the_first_untried_backend_in_order() {
    let mut a = BackendAttempts::new(
        vec!["videotoolbox".into(), "ffmpeg".into(), "mock".into()],
        "ffmpeg".into(),
        false,
    )
    .unwrap();
    a.begin_attempt();
    match a.after_attempt(AttemptOutcome::SetupFailed) {
        NextStep::Retry(b) => assert_eq!(b, "videotoolbox"),
        _ => panic!("expected a retry"),
    }
    a.begin_attempt();
    match a.after_attempt(AttemptOutcome::PipelineFailed { processed: 0 }) {
        NextStep::Retry(b) => assert_eq!(b, "mock"),
        _ => panic!("expected a retry"),
    }
    a.begin_attempt();
    assert!(matches!(a.after_attempt(AttemptOutcome::ProviderFailed), NextStep::Finish));
}

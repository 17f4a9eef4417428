use subtitle_fast::download::{
    check_response_status, confirms_continue, continue_after_download_failure, emit_event,
    plan_downloads, AssetDownload, DownloadPhase, DownloadWindowState, ModelDownloadError,
    ModelDownloadEvent,
};
use subtitle_fast::model::{should_prepare_ort, ModelAsset};
use subtitle_fast::settings::{
    DecoderSettings, DetectionSettings, EffectiveSettings, OcrSettings, OutputSettings,
};

fn asset(label: &str) -> ModelAsset {
    ModelAsset::new(label, "https://example.invalid/x", format!("/m/{label}"))
}

#[test]
fn status_check() {
    assert!(check_response_status("u", 200).is_ok());
    assert!(check_response_status("u", 299).is_ok());
    match check_response_status("u", 404) {
        Err(ModelDownloadError::HttpStatus { url, status }) => {
            assert_eq!(url, "u");
            assert_eq!(status, 404);
        }
        other => panic!("unexpected {other:?}"),
    }
    assert!(check_response_status("u", 301).is_err());
}

#[test]
fn plan_numbers_files_from_one() {
    let plan = plan_downloads(vec![asset("a"), asset("b")]);
    assert_eq!(plan.len(), 2);
    assert_eq!(plan[0].asset.label, "a");
    assert_eq!(plan[0].file_index, 1);
    assert_eq!(plan[0].file_count, 2);
    assert_eq!(plan[1].asset.label, "b");
    assert_eq!(plan[1].file_index, 2);
    assert!(plan_downloads(Vec::new()).is_empty());
}

#[test]
fn chunk_counting_saturates() {
    let plan = plan_downloads(vec![asset("a")]);
    let (mut state, started) = AssetDownload::start(&plan[0], Some(10));
    assert!(matches!(
        started,
        ModelDownloadEvent::Started { file_index: 1, file_count: 1, total_bytes: Some(10), .. }
    ));
    assert!(state.on_chunk(0).is_none());
    match state.on_chunk(4) {
        Some(ModelDownloadEvent::Progress { downloaded_bytes, total_bytes }) => {
            assert_eq!(downloaded_bytes, 4);
            assert_eq!(total_bytes, Some(10));
        }
        other => panic!("unexpected {other:?}"),
    }
    state.on_chunk(6);
    assert_eq!(state.downloaded, 10);
    state.downloaded = u64::MAX - 1;
    state.on_chunk(5);
    assert_eq!(state.downloaded, u64::MAX);
    match state.finish() {
        ModelDownloadEvent::Finished { file_label } => assert_eq!(file_label, "a"),
        other => panic!("unexpected {other:?}"),
    }
}

#[test]
fn window_state_follows_events() {
    let mut w = DownloadWindowState::new();
    assert!(!w.apply_event(ModelDownloadEvent::Started {
        file_label: "OCR model".into(),
        file_index: 1,
        file_count: 2,
        total_bytes: None,
    }));
    assert_eq!(w.progress.file_label, "OCR model");
    w.apply_event(ModelDownloadEvent::Progress { downloaded_bytes: 5, total_bytes: Some(9) });
    assert_eq!(w.progress.downloaded_bytes, 5);
    assert_eq!(w.progress.total_bytes, Some(9));
    w.apply_event(ModelDownloadEvent::Progress { downloaded_bytes: 7, total_bytes: None });
    assert_eq!(w.progress.total_bytes, Some(9));
    w.apply_event(ModelDownloadEvent::Finished { file_label: "OCR model".into() });
    assert_eq!(w.progress.downloaded_bytes, 9);
    assert!(w.apply_event(ModelDownloadEvent::Completed));
    w.apply_event(ModelDownloadEvent::Failed { message: "boom".into() });
    match &w.phase {
        DownloadPhase::Failed(m) => assert_eq!(m, "boom"),
        other => panic!("unexpected {other:?}"),
    }
}

#[test]
fn prompt_answers() {
    assert!(confirms_continue(" Y\n"));
    assert!(confirms_continue("yes"));
    assert!(confirms_continue("YES "));
    assert!(!confirms_continue("no"));
    assert!(!confirms_continue(""));
    assert!(!confirms_continue("yess"));
    assert!(continue_after_download_failure(false, "n"));
    assert!(!continue_after_download_failure(true, "n"));
}

#[test]
fn emit_event_calls_listener() {
    let seen = std::cell::Cell::new(0);
    let handler = |_e: ModelDownloadEvent| seen.set(seen.get() + 1);
    emit_event(Some(&handler), ModelDownloadEvent::Completed);
    emit_event::<fn(ModelDownloadEvent)>(None, ModelDownloadEvent::Completed);
    assert_eq!(seen.get(), 1);
}

fn settings_with_ocr(backend: Option<&str>) -> EffectiveSettings {
    EffectiveSettings {
        detection: DetectionSettings { samples_per_second: 7, target: 230, delta: 12, comparator: None },
        decoder: DecoderSettings::default(),
        ocr: OcrSettings { backend: backend.map(|b| b.to_string()) },
        output: OutputSettings::default(),
    }
}

#[test]
fn ort_preparation_decision() {
    let ort = settings_with_ocr(Some(" ORT "));
    let vision = settings_with_ocr(Some("vision"));
    let noop = settings_with_ocr(Some("NoOp"));
    let auto = settings_with_ocr(None);
    assert!(!should_prepare_ort(Some(&ort), false, false));
    assert!(should_prepare_ort(Some(&ort), true, true));
    assert!(!should_prepare_ort(Some(&vision), true, false));
    assert!(!should_prepare_ort(Some(&noop), true, false));
    assert!(should_prepare_ort(Some(&auto), true, false));
    assert!(!should_prepare_ort(Some(&auto), true, true));
    assert!(should_prepare_ort(None, true, false));
}

#[test]
fn file_line_names_the_file_and_its_place() {
    let mut progress = subtitle_fast::download::DownloadProgress::empty();
    assert_eq!(progress.file_line(), "Preparing download...");
    progress.file_label = "model".to_string();
    assert_eq!(progress.file_line(), "Downloading model");
    progress.file_index = 1;
    progress.file_count = 2;
    assert_eq!(progress.file_line(), "Downloading model (1/2)");
}

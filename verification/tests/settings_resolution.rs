use subtitle_fast::settings::{
    choose_config_file, gui_cli_args, merge, no_cli_sources, normalize_string,
    resolve_comparator_name, resolve_decoder_capacity, resolve_detection_sps,
    resolve_detector_u8, CliArgs, CliSources, ConfigCandidate, ConfigError, DecoderFileConfig,
    DetectionFileConfig, FileConfig, OcrFileConfig, OutputFileConfig, DEFAULT_DELTA,
    DEFAULT_TARGET,
};

fn invalid(err: &ConfigError) -> (Option<String>, String, String) {
    match err {
        ConfigError::InvalidValue { path, field, value } => {
            (path.clone(), field.clone(), value.clone())
        }
        other => panic!("unexpected {other:?}"),
    }
}

#[test]
fn normalize_string_trims_and_drops_blank() {
    assert_eq!(normalize_string(Some("  ort \n".to_string())), Some("ort".to_string()));
    assert_eq!(normalize_string(Some(" \t ".to_string())), None);
    assert_eq!(normalize_string(Some(String::new())), None);
    assert_eq!(normalize_string(None), None);
    // Unicode whitespace is trimmed as well.
    assert_eq!(
        normalize_string(Some("\u{3000}vision\u{a0}".to_string())),
        Some("vision".to_string())
    );
}

#[test]
fn sps_prefers_file_unless_cli_set() {
    let path = "/cfg/config.toml".to_string();
    assert_eq!(resolve_detection_sps(7, Some(3), true, Some(&path)).unwrap(), 3);
    assert_eq!(resolve_detection_sps(7, Some(3), false, Some(&path)).unwrap(), 7);
    assert_eq!(resolve_detection_sps(9, None, true, Some(&path)).unwrap(), 9);
    let err = resolve_detection_sps(7, Some(0), true, Some(&path)).unwrap_err();
    assert_eq!(
        invalid(&err),
        (Some(path.clone()), "detection_samples_per_second".to_string(), "0".to_string())
    );
}

#[test]
fn detector_byte_precedence() {
    assert_eq!(resolve_detector_u8(Some(5), Some(9), true, 1).unwrap(), 5);
    assert_eq!(resolve_detector_u8(None, Some(9), true, 1).unwrap(), 9);
    assert_eq!(resolve_detector_u8(None, Some(9), false, 1).unwrap(), 1);
    assert_eq!(resolve_detector_u8(None, None, true, 1).unwrap(), 1);
}

#[test]
fn capacity_rejects_zero_and_file_overrides() {
    let path = "/cfg/config.toml".to_string();
    let err = resolve_decoder_capacity(Some(0), Some(4), true, Some(&path)).unwrap_err();
    assert_eq!(invalid(&err), (None, "decoder_channel_capacity".to_string(), "0".to_string()));
    let err = resolve_decoder_capacity(Some(8), Some(0), true, Some(&path)).unwrap_err();
    assert_eq!(
        invalid(&err),
        (Some(path.clone()), "decoder_channel_capacity".to_string(), "0".to_string())
    );
    assert_eq!(resolve_decoder_capacity(Some(8), Some(4), true, None).unwrap(), Some(4));
    assert_eq!(resolve_decoder_capacity(Some(8), Some(4), false, None).unwrap(), Some(8));
    assert_eq!(resolve_decoder_capacity(None, None, true, None).unwrap(), None);
}

#[test]
fn comparator_name_selection() {
    assert_eq!(
        resolve_comparator_name(Some(" sparse ".into()), Some("dense".into()), true),
        Some("sparse".to_string())
    );
    assert_eq!(
        resolve_comparator_name(Some("  ".into()), Some("dense".into()), true),
        Some("dense".to_string())
    );
    assert_eq!(resolve_comparator_name(None, Some("dense".into()), false), None);
}

fn sample_file() -> FileConfig {
    FileConfig {
        detection: Some(DetectionFileConfig {
            samples_per_second: Some(4),
            target: Some(200),
            delta: Some(20),
            detector: None,
            comparator: Some("bitset-cover".into()),
        }),
        decoder: Some(DecoderFileConfig { backend: Some(" ffmpeg ".into()), channel_capacity: Some(16) }),
        ocr: Some(OcrFileConfig { backend: Some("vision".into()) }),
        output: Some(OutputFileConfig { path: Some("/out/file.srt".into()) }),
    }
}

#[test]
fn merge_uses_file_when_cli_is_silent() {
    let cli = gui_cli_args();
    let sources = no_cli_sources();
    let resolved = merge(&cli, &sources, sample_file(), Some("/cfg/config.toml".into()), None).unwrap();
    let s = resolved.settings;
    assert_eq!(s.detection.samples_per_second, 4);
    assert_eq!(s.detection.target, 200);
    assert_eq!(s.detection.delta, 20);
    assert_eq!(s.detection.comparator.as_deref(), Some("bitset-cover"));
    assert_eq!(s.decoder.backend.as_deref(), Some("ffmpeg"));
    assert_eq!(s.decoder.channel_capacity, Some(16));
    assert_eq!(s.ocr.backend.as_deref(), Some("vision"));
    assert_eq!(s.output.path.as_deref(), Some("/out/file.srt"));
    assert_eq!(resolved.config_path.as_deref(), Some("/cfg/config.toml"));
}

#[test]
fn merge_prefers_cli_values() {
    let cli = CliArgs {
        backend: Some("mock".into()),
        config: None,
        list_backends: false,
        detection_samples_per_second: 9,
        decoder_channel_capacity: Some(2),
        detector_target: Some(100),
        detector_delta: Some(5),
        comparator: Some("sparse".into()),
        output: Some("/cli.srt".into()),
        ocr_backend: Some("noop".into()),
        input: Some("/video.mp4".into()),
    };
    let sources = CliSources {
        detection_sps_from_cli: true,
        detector_target_from_cli: true,
        detector_delta_from_cli: true,
        comparator_from_cli: true,
        detector_roi_from_cli: false,
        decoder_channel_capacity_from_cli: true,
    };
    let s = merge(&cli, &sources, sample_file(), None, None).unwrap().settings;
    assert_eq!(s.detection.samples_per_second, 9);
    assert_eq!(s.detection.target, 100);
    assert_eq!(s.detection.delta, 5);
    assert_eq!(s.detection.comparator.as_deref(), Some("sparse"));
    assert_eq!(s.decoder.backend.as_deref(), Some("mock"));
    assert_eq!(s.decoder.channel_capacity, Some(2));
    assert_eq!(s.ocr.backend.as_deref(), Some("noop"));
    assert_eq!(s.output.path.as_deref(), Some("/cli.srt"));
}

#[test]
fn merge_defaults_without_file() {
    let s = merge(&gui_cli_args(), &no_cli_sources(), FileConfig::default(), None, None)
        .unwrap()
        .settings;
    assert_eq!(s.detection.samples_per_second, 7);
    assert_eq!(s.detection.target, DEFAULT_TARGET);
    assert_eq!(s.detection.delta, DEFAULT_DELTA);
    assert_eq!(s.detection.comparator, None);
    assert_eq!(s.decoder.backend, None);
    assert_eq!(s.decoder.channel_capacity, None);
    assert_eq!(s.ocr.backend, None);
    assert_eq!(s.output.path, None);
}

#[test]
fn merge_reports_errors_in_order() {
    let mut file = sample_file();
    if let Some(d) = file.detection.as_mut() {
        d.samples_per_second = Some(0);
    }
    if let Some(d) = file.decoder.as_mut() {
        d.channel_capacity = Some(0);
    }
    let roi_err = ConfigError::InvalidValue {
        path: None,
        field: "detection_roi".into(),
        value: "-0.1,0,0.2,0.2".into(),
    };
    let err = merge(&gui_cli_args(), &no_cli_sources(), file.clone(), None, Some(roi_err.clone()))
        .unwrap_err();
    assert_eq!(invalid(&err).1, "detection_samples_per_second");

    if let Some(d) = file.detection.as_mut() {
        d.samples_per_second = Some(2);
    }
    let err = merge(&gui_cli_args(), &no_cli_sources(), file.clone(), None, Some(roi_err))
        .unwrap_err();
    assert_eq!(invalid(&err).1, "detection_roi");

    let err = merge(&gui_cli_args(), &no_cli_sources(), file, None, None).unwrap_err();
    assert_eq!(invalid(&err).1, "decoder_channel_capacity");
}

#[test]
fn config_file_choice() {
    let c = |p: &str, e: bool| Some(ConfigCandidate { path: p.into(), exists: e });
    assert_eq!(
        choose_config_file(c("/x.toml", true), c("./config.toml", true), None).unwrap(),
        Some("/x.toml".to_string())
    );
    match choose_config_file(c("/x.toml", false), c("./config.toml", true), None) {
        Err(ConfigError::NotFound { path }) => assert_eq!(path, "/x.toml"),
        other => panic!("unexpected {other:?}"),
    }
    assert_eq!(
        choose_config_file(None, c("./config.toml", true), c("/home/cfg.toml", true)).unwrap(),
        Some("./config.toml".to_string())
    );
    assert_eq!(
        choose_config_file(None, c("./config.toml", false), c("/home/cfg.toml", true)).unwrap(),
        Some("/home/cfg.toml".to_string())
    );
    assert_eq!(
        choose_config_file(None, c("./config.toml", false), c("/home/cfg.toml", false)).unwrap(),
        None
    );
    assert_eq!(choose_config_file(None, None, None).unwrap(), None);
}

use subtitle_fast::config_form::{
    build_config_from_values, comparator_options, decoder_backend_options,
    detector_backend_options, github_ci_active, normalize_optional, ocr_backend_options,
    parse_optional_u32, parse_optional_u8, parse_optional_usize, validate_optional_u32,
    validate_optional_u8, validate_optional_usize, ConfigValues, FieldErrors, SelectInput,
    SelectOption,
};
use subtitle_fast::settings::{DecoderFileConfig, DetectionFileConfig, FileConfig, OcrFileConfig};
use subtitle_fast::text::{eq_ignore_ascii_case, format_decimal, parse_unsigned, str_equal, trim};

#[test]
fn trim_matches_std() {
    for s in ["", "  ", " a ", "\u{2003}x y\u{205f}", "\t\n", "abc", "\u{85}z"] {
        assert_eq!(trim(s), s.trim());
    }
}

#[test]
fn parse_unsigned_matches_std() {
    for s in ["0", "+7", "255", "256", "", "+", "-1", " 1", "12a", "4294967295", "4294967296"] {
        let ours = parse_unsigned(s, u32::MAX as u64);
        let std = s.parse::<u32>().ok().map(|v| v as u64);
        assert_eq!(ours, std, "input {s:?}");
    }
    assert_eq!(parse_unsigned("18446744073709551615", u64::MAX), Some(u64::MAX));
    assert_eq!(parse_unsigned("18446744073709551616", u64::MAX), None);
    assert_eq!(parse_unsigned("99999999999999999999x", u64::MAX), None);
}

#[test]
fn format_decimal_matches_to_string() {
    for n in [0u64, 7, 10, 230, 99999, u64::MAX] {
        assert_eq!(format_decimal(n), n.to_string());
    }
}

#[test]
fn case_and_equality_helpers() {
    assert!(eq_ignore_ascii_case("ORT", "ort"));
    assert!(!eq_ignore_ascii_case("ort", "orts"));
    assert!(!eq_ignore_ascii_case("Ä", "ä"));
    assert!(str_equal("mock", "mock"));
    assert!(!str_equal("mock", "Mock"));
}

#[test]
fn field_validation_messages() {
    assert_eq!(validate_optional_u32("sps", "  "), None);
    assert_eq!(validate_optional_u32("sps", " 3 "), None);
    assert_eq!(validate_optional_u32("sps", "0").as_deref(), Some("sps must be at least 1"));
    assert_eq!(validate_optional_u32("sps", "x").as_deref(), Some("sps must be a number"));
    assert_eq!(validate_optional_u8("target", "255"), None);
    assert_eq!(validate_optional_u8("target", "256").as_deref(), Some("target must be 0-255"));
    assert_eq!(validate_optional_usize("cap", "0").as_deref(), Some("cap must be at least 1"));
    assert_eq!(validate_optional_usize("cap", "-3").as_deref(), Some("cap must be a number"));
}

#[test]
fn field_parsing() {
    assert_eq!(parse_optional_u32("l", ""), Ok(None));
    assert_eq!(parse_optional_u32("l", " 12 "), Ok(Some(12)));
    assert_eq!(parse_optional_u32("l", "0"), Err("l must be at least 1".to_string()));
    assert_eq!(parse_optional_u8("l", "300"), Err("l must be 0-255".to_string()));
    assert_eq!(parse_optional_u8("l", "0"), Ok(Some(0)));
    assert_eq!(parse_optional_usize("l", "abc"), Err("l must be a number".to_string()));
    assert_eq!(normalize_optional("  auto "), Some("auto".to_string()));
    assert_eq!(normalize_optional("   "), None);
}

#[test]
fn field_errors_clear() {
    let mut e = FieldErrors::default();
    assert!(e.is_clear());
    e.roi_height = Some("0-1".into());
    assert!(!e.is_clear());
}

#[test]
fn default_form_builds_full_config() {
    let values = ConfigValues::default_example();
    let file = build_config_from_values(&values, Ok(true)).unwrap();
    let d = file.detection.unwrap();
    assert_eq!(d.samples_per_second, Some(7));
    assert_eq!(d.target, Some(230));
    assert_eq!(d.delta, Some(12));
    assert_eq!(d.detector.as_deref(), Some("auto"));
    assert_eq!(d.comparator, None);
    assert!(file.decoder.is_none());
    assert_eq!(file.ocr.unwrap().backend.as_deref(), Some("auto"));
    assert!(file.output.is_none());
}

#[test]
fn form_errors_in_order() {
    let mut values = ConfigValues::default_example();
    values.delta = "999".into();
    values.decoder_channel_capacity = "0".into();
    assert_eq!(
        build_config_from_values(&values, Err("ROI x must be a number".into())).unwrap_err(),
        "detection.delta must be 0-255"
    );
    values.delta = "3".into();
    assert_eq!(
        build_config_from_values(&values, Err("ROI x must be a number".into())).unwrap_err(),
        "ROI x must be a number"
    );
    assert_eq!(
        build_config_from_values(&values, Ok(false)).unwrap_err(),
        "decoder.channel_capacity must be at least 1"
    );
}

#[test]
fn form_roundtrip_keeps_file_values() {
    let file = FileConfig {
        detection: Some(DetectionFileConfig {
            samples_per_second: Some(11),
            target: Some(201),
            delta: Some(0),
            detector: Some(" integral-band ".into()),
            comparator: Some("sparse".into()),
        }),
        decoder: Some(DecoderFileConfig { backend: Some("ffmpeg".into()), channel_capacity: Some(64) }),
        ocr: Some(OcrFileConfig { backend: Some("ort".into()) }),
        output: None,
    };
    let values = ConfigValues::from_file(file, Some("0.1".into()), None, None, None);
    assert_eq!(values.sps, "11");
    assert_eq!(values.roi_x, "0.1");
    assert_eq!(values.roi_y, "0.8");
    let saved = build_config_from_values(&values, Ok(true)).unwrap();
    let d = saved.detection.unwrap();
    assert_eq!(d.samples_per_second, Some(11));
    assert_eq!(d.target, Some(201));
    assert_eq!(d.delta, Some(0));
    assert_eq!(d.detector.as_deref(), Some("integral-band"));
    assert_eq!(d.comparator.as_deref(), Some("sparse"));
    let dec = saved.decoder.unwrap();
    assert_eq!(dec.backend.as_deref(), Some("ffmpeg"));
    assert_eq!(dec.channel_capacity, Some(64));
    assert_eq!(saved.ocr.unwrap().backend.as_deref(), Some("ort"));
}

#[test]
fn empty_form_builds_empty_config() {
    let blank = || String::new();
    let values = ConfigValues {
        sps: blank(),
        target: blank(),
        delta: blank(),
        detector_backend: blank(),
        comparator: blank(),
        roi_x: blank(),
        roi_y: blank(),
        roi_width: blank(),
        roi_height: blank(),
        decoder_backend: blank(),
        decoder_channel_capacity: blank(),
        ocr_backend: blank(),
    };
    let file = build_config_from_values(&values, Ok(false)).unwrap();
    assert!(file.detection.is_none());
    assert!(file.decoder.is_none());
    assert!(file.ocr.is_none());
}

fn names(options: &[SelectOption]) -> Vec<(String, String)> {
    options.iter().map(|o| (o.label.clone(), o.value.clone())).collect()
}

#[test]
fn backend_option_lists() {
    let available: Vec<String> = vec!["ffmpeg".into(), "mock".into()];
    assert_eq!(
        names(&decoder_backend_options(&available, false)),
        vec![("auto".to_string(), String::new()), ("ffmpeg".into(), "ffmpeg".into())]
    );
    assert_eq!(decoder_backend_options(&available, true).len(), 3);
    let detectors: Vec<String> =
        vec!["macos-vision".into(), "custom".into(), "projection-band".into(), "integral-band".into()];
    let labels: Vec<String> =
        detector_backend_options(&detectors).into_iter().map(|o| o.value).collect();
    assert_eq!(labels, vec!["auto", "projection-band", "integral-band", "macos-vision", "custom"]);
    let ocr: Vec<String> = vec!["noop".into(), "ort".into(), "vision".into()];
    let labels: Vec<String> = ocr_backend_options(&ocr).into_iter().map(|o| o.value).collect();
    assert_eq!(labels, vec!["auto", "vision", "ort", "noop"]);
    let comps: Vec<String> = vec!["bitset-cover".into()];
    assert_eq!(
        names(&comparator_options(&comps)),
        vec![("auto".to_string(), String::new()), ("bitset-cover".into(), "bitset-cover".into())]
    );
}

#[test]
fn ci_flag() {
    assert!(github_ci_active(Some("true")));
    assert!(!github_ci_active(Some("false")));
    assert!(!github_ci_active(Some("")));
    assert!(!github_ci_active(None));
}

#[test]
fn select_input_behaviour() {
    let options = vec![SelectOption::new("auto", ""), SelectOption::new("ffmpeg", "ffmpeg")];
    let mut input = SelectInput::new(options, "ffmpeg");
    assert_eq!(input.selected, 1);
    assert_eq!(input.value(), "ffmpeg");
    input.set_value("missing");
    assert_eq!(input.selected, 1);
    input.set_value("");
    assert_eq!(input.value(), "");
    input.toggle_open();
    assert!(input.open);
    input.select(5);
    assert!(!input.open);
    assert_eq!(input.value(), "");
    let fallback = SelectInput::new(vec![SelectOption::new("a", "a")], "zzz");
    assert_eq!(fallback.selected, 0);
}

#[test]
fn example_form_survives_saving_and_reloading() {
    let form = ConfigValues::default_example();
    let file = build_config_from_values(&form, Ok(true)).unwrap();
    let shown = ConfigValues::from_file(
        file,
        Some(form.roi_x.clone()),
        Some(form.roi_y.clone()),
        Some(form.roi_width.clone()),
        Some(form.roi_height.clone()),
    );
    assert_eq!(shown.sps, form.sps);
    assert_eq!(shown.target, form.target);
    assert_eq!(shown.delta, form.delta);
    assert_eq!(shown.detector_backend, form.detector_backend);
    assert_eq!(shown.comparator, form.comparator);
    assert_eq!(shown.roi_x, form.roi_x);
    assert_eq!(shown.decoder_backend, form.decoder_backend);
    assert_eq!(shown.decoder_channel_capacity, form.decoder_channel_capacity);
    assert_eq!(shown.ocr_backend, form.ocr_backend);
}

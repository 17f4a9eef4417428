//! Resolution of the effective settings from command-line arguments, the
//! configuration file and built-in defaults.
//!
//! Precedence: a value given on the command line wins over the configuration
//! file, which wins over the default. The region of interest is a pair of
//! floating-point coordinates and is normalized by the application; its
//! outcome is handed to [`merge`] so that errors are reported in order.

use vstd::prelude::*;

use crate::text::{format_decimal, trim, trim_spec, decimal_spec};

verus! {

/// Default luma target of the subtitle detector.
pub const DEFAULT_TARGET: u8 = 230;

/// Default luma delta of the subtitle detector.
pub const DEFAULT_DELTA: u8 = 12;

/// Samples per second used when neither the command line nor the file says.
pub const DEFAULT_SAMPLES_PER_SECOND: u32 = 7;

/// The view of an optional string.
pub open spec fn opt_view(o: Option<String>) -> Option<Seq<char>> {
    match o {
        Some(s) => Some(s@),
        None => None,
    }
}

/// The view of an optional borrowed string.
pub open spec fn opt_ref_view(o: Option<&String>) -> Option<Seq<char>> {
    match o {
        Some(s) => Some(s@),
        None => None,
    }
}

/// `a.or(b)` on optional strings.
pub open spec fn or_spec(a: Option<Seq<char>>, b: Option<Seq<char>>) -> Option<Seq<char>> {
    match a {
        Some(v) => Some(v),
        None => b,
    }
}

/// Command-line arguments that take part in settings resolution.
#[derive(Debug, Clone)]
pub struct CliArgs {
    pub backend: Option<String>,
    pub config: Option<String>,
    pub list_backends: bool,
    pub detection_samples_per_second: u32,
    pub decoder_channel_capacity: Option<usize>,
    pub detector_target: Option<u8>,
    pub detector_delta: Option<u8>,
    pub comparator: Option<String>,
    pub output: Option<String>,
    pub ocr_backend: Option<String>,
    pub input: Option<String>,
}

/// Which arguments were given explicitly on the command line (rather than
/// taking their command-line default).
#[derive(Debug, Clone, Copy, Default)]
pub struct CliSources {
    pub detection_sps_from_cli: bool,
    pub detector_target_from_cli: bool,
    pub detector_delta_from_cli: bool,
    pub comparator_from_cli: bool,
    pub detector_roi_from_cli: bool,
    pub decoder_channel_capacity_from_cli: bool,
}

/// The `[detection]` table of the configuration file.
#[derive(Debug, Clone, Default)]
pub struct DetectionFileConfig {
    pub samples_per_second: Option<u32>,
    pub target: Option<u8>,
    pub delta: Option<u8>,
    pub detector: Option<String>,
    pub comparator: Option<String>,
}

/// The `[decoder]` table of the configuration file.
#[derive(Debug, Clone, Default)]
pub struct DecoderFileConfig {
    pub backend: Option<String>,
    pub channel_capacity: Option<usize>,
}

/// The `[ocr]` table of the configuration file.
#[derive(Debug, Clone, Default)]
pub struct OcrFileConfig {
    pub backend: Option<String>,
}

/// The `[output]` table of the configuration file.
#[derive(Debug, Clone, Default)]
pub struct OutputFileConfig {
    pub path: Option<String>,
}

/// The configuration file; every table is optional.
#[derive(Debug, Clone, Default)]
pub struct FileConfig {
    pub detection: Option<DetectionFileConfig>,
    pub decoder: Option<DecoderFileConfig>,
    pub ocr: Option<OcrFileConfig>,
    pub output: Option<OutputFileConfig>,
}

/// Effective detection settings (the region of interest is kept by the
/// application beside them).
#[derive(Debug, Clone)]
pub struct DetectionSettings {
    pub samples_per_second: u32,
    pub target: u8,
    pub delta: u8,
    /// The selected comparator name, trimmed; `None` lets the pipeline choose.
    pub comparator: Option<String>,
}

/// Effective decoder settings.
#[derive(Debug, Clone, Default)]
pub struct DecoderSettings {
    pub backend: Option<String>,
    pub channel_capacity: Option<usize>,
}

/// Effective OCR settings.
#[derive(Debug, Clone, Default)]
pub struct OcrSettings {
    pub backend: Option<String>,
}

/// Effective output settings.
#[derive(Debug, Clone, Default)]
pub struct OutputSettings {
    pub path: Option<String>,
}

/// All effective settings.
#[derive(Debug, Clone)]
pub struct EffectiveSettings {
    pub detection: DetectionSettings,
    pub decoder: DecoderSettings,
    pub ocr: OcrSettings,
    pub output: OutputSettings,
}

/// The effective settings and the configuration file they were read from.
#[derive(Debug, Clone)]
pub struct ResolvedSettings {
    pub settings: EffectiveSettings,
    pub config_path: Option<String>,
}

/// Errors raised while loading or resolving the configuration.
#[derive(Debug, Clone)]
pub enum ConfigError {
    /// The file could not be read.
    Io { path: String, message: String },
    /// The file is not valid TOML for the expected tables.
    Parse { path: String, message: String },
    /// A value is out of its accepted range.
    InvalidValue { path: Option<String>, field: String, value: String },
    /// An explicitly requested configuration file does not exist.
    NotFound { path: String },
}

/// `Some(trimmed)` when the trimmed string is not empty, else `None`.
pub open spec fn normalize_spec(value: Option<Seq<char>>) -> Option<Seq<char>> {
    match value {
        Some(v) => if trim_spec(v).len() == 0 {
            None
        } else {
            Some(trim_spec(v))
        },
        None => None,
    }
}

/// Trims an optional string and drops it when nothing is left.
pub fn normalize_string(value: Option<String>) -> (res: Option<String>)
    ensures
        opt_view(res) == normalize_spec(opt_view(value)),
{
    match value {
        Some(v) => {
            let trimmed = trim(v.as_str());
            if trimmed.unicode_len() == 0 {
                None
            } else {
                Some(String::from_str(trimmed))
            }
        },
        None => None,
    }
}

/// Normalizing twice is the same as normalizing once.
pub proof fn lemma_normalize_idempotent(value: Option<Seq<char>>)
    ensures
        normalize_spec(normalize_spec(value)) == normalize_spec(value),
{
    if let Some(v) = value {
        crate::text::lemma_trim_idempotent(v);
    }
}

fn clone_path(path: Option<&String>) -> (res: Option<String>)
    ensures
        opt_view(res) == opt_ref_view(path),
{
    match path {
        Some(p) => Some(p.clone()),
        None => None,
    }
}

/// Whether `err` is `InvalidValue` for `field` with the given path and value.
pub open spec fn is_invalid_value(
    err: ConfigError,
    path: Option<Seq<char>>,
    field: Seq<char>,
    value: Seq<char>,
) -> bool {
    match err {
        ConfigError::InvalidValue { path: p, field: f, value: v } => opt_view(p) == path && f@
            == field && v@ == value,
        _ => false,
    }
}

/// Samples per second: the file's value when the command line did not set
/// it explicitly, else the command-line value; a file value of zero is
/// rejected.
pub fn resolve_detection_sps(
    cli_value: u32,
    file_value: Option<u32>,
    use_file: bool,
    config_path: Option<&String>,
) -> (res: Result<u32, ConfigError>)
    ensures
        match (use_file, file_value) {
            (true, Some(v)) => if v < 1 {
                res is Err && is_invalid_value(
                    res->Err_0,
                    opt_ref_view(config_path),
                    "detection_samples_per_second"@,
                    decimal_spec(v as nat),
                )
            } else {
                res == Ok::<u32, ConfigError>(v)
            },
            _ => res == Ok::<u32, ConfigError>(cli_value),
        },
{
    if use_file {
        if let Some(value) = file_value {
            if value < 1 {
                return Err(
                    ConfigError::InvalidValue {
                        path: clone_path(config_path),
                        field: String::from_str("detection_samples_per_second"),
                        value: format_decimal(value as u64),
                    },
                );
            }
            return Ok(value);
        }
    }
    Ok(cli_value)
}

/// A detector byte setting: the command line, else the file (when allowed),
/// else `default`.
pub open spec fn resolve_u8_spec(
    cli_value: Option<u8>,
    file_value: Option<u8>,
    use_file: bool,
    default: u8,
) -> u8 {
    match cli_value {
        Some(v) => v,
        None => match (use_file, file_value) {
            (true, Some(v)) => v,
            _ => default,
        },
    }
}

/// Resolves a detector byte setting (luma target or delta).
pub fn resolve_detector_u8(
    cli_value: Option<u8>,
    file_value: Option<u8>,
    use_file: bool,
    default: u8,
) -> (res: Result<u8, ConfigError>)
    ensures
        res == Ok::<u8, ConfigError>(resolve_u8_spec(cli_value, file_value, use_file, default)),
{
    if let Some(value) = cli_value {
        return Ok(value);
    }
    if use_file {
        if let Some(value) = file_value {
            return Ok(value);
        }
    }
    Ok(default)
}

/// Decoder channel capacity: zero is rejected from either source; when the
/// file may be used its value replaces the command-line one.
pub fn resolve_decoder_capacity(
    cli_value: Option<usize>,
    file_value: Option<usize>,
    use_file: bool,
    config_path: Option<&String>,
) -> (res: Result<Option<usize>, ConfigError>)
    ensures
        cli_value == Some(0usize) ==> res is Err && is_invalid_value(
            res->Err_0,
            None,
            "decoder_channel_capacity"@,
            "0"@,
        ),
        cli_value != Some(0usize) ==> match (use_file, file_value) {
            (true, Some(v)) => if v == 0 {
                res is Err && is_invalid_value(
                    res->Err_0,
                    opt_ref_view(config_path),
                    "decoder_channel_capacity"@,
                    decimal_spec(0),
                )
            } else {
                res == Ok::<Option<usize>, ConfigError>(Some(v))
            },
            _ => res == Ok::<Option<usize>, ConfigError>(cli_value),
        },
{
    let mut capacity = cli_value;
    if let Some(0) = capacity {
        return Err(
            ConfigError::InvalidValue {
                path: None,
                field: String::from_str("decoder_channel_capacity"),
                value: String::from_str("0"),
            },
        );
    }
    if use_file {
        if let Some(value) = file_value {
            if value == 0 {
                return Err(
                    ConfigError::InvalidValue {
                        path: clone_path(config_path),
                        field: String::from_str("decoder_channel_capacity"),
                        value: format_decimal(value as u64),
                    },
                );
            }
            capacity = Some(value);
        }
    }
    Ok(capacity)
}

/// The comparator name: the command line's when given and not blank, else
/// the file's when allowed.
pub open spec fn comparator_spec(
    cli_value: Option<Seq<char>>,
    file_value: Option<Seq<char>>,
    use_file: bool,
) -> Option<Seq<char>> {
    match normalize_spec(cli_value) {
        Some(v) => Some(v),
        None => if use_file {
            normalize_spec(file_value)
        } else {
            None
        },
    }
}

/// Selects the comparator name.
pub fn resolve_comparator_name(
    cli_value: Option<String>,
    file_value: Option<String>,
    use_file: bool,
) -> (res: Option<String>)
    ensures
        opt_view(res) == comparator_spec(opt_view(cli_value), opt_view(file_value), use_file),
{
    match normalize_string(cli_value) {
        Some(value) => Some(value),
        None => {
            if use_file {
                normalize_string(file_value)
            } else {
                None
            }
        },
    }
}


/// `detection.samples_per_second` in the file, if any.
pub open spec fn file_sps(file: FileConfig) -> Option<u32> {
    match file.detection {
        Some(d) => d.samples_per_second,
        None => None,
    }
}

/// `detection.target` in the file, if any.
pub open spec fn file_target(file: FileConfig) -> Option<u8> {
    match file.detection {
        Some(d) => d.target,
        None => None,
    }
}

/// `detection.delta` in the file, if any.
pub open spec fn file_delta(file: FileConfig) -> Option<u8> {
    match file.detection {
        Some(d) => d.delta,
        None => None,
    }
}

/// `detection.comparator` in the file, if any.
pub open spec fn file_comparator(file: FileConfig) -> Option<Seq<char>> {
    match file.detection {
        Some(d) => opt_view(d.comparator),
        None => None,
    }
}

/// `decoder.backend` in the file, if any.
pub open spec fn file_decoder_backend(file: FileConfig) -> Option<Seq<char>> {
    match file.decoder {
        Some(d) => opt_view(d.backend),
        None => None,
    }
}

/// `decoder.channel_capacity` in the file, if any.
pub open spec fn file_capacity(file: FileConfig) -> Option<usize> {
    match file.decoder {
        Some(d) => d.channel_capacity,
        None => None,
    }
}

/// `ocr.backend` in the file, if any.
pub open spec fn file_ocr_backend(file: FileConfig) -> Option<Seq<char>> {
    match file.ocr {
        Some(o) => opt_view(o.backend),
        None => None,
    }
}

/// `output.path` in the file, if any.
pub open spec fn file_output_path(file: FileConfig) -> Option<Seq<char>> {
    match file.output {
        Some(o) => opt_view(o.path),
        None => None,
    }
}

/// Whether the samples-per-second setting is rejected.
pub open spec fn sps_rejected(sources: CliSources, file: FileConfig) -> bool {
    !sources.detection_sps_from_cli && file_sps(file) == Some(0u32)
}

/// Whether the channel capacity setting is rejected.
pub open spec fn capacity_rejected(cli: CliArgs, sources: CliSources, file: FileConfig) -> bool {
    ||| cli.decoder_channel_capacity == Some(0usize)
    ||| (!sources.decoder_channel_capacity_from_cli && file_capacity(file) == Some(0usize))
}

/// Effective samples per second.
pub open spec fn sps_spec(cli: CliArgs, sources: CliSources, file: FileConfig) -> u32 {
    match (sources.detection_sps_from_cli, file_sps(file)) {
        (false, Some(v)) => v,
        _ => cli.detection_samples_per_second,
    }
}

/// Effective channel capacity.
pub open spec fn capacity_spec(cli: CliArgs, sources: CliSources, file: FileConfig) -> Option<
    usize,
> {
    match (sources.decoder_channel_capacity_from_cli, file_capacity(file)) {
        (false, Some(v)) => Some(v),
        _ => cli.decoder_channel_capacity,
    }
}

/// The settings `merge` yields when nothing is rejected.
pub open spec fn merged_settings_spec(
    r: ResolvedSettings,
    cli: CliArgs,
    sources: CliSources,
    file: FileConfig,
    config_path: Option<Seq<char>>,
) -> bool {
    let s = r.settings;
    &&& s.detection.samples_per_second == sps_spec(cli, sources, file)
    &&& s.detection.target == resolve_u8_spec(
        cli.detector_target,
        file_target(file),
        !sources.detector_target_from_cli,
        DEFAULT_TARGET,
    )
    &&& s.detection.delta == resolve_u8_spec(
        cli.detector_delta,
        file_delta(file),
        !sources.detector_delta_from_cli,
        DEFAULT_DELTA,
    )
    &&& opt_view(s.detection.comparator) == comparator_spec(
        opt_view(cli.comparator),
        file_comparator(file),
        !sources.comparator_from_cli,
    )
    &&& s.decoder.channel_capacity == capacity_spec(cli, sources, file)
    &&& opt_view(s.decoder.backend) == or_spec(
        normalize_spec(opt_view(cli.backend)),
        normalize_spec(file_decoder_backend(file)),
    )
    &&& opt_view(s.ocr.backend) == or_spec(
        normalize_spec(opt_view(cli.ocr_backend)),
        normalize_spec(file_ocr_backend(file)),
    )
    &&& opt_view(s.output.path) == or_spec(opt_view(cli.output), file_output_path(file))
    &&& opt_view(r.config_path) == config_path
}

fn or_string(a: Option<String>, b: Option<String>) -> (res: Option<String>)
    ensures
        opt_view(res) == or_spec(opt_view(a), opt_view(b)),
{
    match a {
        Some(v) => Some(v),
        None => b,
    }
}

fn clone_opt(a: &Option<String>) -> (res: Option<String>)
    ensures
        opt_view(res) == opt_view(*a),
{
    match a {
        Some(v) => Some(v.clone()),
        None => None,
    }
}

/// Combines command-line arguments, the configuration file and defaults.
///
/// `roi_error` is the outcome of the region-of-interest normalization (done
/// by the caller): errors are reported in the order samples per second,
/// region of interest, channel capacity.
pub fn merge(
    cli: &CliArgs,
    sources: &CliSources,
    file: FileConfig,
    config_path: Option<String>,
    roi_error: Option<ConfigError>,
) -> (res: Result<ResolvedSettings, ConfigError>)
    ensures
        res is Err <==> (sps_rejected(*sources, file) || roi_error is Some || capacity_rejected(
            *cli,
            *sources,
            file,
        )),
        sps_rejected(*sources, file) ==> res is Err && is_invalid_value(
            res->Err_0,
            opt_view(config_path),
            "detection_samples_per_second"@,
            decimal_spec(0),
        ),
        !sps_rejected(*sources, file) && roi_error is Some ==> res == Err::<
            ResolvedSettings,
            ConfigError,
        >(roi_error->Some_0),
        !sps_rejected(*sources, file) && roi_error is None && cli.decoder_channel_capacity == Some(
            0usize,
        ) ==> res is Err && is_invalid_value(
            res->Err_0,
            None,
            "decoder_channel_capacity"@,
            "0"@,
        ),
        !sps_rejected(*sources, file) && roi_error is None && cli.decoder_channel_capacity != Some(
            0usize,
        ) && capacity_rejected(*cli, *sources, file) ==> res is Err && is_invalid_value(
            res->Err_0,
            opt_view(config_path),
            "decoder_channel_capacity"@,
            decimal_spec(0),
        ),
        res matches Ok(r) ==> merged_settings_spec(r, *cli, *sources, file, opt_view(config_path)),
{
    let FileConfig { detection: file_detection, decoder: file_decoder, ocr: file_ocr, output: file_output } =
        file;
    let detection_cfg = match file_detection {
        Some(d) => d,
        None => DetectionFileConfig {
            samples_per_second: None,
            target: None,
            delta: None,
            detector: None,
            comparator: None,
        },
    };
    let decoder_cfg = match file_decoder {
        Some(d) => d,
        None => DecoderFileConfig { backend: None, channel_capacity: None },
    };
    let ocr_backend_file = match file_ocr {
        Some(o) => o.backend,
        None => None,
    };
    let output_path_file = match file_output {
        Some(o) => o.path,
        None => None,
    };

    let detection_samples_per_second = match resolve_detection_sps(
        cli.detection_samples_per_second,
        detection_cfg.samples_per_second,
        !sources.detection_sps_from_cli,
        config_path.as_ref(),
    ) {
        Ok(v) => v,
        Err(e) => return Err(e),
    };
    let detector_target = match resolve_detector_u8(
        cli.detector_target,
        detection_cfg.target,
        !sources.detector_target_from_cli,
        DEFAULT_TARGET,
    ) {
        Ok(v) => v,
        Err(e) => return Err(e),
    };
    let detector_delta = match resolve_detector_u8(
        cli.detector_delta,
        detection_cfg.delta,
        !sources.detector_delta_from_cli,
        DEFAULT_DELTA,
    ) {
        Ok(v) => v,
        Err(e) => return Err(e),
    };
    let comparator = resolve_comparator_name(
        clone_opt(&cli.comparator),
        detection_cfg.comparator,
        !sources.comparator_from_cli,
    );
    if let Some(err) = roi_error {
        return Err(err);
    }
    let decoder_channel_capacity = match resolve_decoder_capacity(
        cli.decoder_channel_capacity,
        decoder_cfg.channel_capacity,
        !sources.decoder_channel_capacity_from_cli,
        config_path.as_ref(),
    ) {
        Ok(v) => v,
        Err(e) => return Err(e),
    };
    let decoder_backend = or_string(
        normalize_string(clone_opt(&cli.backend)),
        normalize_string(decoder_cfg.backend),
    );
    let ocr_backend = or_string(
        normalize_string(clone_opt(&cli.ocr_backend)),
        normalize_string(ocr_backend_file),
    );
    let output_path = or_string(clone_opt(&cli.output), output_path_file);
    let settings = EffectiveSettings {
        detection: DetectionSettings {
            samples_per_second: detection_samples_per_second,
            target: detector_target,
            delta: detector_delta,
            comparator,
        },
        decoder: DecoderSettings { backend: decoder_backend, channel_capacity: decoder_channel_capacity },
        ocr: OcrSettings { backend: ocr_backend },
        output: OutputSettings { path: output_path },
    };
    Ok(ResolvedSettings { settings, config_path })
}


/// A candidate configuration file and whether it exists.
#[derive(Debug)]
pub struct ConfigCandidate {
    pub path: String,
    pub exists: bool,
}

/// Which configuration file to read: an explicitly given one (which must
/// exist), else `./config.toml` when it exists, else the platform's default
/// file when it exists; `Ok(None)` means none, so defaults apply.
pub fn choose_config_file(
    explicit: Option<ConfigCandidate>,
    project: Option<ConfigCandidate>,
    platform_default: Option<ConfigCandidate>,
) -> (res: Result<Option<String>, ConfigError>)
    ensures
        match explicit {
            Some(c) => if c.exists {
                res matches Ok(Some(p)) && p@ == c.path@
            } else {
                res matches Err(ConfigError::NotFound { path }) && path@ == c.path@
            },
            None => match (project, platform_default) {
                (Some(p), _) if p.exists => res matches Ok(Some(q)) && q@ == p.path@,
                (_, Some(d)) if d.exists => res matches Ok(Some(q)) && q@ == d.path@,
                _ => res matches Ok(None),
            },
        },
{
    if let Some(c) = explicit {
        if !c.exists {
            return Err(ConfigError::NotFound { path: c.path });
        }
        return Ok(Some(c.path));
    }
    if let Some(p) = project {
        if p.exists {
            return Ok(Some(p.path));
        }
    }
    match platform_default {
        Some(d) => if d.exists {
            Ok(Some(d.path))
        } else {
            Ok(None)
        },
        None => Ok(None),
    }
}

/// The command-line arguments the graphical interface resolves its
/// settings with: nothing given but the default samples per second.
pub fn gui_cli_args() -> (res: CliArgs)
    ensures
        res.backend is None,
        res.config is None,
        !res.list_backends,
        res.detection_samples_per_second == DEFAULT_SAMPLES_PER_SECOND,
        res.decoder_channel_capacity is None,
        res.detector_target is None,
        res.detector_delta is None,
        res.comparator is None,
        res.output is None,
        res.ocr_backend is None,
        res.input is None,
{
    CliArgs {
        backend: None,
        config: None,
        list_backends: false,
        detection_samples_per_second: DEFAULT_SAMPLES_PER_SECOND,
        decoder_channel_capacity: None,
        detector_target: None,
        detector_delta: None,
        comparator: None,
        output: None,
        ocr_backend: None,
        input: None,
    }
}

/// No argument was given explicitly.
pub fn no_cli_sources() -> (res: CliSources)
    ensures
        !res.detection_sps_from_cli,
        !res.detector_target_from_cli,
        !res.detector_delta_from_cli,
        !res.comparator_from_cli,
        !res.detector_roi_from_cli,
        !res.decoder_channel_capacity_from_cli,
{
    CliSources {
        detection_sps_from_cli: false,
        detector_target_from_cli: false,
        detector_delta_from_cli: false,
        comparator_from_cli: false,
        detector_roi_from_cli: false,
        decoder_channel_capacity_from_cli: false,
    }
}

/// Command-line values win over the configuration file: every setting given
/// on the command line is the effective one, whatever the file says.
pub proof fn lemma_cli_overrides_file(
    r: ResolvedSettings,
    cli: CliArgs,
    sources: CliSources,
    file: FileConfig,
    config_path: Option<Seq<char>>,
)
    requires
        merged_settings_spec(r, cli, sources, file, config_path),
    ensures
        sources.detection_sps_from_cli ==> r.settings.detection.samples_per_second
            == cli.detection_samples_per_second,
        cli.detector_target matches Some(t) ==> r.settings.detection.target == t,
        cli.detector_delta matches Some(d) ==> r.settings.detection.delta == d,
        normalize_spec(opt_view(cli.comparator)) is Some ==> opt_view(
            r.settings.detection.comparator,
        ) == normalize_spec(opt_view(cli.comparator)),
        sources.decoder_channel_capacity_from_cli ==> r.settings.decoder.channel_capacity
            == cli.decoder_channel_capacity,
        normalize_spec(opt_view(cli.backend)) is Some ==> opt_view(r.settings.decoder.backend)
            == normalize_spec(opt_view(cli.backend)),
        normalize_spec(opt_view(cli.ocr_backend)) is Some ==> opt_view(r.settings.ocr.backend)
            == normalize_spec(opt_view(cli.ocr_backend)),
        cli.output is Some ==> opt_view(r.settings.output.path) == opt_view(cli.output),
{
}

/// Without command-line values, the file decides, and without either, the
/// defaults apply.
pub proof fn lemma_file_then_defaults(
    r: ResolvedSettings,
    cli: CliArgs,
    sources: CliSources,
    file: FileConfig,
    config_path: Option<Seq<char>>,
)
    requires
        merged_settings_spec(r, cli, sources, file, config_path),
        cli.detector_target is None,
        cli.detector_delta is None,
        !sources.detection_sps_from_cli,
        !sources.detector_target_from_cli,
        !sources.detector_delta_from_cli,
    ensures
        r.settings.detection.target == (match file_target(file) {
            Some(t) => t,
            None => DEFAULT_TARGET,
        }),
        r.settings.detection.delta == (match file_delta(file) {
            Some(d) => d,
            None => DEFAULT_DELTA,
        }),
        r.settings.detection.samples_per_second == (match file_sps(file) {
            Some(v) => v,
            None => cli.detection_samples_per_second,
        }),
{
}

} // verus!

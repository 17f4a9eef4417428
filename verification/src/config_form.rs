//! The configuration editor's form: the text of each field, the validation
//! of each field as it is typed, and the conversion between the form and
//! the configuration file. The region-of-interest fields hold decimal
//! fractions and are parsed by the application; their outcome is an input
//! here.

use vstd::prelude::*;

use crate::settings::{
    opt_view, DecoderFileConfig, DetectionFileConfig, FileConfig, OcrFileConfig, normalize_spec,
};
use crate::text::{
    str_equal,
    decimal_spec, format_decimal, parse_unsigned, parse_unsigned_spec, trim, trim_spec,
};

verus! {

/// The error (if any) shown under each validated field.
#[derive(Debug, Default)]
pub struct FieldErrors {
    pub sps: Option<String>,
    pub target: Option<String>,
    pub delta: Option<String>,
    pub roi_x: Option<String>,
    pub roi_y: Option<String>,
    pub roi_width: Option<String>,
    pub roi_height: Option<String>,
    pub decoder_channel_capacity: Option<String>,
}

impl FieldErrors {
    /// Whether no field has an error.
    pub fn is_clear(&self) -> (res: bool)
        ensures
            res == (self.sps is None && self.target is None && self.delta is None && self.roi_x is None
                && self.roi_y is None && self.roi_width is None && self.roi_height is None
                && self.decoder_channel_capacity is None),
    {
        self.sps.is_none() && self.target.is_none() && self.delta.is_none() && self.roi_x.is_none()
            && self.roi_y.is_none() && self.roi_width.is_none() && self.roi_height.is_none()
            && self.decoder_channel_capacity.is_none()
    }
}

/// The trimmed text of a field, or `None` when it is blank.
pub fn normalize_optional(value: &str) -> (res: Option<String>)
    ensures
        opt_view(res) == normalize_spec(Some(value@)),
{
    let trimmed = trim(value);
    if trimmed.unicode_len() == 0 {
        None
    } else {
        Some(String::from_str(trimmed))
    }
}

fn message(label: &str, suffix: &str) -> (res: String)
    ensures
        res@ == label@ + suffix@,
{
    let mut s = String::from_str(label);
    s.append(suffix);
    s
}

/// The value a field holds as an unsigned integer of at most `max`.
pub open spec fn field_number(value: Seq<char>, max: nat) -> Option<nat> {
    parse_unsigned_spec(trim_spec(value), max)
}

/// Checks a field that must be blank or a whole number of at least one.
pub fn validate_optional_u32(label: &str, value: &str) -> (res: Option<String>)
    ensures
        trim_spec(value@).len() == 0 ==> res is None,
        trim_spec(value@).len() > 0 ==> match field_number(value@, u32::MAX as nat) {
            Some(n) => if n >= 1 {
                res is None
            } else {
                res matches Some(m) && m@ == label@ + " must be at least 1"@
            },
            None => res matches Some(m) && m@ == label@ + " must be a number"@,
        },
{
    let trimmed = trim(value);
    if trimmed.unicode_len() == 0 {
        return None;
    }
    match parse_unsigned(trimmed, u32::MAX as u64) {
        Some(n) => if n >= 1 {
            None
        } else {
            Some(message(label, " must be at least 1"))
        },
        None => Some(message(label, " must be a number")),
    }
}

/// Checks a field that must be blank or a byte value.
pub fn validate_optional_u8(label: &str, value: &str) -> (res: Option<String>)
    ensures
        trim_spec(value@).len() == 0 ==> res is None,
        trim_spec(value@).len() > 0 ==> match field_number(value@, u8::MAX as nat) {
            Some(_) => res is None,
            None => res matches Some(m) && m@ == label@ + " must be 0-255"@,
        },
{
    let trimmed = trim(value);
    if trimmed.unicode_len() == 0 {
        return None;
    }
    match parse_unsigned(trimmed, u8::MAX as u64) {
        Some(_) => None,
        None => Some(message(label, " must be 0-255")),
    }
}

/// Checks a field that must be blank or a count of at least one.
pub fn validate_optional_usize(label: &str, value: &str) -> (res: Option<String>)
    ensures
        trim_spec(value@).len() == 0 ==> res is None,
        trim_spec(value@).len() > 0 ==> match field_number(value@, usize::MAX as nat) {
            Some(n) => if n >= 1 {
                res is None
            } else {
                res matches Some(m) && m@ == label@ + " must be at least 1"@
            },
            None => res matches Some(m) && m@ == label@ + " must be a number"@,
        },
{
    let trimmed = trim(value);
    if trimmed.unicode_len() == 0 {
        return None;
    }
    match parse_unsigned(trimmed, usize::MAX as u64) {
        Some(n) => if n >= 1 {
            None
        } else {
            Some(message(label, " must be at least 1"))
        },
        None => Some(message(label, " must be a number")),
    }
}

/// Reads a field that must be blank or a whole number of at least one.
pub fn parse_optional_u32(label: &str, value: &str) -> (res: Result<Option<u32>, String>)
    ensures
        trim_spec(value@).len() == 0 ==> res == Ok::<Option<u32>, String>(None),
        trim_spec(value@).len() > 0 ==> match field_number(value@, u32::MAX as nat) {
            Some(n) => if n >= 1 {
                res matches Ok(Some(v)) && v == n
            } else {
                res matches Err(m) && m@ == label@ + " must be at least 1"@
            },
            None => res matches Err(m) && m@ == label@ + " must be a number"@,
        },
{
    let trimmed = trim(value);
    if trimmed.unicode_len() == 0 {
        return Ok(None);
    }
    match parse_unsigned(trimmed, u32::MAX as u64) {
        Some(n) => if n == 0 {
            Err(message(label, " must be at least 1"))
        } else {
            Ok(Some(n as u32))
        },
        None => Err(message(label, " must be a number")),
    }
}

/// Reads a field that must be blank or a byte value.
pub fn parse_optional_u8(label: &str, value: &str) -> (res: Result<Option<u8>, String>)
    ensures
        trim_spec(value@).len() == 0 ==> res == Ok::<Option<u8>, String>(None),
        trim_spec(value@).len() > 0 ==> match field_number(value@, u8::MAX as nat) {
            Some(n) => res matches Ok(Some(v)) && v == n,
            None => res matches Err(m) && m@ == label@ + " must be 0-255"@,
        },
{
    let trimmed = trim(value);
    if trimmed.unicode_len() == 0 {
        return Ok(None);
    }
    match parse_unsigned(trimmed, u8::MAX as u64) {
        Some(n) => Ok(Some(n as u8)),
        None => Err(message(label, " must be 0-255")),
    }
}

/// Reads a field that must be blank or a count of at least one.
pub fn parse_optional_usize(label: &str, value: &str) -> (res: Result<Option<usize>, String>)
    ensures
        trim_spec(value@).len() == 0 ==> res == Ok::<Option<usize>, String>(None),
        trim_spec(value@).len() > 0 ==> match field_number(value@, usize::MAX as nat) {
            Some(n) => if n >= 1 {
                res matches Ok(Some(v)) && v == n
            } else {
                res matches Err(m) && m@ == label@ + " must be at least 1"@
            },
            None => res matches Err(m) && m@ == label@ + " must be a number"@,
        },
{
    let trimmed = trim(value);
    if trimmed.unicode_len() == 0 {
        return Ok(None);
    }
    match parse_unsigned(trimmed, usize::MAX as u64) {
        Some(n) => if n == 0 {
            Err(message(label, " must be at least 1"))
        } else {
            Ok(Some(n as usize))
        },
        None => Err(message(label, " must be a number")),
    }
}


/// The text of every field of the configuration form.
#[derive(Debug)]
pub struct ConfigValues {
    pub sps: String,
    pub target: String,
    pub delta: String,
    pub detector_backend: String,
    pub comparator: String,
    pub roi_x: String,
    pub roi_y: String,
    pub roi_width: String,
    pub roi_height: String,
    pub decoder_backend: String,
    pub decoder_channel_capacity: String,
    pub ocr_backend: String,
}

/// The form written for a new configuration file.
pub open spec fn is_default_example(v: ConfigValues) -> bool {
    &&& v.sps@ == "7"@
    &&& v.target@ == "230"@
    &&& v.delta@ == "12"@
    &&& v.detector_backend@ == "auto"@
    &&& v.comparator@ == ""@
    &&& v.roi_x@ == "0.15"@
    &&& v.roi_y@ == "0.8"@
    &&& v.roi_width@ == "0.7"@
    &&& v.roi_height@ == "0.2"@
    &&& v.decoder_backend@ == ""@
    &&& v.decoder_channel_capacity@ == ""@
    &&& v.ocr_backend@ == "auto"@
}

/// The form's text for a number from the file, or `default`.
pub open spec fn number_text(value: Option<nat>, default: Seq<char>) -> Seq<char> {
    match value {
        Some(n) => decimal_spec(n),
        None => default,
    }
}

/// The form's text for a string from the file, or `default`.
pub open spec fn string_text(value: Option<Seq<char>>, default: Seq<char>) -> Seq<char> {
    match value {
        Some(s) => s,
        None => default,
    }
}

/// An optional `u32` as an optional number.
pub open spec fn nat_of_u32(v: Option<u32>) -> Option<nat> {
    match v {
        Some(n) => Some(n as nat),
        None => None,
    }
}

/// An optional `u8` as an optional number.
pub open spec fn nat_of_u8(v: Option<u8>) -> Option<nat> {
    match v {
        Some(n) => Some(n as nat),
        None => None,
    }
}

/// An optional `usize` as an optional number.
pub open spec fn nat_of_usize(v: Option<usize>) -> Option<nat> {
    match v {
        Some(n) => Some(n as nat),
        None => None,
    }
}

/// `detection.detector` in the file, if any.
pub open spec fn file_detector(file: FileConfig) -> Option<Seq<char>> {
    match file.detection {
        Some(d) => opt_view(d.detector),
        None => None,
    }
}

/// Whether `v` is the form showing `file`: the default example, with every
/// value present in the file written over it (region-of-interest texts as
/// given).
pub open spec fn shows_file(
    v: ConfigValues,
    file: FileConfig,
    roi: (Option<Seq<char>>, Option<Seq<char>>, Option<Seq<char>>, Option<Seq<char>>),
) -> bool {
    &&& v.sps@ == number_text(nat_of_u32(crate::settings::file_sps(file)), "7"@)
    &&& v.target@ == number_text(nat_of_u8(crate::settings::file_target(file)), "230"@)
    &&& v.delta@ == number_text(nat_of_u8(crate::settings::file_delta(file)), "12"@)
    &&& v.detector_backend@ == string_text(file_detector(file), "auto"@)
    &&& v.comparator@ == string_text(crate::settings::file_comparator(file), ""@)
    &&& v.roi_x@ == string_text(roi.0, "0.15"@)
    &&& v.roi_y@ == string_text(roi.1, "0.8"@)
    &&& v.roi_width@ == string_text(roi.2, "0.7"@)
    &&& v.roi_height@ == string_text(roi.3, "0.2"@)
    &&& v.decoder_backend@ == string_text(crate::settings::file_decoder_backend(file), ""@)
    &&& v.decoder_channel_capacity@ == number_text(
        nat_of_usize(crate::settings::file_capacity(file)),
        ""@,
    )
    &&& v.ocr_backend@ == string_text(crate::settings::file_ocr_backend(file), "auto"@)
}

fn text_or(value: Option<String>, default: &str) -> (res: String)
    ensures
        res@ == string_text(opt_view(value), default@),
{
    match value {
        Some(s) => s,
        None => String::from_str(default),
    }
}

impl ConfigValues {
    /// The form written for a new configuration file.
    pub fn default_example() -> (res: ConfigValues)
        ensures
            is_default_example(res),
    {
        ConfigValues {
            sps: String::from_str("7"),
            target: String::from_str("230"),
            delta: String::from_str("12"),
            detector_backend: String::from_str("auto"),
            comparator: String::from_str(""),
            roi_x: String::from_str("0.15"),
            roi_y: String::from_str("0.8"),
            roi_width: String::from_str("0.7"),
            roi_height: String::from_str("0.2"),
            decoder_backend: String::from_str(""),
            decoder_channel_capacity: String::from_str(""),
            ocr_backend: String::from_str("auto"),
        }
    }

    /// The form showing `file`; the region-of-interest values are given as
    /// text by the caller.
    pub fn from_file(
        file: FileConfig,
        roi_x: Option<String>,
        roi_y: Option<String>,
        roi_width: Option<String>,
        roi_height: Option<String>,
    ) -> (res: ConfigValues)
        ensures
            shows_file(res, file, (opt_view(roi_x), opt_view(roi_y), opt_view(roi_width), opt_view(roi_height))),
    {
        let ghost original = file;
        let (sps, target, delta, detector, comparator) = match file.detection {
            Some(d) => (d.samples_per_second, d.target, d.delta, d.detector, d.comparator),
            None => (None, None, None, None, None),
        };
        let (decoder_backend, capacity) = match file.decoder {
            Some(d) => (d.backend, d.channel_capacity),
            None => (None, None),
        };
        let ocr_backend = match file.ocr {
            Some(o) => o.backend,
            None => None,
        };
        ConfigValues {
            sps: match sps {
                Some(v) => format_decimal(v as u64),
                None => String::from_str("7"),
            },
            target: match target {
                Some(v) => format_decimal(v as u64),
                None => String::from_str("230"),
            },
            delta: match delta {
                Some(v) => format_decimal(v as u64),
                None => String::from_str("12"),
            },
            detector_backend: text_or(detector, "auto"),
            comparator: text_or(comparator, ""),
            roi_x: text_or(roi_x, "0.15"),
            roi_y: text_or(roi_y, "0.8"),
            roi_width: text_or(roi_width, "0.7"),
            roi_height: text_or(roi_height, "0.2"),
            decoder_backend: text_or(decoder_backend, ""),
            decoder_channel_capacity: match capacity {
                Some(v) => format_decimal(v as u64),
                None => String::from_str(""),
            },
            ocr_backend: text_or(ocr_backend, "auto"),
        }
    }
}

/// A form field read as an optional number with a lower bound of `min`:
/// `Ok(None)` when blank, `Ok(Some(n))` for a number in `min..=max`, and
/// `Err(())` otherwise.
pub open spec fn read_number(value: Seq<char>, min: nat, max: nat) -> Result<Option<nat>, ()> {
    if trim_spec(value).len() == 0 {
        Ok(None)
    } else {
        match field_number(value, max) {
            Some(n) => if n >= min {
                Ok(Some(n))
            } else {
                Err(())
            },
            None => Err(()),
        }
    }
}

/// Whether `file` is what the form `v` saves, the region of interest being
/// present or not as `roi_present` says.
pub open spec fn saves_as(v: ConfigValues, roi_present: bool, file: FileConfig) -> bool {
    let sps = read_number(v.sps@, 1, u32::MAX as nat)->Ok_0;
    let target = read_number(v.target@, 0, u8::MAX as nat)->Ok_0;
    let delta = read_number(v.delta@, 0, u8::MAX as nat)->Ok_0;
    let capacity = read_number(v.decoder_channel_capacity@, 1, usize::MAX as nat)->Ok_0;
    let detector = normalize_spec(Some(v.detector_backend@));
    let comparator = normalize_spec(Some(v.comparator@));
    let decoder_backend = normalize_spec(Some(v.decoder_backend@));
    let ocr_backend = normalize_spec(Some(v.ocr_backend@));
    &&& (file.detection is Some <==> (sps is Some || target is Some || delta is Some
        || detector is Some || comparator is Some || roi_present))
    &&& (file.detection matches Some(d) ==> {
        &&& nat_of_u32(d.samples_per_second) == sps
        &&& nat_of_u8(d.target) == target
        &&& nat_of_u8(d.delta) == delta
        &&& opt_view(d.detector) == detector
        &&& opt_view(d.comparator) == comparator
    })
    &&& (file.decoder is Some <==> (decoder_backend is Some || capacity is Some))
    &&& (file.decoder matches Some(d) ==> {
        &&& opt_view(d.backend) == decoder_backend
        &&& nat_of_usize(d.channel_capacity) == capacity
    })
    &&& (file.ocr is Some <==> ocr_backend is Some)
    &&& (file.ocr matches Some(o) ==> opt_view(o.backend) == ocr_backend)
    &&& file.output is None
}

/// Builds the configuration file the form describes. `roi` is the outcome
/// of reading the region-of-interest fields: whether a region is given, or
/// the message for the first invalid coordinate. Errors are reported in the
/// order samples per second, target, delta, region of interest, channel
/// capacity.
pub fn build_config_from_values(values: &ConfigValues, roi: Result<bool, String>) -> (res: Result<
    FileConfig,
    String,
>)
    ensures
        res is Ok <==> (read_number(values.sps@, 1, u32::MAX as nat) is Ok && read_number(
            values.target@,
            0,
            u8::MAX as nat,
        ) is Ok && read_number(values.delta@, 0, u8::MAX as nat) is Ok && roi is Ok
            && read_number(values.decoder_channel_capacity@, 1, usize::MAX as nat) is Ok),
        res matches Ok(file) ==> saves_as(*values, roi->Ok_0, file),
        read_number(values.sps@, 1, u32::MAX as nat) is Ok && read_number(
            values.target@,
            0,
            u8::MAX as nat,
        ) is Ok && read_number(values.delta@, 0, u8::MAX as nat) is Ok && roi is Err ==> res
            == Err::<FileConfig, String>(roi->Err_0),
{
    let sps = match parse_optional_u32("detection.samples_per_second", values.sps.as_str()) {
        Ok(v) => v,
        Err(e) => return Err(e),
    };
    let target = match parse_optional_u8("detection.target", values.target.as_str()) {
        Ok(v) => v,
        Err(e) => return Err(e),
    };
    let delta = match parse_optional_u8("detection.delta", values.delta.as_str()) {
        Ok(v) => v,
        Err(e) => return Err(e),
    };
    let detector = normalize_optional(values.detector_backend.as_str());
    let comparator = normalize_optional(values.comparator.as_str());
    let roi_present = match roi {
        Ok(p) => p,
        Err(e) => return Err(e),
    };
    let decoder_backend = normalize_optional(values.decoder_backend.as_str());
    let capacity = match parse_optional_usize(
        "decoder.channel_capacity",
        values.decoder_channel_capacity.as_str(),
    ) {
        Ok(v) => v,
        Err(e) => return Err(e),
    };
    let ocr_backend = normalize_optional(values.ocr_backend.as_str());
    let detection = if sps.is_some() || target.is_some() || delta.is_some() || detector.is_some()
        || comparator.is_some() || roi_present {
        Some(
            DetectionFileConfig {
                samples_per_second: sps,
                target,
                delta,
                detector,
                comparator,
            },
        )
    } else {
        None
    };
    let decoder = if decoder_backend.is_some() || capacity.is_some() {
        Some(DecoderFileConfig { backend: decoder_backend, channel_capacity: capacity })
    } else {
        None
    };
    let ocr = if ocr_backend.is_some() {
        Some(OcrFileConfig { backend: ocr_backend })
    } else {
        None
    };
    Ok(FileConfig { detection, decoder, ocr, output: None })
}


/// A number written by the form reads back as that number.
pub proof fn lemma_number_text_reads_back(n: nat, min: nat, max: nat)
    requires
        min <= n <= max,
    ensures
        read_number(decimal_spec(n), min, max) == Ok::<Option<nat>, ()>(Some(n)),
{
    crate::text::lemma_decimal_digits(n);
    crate::text::lemma_trim_digits(decimal_spec(n));
    crate::text::lemma_parse_format_roundtrip(n, max);
}

/// Saving the form that shows a configuration file keeps every value the
/// file holds: numbers in their accepted ranges come back unchanged and
/// names come back trimmed (blank names are dropped).
pub proof fn lemma_form_keeps_file_values(
    file: FileConfig,
    roi: (Option<Seq<char>>, Option<Seq<char>>, Option<Seq<char>>, Option<Seq<char>>),
    v: ConfigValues,
    roi_present: bool,
    saved: FileConfig,
)
    requires
        shows_file(v, file, roi),
        saves_as(v, roi_present, saved),
    ensures
        (crate::settings::file_sps(file) matches Some(n) && n >= 1) ==> crate::settings::file_sps(
            saved,
        ) == crate::settings::file_sps(file),
        crate::settings::file_target(file) is Some ==> crate::settings::file_target(saved)
            == crate::settings::file_target(file),
        crate::settings::file_delta(file) is Some ==> crate::settings::file_delta(saved)
            == crate::settings::file_delta(file),
        (crate::settings::file_capacity(file) matches Some(n) && n >= 1)
            ==> crate::settings::file_capacity(saved) == crate::settings::file_capacity(file),
        file_detector(file) is Some ==> file_detector(saved) == normalize_spec(file_detector(file)),
        crate::settings::file_comparator(file) is Some ==> crate::settings::file_comparator(saved)
            == normalize_spec(crate::settings::file_comparator(file)),
        crate::settings::file_decoder_backend(file) is Some
            ==> crate::settings::file_decoder_backend(saved) == normalize_spec(
            crate::settings::file_decoder_backend(file),
        ),
        crate::settings::file_ocr_backend(file) is Some ==> crate::settings::file_ocr_backend(saved)
            == normalize_spec(crate::settings::file_ocr_backend(file)),
{
    if let Some(n) = crate::settings::file_sps(file) {
        if n >= 1 {
            lemma_number_text_reads_back(n as nat, 1, u32::MAX as nat);
        }
    }
    if let Some(n) = crate::settings::file_target(file) {
        lemma_number_text_reads_back(n as nat, 0, u8::MAX as nat);
    }
    if let Some(n) = crate::settings::file_delta(file) {
        lemma_number_text_reads_back(n as nat, 0, u8::MAX as nat);
    }
    if let Some(n) = crate::settings::file_capacity(file) {
        if n >= 1 {
            lemma_number_text_reads_back(n as nat, 1, usize::MAX as nat);
        }
    }
}


/// Whether `text` is a number in `min..=max` as the form writes it.
pub open spec fn canonical_number(text: Seq<char>, min: nat, max: nat) -> bool {
    exists|n: nat| min <= n <= max && text == decimal_spec(n)
}

/// Whether `text` is a name as the form keeps it: trimmed and not blank.
pub open spec fn kept_name(text: Seq<char>) -> bool {
    normalize_spec(Some(text)) == Some(text)
}

/// Whether the form `v` is in the shape the form itself writes: numbers in
/// range and in decimal, the channel capacity blank or such a number, the
/// detector and OCR backends named, the comparator and decoder backend
/// blank or named.
pub open spec fn canonical_form(v: ConfigValues) -> bool {
    &&& canonical_number(v.sps@, 1, u32::MAX as nat)
    &&& canonical_number(v.target@, 0, u8::MAX as nat)
    &&& canonical_number(v.delta@, 0, u8::MAX as nat)
    &&& v.decoder_channel_capacity@.len() == 0 || canonical_number(
        v.decoder_channel_capacity@,
        1,
        usize::MAX as nat,
    )
    &&& kept_name(v.detector_backend@)
    &&& kept_name(v.ocr_backend@)
    &&& v.comparator@.len() == 0 || kept_name(v.comparator@)
    &&& v.decoder_backend@.len() == 0 || kept_name(v.decoder_backend@)
}

/// Showing the file that a form saves gives that form back, for a form in
/// the shape the form writes (region-of-interest texts passed through as
/// they were).
pub proof fn lemma_file_keeps_form_values(
    v: ConfigValues,
    roi_present: bool,
    saved: FileConfig,
    shown: ConfigValues,
)
    requires
        canonical_form(v),
        saves_as(v, roi_present, saved),
        shows_file(
            shown,
            saved,
            (Some(v.roi_x@), Some(v.roi_y@), Some(v.roi_width@), Some(v.roi_height@)),
        ),
    ensures
        shown.sps@ == v.sps@,
        shown.target@ == v.target@,
        shown.delta@ == v.delta@,
        shown.detector_backend@ == v.detector_backend@,
        shown.comparator@ == v.comparator@,
        shown.roi_x@ == v.roi_x@,
        shown.roi_y@ == v.roi_y@,
        shown.roi_width@ == v.roi_width@,
        shown.roi_height@ == v.roi_height@,
        shown.decoder_backend@ == v.decoder_backend@,
        shown.decoder_channel_capacity@ == v.decoder_channel_capacity@,
        shown.ocr_backend@ == v.ocr_backend@,
{
    reveal_strlit("");
    let sps = choose|n: nat| 1 <= n <= u32::MAX as nat && v.sps@ == decimal_spec(n);
    lemma_number_text_reads_back(sps, 1, u32::MAX as nat);
    let target = choose|n: nat| 0 <= n <= u8::MAX as nat && v.target@ == decimal_spec(n);
    lemma_number_text_reads_back(target, 0, u8::MAX as nat);
    let delta = choose|n: nat| 0 <= n <= u8::MAX as nat && v.delta@ == decimal_spec(n);
    lemma_number_text_reads_back(delta, 0, u8::MAX as nat);
    if v.decoder_channel_capacity@.len() == 0 {
        assert(trim_spec(v.decoder_channel_capacity@).len() == 0) by {
            crate::text::lemma_trim_bounds(v.decoder_channel_capacity@);
        }
    } else {
        let cap = choose|n: nat|
            1 <= n <= usize::MAX as nat && v.decoder_channel_capacity@ == decimal_spec(n);
        lemma_number_text_reads_back(cap, 1, usize::MAX as nat);
    }
    if v.comparator@.len() == 0 {
        crate::text::lemma_trim_bounds(v.comparator@);
        assert(v.comparator@ =~= ""@);
    }
    if v.decoder_backend@.len() == 0 {
        crate::text::lemma_trim_bounds(v.decoder_backend@);
        assert(v.decoder_backend@ =~= ""@);
    }
    if v.decoder_channel_capacity@.len() == 0 {
        assert(v.decoder_channel_capacity@ =~= ""@);
    }
}

/// One entry of a drop-down field: what it shows and the value it stands for.
#[derive(Debug)]
pub struct SelectOption {
    pub label: String,
    pub value: String,
}

impl SelectOption {
    /// Builds an option.
    pub fn new(label: &str, value: &str) -> (res: SelectOption)
        ensures
            res.label@ == label@,
            res.value@ == value@,
    {
        SelectOption { label: String::from_str(label), value: String::from_str(value) }
    }
}

/// The first position of an option with value `v`, or -1.
pub open spec fn option_position(options: Seq<SelectOption>, v: Seq<char>) -> int {
    if exists|i: int| 0 <= i < options.len() && options[i].value@ == v && forall|j: int|
        0 <= j < i ==> options[j].value@ != v {
        choose|i: int|
            0 <= i < options.len() && options[i].value@ == v && forall|j: int|
                0 <= j < i ==> options[j].value@ != v
    } else {
        -1
    }
}

fn find_option(options: &Vec<SelectOption>, v: &str) -> (res: Option<usize>)
    ensures
        match res {
            Some(i) => option_position(options@, v@) == i as int,
            None => option_position(options@, v@) == -1,
        },
{
    let mut i: usize = 0;
    while i < options.len()
        invariant
            0 <= i <= options.len(),
            forall|j: int| 0 <= j < i ==> (#[trigger] options@[j]).value@ != v@,
        decreases options.len() - i,
    {
        if str_equal(options[i].value.as_str(), v) {
            proof {
                let w = choose|k: int|
                    0 <= k < options@.len() && options@[k].value@ == v@ && forall|j: int|
                        0 <= j < k ==> options@[j].value@ != v@;
                if w < i {
                    assert(options@[w].value@ != v@);
                } else if i < w {
                    assert(options@[i as int].value@ != v@);
                }
            }
            return Some(i);
        }
        i = i + 1;
    }
    None
}

/// A drop-down field.
#[derive(Debug)]
pub struct SelectInput {
    pub options: Vec<SelectOption>,
    pub selected: usize,
    pub open: bool,
}

impl SelectInput {
    /// A closed drop-down showing the option whose value is `default_value`
    /// (the first option when there is none).
    pub fn new(options: Vec<SelectOption>, default_value: &str) -> (res: SelectInput)
        ensures
            res.options@ == options@,
            !res.open,
            res.selected == (if option_position(options@, default_value@) >= 0 {
                option_position(options@, default_value@) as usize
            } else {
                0usize
            }),
    {
        let selected = match find_option(&options, default_value) {
            Some(i) => i,
            None => 0,
        };
        SelectInput { options, selected, open: false }
    }

    /// Shows the option whose value is `value`, if there is one.
    pub fn set_value(&mut self, value: &str)
        ensures
            final(self).options@ == old(self).options@,
            final(self).open == old(self).open,
            final(self).selected == (if option_position(old(self).options@, value@) >= 0 {
                option_position(old(self).options@, value@) as usize
            } else {
                old(self).selected
            }),
    {
        if let Some(index) = find_option(&self.options, value) {
            self.selected = index;
        }
    }

    /// The value of the shown option (empty when out of range).
    pub fn value(&self) -> (res: String)
        ensures
            self.selected < self.options@.len() ==> res@ == self.options@[self.selected as int].value@,
            self.selected >= self.options@.len() ==> res@.len() == 0,
    {
        if self.selected < self.options.len() {
            self.options[self.selected].value.clone()
        } else {
            String::new()
        }
    }

    /// Chooses the option at `index` and closes the list.
    pub fn select(&mut self, index: usize)
        ensures
            final(self).selected == index,
            !final(self).open,
            final(self).options@ == old(self).options@,
    {
        self.selected = index;
        self.open = false;
    }

    /// Closes the list.
    pub fn close(&mut self)
        ensures
            !final(self).open,
            final(self).selected == old(self).selected,
            final(self).options@ == old(self).options@,
    {
        self.open = false;
    }

    /// Opens a closed list or closes an open one.
    pub fn toggle_open(&mut self)
        ensures
            final(self).open == !old(self).open,
            final(self).selected == old(self).selected,
            final(self).options@ == old(self).options@,
    {
        self.open = !self.open;
    }
}

/// Whether a continuous-integration run is signalled by the value of
/// `GITHUB_ACTIONS`: set, not empty and not `false`.
pub fn github_ci_active(value: Option<&str>) -> (res: bool)
    ensures
        res == (value matches Some(v) && v@.len() > 0 && v@ != "false"@),
{
    match value {
        Some(v) => v.unicode_len() > 0 && !str_equal(v, "false"),
        None => false,
    }
}

/// The decoder backends offered: `auto` (empty value), then each available
/// backend, the `mock` backend only during continuous integration.
pub open spec fn decoder_options_spec(available: Seq<Seq<char>>, ci_active: bool) -> Seq<(Seq<char>, Seq<char>)>
    decreases available.len(),
{
    if available.len() == 0 {
        seq![("auto"@, ""@)]
    } else {
        let rest = decoder_options_spec(available.drop_last(), ci_active);
        let name = available.last();
        if name == "mock"@ && !ci_active {
            rest
        } else {
            rest.push((name, name))
        }
    }
}

/// The labels and values of a list of options.
pub open spec fn options_view(options: Seq<SelectOption>) -> Seq<(Seq<char>, Seq<char>)> {
    options.map_values(|o: SelectOption| (o.label@, o.value@))
}

/// The options of the decoder backend field.
pub fn decoder_backend_options(available: &Vec<String>, ci_active: bool) -> (res: Vec<SelectOption>)
    ensures
        options_view(res@) == decoder_options_spec(available@.map_values(|v: String| v@), ci_active),
{
    let ghost names = available@.map_values(|v: String| v@);
    let mut options: Vec<SelectOption> = Vec::new();
    options.push(SelectOption::new("auto", ""));
    assert(options_view(options@) =~= decoder_options_spec(names.subrange(0, 0), ci_active));
    let mut i: usize = 0;
    while i < available.len()
        invariant
            0 <= i <= available.len(),
            names == available@.map_values(|v: String| v@),
            options_view(options@) == decoder_options_spec(names.subrange(0, i as int), ci_active),
        decreases available.len() - i,
    {
        let name = available[i].as_str();
        assert(names.subrange(0, i + 1).drop_last() =~= names.subrange(0, i as int));
        assert(names.subrange(0, i + 1).last() == name@);
        let ghost before = options@;
        if !(str_equal(name, "mock") && !ci_active) {
            options.push(SelectOption::new(name, name));
            assert(options_view(options@) =~= options_view(before).push((name@, name@)));
        }
        i = i + 1;
    }
    assert(names.subrange(0, available.len() as int) =~= names);
    options
}

/// The options of the comparator field: `auto` (empty value), then each
/// available comparator.
pub fn comparator_options(available: &Vec<String>) -> (res: Vec<SelectOption>)
    ensures
        options_view(res@) == seq![("auto"@, ""@)] + available@.map_values(
            |v: String| (v@, v@),
        ),
{
    let mut options: Vec<SelectOption> = Vec::new();
    options.push(SelectOption::new("auto", ""));
    let mut i: usize = 0;
    while i < available.len()
        invariant
            0 <= i <= available.len(),
            options_view(options@) == seq![("auto"@, ""@)] + available@.subrange(0, i as int).map_values(
                |v: String| (v@, v@),
            ),
        decreases available.len() - i,
    {
        let ghost before = options@;
        options.push(SelectOption::new(available[i].as_str(), available[i].as_str()));
        assert(options_view(options@) =~= options_view(before).push((available@[i as int]@, available@[i as int]@)));
        assert(available@.subrange(0, i + 1).map_values(|v: String| (v@, v@)) =~= available@.subrange(
            0,
            i as int,
        ).map_values(|v: String| (v@, v@)).push((available@[i as int]@, available@[i as int]@)));
        i = i + 1;
    }
    assert(available@.subrange(0, available.len() as int) =~= available@);
    options
}

/// The position of `name` in the preferred order, or the order's length.
pub open spec fn rank(order: Seq<Seq<char>>, name: Seq<char>) -> int
    decreases order.len(),
{
    if order.len() == 0 {
        0
    } else if order[0] == name {
        0
    } else {
        1 + rank(order.drop_first(), name)
    }
}

/// The names of rank `r`, in their original order.
pub open spec fn names_of_rank(names: Seq<Seq<char>>, order: Seq<Seq<char>>, r: int) -> Seq<Seq<char>>
    decreases names.len(),
{
    if names.len() == 0 {
        Seq::empty()
    } else {
        let rest = names_of_rank(names.drop_last(), order, r);
        if rank(order, names.last()) == r {
            rest.push(names.last())
        } else {
            rest
        }
    }
}

/// The names sorted by rank, keeping their order within a rank (a stable
/// sort by position in the preferred order, unknown names last).
pub open spec fn sorted_by_rank(names: Seq<Seq<char>>, order: Seq<Seq<char>>, upto: int) -> Seq<Seq<char>>
    decreases upto,
{
    if upto <= 0 {
        Seq::empty()
    } else {
        sorted_by_rank(names, order, upto - 1) + names_of_rank(names, order, upto - 1)
    }
}

fn rank_of(order: &Vec<&str>, name: &str) -> (res: usize)
    ensures
        res as int == rank(order@.map_values(|o: &str| o@), name@),
{
    let ghost os = order@.map_values(|o: &str| o@);
    let mut i: usize = 0;
    assert(os.subrange(0, os.len() as int) =~= os);
    while i < order.len()
        invariant
            0 <= i <= order.len(),
            os == order@.map_values(|o: &str| o@),
            rank(os, name@) == i + rank(os.subrange(i as int, os.len() as int), name@),
            forall|j: int| 0 <= j < i ==> os[j] != name@,
        decreases order.len() - i,
    {
        let ghost tail = os.subrange(i as int, os.len() as int);
        assert(tail[0] == order@[i as int]@);
        if str_equal(order[i], name) {
            return i;
        }
        assert(tail.drop_first() =~= os.subrange(i + 1, os.len() as int));
        i = i + 1;
    }
    i
}

/// The options of a backend field ordered by preference: `auto`, then the
/// available backends sorted by their position in `order` (unknown ones
/// last, the original order kept among equals).
pub fn ordered_backend_options(available: &Vec<String>, order: &Vec<&str>) -> (res: Vec<SelectOption>)
    requires
        order.len() < usize::MAX,
    ensures
        options_view(res@) == seq![("auto"@, "auto"@)] + sorted_by_rank(
            available@.map_values(|v: String| v@),
            order@.map_values(|o: &str| o@),
            order@.len() + 1int,
        ).map_values(|n: Seq<char>| (n, n)),
{
    let ghost names = available@.map_values(|v: String| v@);
    let ghost os = order@.map_values(|o: &str| o@);
    let mut options: Vec<SelectOption> = Vec::new();
    options.push(SelectOption::new("auto", "auto"));
    let mut r: usize = 0;
    assert(options_view(options@) =~= seq![("auto"@, "auto"@)] + sorted_by_rank(names, os, 0).map_values(
        |n: Seq<char>| (n, n),
    ));
    while r <= order.len()
        invariant
            0 <= r <= order.len() + 1,
            order.len() < usize::MAX,
            names == available@.map_values(|v: String| v@),
            os == order@.map_values(|o: &str| o@),
            options_view(options@) == seq![("auto"@, "auto"@)] + sorted_by_rank(names, os, r as int).map_values(
                |n: Seq<char>| (n, n),
            ),
        decreases order.len() + 1 - r,
    {
        let ghost base = options_view(options@);
        let mut i: usize = 0;
        while i < available.len()
            invariant
                0 <= i <= available.len(),
                r <= order.len(),
                names == available@.map_values(|v: String| v@),
                os == order@.map_values(|o: &str| o@),
                options_view(options@) == base + names_of_rank(names.subrange(0, i as int), os, r as int).map_values(
                    |n: Seq<char>| (n, n),
                ),
            decreases available.len() - i,
        {
            let name = available[i].as_str();
            assert(names.subrange(0, i + 1).drop_last() =~= names.subrange(0, i as int));
            assert(names.subrange(0, i + 1).last() == name@);
            let ghost before = options@;
            if rank_of(order, name) == r {
                options.push(SelectOption::new(name, name));
                assert(options_view(options@) =~= options_view(before).push((name@, name@)));
                assert(names_of_rank(names.subrange(0, i + 1), os, r as int).map_values(
                    |n: Seq<char>| (n, n),
                ) =~= names_of_rank(names.subrange(0, i as int), os, r as int).map_values(
                    |n: Seq<char>| (n, n),
                ).push((name@, name@)));
            }
            i = i + 1;
        }
        assert(names.subrange(0, available.len() as int) =~= names);
        assert(sorted_by_rank(names, os, r + 1) == sorted_by_rank(names, os, r as int) + names_of_rank(
            names,
            os,
            r as int,
        ));
        assert(sorted_by_rank(names, os, r + 1).map_values(|n: Seq<char>| (n, n)) =~= sorted_by_rank(
            names,
            os,
            r as int,
        ).map_values(|n: Seq<char>| (n, n)) + names_of_rank(names, os, r as int).map_values(
            |n: Seq<char>| (n, n),
        ));
        r = r + 1;
    }
    options
}

/// The options of the detector backend field, preferring projection band,
/// then integral band, then macOS Vision.
pub fn detector_backend_options(available: &Vec<String>) -> (res: Vec<SelectOption>)
    ensures
        options_view(res@) == seq![("auto"@, "auto"@)] + sorted_by_rank(
            available@.map_values(|v: String| v@),
            seq!["projection-band"@, "integral-band"@, "macos-vision"@],
            4,
        ).map_values(|n: Seq<char>| (n, n)),
{
    let order = vec!["projection-band", "integral-band", "macos-vision"];
    assert(order@.map_values(|o: &str| o@) =~= seq!["projection-band"@, "integral-band"@, "macos-vision"@]);
    ordered_backend_options(available, &order)
}

/// The options of the OCR backend field, preferring Vision, then ORT, then
/// no OCR.
pub fn ocr_backend_options(available: &Vec<String>) -> (res: Vec<SelectOption>)
    ensures
        options_view(res@) == seq![("auto"@, "auto"@)] + sorted_by_rank(
            available@.map_values(|v: String| v@),
            seq!["vision"@, "ort"@, "noop"@],
            4,
        ).map_values(|n: Seq<char>| (n, n)),
{
    let order = vec!["vision", "ort", "noop"];
    assert(order@.map_values(|o: &str| o@) =~= seq!["vision"@, "ort"@, "noop"@]);
    ordered_backend_options(available, &order)
}

} // verus!

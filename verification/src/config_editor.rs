//! The settings window's bookkeeping around the form: validating the
//! fields, knowing whether the form differs from what was last saved,
//! autosave, preparing a save, loading, and the unsaved-changes prompt on
//! close. Reading and writing the file is the caller's; this module decides
//! what to do with what came back.

use vstd::prelude::*;

use crate::config_form::{
    build_config_from_values, field_number, read_number, saves_as, validate_optional_u32,
    validate_optional_u8, validate_optional_usize, ConfigValues, FieldErrors,
};
use crate::paths::path_parent;
use crate::settings::{opt_view, FileConfig, OutputFileConfig};
use crate::text::{str_equal, trim_spec};

verus! {

/// The message a count field shows: blank is fine; else it must be a
/// number of at least one and at most `max`.
pub open spec fn count_field_error(label: Seq<char>, value: Seq<char>, max: nat) -> Option<Seq<char>> {
    if trim_spec(value).len() == 0 {
        None
    } else {
        match field_number(value, max) {
            Some(n) => if n >= 1 {
                None
            } else {
                Some(label + " must be at least 1"@)
            },
            None => Some(label + " must be a number"@),
        }
    }
}

/// The message a byte field shows: blank is fine; else it must be 0-255.
pub open spec fn byte_field_error(label: Seq<char>, value: Seq<char>) -> Option<Seq<char>> {
    if trim_spec(value).len() == 0 {
        None
    } else {
        match field_number(value, u8::MAX as nat) {
            Some(_) => None,
            None => Some(label + " must be 0-255"@),
        }
    }
}

/// The messages of the region-of-interest fields, as the caller's check
/// of their decimal values left them.
pub struct RoiFieldErrors {
    pub x: Option<String>,
    pub y: Option<String>,
    pub width: Option<String>,
    pub height: Option<String>,
}

/// Whether `errors` holds, field by field, the messages for `values`.
pub open spec fn errors_for(errors: FieldErrors, values: ConfigValues, roi: RoiFieldErrors) -> bool {
    &&& opt_view(errors.sps) == count_field_error(
        "Detection samples/sec"@,
        values.sps@,
        u32::MAX as nat,
    )
    &&& opt_view(errors.target) == byte_field_error("Detection target"@, values.target@)
    &&& opt_view(errors.delta) == byte_field_error("Detection delta"@, values.delta@)
    &&& opt_view(errors.roi_x) == opt_view(roi.x)
    &&& opt_view(errors.roi_y) == opt_view(roi.y)
    &&& opt_view(errors.roi_width) == opt_view(roi.width)
    &&& opt_view(errors.roi_height) == opt_view(roi.height)
    &&& opt_view(errors.decoder_channel_capacity) == count_field_error(
        "Decoder channel capacity"@,
        values.decoder_channel_capacity@,
        usize::MAX as nat,
    )
}

/// Whether no field has a message.
pub open spec fn errors_clear(errors: FieldErrors) -> bool {
    &&& errors.sps is None
    &&& errors.target is None
    &&& errors.delta is None
    &&& errors.roi_x is None
    &&& errors.roi_y is None
    &&& errors.roi_width is None
    &&& errors.roi_height is None
    &&& errors.decoder_channel_capacity is None
}

/// The text of every field, in form order.
pub open spec fn values_view(v: ConfigValues) -> Seq<Seq<char>> {
    seq![
        v.sps@,
        v.target@,
        v.delta@,
        v.detector_backend@,
        v.comparator@,
        v.roi_x@,
        v.roi_y@,
        v.roi_width@,
        v.roi_height@,
        v.decoder_backend@,
        v.decoder_channel_capacity@,
        v.ocr_backend@,
    ]
}

/// A field-by-field copy of the form.
pub fn copy_values(v: &ConfigValues) -> (res: ConfigValues)
    ensures
        values_view(res) == values_view(*v),
{
    ConfigValues {
        sps: String::from_str(v.sps.as_str()),
        target: String::from_str(v.target.as_str()),
        delta: String::from_str(v.delta.as_str()),
        detector_backend: String::from_str(v.detector_backend.as_str()),
        comparator: String::from_str(v.comparator.as_str()),
        roi_x: String::from_str(v.roi_x.as_str()),
        roi_y: String::from_str(v.roi_y.as_str()),
        roi_width: String::from_str(v.roi_width.as_str()),
        roi_height: String::from_str(v.roi_height.as_str()),
        decoder_backend: String::from_str(v.decoder_backend.as_str()),
        decoder_channel_capacity: String::from_str(v.decoder_channel_capacity.as_str()),
        ocr_backend: String::from_str(v.ocr_backend.as_str()),
    }
}

/// Whether two forms hold the same text in every field.
pub fn same_values(a: &ConfigValues, b: &ConfigValues) -> (res: bool)
    ensures
        res == (values_view(*a) == values_view(*b)),
{
    let same = str_equal(a.sps.as_str(), b.sps.as_str()) && str_equal(
        a.target.as_str(),
        b.target.as_str(),
    ) && str_equal(a.delta.as_str(), b.delta.as_str()) && str_equal(
        a.detector_backend.as_str(),
        b.detector_backend.as_str(),
    ) && str_equal(a.comparator.as_str(), b.comparator.as_str()) && str_equal(
        a.roi_x.as_str(),
        b.roi_x.as_str(),
    ) && str_equal(a.roi_y.as_str(), b.roi_y.as_str()) && str_equal(
        a.roi_width.as_str(),
        b.roi_width.as_str(),
    ) && str_equal(a.roi_height.as_str(), b.roi_height.as_str()) && str_equal(
        a.decoder_backend.as_str(),
        b.decoder_backend.as_str(),
    ) && str_equal(a.decoder_channel_capacity.as_str(), b.decoder_channel_capacity.as_str())
        && str_equal(a.ocr_backend.as_str(), b.ocr_backend.as_str());
    proof {
        if same {
            assert(values_view(*a) =~= values_view(*b));
        } else if values_view(*a) == values_view(*b) {
            assert(values_view(*a)[0] == values_view(*b)[0]);
            assert(values_view(*a)[1] == values_view(*b)[1]);
            assert(values_view(*a)[2] == values_view(*b)[2]);
            assert(values_view(*a)[3] == values_view(*b)[3]);
            assert(values_view(*a)[4] == values_view(*b)[4]);
            assert(values_view(*a)[5] == values_view(*b)[5]);
            assert(values_view(*a)[6] == values_view(*b)[6]);
            assert(values_view(*a)[7] == values_view(*b)[7]);
            assert(values_view(*a)[8] == values_view(*b)[8]);
            assert(values_view(*a)[9] == values_view(*b)[9]);
            assert(values_view(*a)[10] == values_view(*b)[10]);
            assert(values_view(*a)[11] == values_view(*b)[11]);
        }
    }
    same
}

/// Whether `output` is the output table for `path`: none without a path,
/// else one holding that path.
pub open spec fn output_matches(output: Option<OutputFileConfig>, path: Option<String>) -> bool {
    match path {
        None => output is None,
        Some(p) => output matches Some(o) && opt_view(o.path) == Some(p@),
    }
}

/// What a request to close the window leads to.
#[derive(Clone, Copy, Debug, PartialEq, Eq, Structural)]
pub enum CloseRequest {
    /// Close now.
    Close,
    /// Stay open; a prompt is already showing.
    Stay,
    /// Stay open and ask whether to save the changes.
    AskToSave,
}

/// What a save will write, once the form checked out.
pub struct SavePlan {
    pub config: FileConfig,
    pub path: String,
    pub parent: String,
    /// Whether the detector backend differs from the last saved one.
    pub detector_changed: bool,
}

/// What loading the configuration file came to.
pub enum LoadOutcome {
    /// The file was read; the form shows it.
    Loaded { values: ConfigValues, output_path: Option<String> },
    /// The file could not be read; the message says why.
    ReadFailed(String),
    /// There was no file; the defaults were written, or not.
    Missing { defaults_written: bool },
}

/// The settings window's state besides the form itself.
pub struct ConfigEditorState {
    pub config_path: Option<String>,
    pub output_path: Option<String>,
    pub status: Option<(String, bool)>,
    pub field_errors: FieldErrors,
    pub autosave_enabled: bool,
    pub last_saved_values: ConfigValues,
    pub close_prompt_open: bool,
    pub allow_close: bool,
}

/// The status text as a sequence, with its error flag.
pub open spec fn status_view(status: Option<(String, bool)>) -> Option<(Seq<char>, bool)> {
    match status {
        Some((text, is_error)) => Some((text@, is_error)),
        None => None,
    }
}

impl ConfigEditorState {
    /// A window before anything was loaded: the default example counts as
    /// saved, autosave is off until loading ends.
    pub fn new(config_path: Option<String>) -> (res: ConfigEditorState)
        ensures
            opt_view(res.config_path) == opt_view(config_path),
            res.output_path is None,
            res.status is None,
            errors_clear(res.field_errors),
            !res.autosave_enabled,
            crate::config_form::is_default_example(res.last_saved_values),
            !res.close_prompt_open,
            !res.allow_close,
    {
        ConfigEditorState {
            config_path,
            output_path: None,
            status: None,
            field_errors: FieldErrors {
                sps: None,
                target: None,
                delta: None,
                roi_x: None,
                roi_y: None,
                roi_width: None,
                roi_height: None,
                decoder_channel_capacity: None,
            },
            autosave_enabled: false,
            last_saved_values: ConfigValues::default_example(),
            close_prompt_open: false,
            allow_close: false,
        }
    }

    /// Checks every field, keeps the messages, and says whether there are
    /// none.
    pub fn validate_fields(&mut self, values: &ConfigValues, roi: RoiFieldErrors) -> (res: bool)
        ensures
            errors_for(final(self).field_errors, *values, roi),
            res == errors_clear(final(self).field_errors),
            final(self).config_path == old(self).config_path,
            final(self).output_path == old(self).output_path,
            final(self).status == old(self).status,
            final(self).autosave_enabled == old(self).autosave_enabled,
            final(self).last_saved_values == old(self).last_saved_values,
            final(self).close_prompt_open == old(self).close_prompt_open,
            final(self).allow_close == old(self).allow_close,
    {
        let ghost roi_view = roi;
        let errors = FieldErrors {
            sps: validate_optional_u32("Detection samples/sec", values.sps.as_str()),
            target: validate_optional_u8("Detection target", values.target.as_str()),
            delta: validate_optional_u8("Detection delta", values.delta.as_str()),
            roi_x: roi.x,
            roi_y: roi.y,
            roi_width: roi.width,
            roi_height: roi.height,
            decoder_channel_capacity: validate_optional_usize(
                "Decoder channel capacity",
                values.decoder_channel_capacity.as_str(),
            ),
        };
        let clear = errors.is_clear();
        self.field_errors = errors;
        clear
    }

    /// Whether the form differs from what was last saved.
    pub fn is_dirty(&self, values: &ConfigValues) -> (res: bool)
        ensures
            res == (values_view(*values) != values_view(self.last_saved_values)),
    {
        !same_values(values, &self.last_saved_values)
    }

    /// A field changed: with autosave on, the fields are checked again.
    pub fn handle_field_change(&mut self, values: &ConfigValues, roi: RoiFieldErrors)
        ensures
            old(self).autosave_enabled ==> errors_for(final(self).field_errors, *values, roi),
            !old(self).autosave_enabled ==> final(self).field_errors == old(self).field_errors,
            final(self).status == old(self).status,
            final(self).last_saved_values == old(self).last_saved_values,
            final(self).autosave_enabled == old(self).autosave_enabled,
    {
        if !self.autosave_enabled {
            return;
        }
        self.validate_fields(values, roi);
    }

    /// Whether a field losing focus should save: autosave is on, every
    /// field checks out, and the form differs from what was last saved.
    pub fn autosave_due(&mut self, values: &ConfigValues, roi: RoiFieldErrors) -> (res: bool)
        ensures
            !old(self).autosave_enabled ==> !res && final(self).field_errors == old(self).field_errors,
            old(self).autosave_enabled ==> errors_for(final(self).field_errors, *values, roi)
                && res == (errors_clear(final(self).field_errors) && values_view(*values)
                != values_view(old(self).last_saved_values)),
            final(self).status == old(self).status,
            final(self).last_saved_values == old(self).last_saved_values,
            final(self).autosave_enabled == old(self).autosave_enabled,
    {
        if !self.autosave_enabled {
            return false;
        }
        let valid = self.validate_fields(values, roi);
        if !valid || !self.is_dirty(values) {
            return false;
        }
        true
    }

    /// Prepares a save of the form: the fields must check out, there must
    /// be a configuration path with a parent directory, and the form must
    /// convert to a configuration (`roi` is the region's outcome). With
    /// `show_status`, a missing path or parent is also reported in the
    /// status.
    pub fn prepare_save(
        &mut self,
        values: &ConfigValues,
        roi_errors: RoiFieldErrors,
        roi: Result<bool, String>,
        show_status: bool,
    ) -> (res: Result<SavePlan, String>)
        ensures
            errors_for(final(self).field_errors, *values, roi_errors),
            final(self).last_saved_values == old(self).last_saved_values,
            final(self).config_path == old(self).config_path,
            final(self).output_path == old(self).output_path,
            !errors_clear(final(self).field_errors) ==> (res matches Err(m) && m@
                == "Invalid configuration values"@ && final(self).status == old(self).status),
            errors_clear(final(self).field_errors) && old(self).config_path is None ==> (res matches Err(m)
                && m@ == "Config path unavailable"@ && status_view(final(self).status) == (if show_status {
                Some(("Config path unavailable"@, true))
            } else {
                status_view(old(self).status)
            })),
            errors_clear(final(self).field_errors) && old(self).config_path is Some && roi is Err ==> res
                == Err::<SavePlan, String>(roi->Err_0) && final(self).status == old(self).status,
            errors_clear(final(self).field_errors) && old(self).config_path is Some && roi is Ok ==> match res {
                Ok(plan) => {
                    &&& plan.path@ == old(self).config_path->Some_0@
                    &&& saves_as(*values, roi->Ok_0, FileConfig { output: None, ..plan.config })
                    &&& output_matches(plan.config.output, old(self).output_path)
                    &&& plan.detector_changed == (values.detector_backend@
                        != old(self).last_saved_values.detector_backend@)
                    &&& plan.parent@.len() < plan.path@.len()
                    &&& final(self).status == old(self).status
                },
                Err(m) => {
                    &&& m@ == "Config path has no parent directory"@
                    &&& status_view(final(self).status) == (if show_status {
                        Some(("Config path has no parent directory"@, true))
                    } else {
                        status_view(old(self).status)
                    })
                },
            },
    {
        if !self.validate_fields(values, roi_errors) {
            return Err(String::from_str("Invalid configuration values"));
        }
        let path = match &self.config_path {
            Some(path) => String::from_str(path.as_str()),
            None => {
                if show_status {
                    self.status = Some((String::from_str("Config path unavailable"), true));
                }
                return Err(String::from_str("Config path unavailable"));
            },
        };
        let detector_changed = !str_equal(
            values.detector_backend.as_str(),
            self.last_saved_values.detector_backend.as_str(),
        );
        let mut config = match build_config_from_values(values, roi) {
            Ok(config) => config,
            Err(e) => return Err(e),
        };
        config.output = match &self.output_path {
            Some(p) => Some(OutputFileConfig { path: Some(String::from_str(p.as_str())) }),
            None => None,
        };
        let parent = match path_parent(path.as_str()) {
            Some(parent) => parent,
            None => {
                if show_status {
                    self.status = Some(
                        (String::from_str("Config path has no parent directory"), true),
                    );
                }
                return Err(String::from_str("Config path has no parent directory"));
            },
        };
        Ok(SavePlan { config, path, parent, detector_changed })
    }

    /// Writing the file failed with `message`; with `show_status` the
    /// status reports it.
    pub fn save_failed(&mut self, message: String, show_status: bool)
        ensures
            status_view(final(self).status) == (if show_status {
                Some((message@, true))
            } else {
                status_view(old(self).status)
            }),
            final(self).last_saved_values == old(self).last_saved_values,
    {
        if show_status {
            self.status = Some((message, true));
        }
    }

    /// The file was written: the form is now what was saved, and the
    /// status is cleared.
    pub fn save_succeeded(&mut self, values: &ConfigValues)
        ensures
            values_view(final(self).last_saved_values) == values_view(*values),
            final(self).status is None,
            final(self).field_errors == old(self).field_errors,
            final(self).autosave_enabled == old(self).autosave_enabled,
    {
        self.last_saved_values = copy_values(values);
        self.status = None;
    }

    /// Loading ended. Without a configuration path the status says so and
    /// the form is left as it is (`None`). Otherwise the form shows the
    /// file, or the defaults when it could not be read or did not exist,
    /// and that counts as saved; failures are reported in the status.
    pub fn finish_load(&mut self, path: Option<String>, outcome: LoadOutcome) -> (res: Option<
        ConfigValues,
    >)
        ensures
            final(self).autosave_enabled == old(self).autosave_enabled,
            path is None ==> res is None && status_view(final(self).status) == Some(
                ("Config path unavailable"@, true),
            ) && final(self).config_path == old(self).config_path,
            path is Some ==> res is Some && opt_view(final(self).config_path) == opt_view(path)
                && errors_clear(final(self).field_errors) && values_view(
                final(self).last_saved_values,
            ) == values_view(res->Some_0) && match outcome {
                LoadOutcome::Loaded { values, output_path } => {
                    &&& values_view(res->Some_0) == values_view(values)
                    &&& opt_view(final(self).output_path) == opt_view(output_path)
                    &&& final(self).status == old(self).status
                },
                LoadOutcome::ReadFailed(message) => {
                    &&& crate::config_form::is_default_example(res->Some_0)
                    &&& final(self).output_path is None
                    &&& status_view(final(self).status) == Some(
                        ("Failed to read config: "@ + message@, true),
                    )
                },
                LoadOutcome::Missing { defaults_written } => {
                    &&& crate::config_form::is_default_example(res->Some_0)
                    &&& final(self).output_path is None
                    &&& status_view(final(self).status) == (if defaults_written {
                        status_view(old(self).status)
                    } else {
                        Some(("Failed to create config file."@, true))
                    })
                },
            },
    {
        let path = match path {
            Some(p) => p,
            None => {
                self.status = Some((String::from_str("Config path unavailable"), true));
                return None;
            },
        };
        self.config_path = Some(path);
        self.output_path = None;
        let values = match outcome {
            LoadOutcome::Loaded { values, output_path } => {
                self.output_path = output_path;
                values
            },
            LoadOutcome::ReadFailed(message) => {
                let mut text = String::from_str("Failed to read config: ");
                text.append(message.as_str());
                self.status = Some((text, true));
                ConfigValues::default_example()
            },
            LoadOutcome::Missing { defaults_written } => {
                if !defaults_written {
                    self.status = Some((String::from_str("Failed to create config file."), true));
                }
                ConfigValues::default_example()
            },
        };
        self.last_saved_values = copy_values(&values);
        self.field_errors = FieldErrors {
            sps: None,
            target: None,
            delta: None,
            roi_x: None,
            roi_y: None,
            roi_width: None,
            roi_height: None,
            decoder_channel_capacity: None,
        };
        Some(values)
    }

    /// A request to close the window: it closes when closing was allowed
    /// or nothing is unsaved; otherwise it stays and asks, once, whether
    /// to save.
    pub fn should_close(&mut self, values: &ConfigValues) -> (res: CloseRequest)
        ensures
            old(self).allow_close ==> res == CloseRequest::Close && final(self).close_prompt_open
                == old(self).close_prompt_open,
            !old(self).allow_close && values_view(*values) == values_view(old(self).last_saved_values)
                ==> res == CloseRequest::Close && final(self).close_prompt_open == old(self).close_prompt_open,
            !old(self).allow_close && values_view(*values) != values_view(old(self).last_saved_values)
                ==> final(self).close_prompt_open && res == (if old(self).close_prompt_open {
                CloseRequest::Stay
            } else {
                CloseRequest::AskToSave
            }),
            final(self).allow_close == old(self).allow_close,
            final(self).last_saved_values == old(self).last_saved_values,
    {
        if self.allow_close {
            return CloseRequest::Close;
        }
        if !self.is_dirty(values) {
            return CloseRequest::Close;
        }
        if self.close_prompt_open {
            return CloseRequest::Stay;
        }
        self.close_prompt_open = true;
        CloseRequest::AskToSave
    }

    /// The prompt was answered: Save (choice 0) closes when the save
    /// succeeded, Discard (choice 1) closes, anything else keeps the
    /// window. Returns whether to close.
    pub fn close_prompt_answered(&mut self, choice: Option<usize>, saved: bool) -> (res: bool)
        ensures
            res == (choice == Some(0usize) && saved || choice == Some(1usize)),
            !final(self).close_prompt_open,
            final(self).allow_close == (old(self).allow_close || res),
            final(self).last_saved_values == old(self).last_saved_values,
    {
        let allow = match choice {
            Some(0) => saved,
            Some(1) => true,
            _ => false,
        };
        self.close_prompt_open = false;
        if allow {
            self.allow_close = true;
        }
        allow
    }
}

} // verus!

//! Model asset management for the ORT OCR backend: where the model and
//! dictionary live, the process-wide choice of those paths, and which
//! assets still need downloading.

use vstd::prelude::*;

use crate::paths::{
    after_last_slash, before_last_slash, has_simple_parent, is_plain_name, is_prefix,
    is_simple_join, last_slash, lemma_last_slash, lemma_last_slash_of_join, lemma_separator_free, no_backslash,
    no_drive_prefix, starts_with_two_slashes,
    path_join, path_parent, separator_free_from,
};
use crate::settings::{opt_view, EffectiveSettings};
use crate::text::{ascii_eq_ignore_case, eq_ignore_ascii_case, str_equal, trim, trim_spec};

verus! {

/// File name of the ONNX recognition model.
pub const ORT_MODEL_FILENAME: &'static str = "ch_PP-OCRv5_rec_infer.onnx";

/// File name of the recognition dictionary.
pub const ORT_DICT_FILENAME: &'static str = "ch_PP-OCRv5_rec_infer.txt";

/// Where the model is downloaded from.
pub const ORT_MODEL_URL: &'static str = "https://raw.githubusercontent.com/weidix/subtitle-fast/master/models/ch_PP-OCRv5_rec_infer.onnx";

/// Where the dictionary is downloaded from.
pub const ORT_DICT_URL: &'static str = "https://raw.githubusercontent.com/weidix/subtitle-fast/master/models/ch_PP-OCRv5_rec_infer.txt";

/// Name of the directory, beside the configuration file, holding the assets.
pub const MODELS_DIR_NAME: &'static str = "models";

/// Resolved file paths for ORT OCR assets.
#[derive(Debug)]
pub struct OrtModelPaths {
    model_path: String,
    dictionary_path: String,
}

impl View for OrtModelPaths {
    type V = (Seq<char>, Seq<char>);

    closed spec fn view(&self) -> (Seq<char>, Seq<char>) {
        (self.model_path@, self.dictionary_path@)
    }
}

impl OrtModelPaths {
    /// Builds the pair of asset paths.
    pub fn new(model_path: String, dictionary_path: String) -> (res: OrtModelPaths)
        ensures
            res@ == (model_path@, dictionary_path@),
    {
        OrtModelPaths { model_path, dictionary_path }
    }

    /// Path to the ONNX model file.
    pub fn model_path(&self) -> (res: &str)
        ensures
            res@ == self@.0,
    {
        self.model_path.as_str()
    }

    /// Path to the dictionary text file.
    pub fn dictionary_path(&self) -> (res: &str)
        ensures
            res@ == self@.1,
    {
        self.dictionary_path.as_str()
    }

    /// A copy of these paths.
    pub fn duplicate(&self) -> (res: OrtModelPaths)
        ensures
            res@ == self@,
    {
        OrtModelPaths { model_path: self.model_path.clone(), dictionary_path: self.dictionary_path.clone() }
    }

    /// Whether both paths are equal.
    pub fn same_as(&self, other: &OrtModelPaths) -> (res: bool)
        ensures
            res == (self@ == other@),
    {
        str_equal(self.model_path.as_str(), other.model_path.as_str()) && str_equal(
            self.dictionary_path.as_str(),
            other.dictionary_path.as_str(),
        )
    }
}

/// Errors raised when resolving ORT model paths.
#[derive(Debug)]
pub enum ModelPathError {
    /// No configuration directory could be determined.
    MissingConfigDir,
    /// The configuration path has no parent directory.
    InvalidConfigPath { path: String },
    /// The paths were already chosen, differently.
    ConflictingModelPaths { existing: String, requested: String },
}

/// Whether `err` is `InvalidConfigPath` for `path`.
pub open spec fn is_invalid_config_path(err: ModelPathError, path: Seq<char>) -> bool {
    match err {
        ModelPathError::InvalidConfigPath { path: p } => p@ == path,
        _ => false,
    }
}

/// Facts about a directory chosen for a configuration file `config`: it is
/// a proper prefix of the configuration path (its parent).
pub open spec fn is_parent_dir(dir: Seq<char>, config: Seq<char>) -> bool {
    dir.len() < config.len() && is_prefix(dir, config)
}

/// Chooses the directory holding the configuration (and the models).
///
/// `config_path` is an explicitly given configuration file; `project_dir`
/// is the working directory when it holds a `config.toml`; `default_config`
/// is the platform's default configuration file, if one is known.
pub fn resolve_config_dir(
    config_path: Option<&str>,
    project_dir: Option<&str>,
    default_config: Option<&str>,
) -> (res: Result<String, ModelPathError>)
    ensures
        match config_path {
            Some(p) => match res {
                Ok(d) => is_parent_dir(d@, p@),
                Err(e) => is_invalid_config_path(e, p@),
            },
            None => match project_dir {
                Some(d) => res matches Ok(r) && r@ == d@,
                None => match default_config {
                    Some(c) => match res {
                        Ok(d) => is_parent_dir(d@, c@),
                        Err(e) => is_invalid_config_path(e, c@),
                    },
                    None => res matches Err(ModelPathError::MissingConfigDir),
                },
            },
        },
        config_path matches Some(p) && p@.len() == 0 ==> res is Err,
        config_path is Some && no_parent(config_path->Some_0@) ==> res is Err,
        config_path is None && project_dir is None && default_config is Some && no_parent(
            default_config->Some_0@,
        ) ==> res is Err,
        simple_location(config_path, project_dir, default_config) ==> res is Ok,
        config_path is Some && is_plain_name(config_path->Some_0@) ==> res is Ok
            && res->Ok_0@.len() == 0,
        config_path is None && project_dir is None && default_config is Some && is_plain_name(
            default_config->Some_0@,
        ) ==> res is Ok && res->Ok_0@.len() == 0,
        match res {
            Ok(d) => config_dir_fits(d@, config_path, project_dir, default_config),
            Err(_) => true,
        },
{
    if let Some(path) = config_path {
        return match path_parent(path) {
            Some(parent) => Ok(parent),
            None => Err(ModelPathError::InvalidConfigPath { path: String::from_str(path) }),
        };
    }
    if let Some(dir) = project_dir {
        return Ok(String::from_str(dir));
    }
    match default_config {
        Some(config) => match path_parent(config) {
            Some(parent) => Ok(parent),
            None => Err(ModelPathError::InvalidConfigPath { path: String::from_str(config) }),
        },
        None => Err(ModelPathError::MissingConfigDir),
    }
}

/// Whether `p` is `dir` joined with the plain name `name`: it ends with
/// `name`, and for a directory without `\` or a drive prefix it is exactly the join
/// that [`is_simple_join`] describes.
pub open spec fn is_joined(p: Seq<char>, dir: Seq<char>, name: Seq<char>) -> bool {
    &&& p.len() >= name.len()
    &&& p.subrange(p.len() - name.len(), p.len() as int) == name
    &&& no_backslash(dir) && no_drive_prefix(dir) ==> is_simple_join(p, dir, name)
}

/// The names of the models directory and of the two assets are plain
/// path components.
pub proof fn lemma_asset_names_plain()
    ensures
        is_plain_name(MODELS_DIR_NAME@),
        is_plain_name(ORT_MODEL_FILENAME@),
        is_plain_name(ORT_DICT_FILENAME@),
{
    reveal_strlit("models");
    reveal_strlit("ch_PP-OCRv5_rec_infer.onnx");
    reveal_strlit("ch_PP-OCRv5_rec_infer.txt");
    assert(separator_free_from(MODELS_DIR_NAME@, 0)) by {
        reveal_with_fuel(separator_free_from, 10);
    }
    lemma_separator_free(MODELS_DIR_NAME@, 0);
    assert(separator_free_from(ORT_MODEL_FILENAME@, 0)) by {
        reveal_with_fuel(separator_free_from, 30);
    }
    lemma_separator_free(ORT_MODEL_FILENAME@, 0);
    assert(separator_free_from(ORT_DICT_FILENAME@, 0)) by {
        reveal_with_fuel(separator_free_from, 30);
    }
    lemma_separator_free(ORT_DICT_FILENAME@, 0);
}

/// The layout of the asset paths, where the joins are known: for a
/// configuration directory `dir` without `\\`, drive prefix or leading `//`,
/// whose joins put `/` between the parts, the model and the dictionary are
/// named by their file names after their last `/`, both sit in `models`,
/// and `models` is named `models` after its own last `/`. With the
/// contracts of `path_file_name` and `path_parent` this gives the file
/// name of each asset, their shared parent, and that parent's file name.
pub proof fn lemma_asset_layout(
    dir: Seq<char>,
    models: Seq<char>,
    paths: (Seq<char>, Seq<char>),
)
    requires
        is_joined(models, dir, MODELS_DIR_NAME@),
        is_joined(paths.0, models, ORT_MODEL_FILENAME@),
        is_joined(paths.1, models, ORT_DICT_FILENAME@),
        no_backslash(dir) && no_drive_prefix(dir) && !starts_with_two_slashes(dir),
        no_backslash(models) && no_backslash(paths.0) && no_backslash(paths.1),
    ensures
        after_last_slash(paths.0) == ORT_MODEL_FILENAME@,
        after_last_slash(paths.1) == ORT_DICT_FILENAME@,
        before_last_slash(paths.0) == models,
        before_last_slash(paths.1) == models,
        after_last_slash(models) == MODELS_DIR_NAME@,
        has_simple_parent(paths.0) && has_simple_parent(paths.1),
        !starts_with_two_slashes(paths.0) && !starts_with_two_slashes(paths.1),
        !starts_with_two_slashes(models),
{
    lemma_asset_names_plain();
    let m = MODELS_DIR_NAME@;
    reveal_strlit("models");
    assert(m.len() == 6);
    // `models` is `dir`, a `/`, then `models` (or `models` alone).
    if dir.len() == 0 {
        assert(models == m);
        assert(last_slash(models) == -1) by {
            lemma_last_slash(models);
        }
        assert(models.subrange(0, models.len() as int) =~= models);
    } else if dir.last() == '/' {
        let a = dir.drop_last();
        assert(models =~= a + seq!['/'] + m);
        lemma_last_slash_of_join(a, m);
    } else {
        assert(models[dir.len() as int] == '/');
        assert(models =~= dir + seq!['/'] + m);
        lemma_last_slash_of_join(dir, m);
    }
    assert(models.len() >= 6);
    assert(models.last() == 's');
    assert(no_drive_prefix(models) && !starts_with_two_slashes(models)) by {
        if dir.len() >= 2 {
            assert(models[0] == dir[0] && models[1] == dir[1]);
        }
    }
    assert(paths.0[models.len() as int] == '/');
    assert(paths.0 =~= models + seq!['/'] + ORT_MODEL_FILENAME@);
    lemma_last_slash_of_join(models, ORT_MODEL_FILENAME@);
    assert(paths.1[models.len() as int] == '/');
    assert(paths.1 =~= models + seq!['/'] + ORT_DICT_FILENAME@);
    lemma_last_slash_of_join(models, ORT_DICT_FILENAME@);
    assert(paths.0[0] == models[0] && paths.0[1] == models[1]);
    assert(paths.1[0] == models[0] && paths.1[1] == models[1]);
}

/// Whether `dir` is the configuration directory that the locations give:
/// the parent of an explicit configuration file, else the project
/// directory, else the parent of the default configuration file.
pub open spec fn config_dir_fits(
    dir: Seq<char>,
    config_path: Option<&str>,
    project_dir: Option<&str>,
    default_config: Option<&str>,
) -> bool {
    match config_path {
        Some(p) => parent_fits(dir, p@),
        None => match project_dir {
            Some(d) => dir == d@,
            None => match default_config {
                Some(c) => parent_fits(dir, c@),
                None => false,
            },
        },
    }
}

/// Whether `dir` may be the parent of the file `file`: a proper prefix of
/// it, the part before its last `/` for the paths of [`has_simple_parent`],
/// and empty for a bare file name.
pub open spec fn parent_fits(dir: Seq<char>, file: Seq<char>) -> bool {
    &&& is_parent_dir(dir, file)
    &&& has_simple_parent(file) ==> dir == before_last_slash(file)
    &&& is_plain_name(file) ==> dir.len() == 0
}

/// Whether a path has no parent: it is empty or `/`.
pub open spec fn no_parent(p: Seq<char>) -> bool {
    p.len() == 0 || p == seq!['/']
}

/// Whether the locations surely give a configuration directory: an explicit
/// or default configuration file of the [`has_simple_parent`] kind or a bare
/// file name, or a project directory.
pub open spec fn simple_location(
    config_path: Option<&str>,
    project_dir: Option<&str>,
    default_config: Option<&str>,
) -> bool {
    match config_path {
        Some(p) => has_simple_parent(p@) || is_plain_name(p@),
        None => match project_dir {
            Some(_) => true,
            None => match default_config {
                Some(c) => has_simple_parent(c@) || is_plain_name(c@),
                None => false,
            },
        },
    }
}

/// Whether `paths` are the model and dictionary in the `models` directory
/// beside the configuration that the locations give.
pub open spec fn paths_fit(
    paths: (Seq<char>, Seq<char>),
    config_path: Option<&str>,
    project_dir: Option<&str>,
    default_config: Option<&str>,
) -> bool {
    exists|dir: Seq<char>, models: Seq<char>|
        {
            &&& config_dir_fits(dir, config_path, project_dir, default_config)
            &&& is_joined(models, dir, MODELS_DIR_NAME@)
            &&& is_joined(paths.0, models, ORT_MODEL_FILENAME@)
            &&& is_joined(paths.1, models, ORT_DICT_FILENAME@)
        }
}

/// Whether `err` is the error that resolving from these locations can give:
/// an invalid explicit (or, lacking one and a project directory, default)
/// configuration path, or no location at all.
pub open spec fn resolve_error_fits(
    err: ModelPathError,
    config_path: Option<&str>,
    project_dir: Option<&str>,
    default_config: Option<&str>,
) -> bool {
    match config_path {
        Some(p) => is_invalid_config_path(err, p@),
        None => match project_dir {
            Some(_) => false,
            None => match default_config {
                Some(c) => is_invalid_config_path(err, c@),
                None => err is MissingConfigDir,
            },
        },
    }
}

/// Resolves the asset paths: the `models` directory beside the
/// configuration, holding the model and the dictionary.
pub fn resolve_ort_model_paths(
    config_path: Option<&str>,
    project_dir: Option<&str>,
    default_config: Option<&str>,
) -> (res: Result<OrtModelPaths, ModelPathError>)
    ensures
        match res {
            Ok(paths) => paths_fit(paths@, config_path, project_dir, default_config),
            Err(e) => resolve_error_fits(e, config_path, project_dir, default_config),
        },
        config_path is None && project_dir is Some ==> res is Ok,
        config_path matches Some(p) && p@.len() == 0 ==> res is Err,
        simple_location(config_path, project_dir, default_config) ==> res is Ok,
        config_path is Some && no_parent(config_path->Some_0@) ==> res is Err,
        config_path is None && project_dir is None && default_config is Some && no_parent(
            default_config->Some_0@,
        ) ==> res is Err,
{
    let config_dir = match resolve_config_dir(config_path, project_dir, default_config) {
        Ok(dir) => dir,
        Err(e) => return Err(e),
    };
    proof {
        reveal_strlit("models");
        reveal_strlit("ch_PP-OCRv5_rec_infer.onnx");
        reveal_strlit("ch_PP-OCRv5_rec_infer.txt");
        lemma_asset_names_plain();
    }
    let model_dir = path_join(config_dir.as_str(), MODELS_DIR_NAME);
    let model_path = path_join(model_dir.as_str(), ORT_MODEL_FILENAME);
    let dictionary_path = path_join(model_dir.as_str(), ORT_DICT_FILENAME);
    let res = OrtModelPaths { model_path, dictionary_path };
    assert(is_joined(model_dir@, config_dir@, MODELS_DIR_NAME@));
    assert(is_joined(res@.0, model_dir@, ORT_MODEL_FILENAME@));
    assert(is_joined(res@.1, model_dir@, ORT_DICT_FILENAME@));
    assert(config_dir_fits(config_dir@, config_path, project_dir, default_config));
    Ok(res)
}


/// The process-wide choice of asset paths: set once, then only read.
pub struct OrtModelPathCache {
    slot: Option<OrtModelPaths>,
}

impl OrtModelPathCache {
    /// The paths chosen so far, if any.
    pub closed spec fn chosen(&self) -> Option<(Seq<char>, Seq<char>)> {
        match self.slot {
            Some(p) => Some(p@),
            None => None,
        }
    }

    /// A cache with no paths chosen.
    pub fn new() -> (res: OrtModelPathCache)
        ensures
            res.chosen() is None,
    {
        OrtModelPathCache { slot: None }
    }

    /// Records `resolved` as the chosen paths unless others were chosen
    /// before; choosing the same paths again is accepted.
    pub fn adopt(&mut self, resolved: OrtModelPaths) -> (res: Result<OrtModelPaths, ModelPathError>)
        ensures
            match old(self).chosen() {
                None => final(self).chosen() == Some(resolved@) && (res matches Ok(p) && p@
                    == resolved@),
                Some(existing) => final(self).chosen() == old(self).chosen() && if existing
                    == resolved@ {
                    res matches Ok(p) && p@ == existing
                } else {
                    res matches Err(ModelPathError::ConflictingModelPaths { existing: e, requested: r })
                        && e@ == existing.0 && r@ == resolved@.0
                },
            },
    {
        match &self.slot {
            None => {
                let copy = resolved.duplicate();
                self.slot = Some(resolved);
                Ok(copy)
            },
            Some(existing) => {
                if existing.same_as(&resolved) {
                    Ok(existing.duplicate())
                } else {
                    Err(
                        ModelPathError::ConflictingModelPaths {
                            existing: existing.model_path.clone(),
                            requested: resolved.model_path,
                        },
                    )
                }
            },
        }
    }

    /// Resolves the asset paths for a configuration location and makes them
    /// the chosen ones (see [`Self::adopt`]).
    pub fn init_ort_model_paths(
        &mut self,
        config_path: Option<&str>,
        project_dir: Option<&str>,
        default_config: Option<&str>,
    ) -> (res: Result<OrtModelPaths, ModelPathError>)
        ensures
            res is Ok ==> final(self).chosen() is Some && res->Ok_0@ == final(self).chosen()->Some_0,
            old(self).chosen() is Some ==> final(self).chosen() == old(self).chosen(),
            old(self).chosen() is None && res is Err ==> final(self).chosen() is None,
            match res {
                Ok(paths) => paths_fit(paths@, config_path, project_dir, default_config),
                Err(ModelPathError::ConflictingModelPaths { existing, requested }) => {
                    &&& old(self).chosen() matches Some(c) && existing@ == c.0
                    &&& exists|dict: Seq<char>|
                        paths_fit((requested@, dict), config_path, project_dir, default_config)
                },
                Err(e) => resolve_error_fits(e, config_path, project_dir, default_config),
            },
            old(self).chosen() is None && config_path is None && project_dir is Some ==> res is Ok,
            old(self).chosen() is None && simple_location(config_path, project_dir, default_config)
                ==> res is Ok,
            config_path is Some && no_parent(config_path->Some_0@) ==> (final(self).chosen()
                == old(self).chosen() && is_invalid_config_path(
                res->Err_0,
                config_path->Some_0@,
            ) && res is Err),
            old(self).chosen() is Some && simple_location(config_path, project_dir, default_config)
                ==> (res is Ok || res->Err_0 is ConflictingModelPaths),
            old(self).chosen() is Some && simple_location(config_path, project_dir, default_config)
                && !paths_fit(old(self).chosen()->Some_0, config_path, project_dir, default_config)
                ==> (res is Err && res->Err_0 is ConflictingModelPaths),
    {
        match resolve_ort_model_paths(config_path, project_dir, default_config) {
            Ok(resolved) => self.adopt(resolved),
            Err(e) => Err(e),
        }
    }

    /// The chosen paths; when none were chosen yet, resolves them for the
    /// default configuration location and chooses them.
    pub fn ort_model_paths(&mut self, project_dir: Option<&str>, default_config: Option<&str>) -> (res:
        Result<OrtModelPaths, ModelPathError>)
        ensures
            old(self).chosen() is Some ==> (res matches Ok(p) && p@ == old(self).chosen()->Some_0)
                && final(self).chosen() == old(self).chosen(),
            old(self).chosen() is None && res is Ok ==> final(self).chosen() == Some(res->Ok_0@),
            old(self).chosen() is None ==> match res {
                Ok(p) => paths_fit(p@, None, project_dir, default_config),
                Err(e) => resolve_error_fits(e, None, project_dir, default_config)
                    && final(self).chosen() is None,
            },
            old(self).chosen() is None && simple_location(None, project_dir, default_config)
                ==> res is Ok,
            old(self).chosen() is None && project_dir is None && default_config is Some && no_parent(
                default_config->Some_0@,
            ) ==> res is Err && final(self).chosen() is None,
            old(self).chosen() is None && project_dir is None && default_config is None ==> (res is Err
                && res->Err_0 is MissingConfigDir && final(self).chosen() is None),
    {
        if let Some(paths) = &self.slot {
            return Ok(paths.duplicate());
        }
        let resolved = match resolve_ort_model_paths(None, project_dir, default_config) {
            Ok(p) => p,
            Err(e) => return Err(e),
        };
        let result = resolved.duplicate();
        let _ = self.adopt(resolved);
        Ok(result)
    }
}

/// A file is ready when it exists and is not empty; `size` is its length
/// as the file system reports it, `None` when it cannot be read.
pub open spec fn file_ready_spec(size: Option<u64>) -> bool {
    size matches Some(n) && n > 0
}

/// Whether a file of the given size is ready to use.
pub fn file_ready(size: Option<u64>) -> (res: bool)
    ensures
        res == file_ready_spec(size),
{
    match size {
        Some(n) => n > 0,
        None => false,
    }
}

/// Whether both ORT assets are present and non-empty, given the sizes of the
/// model and the dictionary files.
pub fn ort_models_present(model_size: Option<u64>, dictionary_size: Option<u64>) -> (res: bool)
    ensures
        res == (file_ready_spec(model_size) && file_ready_spec(dictionary_size)),
{
    file_ready(model_size) && file_ready(dictionary_size)
}

/// An asset to download: a label for progress display, its URL and the
/// destination path.
#[derive(Debug)]
pub struct ModelAsset {
    pub label: String,
    pub url: String,
    pub path: String,
}

impl ModelAsset {
    /// Builds an asset description.
    pub fn new(label: &str, url: &str, path: String) -> (res: ModelAsset)
        ensures
            res.label@ == label@,
            res.url@ == url@,
            res.path@ == path@,
    {
        ModelAsset { label: String::from_str(label), url: String::from_str(url), path }
    }
}

/// Whether `a` describes `label`, `url` and `path`.
pub open spec fn asset_is(a: ModelAsset, label: Seq<char>, url: Seq<char>, path: Seq<char>) -> bool {
    a.label@ == label && a.url@ == url && a.path@ == path
}

/// The assets that are not ready yet, the model before the dictionary.
pub fn missing_assets(paths: &OrtModelPaths, model_size: Option<u64>, dictionary_size: Option<u64>) -> (res:
    Vec<ModelAsset>)
    ensures
        res.len() == (if file_ready_spec(model_size) {
            0int
        } else {
            1int
        }) + (if file_ready_spec(dictionary_size) {
            0int
        } else {
            1int
        }),
        !file_ready_spec(model_size) ==> asset_is(res[0], "OCR model"@, ORT_MODEL_URL@, paths@.0),
        !file_ready_spec(dictionary_size) ==> asset_is(
            res[res.len() - 1],
            "OCR dictionary"@,
            ORT_DICT_URL@,
            paths@.1,
        ),
{
    let mut assets: Vec<ModelAsset> = Vec::new();
    if !file_ready(model_size) {
        assets.push(ModelAsset::new("OCR model", ORT_MODEL_URL, paths.model_path.clone()));
    }
    if !file_ready(dictionary_size) {
        assets.push(
            ModelAsset::new("OCR dictionary", ORT_DICT_URL, paths.dictionary_path.clone()),
        );
    }
    assets
}

/// Whether the ORT assets should be checked (and fetched) before running:
/// only in a build with the ORT backend; when the OCR backend is `ort`, yes;
/// when it is `vision` or `noop`, no; otherwise (`auto` or unset) unless the
/// Vision backend is available to take over.
pub open spec fn should_prepare_ort_spec(
    backend: Option<Seq<char>>,
    ort_enabled: bool,
    vision_available: bool,
) -> bool {
    if !ort_enabled {
        false
    } else {
        let selected = match backend {
            Some(b) => trim_spec(b),
            None => "auto"@,
        };
        if ascii_eq_ignore_case(selected, "ort"@) {
            true
        } else if ascii_eq_ignore_case(selected, "vision"@) || ascii_eq_ignore_case(
            selected,
            "noop"@,
        ) {
            false
        } else {
            !vision_available
        }
    }
}

/// The configured OCR backend, if settings are known.
pub open spec fn ocr_backend_of(settings: Option<&EffectiveSettings>) -> Option<Seq<char>> {
    match settings {
        Some(s) => opt_view(s.ocr.backend),
        None => None,
    }
}

/// Decides whether the ORT assets must be prepared.
pub fn should_prepare_ort(
    settings: Option<&EffectiveSettings>,
    ort_enabled: bool,
    vision_available: bool,
) -> (res: bool)
    ensures
        res == should_prepare_ort_spec(ocr_backend_of(settings), ort_enabled, vision_available),
{
    if !ort_enabled {
        return false;
    }
    let selected: &str = match settings {
        Some(s) => match &s.ocr.backend {
            Some(b) => trim(b.as_str()),
            None => "auto",
        },
        None => "auto",
    };
    if eq_ignore_ascii_case(selected, "ort") {
        return true;
    }
    if eq_ignore_ascii_case(selected, "vision") || eq_ignore_ascii_case(selected, "noop") {
        return false;
    }
    !vision_available
}

} // verus!

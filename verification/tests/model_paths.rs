use std::path::Path;

use subtitle_fast::model::{
    missing_assets, ort_models_present, resolve_config_dir, resolve_ort_model_paths,
    ModelPathError, OrtModelPathCache, OrtModelPaths, ORT_DICT_FILENAME, ORT_DICT_URL,
    ORT_MODEL_FILENAME, ORT_MODEL_URL,
};

fn join(base: &str, name: &str) -> String {
    Path::new(base).join(name).to_string_lossy().into_owned()
}

#[test]
fn resolve_ort_paths_use_models_subdir() {
    let dir = "/tmp/subtitle-fast-test-dir";
    let config_path = join(dir, "config.toml");
    let paths = resolve_ort_model_paths(Some(&config_path), None, None).unwrap();
    assert_eq!(
        paths.model_path(),
        join(&join(dir, "models"), ORT_MODEL_FILENAME)
    );
    assert_eq!(
        paths.dictionary_path(),
        join(&join(dir, "models"), ORT_DICT_FILENAME)
    );
}

#[test]
fn ort_models_present_requires_non_empty_files() {
    // Sizes as the file system reports them: missing, empty, one byte.
    assert!(!ort_models_present(None, None));
    assert!(!ort_models_present(Some(0), Some(1)));
    assert!(ort_models_present(Some(1), Some(1)));
}

#[test]
fn config_dir_prefers_explicit_then_project_then_default() {
    assert_eq!(
        resolve_config_dir(Some("/a/b/config.toml"), Some("/proj"), Some("/home/x/cfg/config.toml")).unwrap(),
        "/a/b"
    );
    assert_eq!(
        resolve_config_dir(None, Some("/proj"), Some("/home/x/cfg/config.toml")).unwrap(),
        "/proj"
    );
    assert_eq!(
        resolve_config_dir(None, None, Some("/home/x/cfg/config.toml")).unwrap(),
        "/home/x/cfg"
    );
}

#[test]
fn config_dir_errors() {
    assert!(matches!(
        resolve_config_dir(None, None, None),
        Err(ModelPathError::MissingConfigDir)
    ));
    match resolve_config_dir(Some(""), None, None) {
        Err(ModelPathError::InvalidConfigPath { path }) => assert_eq!(path, ""),
        other => panic!("unexpected {other:?}"),
    }
    match resolve_config_dir(Some("/"), None, None) {
        Err(ModelPathError::InvalidConfigPath { path }) => assert_eq!(path, "/"),
        other => panic!("unexpected {other:?}"),
    }
}

#[test]
fn cache_keeps_first_paths_and_rejects_conflicts() {
    let mut cache = OrtModelPathCache::new();
    let first = cache
        .init_ort_model_paths(Some("/one/config.toml"), None, None)
        .unwrap();
    assert_eq!(first.model_path(), join("/one/models", ORT_MODEL_FILENAME));
    // Same location again is accepted.
    let again = cache
        .init_ort_model_paths(Some("/one/config.toml"), None, None)
        .unwrap();
    assert!(again.same_as(&first));
    // A different location conflicts and leaves the choice alone.
    match cache.init_ort_model_paths(Some("/two/config.toml"), None, None) {
        Err(ModelPathError::ConflictingModelPaths { existing, requested }) => {
            assert_eq!(existing, join("/one/models", ORT_MODEL_FILENAME));
            assert_eq!(requested, join("/two/models", ORT_MODEL_FILENAME));
        }
        other => panic!("unexpected {other:?}"),
    }
    let read = cache.ort_model_paths(None, Some("/three/config.toml")).unwrap();
    assert!(read.same_as(&first));
}

#[test]
fn cache_resolves_default_when_empty() {
    let mut cache = OrtModelPathCache::new();
    let read = cache.ort_model_paths(None, Some("/three/config.toml")).unwrap();
    assert_eq!(read.dictionary_path(), join("/three/models", ORT_DICT_FILENAME));
    let again = cache.ort_model_paths(Some("/other"), None).unwrap();
    assert!(again.same_as(&read));
}

#[test]
fn missing_assets_lists_what_is_not_ready() {
    let paths = OrtModelPaths::new("/m/model.onnx".to_string(), "/m/dict.txt".to_string());
    assert!(missing_assets(&paths, Some(10), Some(3)).is_empty());
    let both = missing_assets(&paths, None, Some(0));
    assert_eq!(both.len(), 2);
    assert_eq!(both[0].label, "OCR model");
    assert_eq!(both[0].url, ORT_MODEL_URL);
    assert_eq!(both[0].path, "/m/model.onnx");
    assert_eq!(both[1].label, "OCR dictionary");
    assert_eq!(both[1].url, ORT_DICT_URL);
    assert_eq!(both[1].path, "/m/dict.txt");
    let dict = missing_assets(&paths, Some(5), None);
    assert_eq!(dict.len(), 1);
    assert_eq!(dict[0].label, "OCR dictionary");
}

#[test]
fn cache_takes_the_project_directory_when_no_file_is_given() {
    let mut cache = OrtModelPathCache::new();
    let paths = cache.init_ort_model_paths(None, Some("/proj"), Some("/etc/config.toml")).unwrap();
    assert_eq!(paths.model_path(), join("/proj/models", ORT_MODEL_FILENAME));
    assert_eq!(paths.dictionary_path(), join("/proj/models", ORT_DICT_FILENAME));
    let mut empty = OrtModelPathCache::new();
    match empty.init_ort_model_paths(None, None, None) {
        Err(ModelPathError::MissingConfigDir) => {}
        other => panic!("unexpected {other:?}"),
    }
}

#[test]
fn root_as_configuration_path_is_invalid_and_chooses_nothing() {
    let mut cache = OrtModelPathCache::new();
    match cache.init_ort_model_paths(Some("/"), None, None) {
        Err(ModelPathError::InvalidConfigPath { path }) => assert_eq!(path, "/"),
        other => panic!("unexpected {other:?}"),
    }
    let read = cache.ort_model_paths(Some("/proj"), None).unwrap();
    assert_eq!(read.model_path(), join("/proj/models", ORT_MODEL_FILENAME));
}

#[test]
fn colon_inside_a_directory_name_is_ordinary() {
    let mut cache = OrtModelPathCache::new();
    let paths = cache.init_ort_model_paths(Some("/a:b/config.toml"), None, None).unwrap();
    assert_eq!(paths.model_path(), join("/a:b/models", ORT_MODEL_FILENAME));
    let model = Path::new(paths.model_path());
    let dictionary = Path::new(paths.dictionary_path());
    assert_eq!(model.file_name().unwrap(), ORT_MODEL_FILENAME);
    assert_eq!(dictionary.file_name().unwrap(), ORT_DICT_FILENAME);
    assert_eq!(model.parent(), dictionary.parent());
    assert_eq!(model.parent().unwrap().file_name().unwrap(), "models");
}

#[test]
fn default_without_parent_fails_and_chooses_nothing() {
    let mut cache = OrtModelPathCache::new();
    match cache.ort_model_paths(None, Some("/")) {
        Err(ModelPathError::InvalidConfigPath { path }) => assert_eq!(path, "/"),
        other => panic!("unexpected {other:?}"),
    }
    match cache.ort_model_paths(None, None) {
        Err(ModelPathError::MissingConfigDir) => {}
        other => panic!("unexpected {other:?}"),
    }
    assert!(cache.ort_model_paths(Some("/proj"), None).is_ok());
}

#[test]
fn bare_configuration_file_name_uses_the_current_directory() {
    assert_eq!(resolve_config_dir(Some("config.toml"), None, None).unwrap(), "");
    assert_eq!(resolve_config_dir(None, None, Some("config.toml")).unwrap(), "");
    let mut cache = OrtModelPathCache::new();
    let paths = cache.init_ort_model_paths(Some("config.toml"), None, None).unwrap();
    assert_eq!(paths.model_path(), join("models", ORT_MODEL_FILENAME));
    assert_eq!(paths.dictionary_path(), join("models", ORT_DICT_FILENAME));
}

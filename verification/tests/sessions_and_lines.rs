use std::time::Duration;

use subtitle_fast::paths::split_file_name;
use subtitle_fast::session::{session_label, SessionStore, VideoToolbarState, VideoViewMode};
use subtitle_fast::subtitles::{
    is_supported_extension, is_supported_file_name, is_supported_video_path, join_strings, normalize_lines, search_text,
    subtitle_editor_title, supported_video_extensions, supported_video_extensions_detail,
};

#[test]
fn session_ids_and_removal() {
    let mut store: SessionStore<u8, (i32, i32)> = SessionStore::new();
    let a = store.add_session("/v/a.mp4".into(), 1);
    let b = store.add_session("/v/b.mkv".into(), 2);
    assert_eq!((a, b), (1, 2));
    assert_eq!(store.session(a).unwrap().label, "a.mp4");
    store.set_active(a);
    assert_eq!(store.active_id(), Some(a));
    store.remove_session(a);
    assert_eq!(store.active_id(), None);
    assert!(store.session(a).is_none());
    assert_eq!(store.sessions_snapshot().len(), 1);
    let c = store.add_session("/v/c.ts".into(), 3);
    assert_eq!(c, 3);
    store.next_id = u64::MAX;
    assert_eq!(store.add_session("/v/d.ts".into(), 4), u64::MAX);
}

#[test]
fn session_updates_keep_unset_values() {
    let mut store: SessionStore<u8, (i32, i32)> = SessionStore::new();
    let id = store.add_session("/v/a.mp4".into(), 0);
    store.update_playback(id, Some(Duration::from_secs(3)), None);
    store.update_playback(id, None, Some(42));
    let s = store.session(id).unwrap();
    assert_eq!(s.last_timestamp, Some(Duration::from_secs(3)));
    assert_eq!(s.last_frame_index, Some(42));
    let toolbar = VideoToolbarState {
        view: VideoViewMode::Y,
        roi_visible: false,
        highlight_visible: true,
        validator_overlay_visible: false,
    };
    store.update_settings(id, Some(200), None, Some(toolbar), Some((1, 2)));
    store.update_settings(id, None, Some(9), None, None);
    let s = store.session(id).unwrap();
    assert_eq!(s.luma_target, Some(200));
    assert_eq!(s.luma_delta, Some(9));
    assert_eq!(s.toolbar_state, Some(toolbar));
    assert_eq!(s.roi, Some((1, 2)));
    // Unknown sessions are ignored.
    store.update_settings(99, Some(1), Some(1), None, None);
    assert_eq!(store.session(id).unwrap().luma_target, Some(200));
}

#[test]
fn labels() {
    assert_eq!(session_label("/videos/clip.mp4"), "clip.mp4");
    assert_eq!(session_label(""), "");
    assert_eq!(session_label("/"), "/");
}

#[test]
fn file_name_split() {
    assert_eq!(split_file_name("a.tar.gz"), ("a.tar".to_string(), Some("gz".to_string())));
    assert_eq!(split_file_name(".bashrc"), (".bashrc".to_string(), None));
    assert_eq!(split_file_name("noext"), ("noext".to_string(), None));
    assert_eq!(split_file_name("a."), ("a".to_string(), Some(String::new())));
    assert_eq!(split_file_name(".."), ("..".to_string(), None));
}

#[test]
fn lines_are_split_trimmed_and_filtered() {
    let lines = vec![
        "  first line \\n second ".to_string(),
        "third\nfourth\n\n".to_string(),
        "   ".to_string(),
        "a\\\\nb".to_string(),
    ];
    assert_eq!(
        normalize_lines(&lines),
        vec!["first line", "second", "third", "fourth", "a\\", "b"]
    );
    let again = normalize_lines(&normalize_lines(&lines));
    assert_eq!(again, normalize_lines(&lines));
}

#[test]
fn search_text_and_titles() {
    let lines = vec!["hello".to_string(), "world".to_string()];
    assert_eq!(search_text(&lines), "hello world");
    assert_eq!(search_text(&Vec::new()), "");
    assert_eq!(join_strings(&lines, ", "), "hello, world");
    assert_eq!(subtitle_editor_title("  clip.mp4 "), "Subtitle Editor - clip.mp4");
    assert_eq!(subtitle_editor_title("  "), "Subtitle Editor");
}

#[test]
fn video_extensions() {
    assert_eq!(supported_video_extensions().len(), 9);
    assert!(is_supported_extension(Some("MKV")));
    assert!(!is_supported_extension(Some("gif")));
    assert!(!is_supported_extension(None));
    assert!(is_supported_video_path("/v/clip.MP4"));
    assert!(!is_supported_video_path("/v/clip"));
    assert!(!is_supported_video_path(""));
    assert_eq!(
        supported_video_extensions_detail(),
        "Supported formats: .mp4, .mov, .mkv, .webm, .avi, .m4v, .mpg, .mpeg, .ts"
    );
}

#[test]
fn file_names_are_judged_by_their_last_extension() {
    assert!(is_supported_file_name("clip.final.MKV"));
    assert!(!is_supported_file_name("clip.mkv.txt"));
    assert!(!is_supported_file_name(".mp4"));
    assert!(!is_supported_file_name("mp4"));
    assert!(is_supported_video_path("clip.webm"));
    assert!(!is_supported_video_path(".."));
}

#[test]
fn video_paths_are_judged_by_their_file_name() {
    assert!(is_supported_video_path("/videos/movie.mp4"));
    assert!(!is_supported_video_path("/videos.mp4/movie"));
    assert_eq!(session_label("/videos/movie.mp4"), "movie.mp4");
}

#[test]
fn paths_without_a_file_name_label_as_themselves() {
    assert_eq!(session_label("a/.."), "a/..");
    assert_eq!(session_label(".."), "..");
    assert_eq!(session_label("/"), "/");
}

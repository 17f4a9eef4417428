//! Verified core of subtitle-fast: settings resolution, OCR model asset
//! bookkeeping and download progress, detection task state, session and
//! main-window bookkeeping, the video player's command handling and decode
//! loop, frame overlays on NV12 planes, the video toolbar's rules, menus,
//! and the state behind the text inputs, the configuration editor and the
//! subtitle editor.

pub mod subtitles;
pub mod workspace;
pub mod subtitle_editor;
pub mod text;
pub mod text_input;
pub mod config_form;
pub mod color_picker;
pub mod config_editor;
pub mod detection;
pub mod download;
pub mod luma_controls;
pub mod menus;
pub mod model;
pub mod paths;
pub mod session;
pub mod settings;
pub mod overlay;
pub mod playback;
pub mod player;
pub mod toolbar;
pub mod decoder_loop;

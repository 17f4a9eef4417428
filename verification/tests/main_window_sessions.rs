use subtitle_fast::workspace::{MainWindowState, SessionPrompt, WorkspaceEffect};

use WorkspaceEffect::{
    CancelDetection, CloseEditorWindow, LoadSession, NotifyTaskSidebar, RefreshMenus, ReleasePlayer,
    SaveSessionState, ShowDetection,
};

fn window() -> MainWindowState<u32, u8> {
    MainWindowState::new()
}

#[test]
fn first_session_is_shown_even_without_selecting() {
    let mut w = window();
    let (id, effects) = w.enqueue_session("/v/a.mp4".to_string(), 10, None, false);
    assert_eq!(id, 1);
    assert_eq!(w.active_session, Some(1));
    assert_eq!(
        effects,
        vec![
            NotifyTaskSidebar,
            ReleasePlayer,
            LoadSession(1),
            ShowDetection(Some(1)),
            RefreshMenus,
            RefreshMenus
        ]
    );
    assert_eq!(w.sessions.sessions[0].label, "a.mp4");
}

#[test]
fn later_sessions_are_queued_unless_selected() {
    let mut w = window();
    w.enqueue_session("/v/a.mp4".to_string(), 10, None, false);
    let (id, effects) = w.enqueue_session("/v/b.mp4".to_string(), 11, Some((90, 12, Some(3))), false);
    assert_eq!(id, 2);
    assert_eq!(w.active_session, Some(1));
    assert_eq!(effects, vec![NotifyTaskSidebar, RefreshMenus]);
    let added = &w.sessions.sessions[1];
    assert_eq!(added.luma_target, Some(90));
    assert_eq!(added.luma_delta, Some(12));
    assert_eq!(added.roi, Some(3));
    assert_eq!(added.detection, 11);

    let (id, effects) = w.enqueue_session("/v/c.mp4".to_string(), 12, None, true);
    assert_eq!(id, 3);
    assert_eq!(w.active_session, Some(3));
    assert_eq!(
        effects,
        vec![
            SaveSessionState(1),
            NotifyTaskSidebar,
            ReleasePlayer,
            LoadSession(3),
            ShowDetection(Some(3)),
            RefreshMenus,
            RefreshMenus
        ]
    );
}

#[test]
fn activating_the_shown_session_does_nothing() {
    let mut w = window();
    w.enqueue_session("/v/a.mp4".to_string(), 10, None, false);
    assert!(w.activate_session(1).is_empty());
    assert_eq!(w.active_session, Some(1));
}

#[test]
fn activating_an_unknown_session_clears_the_sidebar() {
    let mut w = window();
    w.enqueue_session("/v/a.mp4".to_string(), 10, None, false);
    let effects = w.activate_session(42);
    assert_eq!(
        effects,
        vec![SaveSessionState(1), NotifyTaskSidebar, ReleasePlayer, ShowDetection(None)]
    );
    assert_eq!(w.active_session, Some(42));
    assert_eq!(w.sessions.active_id, Some(42));
}

#[test]
fn removing_the_shown_session_releases_the_player() {
    let mut w = window();
    w.enqueue_session("/v/a.mp4".to_string(), 10, None, false);
    w.enqueue_session("/v/b.mp4".to_string(), 11, None, false);
    let effects = w.remove_session(1);
    assert_eq!(
        effects,
        vec![
            CancelDetection(1),
            CloseEditorWindow(1),
            ReleasePlayer,
            ShowDetection(None),
            NotifyTaskSidebar,
            RefreshMenus
        ]
    );
    assert_eq!(w.active_session, None);
    assert_eq!(w.sessions.sessions.len(), 1);
    assert_eq!(w.sessions.sessions[0].id, 2);
}

#[test]
fn removing_another_session_keeps_the_shown_one() {
    let mut w = window();
    w.enqueue_session("/v/a.mp4".to_string(), 10, None, false);
    w.enqueue_session("/v/b.mp4".to_string(), 11, None, false);
    let effects = w.remove_session(2);
    assert_eq!(effects, vec![CancelDetection(2), CloseEditorWindow(2), NotifyTaskSidebar, RefreshMenus]);
    assert_eq!(w.active_session, Some(1));
    let effects = w.remove_session(9);
    assert_eq!(effects, vec![CloseEditorWindow(9), NotifyTaskSidebar, RefreshMenus]);
    assert_eq!(w.sessions.sessions.len(), 1);
}

#[test]
fn cancelling_stops_only_listed_sessions() {
    let mut w = window();
    w.enqueue_session("/v/a.mp4".to_string(), 10, None, false);
    assert_eq!(w.cancel_session(1), vec![CancelDetection(1), NotifyTaskSidebar]);
    assert_eq!(w.cancel_session(5), vec![NotifyTaskSidebar]);
}

#[test]
fn prompts_name_the_session() {
    let mut w = window();
    match w.request_remove_active_session() {
        Some(SessionPrompt::NoActiveSession) => {}
        _ => panic!("expected the notice"),
    }
    w.enqueue_session("/v/a.mp4".to_string(), 10, None, false);
    match w.request_remove_active_session() {
        Some(SessionPrompt::ConfirmRemove { id, label }) => {
            assert_eq!(id, 1);
            assert_eq!(label, "a.mp4");
        }
        _ => panic!("expected a removal prompt"),
    }
    match w.request_cancel_session(1) {
        Some(SessionPrompt::ConfirmStop { id, label }) => {
            assert_eq!(id, 1);
            assert_eq!(label, "a.mp4");
        }
        _ => panic!("expected a stop prompt"),
    }
    assert!(w.request_cancel_session(2).is_none());
    assert!(w.request_remove_session(2).is_none());
}

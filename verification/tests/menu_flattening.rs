use subtitle_fast::detection::DetectionRunState;
use subtitle_fast::menus::{
    build_menus, display_menu_name, menu_entries, push_entries, remove_task_icon, task_menu,
    toggle_task_icon, AppAction, Menu, MenuBar, MenuEntry, MenuItem, RemoveSpecificTask,
    SystemMenuKind, TaskMenuEntry, ToggleSpecificTask,
};

fn action(name: &str, action: u32) -> MenuItem<u32> {
    MenuItem::Action { name: name.to_string(), action, icon: None }
}

fn describe(entries: &[MenuEntry<u32>]) -> Vec<String> {
    entries
        .iter()
        .map(|e| match e {
            MenuEntry::Separator => "-".to_string(),
            MenuEntry::Action { name, action, indent } => format!("{indent}:{name}={action}"),
            MenuEntry::Label { name } => format!("[{name}]"),
        })
        .collect()
}

fn entry(id: u64, label: &str, run_state: DetectionRunState, completed: bool) -> TaskMenuEntry {
    TaskMenuEntry { id, label: label.to_string(), run_state, completed }
}

fn action_parts(item: &MenuItem<AppAction>) -> (String, AppAction, Option<String>) {
    match item {
        MenuItem::Action { name, action, icon } => (name.clone(), *action, icon.clone()),
        _ => panic!("not an action"),
    }
}

#[test]
fn submenus_become_labels_with_deeper_rows() {
    let menu = Menu {
        name: "File".to_string(),
        icon: None,
        items: vec![
            action("Open", 1),
            MenuItem::Separator,
            MenuItem::Submenu(Menu {
                name: "Recent".to_string(),
                icon: None,
                items: vec![action("a.mp4", 2), action("b.mp4", 3)],
            }),
            MenuItem::SystemMenu(SystemMenuKind::Services),
            action("Quit", 4),
        ],
    };
    let rows = menu_entries(&menu);
    assert_eq!(
        describe(&rows),
        vec!["0:Open=1", "-", "[Recent]", "1:a.mp4=2", "1:b.mp4=3", "0:Quit=4"]
    );
}

#[test]
fn push_entries_appends_after_existing_rows() {
    let mut out = vec![MenuEntry::Label { name: "Head".to_string() }];
    push_entries(&vec![action("X", 9)], 2, &mut out);
    assert_eq!(describe(&out), vec!["[Head]", "2:X=9"]);
}

#[test]
fn empty_menu_has_no_rows() {
    let menu: Menu<u32> = Menu { name: "Empty".to_string(), icon: None, items: vec![] };
    assert!(menu_entries(&menu).is_empty());
}

#[test]
fn application_menu_is_shown_as_menu() {
    assert_eq!(display_menu_name("subtitle-fast"), "Menu");
    assert_eq!(display_menu_name("Help"), "Help");
}

#[test]
fn clicking_a_menu_toggles_it() {
    let mut bar: MenuBar<u32> = MenuBar::new(vec![]);
    assert_eq!(bar.open_menu, None);
    bar.toggle_menu(1);
    assert_eq!(bar.open_menu, Some(1));
    bar.toggle_menu(2);
    assert_eq!(bar.open_menu, Some(2));
    bar.toggle_menu(2);
    assert_eq!(bar.open_menu, None);
    bar.toggle_menu(0);
    bar.close_menu();
    assert_eq!(bar.open_menu, None);
    bar.toggle_menu(0);
    bar.set_menus(vec![Menu { name: "A".to_string(), icon: None, items: vec![] }]);
    assert_eq!(bar.open_menu, None);
    assert_eq!(bar.menus.len(), 1);
}

#[test]
fn task_icons_follow_state() {
    assert_eq!(remove_task_icon(DetectionRunState::Running, false), "play.fill");
    assert_eq!(remove_task_icon(DetectionRunState::Paused, false), "pause.fill");
    assert_eq!(remove_task_icon(DetectionRunState::Idle, false), "film");
    assert_eq!(remove_task_icon(DetectionRunState::Running, true), "checkmark.circle");
    assert_eq!(toggle_task_icon(DetectionRunState::Running, false), "pause.fill");
    assert_eq!(toggle_task_icon(DetectionRunState::Paused, false), "play.fill");
    assert_eq!(toggle_task_icon(DetectionRunState::Idle, false), "play.fill");
    assert_eq!(toggle_task_icon(DetectionRunState::Idle, true), "checkmark.circle");
}

#[test]
fn task_menu_without_sessions_is_a_plain_action() {
    let item = task_menu(&vec![], true);
    assert_eq!(
        action_parts(&item),
        ("Remove Task".to_string(), AppAction::RemoveTask, Some("trash".to_string()))
    );
    let item = task_menu(&vec![], false);
    assert_eq!(
        action_parts(&item),
        ("Toggle Task State".to_string(), AppAction::ToggleTask, Some("bolt".to_string()))
    );
}

#[test]
fn task_menu_lists_each_session() {
    let sessions = vec![
        entry(3, "a.mp4", DetectionRunState::Running, false),
        entry(7, "b.mp4", DetectionRunState::Idle, true),
    ];
    match task_menu(&sessions, false) {
        MenuItem::Submenu(menu) => {
            assert_eq!(menu.name, "Toggle Task State");
            assert_eq!(menu.icon.as_deref(), Some("bolt"));
            assert_eq!(menu.items.len(), 2);
            assert_eq!(
                action_parts(&menu.items[0]),
                (
                    "a.mp4".to_string(),
                    AppAction::ToggleSpecificTask(ToggleSpecificTask { session_id: 3 }),
                    Some("pause.fill".to_string())
                )
            );
            assert_eq!(
                action_parts(&menu.items[1]),
                (
                    "b.mp4".to_string(),
                    AppAction::ToggleSpecificTask(ToggleSpecificTask { session_id: 7 }),
                    Some("checkmark.circle".to_string())
                )
            );
        }
        _ => panic!("expected a submenu"),
    }
}

#[test]
fn menus_with_and_without_services() {
    let menus = build_menus("subtitle-fast", true, &vec![]);
    assert_eq!(menus.len(), 3);
    assert_eq!(menus[0].name, "subtitle-fast");
    assert_eq!(menus[0].items.len(), 5);
    assert!(matches!(menus[0].items[2], MenuItem::SystemMenu(SystemMenuKind::Services)));
    assert_eq!(
        action_parts(&menus[0].items[4]),
        ("Quit subtitle-fast".to_string(), AppAction::Quit, None)
    );
    assert_eq!(menus[1].name, "Task");
    assert_eq!(
        action_parts(&menus[1].items[0]),
        ("Add Task".to_string(), AppAction::AddTask, Some("plus".to_string()))
    );
    assert_eq!(menus[2].name, "Help");

    let menus = build_menus("Menu", false, &vec![entry(1, "c.mkv", DetectionRunState::Paused, false)]);
    assert_eq!(menus[0].name, "Menu");
    assert_eq!(menus[0].items.len(), 3);
    assert_eq!(
        action_parts(&menus[0].items[0]),
        ("Settings...".to_string(), AppAction::OpenSettings, Some("gear".to_string()))
    );
    match &menus[1].items[2] {
        MenuItem::Submenu(menu) => {
            assert_eq!(menu.name, "Remove Task");
            assert_eq!(
                action_parts(&menu.items[0]),
                (
                    "c.mkv".to_string(),
                    AppAction::RemoveSpecificTask(RemoveSpecificTask { session_id: 1 }),
                    Some("pause.fill".to_string())
                )
            );
        }
        _ => panic!("expected a submenu"),
    }
}

//! Menus as data: the items of a menu, their flattening into the rows of
//! the in-window menu bar's popup, and which menu of the bar is open.

use vstd::prelude::*;

use crate::detection::DetectionRunState;
use crate::session::SessionId;
use crate::settings::opt_view;
use crate::text::str_equal;

verus! {

/// A native menu kind that the in-window bar does not show.
#[derive(Clone, Copy, Debug, PartialEq, Eq, Structural)]
pub enum SystemMenuKind {
    Services,
}

/// An item of a menu, running actions of type `A`.
pub enum MenuItem<A> {
    Separator,
    Action { name: String, action: A, icon: Option<String> },
    Submenu(Menu<A>),
    SystemMenu(SystemMenuKind),
}

/// A named menu.
pub struct Menu<A> {
    pub name: String,
    pub icon: Option<String>,
    pub items: Vec<MenuItem<A>>,
}

/// A row of a menu bar popup.
pub enum MenuEntry<A> {
    Separator,
    Action { name: String, action: A, indent: usize },
    Label { name: String },
}

/// A popup row as values.
pub enum EntryView<A> {
    Separator,
    Action(Seq<char>, A, int),
    Label(Seq<char>),
}

/// The view of a popup row.
pub open spec fn entry_view<A>(e: MenuEntry<A>) -> EntryView<A> {
    match e {
        MenuEntry::Separator => EntryView::Separator,
        MenuEntry::Action { name, action, indent } => EntryView::Action(name@, action, indent as int),
        MenuEntry::Label { name } => EntryView::Label(name@),
    }
}

/// The rows for `items` at `indent`: separators and actions as they are,
/// a submenu as a label followed by its own rows one level deeper, native
/// menus left out.
pub open spec fn flatten<A>(items: Seq<MenuItem<A>>, indent: int) -> Seq<EntryView<A>>
    decreases items,
{
    if items.len() == 0 {
        Seq::empty()
    } else {
        let rest = flatten(items.drop_first(), indent);
        match items[0] {
            MenuItem::Separator => seq![EntryView::Separator] + rest,
            MenuItem::Action { name, action, icon } => seq![EntryView::Action(name@, action, indent)]
                + rest,
            MenuItem::Submenu(menu) => {
                proof {
                    assert(decreases_to!(items => items[0]));
                }
                seq![EntryView::Label(menu.name@)] + flatten(menu.items@, indent + 1) + rest
            },
            MenuItem::SystemMenu(_) => rest,
        }
    }
}

/// How many submenu levels `items` nests.
pub open spec fn depth<A>(items: Seq<MenuItem<A>>) -> nat
    decreases items,
{
    if items.len() == 0 {
        0
    } else {
        let rest = depth(items.drop_first());
        match items[0] {
            MenuItem::Submenu(menu) => {
                proof {
                    assert(decreases_to!(items => items[0]));
                }
                let inner = 1 + depth(menu.items@);
                if inner > rest {
                    inner
                } else {
                    rest
                }
            },
            _ => rest,
        }
    }
}

/// The rows of `out` as values.
pub open spec fn rows<A>(out: Seq<MenuEntry<A>>) -> Seq<EntryView<A>> {
    out.map_values(|e: MenuEntry<A>| entry_view(e))
}

proof fn lemma_depth_suffix<A>(items: Seq<MenuItem<A>>, i: int)
    requires
        0 <= i <= items.len(),
    ensures
        depth(items.skip(i)) <= depth(items),
        i < items.len() ==> (items[i] matches MenuItem::Submenu(menu) ==> 1 + depth(menu.items@)
            <= depth(items)),
    decreases i,
{
    if i == 0 {
        assert(items.skip(0) =~= items);
    } else {
        lemma_depth_suffix(items.drop_first(), i - 1);
        assert(items.drop_first().skip(i - 1) =~= items.skip(i));
        if i < items.len() {
            assert(items.drop_first()[i - 1] == items[i]);
        }
    }
}

/// Appends the rows for `items` at `indent` to `out`.
pub fn push_entries<A: Copy>(items: &Vec<MenuItem<A>>, indent: usize, out: &mut Vec<MenuEntry<A>>)
    requires
        indent + depth(items@) <= usize::MAX,
    ensures
        rows(final(out)@) == rows(old(out)@) + flatten(items@, indent as int),
    decreases items@,
{
    let ghost start = rows(out@);
    let mut i: usize = 0;
    assert(items@.skip(0) =~= items@);
    assert(rows(out@) + flatten(items@.skip(0), indent as int) =~= start + flatten(items@, indent as int));
    while i < items.len()
        invariant
            0 <= i <= items.len(),
            indent + depth(items@) <= usize::MAX,
            rows(out@) + flatten(items@.skip(i as int), indent as int) == start + flatten(
                items@,
                indent as int,
            ),
        decreases items.len() - i,
    {
        let ghost before = rows(out@);
        let ghost tail = flatten(items@.skip(i + 1), indent as int);
        proof {
            lemma_depth_suffix(items@, i as int);
            assert(items@.skip(i as int).drop_first() =~= items@.skip(i + 1));
            assert(items@.skip(i as int)[0] == items@[i as int]);
        }
        match &items[i] {
            MenuItem::Separator => {
                out.push(MenuEntry::Separator);
                assert(rows(out@) =~= before.push(EntryView::Separator));
                assert(rows(out@) + tail =~= before + (seq![EntryView::Separator] + tail));
            },
            MenuItem::Action { name, action, icon: _ } => {
                let entry_name = String::from_str(name.as_str());
                out.push(MenuEntry::Action { name: entry_name, action: *action, indent });
                let ghost row = EntryView::Action(name@, *action, indent as int);
                assert(rows(out@) =~= before.push(row));
                assert(rows(out@) + tail =~= before + (seq![row] + tail));
            },
            MenuItem::Submenu(menu) => {
                out.push(MenuEntry::Label { name: String::from_str(menu.name.as_str()) });
                let ghost label = EntryView::<A>::Label(menu.name@);
                assert(rows(out@) =~= before.push(label));
                proof {
                    assert(decreases_to!(items@ => items@[i as int]));
                }
                push_entries(&menu.items, indent + 1, out);
                let ghost inner = flatten(menu.items@, indent + 1);
                assert(rows(out@) + tail =~= before + (seq![label] + inner + tail));
            },
            MenuItem::SystemMenu(_) => {},
        }
        i = i + 1;
    }
    assert(items@.skip(items.len() as int) =~= Seq::<MenuItem<A>>::empty());
    assert(rows(out@) + Seq::<EntryView<A>>::empty() =~= rows(out@));
}

/// The rows of a menu's popup.
pub fn menu_entries<A: Copy>(menu: &Menu<A>) -> (res: Vec<MenuEntry<A>>)
    requires
        depth(menu.items@) <= usize::MAX,
    ensures
        rows(res@) == flatten(menu.items@, 0),
{
    let mut entries: Vec<MenuEntry<A>> = Vec::new();
    push_entries(&menu.items, 0, &mut entries);
    assert(rows(Seq::<MenuEntry<A>>::empty()) =~= Seq::<EntryView<A>>::empty());
    assert(Seq::<EntryView<A>>::empty() + flatten(menu.items@, 0) =~= flatten(menu.items@, 0));
    entries
}

/// The title a menu shows in the in-window bar: the application menu's
/// own name is shown as `Menu`.
pub fn display_menu_name(name: &str) -> (res: &str)
    ensures
        res@ == (if name@ == "subtitle-fast"@ {
            "Menu"@
        } else {
            name@
        }),
{
    if str_equal(name, "subtitle-fast") {
        "Menu"
    } else {
        name
    }
}

/// The in-window menu bar: its menus and which one is open.
pub struct MenuBar<A> {
    pub menus: Vec<Menu<A>>,
    pub open_menu: Option<usize>,
}

impl<A> MenuBar<A> {
    /// A bar with `menus`, all closed.
    pub fn new(menus: Vec<Menu<A>>) -> (res: MenuBar<A>)
        ensures
            res.menus@ == menus@,
            res.open_menu is None,
    {
        MenuBar { menus, open_menu: None }
    }

    /// Replaces the menus; all are closed.
    pub fn set_menus(&mut self, menus: Vec<Menu<A>>)
        ensures
            final(self).menus@ == menus@,
            final(self).open_menu is None,
    {
        self.menus = menus;
        self.open_menu = None;
    }

    /// A click on menu `index`: closes it when it is open, else opens it.
    pub fn toggle_menu(&mut self, index: usize)
        ensures
            final(self).menus@ == old(self).menus@,
            final(self).open_menu == (if old(self).open_menu == Some(index) {
                None
            } else {
                Some(index)
            }),
    {
        if self.open_menu == Some(index) {
            self.open_menu = None;
        } else {
            self.open_menu = Some(index);
        }
    }

    /// Closes the open menu.
    pub fn close_menu(&mut self)
        ensures
            final(self).menus@ == old(self).menus@,
            final(self).open_menu is None,
    {
        self.open_menu = None;
    }
}

/// Remove the session `session_id`.
#[derive(Clone, Copy, Debug, PartialEq, Eq, Structural)]
pub struct RemoveSpecificTask {
    pub session_id: SessionId,
}

/// Start, pause or resume the session `session_id`.
#[derive(Clone, Copy, Debug, PartialEq, Eq, Structural)]
pub struct ToggleSpecificTask {
    pub session_id: SessionId,
}

/// What a menu item of the application does.
#[derive(Clone, Copy, Debug, PartialEq, Eq, Structural)]
pub enum AppAction {
    OpenSettings,
    Quit,
    AddTask,
    ToggleTask,
    RemoveTask,
    ToggleSpecificTask(ToggleSpecificTask),
    RemoveSpecificTask(RemoveSpecificTask),
    Help,
}

/// What the task menus show of a session.
pub struct TaskMenuEntry {
    pub id: SessionId,
    pub label: String,
    pub run_state: DetectionRunState,
    pub completed: bool,
}

/// Whether `item` is the action `name` running `action` with `icon`.
pub open spec fn action_is(
    item: MenuItem<AppAction>,
    name: Seq<char>,
    action: AppAction,
    icon: Option<Seq<char>>,
) -> bool {
    match item {
        MenuItem::Action { name: n, action: a, icon: i } => n@ == name && a == action && opt_view(i)
            == icon,
        _ => false,
    }
}

/// The per-session action of a task menu.
pub open spec fn task_action(entry: TaskMenuEntry, removing: bool) -> AppAction {
    if removing {
        AppAction::RemoveSpecificTask(RemoveSpecificTask { session_id: entry.id })
    } else {
        AppAction::ToggleSpecificTask(ToggleSpecificTask { session_id: entry.id })
    }
}

/// The per-session icon of a task menu.
pub open spec fn task_icon(entry: TaskMenuEntry, removing: bool) -> Seq<char> {
    if removing {
        remove_icon_spec(entry.run_state, entry.completed)
    } else {
        toggle_icon_spec(entry.run_state, entry.completed)
    }
}

/// One action per session, in order, named by its label.
pub open spec fn task_items_are(
    items: Seq<MenuItem<AppAction>>,
    sessions: Seq<TaskMenuEntry>,
    removing: bool,
) -> bool {
    &&& items.len() == sessions.len()
    &&& forall|i: int|
        0 <= i < items.len() ==> action_is(
            #[trigger] items[i],
            sessions[i].label@,
            task_action(sessions[i], removing),
            Some(task_icon(sessions[i], removing)),
        )
}

/// The title of the removal or the start/pause menu.
pub open spec fn task_menu_name(removing: bool) -> Seq<char> {
    if removing {
        "Remove Task"@
    } else {
        "Toggle Task State"@
    }
}

/// The icon of the removal or the start/pause menu.
pub open spec fn task_menu_icon(removing: bool) -> Seq<char> {
    if removing {
        "trash"@
    } else {
        "bolt"@
    }
}

/// The removal (or start/pause) entry of the task menu: with no session a
/// plain action on the active one, else a submenu with one action per
/// session.
pub open spec fn task_menu_is(
    item: MenuItem<AppAction>,
    sessions: Seq<TaskMenuEntry>,
    removing: bool,
) -> bool {
    if sessions.len() == 0 {
        action_is(
            item,
            task_menu_name(removing),
            if removing {
                AppAction::RemoveTask
            } else {
                AppAction::ToggleTask
            },
            Some(task_menu_icon(removing)),
        )
    } else {
        match item {
            MenuItem::Submenu(m) => {
                &&& m.name@ == task_menu_name(removing)
                &&& opt_view(m.icon) == Some(task_menu_icon(removing))
                &&& task_items_are(m.items@, sessions, removing)
            },
            _ => false,
        }
    }
}

/// The items of the application menu.
pub open spec fn app_items_are(items: Seq<MenuItem<AppAction>>, include_services: bool) -> bool {
    let settings = action_is(items[0], "Settings..."@, AppAction::OpenSettings, Some("gear"@));
    if include_services {
        &&& items.len() == 5
        &&& settings
        &&& items[1] is Separator
        &&& items[2] == MenuItem::<AppAction>::SystemMenu(SystemMenuKind::Services)
        &&& items[3] is Separator
        &&& action_is(items[4], "Quit subtitle-fast"@, AppAction::Quit, None)
    } else {
        &&& items.len() == 3
        &&& settings
        &&& items[1] is Separator
        &&& action_is(items[2], "Quit subtitle-fast"@, AppAction::Quit, None)
    }
}

fn action_item(name: &str, action: AppAction, icon: Option<&str>) -> (res: MenuItem<AppAction>)
    ensures
        action_is(
            res,
            name@,
            action,
            match icon {
                Some(i) => Some(i@),
                None => None,
            },
        ),
{
    let icon = match icon {
        Some(i) => Some(String::from_str(i)),
        None => None,
    };
    MenuItem::Action { name: String::from_str(name), action, icon }
}

/// The removal (`removing`) or start/pause entry of the task menu.
pub fn task_menu(sessions: &Vec<TaskMenuEntry>, removing: bool) -> (res: MenuItem<AppAction>)
    ensures
        task_menu_is(res, sessions@, removing),
{
    let (name, icon) = if removing {
        ("Remove Task", "trash")
    } else {
        ("Toggle Task State", "bolt")
    };
    if sessions.len() == 0 {
        let action = if removing {
            AppAction::RemoveTask
        } else {
            AppAction::ToggleTask
        };
        return action_item(name, action, Some(icon));
    }
    let mut items: Vec<MenuItem<AppAction>> = Vec::new();
    let mut i: usize = 0;
    while i < sessions.len()
        invariant
            0 <= i <= sessions.len(),
            items.len() == i,
            forall|j: int|
                0 <= j < i ==> action_is(
                    #[trigger] items@[j],
                    sessions@[j].label@,
                    task_action(sessions@[j], removing),
                    Some(task_icon(sessions@[j], removing)),
                ),
        decreases sessions.len() - i,
    {
        let s = &sessions[i];
        let (action, icon_name) = if removing {
            (
                AppAction::RemoveSpecificTask(RemoveSpecificTask { session_id: s.id }),
                remove_task_icon(s.run_state, s.completed),
            )
        } else {
            (
                AppAction::ToggleSpecificTask(ToggleSpecificTask { session_id: s.id }),
                toggle_task_icon(s.run_state, s.completed),
            )
        };
        let item = action_item(s.label.as_str(), action, Some(icon_name));
        items.push(item);
        i = i + 1;
    }
    MenuItem::Submenu(
        Menu { name: String::from_str(name), icon: Some(String::from_str(icon)), items },
    )
}

/// The menus of the application: the application menu titled
/// `app_menu_title` (with the native services menu where
/// `include_services`), the task menu and the help menu.
pub fn build_menus(
    app_menu_title: &str,
    include_services: bool,
    sessions: &Vec<TaskMenuEntry>,
) -> (res: Vec<Menu<AppAction>>)
    ensures
        res.len() == 3,
        res[0].name@ == app_menu_title@,
        res[0].icon is None,
        app_items_are(res[0].items@, include_services),
        res[1].name@ == "Task"@,
        res[1].icon is None,
        res[1].items.len() == 3,
        action_is(res[1].items[0], "Add Task"@, AppAction::AddTask, Some("plus"@)),
        task_menu_is(res[1].items[1], sessions@, false),
        task_menu_is(res[1].items[2], sessions@, true),
        res[2].name@ == "Help"@,
        res[2].icon is None,
        res[2].items.len() == 1,
        action_is(res[2].items[0], "Help"@, AppAction::Help, Some("questionmark.circle"@)),
{
    let mut app_items: Vec<MenuItem<AppAction>> = Vec::new();
    app_items.push(action_item("Settings...", AppAction::OpenSettings, Some("gear")));
    if include_services {
        app_items.push(MenuItem::Separator);
        app_items.push(MenuItem::SystemMenu(SystemMenuKind::Services));
    }
    app_items.push(MenuItem::Separator);
    app_items.push(action_item("Quit subtitle-fast", AppAction::Quit, None));
    let toggle = task_menu(sessions, false);
    let remove = task_menu(sessions, true);
    let mut task_items: Vec<MenuItem<AppAction>> = Vec::new();
    task_items.push(action_item("Add Task", AppAction::AddTask, Some("plus")));
    task_items.push(toggle);
    task_items.push(remove);
    let mut help_items: Vec<MenuItem<AppAction>> = Vec::new();
    help_items.push(action_item("Help", AppAction::Help, Some("questionmark.circle")));
    let mut menus: Vec<Menu<AppAction>> = Vec::new();
    menus.push(Menu { name: String::from_str(app_menu_title), icon: None, items: app_items });
    menus.push(Menu { name: String::from_str("Task"), icon: None, items: task_items });
    menus.push(Menu { name: String::from_str("Help"), icon: None, items: help_items });
    menus
}

/// The icon of a task in the removal menu: done, running, paused or idle.
pub open spec fn remove_icon_spec(run_state: DetectionRunState, completed: bool) -> Seq<char> {
    if completed {
        "checkmark.circle"@
    } else {
        match run_state {
            DetectionRunState::Running => "play.fill"@,
            DetectionRunState::Paused => "pause.fill"@,
            DetectionRunState::Idle => "film"@,
        }
    }
}

/// The icon of a task in the start/pause menu: what choosing it does.
pub open spec fn toggle_icon_spec(run_state: DetectionRunState, completed: bool) -> Seq<char> {
    if completed {
        "checkmark.circle"@
    } else {
        match run_state {
            DetectionRunState::Running => "pause.fill"@,
            DetectionRunState::Paused => "play.fill"@,
            DetectionRunState::Idle => "play.fill"@,
        }
    }
}

/// The icon of a task in the removal menu.
pub fn remove_task_icon(run_state: DetectionRunState, completed: bool) -> (res: &'static str)
    ensures
        res@ == remove_icon_spec(run_state, completed),
{
    if completed {
        "checkmark.circle"
    } else {
        match run_state {
            DetectionRunState::Running => "play.fill",
            DetectionRunState::Paused => "pause.fill",
            DetectionRunState::Idle => "film",
        }
    }
}

/// The icon of a task in the start/pause menu.
pub fn toggle_task_icon(run_state: DetectionRunState, completed: bool) -> (res: &'static str)
    ensures
        res@ == toggle_icon_spec(run_state, completed),
{
    if completed {
        "checkmark.circle"
    } else {
        match run_state {
            DetectionRunState::Running => "pause.fill",
            DetectionRunState::Paused => "play.fill",
            DetectionRunState::Idle => "play.fill",
        }
    }
}

} // verus!

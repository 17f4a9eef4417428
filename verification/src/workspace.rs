//! The main window's bookkeeping of sessions: which one is active, what
//! adding, activating and removing one asks of the window, and which
//! confirmation a request calls for.

use vstd::prelude::*;

use crate::session::{has_session, is_first_session, label_fits, SessionId, SessionStore};

verus! {

/// What the window does after a change of its sessions, in order.
#[derive(Clone, Copy, Debug, PartialEq, Eq, Structural)]
pub enum WorkspaceEffect {
    /// Store the playback position and tool settings of this session.
    SaveSessionState(SessionId),
    /// Close the open video.
    ReleasePlayer,
    /// Open this session's video, paused at its last frame.
    LoadSession(SessionId),
    /// Show this session's detection in the sidebar, or none.
    ShowDetection(Option<SessionId>),
    /// Stop this session's detection.
    CancelDetection(SessionId),
    /// Close this session's subtitle editor window.
    CloseEditorWindow(SessionId),
    NotifyTaskSidebar,
    RefreshMenus,
}

/// A confirmation that a request calls for.
pub enum SessionPrompt {
    /// Ask before stopping the detection of session `id`.
    ConfirmStop { id: SessionId, label: String },
    /// Ask before removing session `id`.
    ConfirmRemove { id: SessionId, label: String },
    /// Tell that no session is selected.
    NoActiveSession,
}

/// The sessions of the main window and the one it shows.
pub struct MainWindowState<D, R> {
    pub sessions: SessionStore<D, R>,
    pub active_session: Option<SessionId>,
}

/// The effects of making `id` active when `prev` was: store the previous
/// session, then show `id` if it is listed.
pub open spec fn activation_effects(prev: Option<SessionId>, id: SessionId, listed: bool) -> Seq<
    WorkspaceEffect,
> {
    (match prev {
        Some(p) => seq![WorkspaceEffect::SaveSessionState(p)],
        None => Seq::empty(),
    }) + seq![WorkspaceEffect::NotifyTaskSidebar, WorkspaceEffect::ReleasePlayer] + if listed {
        seq![
            WorkspaceEffect::LoadSession(id),
            WorkspaceEffect::ShowDetection(Some(id)),
            WorkspaceEffect::RefreshMenus,
        ]
    } else {
        seq![WorkspaceEffect::ShowDetection(None)]
    }
}

/// The effects of removing `id`.
pub open spec fn removal_effects(id: SessionId, listed: bool, was_active: bool) -> Seq<
    WorkspaceEffect,
> {
    (if listed {
        seq![WorkspaceEffect::CancelDetection(id)]
    } else {
        Seq::empty()
    }) + seq![WorkspaceEffect::CloseEditorWindow(id)] + (if was_active {
        seq![WorkspaceEffect::ReleasePlayer, WorkspaceEffect::ShowDetection(None)]
    } else {
        Seq::empty()
    }) + seq![WorkspaceEffect::NotifyTaskSidebar, WorkspaceEffect::RefreshMenus]
}

/// Whether the label of the first session `id` in `s` is `label`.
pub open spec fn labelled<D, R>(
    s: Seq<crate::session::VideoSession<D, R>>,
    id: SessionId,
    label: Seq<char>,
) -> bool {
    exists|i: int| is_first_session(s, id, i) && s[i].label@ == label
}

proof fn lemma_listed_after_removal<D, R>(
    before: Seq<crate::session::VideoSession<D, R>>,
    after: Seq<crate::session::VideoSession<D, R>>,
    removed: SessionId,
    kept: SessionId,
    i: int,
)
    requires
        is_first_session(before, removed, i),
        after == before.remove(i),
        has_session(before, kept),
        kept != removed,
    ensures
        has_session(after, kept),
{
    let k = choose|k: int| 0 <= k < before.len() && #[trigger] before[k].id == kept;
    if k < i {
        assert(after[k] == before[k]);
    } else {
        assert(k != i);
        assert(after[k - 1] == before[k]);
    }
}

impl<D, R> MainWindowState<D, R> {
    /// The store is well formed and agrees on the active session.
    pub open spec fn well_formed(&self) -> bool {
        &&& self.sessions.well_formed()
        &&& self.sessions.active_id == self.active_session
    }

    /// The active session, if any, is listed.
    pub open spec fn active_listed(&self) -> bool {
        match self.active_session {
            Some(id) => has_session(self.sessions.sessions@, id),
            None => true,
        }
    }

    /// No session, none active.
    pub fn new() -> (res: MainWindowState<D, R>)
        ensures
            res.sessions.sessions@.len() == 0,
            res.sessions.next_id == 0,
            res.active_session is None,
            res.well_formed(),
            res.active_listed(),
    {
        MainWindowState { sessions: SessionStore::new(), active_session: None }
    }

    /// Shows session `id`: nothing happens when it is already shown;
    /// otherwise the shown session's state is stored, the player released
    /// and `id` loaded if it is listed.
    pub fn activate_session(&mut self, id: SessionId) -> (effects: Vec<WorkspaceEffect>)
        ensures
            old(self).active_session == Some(id) ==> effects@ == Seq::<WorkspaceEffect>::empty()
                && *final(self) == *old(self),
            old(self).active_session != Some(id) ==> {
                &&& effects@ == activation_effects(
                    old(self).active_session,
                    id,
                    has_session(old(self).sessions.sessions@, id),
                )
                &&& final(self).active_session == Some(id)
                &&& final(self).sessions.active_id == Some(id)
                &&& final(self).sessions.sessions@ == old(self).sessions.sessions@
                &&& final(self).sessions.next_id == old(self).sessions.next_id
            },
            old(self).well_formed() ==> final(self).well_formed(),
            old(self).active_listed() && has_session(old(self).sessions.sessions@, id)
                ==> final(self).active_listed(),
    {
        if self.active_session == Some(id) {
            return Vec::new();
        }
        let mut effects: Vec<WorkspaceEffect> = Vec::new();
        if let Some(prev) = self.active_session {
            effects.push(WorkspaceEffect::SaveSessionState(prev));
        }
        let ghost saved = effects@;
        self.active_session = Some(id);
        self.sessions.set_active(id);
        effects.push(WorkspaceEffect::NotifyTaskSidebar);
        effects.push(WorkspaceEffect::ReleasePlayer);
        let listed = self.sessions.session(id).is_some();
        if listed {
            effects.push(WorkspaceEffect::LoadSession(id));
            effects.push(WorkspaceEffect::ShowDetection(Some(id)));
            effects.push(WorkspaceEffect::RefreshMenus);
        } else {
            effects.push(WorkspaceEffect::ShowDetection(None));
        }
        assert(effects@ =~= activation_effects(old(self).active_session, id, listed));
        effects
    }

    /// Adds a session for `path` with its detection task and, where the
    /// settings file gave them, its detector settings; shows it when
    /// `select_new` or when no session is shown.
    pub fn enqueue_session(
        &mut self,
        path: String,
        detection: D,
        initial: Option<(u8, u8, Option<R>)>,
        select_new: bool,
    ) -> (res: (SessionId, Vec<WorkspaceEffect>))
        requires
            old(self).well_formed(),
            old(self).sessions.next_id < u64::MAX,
        ensures
            res.0 == old(self).sessions.next_id + 1,
            final(self).sessions.next_id == res.0,
            final(self).sessions.sessions@.len() == old(self).sessions.sessions@.len() + 1,
            final(self).sessions.sessions@.drop_last() == old(self).sessions.sessions@,
            final(self).sessions.sessions@.last().id == res.0,
            final(self).sessions.sessions@.last().path@ == path@,
            label_fits(final(self).sessions.sessions@.last().label@, path@),
            final(self).sessions.sessions@.last().detection == detection,
            final(self).sessions.sessions@.last().last_timestamp is None,
            final(self).sessions.sessions@.last().last_frame_index is None,
            final(self).sessions.sessions@.last().toolbar_state is None,
            match initial {
                Some((target, delta, roi)) => {
                    &&& final(self).sessions.sessions@.last().luma_target == Some(target)
                    &&& final(self).sessions.sessions@.last().luma_delta == Some(delta)
                    &&& final(self).sessions.sessions@.last().roi == roi
                },
                None => {
                    &&& final(self).sessions.sessions@.last().luma_target is None
                    &&& final(self).sessions.sessions@.last().luma_delta is None
                    &&& final(self).sessions.sessions@.last().roi is None
                },
            },
            select_new || old(self).active_session is None ==> {
                &&& res.1@ == (if old(self).active_session == Some(res.0) {
                    Seq::empty()
                } else {
                    activation_effects(old(self).active_session, res.0, true)
                }).push(WorkspaceEffect::RefreshMenus)
                &&& final(self).active_session == Some(res.0)
            },
            !(select_new || old(self).active_session is None) ==> {
                &&& res.1@ == seq![
                    WorkspaceEffect::NotifyTaskSidebar,
                    WorkspaceEffect::RefreshMenus,
                ]
                &&& final(self).active_session == old(self).active_session
            },
            final(self).well_formed(),
            old(self).active_listed() ==> final(self).active_listed(),
    {
        let ghost before = self.sessions.sessions@;
        let id = self.sessions.add_session(path, detection);
        let ghost added = self.sessions.sessions@;
        let ghost last = (added.len() - 1) as int;
        proof {
            assert forall|j: int| 0 <= j < last implies #[trigger] added[j].id != id by {
                assert(added[j] == before[j]);
            }
            assert(is_first_session(added, id, last));
        }
        match initial {
            Some((target, delta, roi)) => {
                self.sessions.update_settings(id, Some(target), Some(delta), None, roi);
                proof {
                    let now = self.sessions.sessions@;
                    assert forall|k: int| 0 <= k < last implies #[trigger] now[k] == added[k] by {
                        assert(!is_first_session(added, id, k));
                    }
                    assert(now.drop_last() =~= before);
                }
            },
            None => {},
        }
        proof {
            let now = self.sessions.sessions@;
            match self.active_session {
                Some(a) => {
                    if has_session(before, a) {
                        let k = choose|k: int| 0 <= k < before.len() && #[trigger] before[k].id == a;
                        assert(now.drop_last()[k] == before[k]);
                        assert(now[k].id == a);
                    }
                },
                None => {},
            }
        }
        let mut effects: Vec<WorkspaceEffect>;
        if select_new || self.active_session.is_none() {
            assert(has_session(self.sessions.sessions@, id)) by {
                assert(self.sessions.sessions@[last].id == id);
            }
            effects = self.activate_session(id);
        } else {
            effects = Vec::new();
            effects.push(WorkspaceEffect::NotifyTaskSidebar);
        }
        effects.push(WorkspaceEffect::RefreshMenus);
        (id, effects)
    }

    /// Removes session `id`: its detection is stopped, its editor closed
    /// and, when it was shown, the player released.
    pub fn remove_session(&mut self, id: SessionId) -> (effects: Vec<WorkspaceEffect>)
        ensures
            effects@ == removal_effects(
                id,
                has_session(old(self).sessions.sessions@, id),
                old(self).active_session == Some(id),
            ),
            final(self).active_session == (if old(self).active_session == Some(id) {
                None
            } else {
                old(self).active_session
            }),
            final(self).sessions.next_id == old(self).sessions.next_id,
            !has_session(old(self).sessions.sessions@, id) ==> final(self).sessions.sessions@
                == old(self).sessions.sessions@,
            forall|i: int|
                is_first_session(old(self).sessions.sessions@, id, i)
                    ==> final(self).sessions.sessions@ == old(self).sessions.sessions@.remove(i),
            old(self).well_formed() ==> final(self).well_formed(),
            old(self).well_formed() ==> !has_session(final(self).sessions.sessions@, id),
            old(self).well_formed() && old(self).active_listed() ==> final(self).active_listed(),
    {
        let mut effects: Vec<WorkspaceEffect> = Vec::new();
        let listed = self.sessions.session(id).is_some();
        if listed {
            effects.push(WorkspaceEffect::CancelDetection(id));
        }
        effects.push(WorkspaceEffect::CloseEditorWindow(id));
        let was_active = self.active_session == Some(id);
        if was_active {
            self.active_session = None;
            effects.push(WorkspaceEffect::ReleasePlayer);
            effects.push(WorkspaceEffect::ShowDetection(None));
        }
        let ghost before = self.sessions.sessions@;
        self.sessions.remove_session(id);
        effects.push(WorkspaceEffect::NotifyTaskSidebar);
        effects.push(WorkspaceEffect::RefreshMenus);
        proof {
            assert(effects@ =~= removal_effects(id, listed, was_active));
            if old(self).well_formed() && old(self).active_listed() {
                if let Some(a) = self.active_session {
                    if listed {
                        let i = choose|i: int| 0 <= i < before.len() && #[trigger] before[i].id == id;
                        assert(is_first_session(before, id, i)) by {
                            assert forall|j: int| 0 <= j < i implies #[trigger] before[j].id != id by {
                                if before[j].id == id {
                                    assert(before[j].id == before[i].id);
                                }
                            }
                        }
                        lemma_listed_after_removal(before, self.sessions.sessions@, id, a, i);
                    }
                }
            }
        }
        effects
    }

    /// Stops the detection of session `id`, where it is listed.
    pub fn cancel_session(&self, id: SessionId) -> (effects: Vec<WorkspaceEffect>)
        ensures
            effects@ == (if has_session(self.sessions.sessions@, id) {
                seq![WorkspaceEffect::CancelDetection(id), WorkspaceEffect::NotifyTaskSidebar]
            } else {
                seq![WorkspaceEffect::NotifyTaskSidebar]
            }),
    {
        let mut effects: Vec<WorkspaceEffect> = Vec::new();
        if self.sessions.session(id).is_some() {
            effects.push(WorkspaceEffect::CancelDetection(id));
        }
        effects.push(WorkspaceEffect::NotifyTaskSidebar);
        effects
    }

    fn session_label(&self, id: SessionId) -> (res: Option<String>)
        ensures
            match res {
                Some(label) => labelled(self.sessions.sessions@, id, label@),
                None => !has_session(self.sessions.sessions@, id),
            },
    {
        match self.sessions.session(id) {
            Some(s) => Some(String::from_str(s.label.as_str())),
            None => None,
        }
    }

    /// The confirmation before stopping session `id`: none when it is not
    /// listed.
    pub fn request_cancel_session(&self, id: SessionId) -> (res: Option<SessionPrompt>)
        ensures
            match res {
                Some(SessionPrompt::ConfirmStop { id: pid, label }) => pid == id && labelled(
                    self.sessions.sessions@,
                    id,
                    label@,
                ),
                Some(_) => false,
                None => !has_session(self.sessions.sessions@, id),
            },
    {
        match self.session_label(id) {
            Some(label) => Some(SessionPrompt::ConfirmStop { id, label }),
            None => None,
        }
    }

    /// The confirmation before removing session `id`: none when it is not
    /// listed.
    pub fn request_remove_session(&self, id: SessionId) -> (res: Option<SessionPrompt>)
        ensures
            match res {
                Some(SessionPrompt::ConfirmRemove { id: pid, label }) => pid == id && labelled(
                    self.sessions.sessions@,
                    id,
                    label@,
                ),
                Some(_) => false,
                None => !has_session(self.sessions.sessions@, id),
            },
    {
        match self.session_label(id) {
            Some(label) => Some(SessionPrompt::ConfirmRemove { id, label }),
            None => None,
        }
    }

    /// The confirmation before removing the shown session, or the notice
    /// that none is shown.
    pub fn request_remove_active_session(&self) -> (res: Option<SessionPrompt>)
        ensures
            match self.active_session {
                None => res matches Some(SessionPrompt::NoActiveSession),
                Some(id) => match res {
                    Some(SessionPrompt::ConfirmRemove { id: pid, label }) => pid == id && labelled(
                        self.sessions.sessions@,
                        id,
                        label@,
                    ),
                    Some(_) => false,
                    None => !has_session(self.sessions.sessions@, id),
                },
            },
    {
        match self.active_session {
            Some(id) => self.request_remove_session(id),
            None => Some(SessionPrompt::NoActiveSession),
        }
    }
}

} // verus!

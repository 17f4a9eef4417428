//! The list of video sessions (tasks) of the main window: each session has
//! an identifier, the video path, a label, its detection task and the
//! playback and tool settings to restore when it is shown again.

use vstd::prelude::*;

use crate::paths::{
    after_last_slash, ends_in_parent_dir, is_part_of, is_plain_name, no_backslash, path_file_name,
    starts_with_two_slashes,
};

verus! {

/// Identifier of a session.
pub type SessionId = u64;

/// How the video is shown: full color or the luma plane only.
#[derive(Clone, Copy, Debug, PartialEq, Eq, Structural)]
pub enum VideoViewMode {
    Yuv,
    Y,
}

/// The toggles of the video toolbar.
#[derive(Clone, Copy, Debug, PartialEq, Eq, Structural)]
pub struct VideoToolbarState {
    pub view: VideoViewMode,
    pub roi_visible: bool,
    pub highlight_visible: bool,
    pub validator_overlay_visible: bool,
}

/// One session. `D` is its detection task; `R` its region of interest.
#[derive(Debug)]
pub struct VideoSession<D, R> {
    pub id: SessionId,
    pub path: String,
    pub label: String,
    pub detection: D,
    pub last_timestamp: Option<core::time::Duration>,
    pub last_frame_index: Option<u64>,
    pub luma_target: Option<u8>,
    pub luma_delta: Option<u8>,
    pub toolbar_state: Option<VideoToolbarState>,
    pub roi: Option<R>,
}

/// The sessions and the active one.
#[derive(Debug)]
pub struct SessionStore<D, R> {
    pub next_id: SessionId,
    pub active_id: Option<SessionId>,
    pub sessions: Vec<VideoSession<D, R>>,
}

/// Whether `i` is the first position of session `id`.
pub open spec fn is_first_session<D, R>(s: Seq<VideoSession<D, R>>, id: SessionId, i: int) -> bool {
    &&& 0 <= i < s.len()
    &&& s[i].id == id
    &&& forall|j: int| 0 <= j < i ==> #[trigger] s[j].id != id
}

/// Whether some session has identifier `id`.
pub open spec fn has_session<D, R>(s: Seq<VideoSession<D, R>>, id: SessionId) -> bool {
    exists|i: int| 0 <= i < s.len() && #[trigger] s[i].id == id
}

/// Whether `label` may be the label of a session for `path`: the path's
/// file name, or the whole path when it has none. Stated as far as the
/// file name is known: a nonempty stretch of the path, free of `/` in a path
/// without `\\`, exactly the part after the last `/` when that part is a
/// plain name (outside Windows shares), and the whole path for `/` and for
/// a path without `\\` ending in `..`, which have no file name.
pub open spec fn label_fits(label: Seq<char>, path: Seq<char>) -> bool {
    &&& path.len() == 0 ==> label == path
    &&& label.len() > 0 <==> path.len() > 0
    &&& label.len() <= path.len()
    &&& is_part_of(label, path)
    &&& no_backslash(path) ==> (label == path || forall|k: int|
        0 <= k < label.len() ==> #[trigger] label[k] != '/')
    &&& no_backslash(path) && !starts_with_two_slashes(path) && is_plain_name(
        after_last_slash(path),
    ) ==> label == after_last_slash(path)
    &&& path == seq!['/'] ==> label == path
    &&& no_backslash(path) && ends_in_parent_dir(path) ==> label == path
}

/// The label of a session for `path`: its file name, or the whole path
/// when it has none.
pub fn session_label(path: &str) -> (res: String)
    ensures
        label_fits(res@, path@),
{
    match path_file_name(path) {
        Some(name) => name,
        None => {
            let whole = String::from_str(path);
            assert(is_part_of(whole@, path@)) by {
                assert(path@.subrange(0int, 0int + whole@.len()) =~= whole@);
            }
            whole
        },
    }
}

fn position_of<D, R>(s: &Vec<VideoSession<D, R>>, id: SessionId) -> (res: Option<usize>)
    ensures
        match res {
            Some(i) => is_first_session(s@, id, i as int),
            None => !has_session(s@, id),
        },
{
    let mut i: usize = 0;
    while i < s.len()
        invariant
            0 <= i <= s.len(),
            forall|j: int| 0 <= j < i ==> #[trigger] s@[j].id != id,
        decreases s.len() - i,
    {
        if s[i].id == id {
            return Some(i);
        }
        i = i + 1;
    }
    None
}

impl<D, R> SessionStore<D, R> {
    /// Identifiers are at most `next_id` and pairwise different.
    pub open spec fn well_formed(&self) -> bool {
        &&& forall|i: int| 0 <= i < self.sessions@.len() ==> #[trigger] self.sessions@[i].id <= self.next_id
        &&& forall|i: int, j: int|
            0 <= i < j < self.sessions@.len() ==> #[trigger] self.sessions@[i].id
                != #[trigger] self.sessions@[j].id
    }

    /// An empty store.
    pub fn new() -> (res: SessionStore<D, R>)
        ensures
            res.next_id == 0,
            res.active_id is None,
            res.sessions@.len() == 0,
            res.well_formed(),
    {
        SessionStore { next_id: 0, active_id: None, sessions: Vec::new() }
    }

    /// Adds a session for `path` with its detection task and returns its
    /// identifier: one more than the previous one (stopping at the largest
    /// value), never zero.
    pub fn add_session(&mut self, path: String, detection: D) -> (res: SessionId)
        ensures
            res == (if old(self).next_id == u64::MAX {
                u64::MAX
            } else {
                (old(self).next_id + 1) as u64
            }),
            res >= 1,
            final(self).next_id == res,
            final(self).active_id == old(self).active_id,
            final(self).sessions@.len() == old(self).sessions@.len() + 1,
            final(self).sessions@.drop_last() == old(self).sessions@,
            final(self).sessions@.last().id == res,
            final(self).sessions@.last().path@ == path@,
            label_fits(final(self).sessions@.last().label@, path@),
            final(self).sessions@.last().detection == detection,
            final(self).sessions@.last().last_timestamp is None,
            final(self).sessions@.last().last_frame_index is None,
            final(self).sessions@.last().luma_target is None,
            final(self).sessions@.last().luma_delta is None,
            final(self).sessions@.last().toolbar_state is None,
            final(self).sessions@.last().roi is None,
            old(self).well_formed() && old(self).next_id < u64::MAX ==> final(self).well_formed(),
    {
        let label = session_label(path.as_str());
        let next = self.next_id.saturating_add(1);
        self.next_id = if next > 1 {
            next
        } else {
            1
        };
        let id = self.next_id;
        self.sessions.push(
            VideoSession {
                id,
                path,
                label,
                detection,
                last_timestamp: None,
                last_frame_index: None,
                luma_target: None,
                luma_delta: None,
                toolbar_state: None,
                roi: None,
            },
        );
        assert(self.sessions@.drop_last() =~= old(self).sessions@);
        id
    }

    /// All sessions, in the order they were added.
    pub fn sessions_snapshot(&self) -> (res: &Vec<VideoSession<D, R>>)
        ensures
            res@ == self.sessions@,
    {
        &self.sessions
    }

    /// The first session with identifier `id`.
    pub fn session(&self, id: SessionId) -> (res: Option<&VideoSession<D, R>>)
        ensures
            match res {
                Some(s) => exists|i: int| is_first_session(self.sessions@, id, i) && *s == self.sessions@[i],
                None => !has_session(self.sessions@, id),
            },
    {
        match position_of(&self.sessions, id) {
            Some(i) => Some(&self.sessions[i]),
            None => None,
        }
    }

    /// Makes `id` the active session.
    pub fn set_active(&mut self, id: SessionId)
        ensures
            final(self).active_id == Some(id),
            final(self).next_id == old(self).next_id,
            final(self).sessions@ == old(self).sessions@,
    {
        self.active_id = Some(id);
    }

    /// The active session, if any.
    pub fn active_id(&self) -> (res: Option<SessionId>)
        ensures
            res == self.active_id,
    {
        self.active_id
    }

    /// Removes the first session with identifier `id`; if it was active, no
    /// session is active any more.
    pub fn remove_session(&mut self, id: SessionId)
        ensures
            final(self).next_id == old(self).next_id,
            final(self).active_id == (if old(self).active_id == Some(id) {
                None
            } else {
                old(self).active_id
            }),
            !has_session(old(self).sessions@, id) ==> final(self).sessions@ == old(self).sessions@,
            forall|i: int|
                is_first_session(old(self).sessions@, id, i) ==> final(self).sessions@
                    == old(self).sessions@.remove(i),
            old(self).well_formed() ==> final(self).well_formed(),
            old(self).well_formed() ==> !has_session(final(self).sessions@, id),
    {
        let ghost before = self.sessions@;
        if let Some(index) = position_of(&self.sessions, id) {
            self.sessions.remove(index);
            proof {
                assert forall|i: int| is_first_session(before, id, i) implies self.sessions@
                    == before.remove(i) by {
                    if i < index {
                        assert(before[i].id != id);
                    } else if index < i {
                        assert(before[index as int].id != id);
                    }
                }
                if old(self).well_formed() {
                    assert forall|i: int, j: int|
                        0 <= i < j < self.sessions@.len() implies #[trigger] self.sessions@[i].id
                        != #[trigger] self.sessions@[j].id by {
                        let oi = if i < index { i } else { i + 1 };
                        let oj = if j < index { j } else { j + 1 };
                        assert(self.sessions@[i] == before[oi]);
                        assert(self.sessions@[j] == before[oj]);
                    }
                    assert forall|k: int| 0 <= k < self.sessions@.len() implies #[trigger] self.sessions@[k].id
                        <= self.next_id by {
                        let ok = if k < index { k } else { k + 1 };
                        assert(self.sessions@[k] == before[ok]);
                    }
                    assert forall|k: int| 0 <= k < self.sessions@.len() implies #[trigger] self.sessions@[k].id
                        != id by {
                        let ok = if k < index { k } else { k + 1 };
                        assert(self.sessions@[k] == before[ok]);
                        assert(before[index as int].id == id);
                    }
                }
            }
        }
        if self.active_id == Some(id) {
            self.active_id = None;
        }
    }

    /// Records where playback of session `id` stopped; absent values leave
    /// the recorded ones.
    pub fn update_playback(
        &mut self,
        id: SessionId,
        timestamp: Option<core::time::Duration>,
        frame_index: Option<u64>,
    )
        ensures
            final(self).next_id == old(self).next_id,
            final(self).active_id == old(self).active_id,
            final(self).sessions@.len() == old(self).sessions@.len(),
            forall|k: int|
                0 <= k < old(self).sessions@.len() && !is_first_session(old(self).sessions@, id, k)
                    ==> #[trigger] final(self).sessions@[k] == old(self).sessions@[k],
            forall|k: int|
                is_first_session(old(self).sessions@, id, k) ==> {
                    let o = old(self).sessions@[k];
                    let n = final(self).sessions@[k];
                    &&& n.last_timestamp == (if timestamp is Some {
                        timestamp
                    } else {
                        o.last_timestamp
                    })
                    &&& n.last_frame_index == (if frame_index is Some {
                        frame_index
                    } else {
                        o.last_frame_index
                    })
                    &&& n.id == o.id && n.path == o.path && n.label == o.label && n.detection
                        == o.detection
                    &&& n.luma_target == o.luma_target && n.luma_delta == o.luma_delta
                    &&& n.toolbar_state == o.toolbar_state && n.roi == o.roi
                },
            old(self).well_formed() ==> final(self).well_formed(),
    {
        if let Some(index) = position_of(&self.sessions, id) {
            let mut session = self.sessions.remove(index);
            if timestamp.is_some() {
                session.last_timestamp = timestamp;
            }
            if frame_index.is_some() {
                session.last_frame_index = frame_index;
            }
            self.sessions.insert(index, session);
            proof {
                assert forall|k: int| is_first_session(old(self).sessions@, id, k) implies k
                    == index by {
                    if k < index {
                        assert(old(self).sessions@[k].id != id);
                    } else if index < k {
                        assert(old(self).sessions@[index as int].id != id);
                    }
                }
                assert forall|i: int, j: int|
                    0 <= i < j < self.sessions@.len() && old(self).well_formed() implies #[trigger] self.sessions@[i].id
                    != #[trigger] self.sessions@[j].id by {
                    assert(self.sessions@[i].id == old(self).sessions@[i].id);
                    assert(self.sessions@[j].id == old(self).sessions@[j].id);
                }
                assert forall|k: int| 0 <= k < self.sessions@.len() && old(self).well_formed() implies #[trigger] self.sessions@[k].id
                    <= self.next_id by {
                    assert(self.sessions@[k].id == old(self).sessions@[k].id);
                }
            }
        }
    }

    /// Records the detector and tool settings of session `id`; absent values
    /// leave the recorded ones.
    pub fn update_settings(
        &mut self,
        id: SessionId,
        luma_target: Option<u8>,
        luma_delta: Option<u8>,
        toolbar_state: Option<VideoToolbarState>,
        roi: Option<R>,
    )
        ensures
            final(self).next_id == old(self).next_id,
            final(self).active_id == old(self).active_id,
            final(self).sessions@.len() == old(self).sessions@.len(),
            forall|k: int|
                0 <= k < old(self).sessions@.len() && !is_first_session(old(self).sessions@, id, k)
                    ==> #[trigger] final(self).sessions@[k] == old(self).sessions@[k],
            forall|k: int|
                is_first_session(old(self).sessions@, id, k) ==> {
                    let o = old(self).sessions@[k];
                    let n = final(self).sessions@[k];
                    &&& n.luma_target == (if luma_target is Some {
                        luma_target
                    } else {
                        o.luma_target
                    })
                    &&& n.luma_delta == (if luma_delta is Some {
                        luma_delta
                    } else {
                        o.luma_delta
                    })
                    &&& n.toolbar_state == (if toolbar_state is Some {
                        toolbar_state
                    } else {
                        o.toolbar_state
                    })
                    &&& n.roi == (if roi is Some {
                        roi
                    } else {
                        o.roi
                    })
                    &&& n.id == o.id && n.path == o.path && n.label == o.label && n.detection
                        == o.detection
                    &&& n.last_timestamp == o.last_timestamp && n.last_frame_index
                        == o.last_frame_index
                },
            old(self).well_formed() ==> final(self).well_formed(),
    {
        if let Some(index) = position_of(&self.sessions, id) {
            let mut session = self.sessions.remove(index);
            if luma_target.is_some() {
                session.luma_target = luma_target;
            }
            if luma_delta.is_some() {
                session.luma_delta = luma_delta;
            }
            if toolbar_state.is_some() {
                session.toolbar_state = toolbar_state;
            }
            if roi.is_some() {
                session.roi = roi;
            }
            self.sessions.insert(index, session);
            proof {
                assert forall|k: int| is_first_session(old(self).sessions@, id, k) implies k
                    == index by {
                    if k < index {
                        assert(old(self).sessions@[k].id != id);
                    } else if index < k {
                        assert(old(self).sessions@[index as int].id != id);
                    }
                }
                assert forall|i: int, j: int|
                    0 <= i < j < self.sessions@.len() && old(self).well_formed() implies #[trigger] self.sessions@[i].id
                    != #[trigger] self.sessions@[j].id by {
                    assert(self.sessions@[i].id == old(self).sessions@[i].id);
                    assert(self.sessions@[j].id == old(self).sessions@[j].id);
                }
                assert forall|k: int| 0 <= k < self.sessions@.len() && old(self).well_formed() implies #[trigger] self.sessions@[k].id
                    <= self.next_id by {
                    assert(self.sessions@[k].id == old(self).sessions@[k].id);
                }
            }
        }
    }
}

} // verus!

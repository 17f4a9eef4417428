//! The state of one subtitle detection task: whether it runs, the pause and
//! cancel handles it holds, the subtitles found so far, the choice of the
//! next decoder backend after a failure, and the suggested export target.
//!
//! The channels that carry these changes to the user interface are kept by
//! the application; every operation here returns what it has to send.

use vstd::prelude::*;

use crate::paths::{
    after_last_slash, before_last_slash, has_simple_parent, is_plain_name, lemma_last_slash,
    path_file_name, path_parent, split_file_name, starts_with_two_slashes, stem_spec,
};
use crate::text::str_equal;

verus! {

/// Whether a detection task is idle, running or paused.
#[derive(Clone, Copy, Debug, PartialEq, Eq, Structural)]
pub enum DetectionRunState {
    Idle,
    Running,
    Paused,
}

impl DetectionRunState {
    /// Running or paused: a pipeline exists.
    pub open spec fn is_running_spec(self) -> bool {
        self is Running || self is Paused
    }

    /// Whether a pipeline exists (running or paused).
    pub fn is_running(self) -> (res: bool)
        ensures
            res == self.is_running_spec(),
    {
        match self {
            DetectionRunState::Running | DetectionRunState::Paused => true,
            DetectionRunState::Idle => false,
        }
    }

    /// Whether the pipeline is paused.
    pub fn is_paused(self) -> (res: bool)
        ensures
            res == (self is Paused),
    {
        match self {
            DetectionRunState::Paused => true,
            _ => false,
        }
    }
}

/// A change of the subtitle list, as broadcast to listeners.
#[derive(Debug)]
pub enum SubtitleMessage<T> {
    /// The list was cleared.
    Reset,
    /// A subtitle was added.
    New(T),
    /// A subtitle changed.
    Updated(T),
}

/// Whether a pipeline update adds a subtitle or revises one.
#[derive(Clone, Copy, Debug, PartialEq, Eq, Structural)]
pub enum SubtitleUpdateKind {
    New,
    Updated,
}

/// A subtitle as kept by a task: its identifier and its content.
#[derive(Debug)]
pub struct SubtitleRecord<T> {
    pub id: u64,
    pub subtitle: T,
}

/// One update from the pipeline.
#[derive(Debug)]
pub struct SubtitleUpdate<T> {
    pub kind: SubtitleUpdateKind,
    pub record: SubtitleRecord<T>,
}

/// Whether `i` is the first position of `id` in `s`.
pub open spec fn is_first_index<T>(s: Seq<SubtitleRecord<T>>, id: u64, i: int) -> bool {
    &&& 0 <= i < s.len()
    &&& s[i].id == id
    &&& forall|j: int| 0 <= j < i ==> #[trigger] s[j].id != id
}

/// The first position of `id` in `s`, or -1.
pub open spec fn find_id<T>(s: Seq<SubtitleRecord<T>>, id: u64) -> int {
    if exists|i: int| is_first_index(s, id, i) {
        choose|i: int| is_first_index(s, id, i)
    } else {
        -1
    }
}

/// The list after one update: a new subtitle is appended; a revised one
/// replaces the first subtitle with its identifier, or is appended when
/// there is none.
pub open spec fn apply_update_spec<T>(s: Seq<SubtitleRecord<T>>, u: SubtitleUpdate<T>) -> Seq<
    SubtitleRecord<T>,
> {
    match u.kind {
        SubtitleUpdateKind::New => s.push(u.record),
        SubtitleUpdateKind::Updated => if find_id(s, u.record.id) >= 0 {
            s.update(find_id(s, u.record.id), u.record)
        } else {
            s.push(u.record)
        },
    }
}

/// The list after a sequence of updates, applied in order.
pub open spec fn apply_updates_spec<T>(s: Seq<SubtitleRecord<T>>, us: Seq<SubtitleUpdate<T>>) -> Seq<
    SubtitleRecord<T>,
>
    decreases us.len(),
{
    if us.len() == 0 {
        s
    } else {
        apply_update_spec(apply_updates_spec(s, us.drop_last()), us.last())
    }
}

proof fn lemma_first_index_unique<T>(s: Seq<SubtitleRecord<T>>, id: u64, i: int, k: int)
    requires
        is_first_index(s, id, i),
        is_first_index(s, id, k),
    ensures
        i == k,
{
    if i < k {
        assert(s[i].id != id);
    } else if k < i {
        assert(s[k].id != id);
    }
}

fn find_record<T>(s: &Vec<SubtitleRecord<T>>, id: u64) -> (res: Option<usize>)
    ensures
        match res {
            Some(i) => find_id(s@, id) == i as int,
            None => find_id(s@, id) == -1,
        },
{
    let mut i: usize = 0;
    while i < s.len()
        invariant
            0 <= i <= s.len(),
            forall|j: int| 0 <= j < i ==> #[trigger] s@[j].id != id,
        decreases s.len() - i,
    {
        if s[i].id == id {
            proof {
                assert(is_first_index(s@, id, i as int));
                let k = choose|k: int| is_first_index(s@, id, k);
                lemma_first_index_unique(s@, id, i as int, k);
            }
            return Some(i);
        }
        i = i + 1;
    }
    assert(!exists|k: int| is_first_index(s@, id, k));
    None
}

/// The run state after the start/pause toggle, for a task that holds a
/// pause handle or not.
pub open spec fn toggled_state(state: DetectionRunState, has_pause_handle: bool) -> DetectionRunState {
    if !has_pause_handle {
        state
    } else {
        match state {
            DetectionRunState::Running => DetectionRunState::Paused,
            DetectionRunState::Paused => DetectionRunState::Running,
            DetectionRunState::Idle => DetectionRunState::Idle,
        }
    }
}

/// Toggling pause twice gives the state back.
pub proof fn lemma_toggle_twice(state: DetectionRunState, has_pause_handle: bool)
    ensures
        toggled_state(toggled_state(state, has_pause_handle), has_pause_handle) == state,
{
}

/// Whether the identifiers in `s` are pairwise different.
pub open spec fn distinct_ids<T>(s: Seq<SubtitleRecord<T>>) -> bool {
    forall|i: int, j: int| 0 <= i < j < s.len() ==> #[trigger] s[i].id != #[trigger] s[j].id
}

/// Whether every update only revises subtitles.
pub open spec fn all_revisions<T>(us: Seq<SubtitleUpdate<T>>) -> bool {
    forall|i: int| 0 <= i < us.len() ==> (#[trigger] us[i]).kind == SubtitleUpdateKind::Updated
}

proof fn lemma_update_keeps_distinct<T>(s: Seq<SubtitleRecord<T>>, u: SubtitleUpdate<T>)
    requires
        distinct_ids(s),
        u.kind == SubtitleUpdateKind::Updated,
    ensures
        distinct_ids(apply_update_spec(s, u)),
        exists|i: int| 0 <= i < apply_update_spec(s, u).len() && #[trigger] apply_update_spec(s, u)[i] == u.record,
{
    let r = apply_update_spec(s, u);
    if find_id(s, u.record.id) >= 0 {
        let k = find_id(s, u.record.id);
        assert(is_first_index(s, u.record.id, k));
        assert forall|i: int, j: int| 0 <= i < j < r.len() implies #[trigger] r[i].id != #[trigger] r[j].id by {
            if i != k && j != k {
                assert(r[i] == s[i] && r[j] == s[j]);
            } else if i == k {
                assert(r[j] == s[j]);
                assert(s[k].id != s[j].id);
            } else {
                assert(r[i] == s[i]);
                assert(s[i].id != s[k].id);
            }
        }
        assert(r[k] == u.record);
    } else {
        assert forall|i: int| 0 <= i < s.len() implies s[i].id != u.record.id by {
            if s[i].id == u.record.id {
                lemma_first_exists(s, u.record.id, i);
            }
        }
        assert forall|i: int, j: int| 0 <= i < j < r.len() implies #[trigger] r[i].id != #[trigger] r[j].id by {
            if j < s.len() {
                assert(r[i] == s[i] && r[j] == s[j]);
            } else {
                assert(r[i] == s[i]);
            }
        }
        assert(r[s.len() as int] == u.record);
    }
}

proof fn lemma_first_exists<T>(s: Seq<SubtitleRecord<T>>, id: u64, i: int)
    requires
        0 <= i < s.len(),
        s[i].id == id,
    ensures
        find_id(s, id) >= 0,
    decreases i,
{
    if forall|j: int| 0 <= j < i ==> #[trigger] s[j].id != id {
        assert(is_first_index(s, id, i));
    } else {
        let j = choose|j: int| 0 <= j < i && #[trigger] s[j].id == id;
        lemma_first_exists(s, id, j);
    }
}

/// Revising subtitles keeps identifiers unique, and the revised subtitle is
/// then in the list.
pub proof fn lemma_revisions_keep_ids_distinct<T>(s: Seq<SubtitleRecord<T>>, us: Seq<SubtitleUpdate<T>>)
    requires
        distinct_ids(s),
        all_revisions(us),
    ensures
        distinct_ids(apply_updates_spec(s, us)),
        us.len() > 0 ==> exists|i: int|
            0 <= i < apply_updates_spec(s, us).len() && #[trigger] apply_updates_spec(s, us)[i]
                == us.last().record,
    decreases us.len(),
{
    if us.len() > 0 {
        assert(all_revisions(us.drop_last())) by {
            assert forall|i: int| 0 <= i < us.drop_last().len() implies (#[trigger] us.drop_last()[i]).kind
                == SubtitleUpdateKind::Updated by {
                assert(us.drop_last()[i] == us[i]);
            }
        }
        lemma_revisions_keep_ids_distinct(s, us.drop_last());
        assert(us[us.len() - 1].kind == SubtitleUpdateKind::Updated);
        lemma_update_keeps_distinct(apply_updates_spec(s, us.drop_last()), us.last());
    }
}

/// The signals a task operation asks the application to send.
#[derive(Debug)]
pub struct TaskSignals {
    /// Fire the cancel signal of the running pipeline.
    pub send_cancel: bool,
    /// Set the pipeline's pause flag to this value.
    pub set_paused: Option<bool>,
    /// Reset the published progress to its initial value.
    pub reset_progress: bool,
    /// Broadcast `Reset` to the subtitle listeners.
    pub broadcast_reset: bool,
}

/// No signal at all.
pub open spec fn no_signals(s: TaskSignals) -> bool {
    !s.send_cancel && s.set_paused is None && !s.reset_progress && !s.broadcast_reset
}

/// What a request to start a task meets.
#[derive(Debug)]
pub enum StartGate {
    /// The task is already running or paused; nothing happens.
    Busy(DetectionRunState),
    /// No video is selected; nothing happens.
    NoVideo,
    /// The video at this path may be started.
    Proceed(String),
}

/// The state of one detection task.
#[derive(Debug)]
pub struct DetectionTask<T> {
    pub state: DetectionRunState,
    pub video_path: Option<String>,
    /// Whether the task holds the pipeline's pause handle.
    pub has_pause_handle: bool,
    /// Whether the task holds the pipeline's cancel signal.
    pub cancel_armed: bool,
    /// The subtitles found so far, in arrival order.
    pub subtitles: Vec<SubtitleRecord<T>>,
}

impl<T> DetectionTask<T> {
    /// A task with no video, idle and empty.
    pub fn new() -> (res: DetectionTask<T>)
        ensures
            res.state is Idle,
            res.video_path is None,
            !res.has_pause_handle,
            !res.cancel_armed,
            res.subtitles@.len() == 0,
    {
        DetectionTask {
            state: DetectionRunState::Idle,
            video_path: None,
            has_pause_handle: false,
            cancel_armed: false,
            subtitles: Vec::new(),
        }
    }

    /// Selects (or clears) the video to process.
    pub fn set_video_path(&mut self, path: Option<String>)
        ensures
            final(self).video_path == path,
            final(self).state == old(self).state,
            final(self).has_pause_handle == old(self).has_pause_handle,
            final(self).cancel_armed == old(self).cancel_armed,
            final(self).subtitles@ == old(self).subtitles@,
    {
        self.video_path = path;
    }

    /// The current run state.
    pub fn run_state(&self) -> (res: DetectionRunState)
        ensures
            res == self.state,
    {
        self.state
    }

    /// Whether a request to start may go ahead; the application then checks
    /// that the video exists, builds the plan and spawns the pipeline, and
    /// calls [`Self::mark_started`] when all of that succeeded.
    pub fn start_gate(&self) -> (res: StartGate)
        ensures
            !(self.state is Idle) ==> res == StartGate::Busy(self.state),
            self.state is Idle && self.video_path is None ==> res is NoVideo,
            self.state is Idle && self.video_path is Some ==> (res matches StartGate::Proceed(p)
                && p@ == self.video_path->Some_0@),
    {
        if !matches!(self.state, DetectionRunState::Idle) {
            return StartGate::Busy(self.state);
        }
        match &self.video_path {
            Some(p) => StartGate::Proceed(p.clone()),
            None => StartGate::NoVideo,
        }
    }

    /// Records that the pipeline was spawned: the task holds its cancel
    /// signal, its subtitles are cleared and it runs.
    pub fn mark_started(&mut self) -> (res: (DetectionRunState, TaskSignals))
        ensures
            final(self).state is Running,
            res.0 is Running,
            final(self).cancel_armed,
            final(self).subtitles@.len() == 0,
            final(self).has_pause_handle == old(self).has_pause_handle,
            final(self).video_path == old(self).video_path,
            res.1.reset_progress && res.1.broadcast_reset && !res.1.send_cancel && res.1.set_paused is None,
    {
        self.cancel_armed = true;
        self.subtitles.clear();
        self.state = DetectionRunState::Running;
        (
            DetectionRunState::Running,
            TaskSignals { send_cancel: false, set_paused: None, reset_progress: true, broadcast_reset: true },
        )
    }

    /// Records the pause handle of the pipeline once it exists.
    pub fn set_pause_handle(&mut self)
        ensures
            final(self).has_pause_handle,
            final(self).state == old(self).state,
            final(self).cancel_armed == old(self).cancel_armed,
            final(self).video_path == old(self).video_path,
            final(self).subtitles@ == old(self).subtitles@,
    {
        self.has_pause_handle = true;
    }

    /// Pauses a running task or resumes a paused one; without a pause handle
    /// nothing changes.
    pub fn toggle_pause(&mut self) -> (res: (DetectionRunState, Option<bool>))
        ensures
            final(self).has_pause_handle == old(self).has_pause_handle,
            final(self).cancel_armed == old(self).cancel_armed,
            final(self).video_path == old(self).video_path,
            final(self).subtitles@ == old(self).subtitles@,
            res.0 == final(self).state,
            final(self).state == toggled_state(old(self).state, old(self).has_pause_handle),
            !old(self).has_pause_handle ==> final(self).state == old(self).state && res.1 is None,
            old(self).has_pause_handle ==> match old(self).state {
                DetectionRunState::Running => final(self).state is Paused && res.1 == Some(true),
                DetectionRunState::Paused => final(self).state is Running && res.1 == Some(false),
                DetectionRunState::Idle => final(self).state is Idle && res.1 is None,
            },
    {
        if !self.has_pause_handle {
            return (self.state, None);
        }
        match self.state {
            DetectionRunState::Running => {
                self.state = DetectionRunState::Paused;
                (DetectionRunState::Paused, Some(true))
            },
            DetectionRunState::Paused => {
                self.state = DetectionRunState::Running;
                (DetectionRunState::Running, Some(false))
            },
            DetectionRunState::Idle => (DetectionRunState::Idle, None),
        }
    }

    /// Stops a running or paused task: its cancel signal is fired, its pipeline
    /// unpaused and released, its progress and subtitles cleared, and it
    /// becomes idle. An idle task is left as it is.
    pub fn cancel(&mut self) -> (res: (DetectionRunState, TaskSignals))
        ensures
            !old(self).state.is_running_spec() ==> *final(self) == *old(self) && res.0
                == old(self).state && no_signals(res.1),
            old(self).state.is_running_spec() ==> {
                &&& final(self).state is Idle
                &&& res.0 is Idle
                &&& !final(self).cancel_armed
                &&& !final(self).has_pause_handle
                &&& final(self).subtitles@.len() == 0
                &&& final(self).video_path == old(self).video_path
                &&& res.1.send_cancel == old(self).cancel_armed
                &&& res.1.set_paused == (if old(self).has_pause_handle {
                    Some(false)
                } else {
                    None
                })
                &&& res.1.reset_progress
                &&& res.1.broadcast_reset
            },
    {
        if !self.state.is_running() {
            return (
                self.state,
                TaskSignals { send_cancel: false, set_paused: None, reset_progress: false, broadcast_reset: false },
            );
        }
        let send_cancel = self.cancel_armed;
        let set_paused = if self.has_pause_handle {
            Some(false)
        } else {
            None
        };
        self.cancel_armed = false;
        self.subtitles.clear();
        self.has_pause_handle = false;
        self.state = DetectionRunState::Idle;
        (
            DetectionRunState::Idle,
            TaskSignals { send_cancel, set_paused, reset_progress: true, broadcast_reset: true },
        )
    }

    /// The pipeline ended (completed, failed or cancelled): the task lets go
    /// of its handles and becomes idle; the subtitles found stay.
    pub fn finish(&mut self) -> (res: TaskSignals)
        ensures
            final(self).state is Idle,
            !final(self).has_pause_handle,
            !final(self).cancel_armed,
            final(self).subtitles@ == old(self).subtitles@,
            final(self).video_path == old(self).video_path,
            res.set_paused == (if old(self).has_pause_handle {
                Some(false)
            } else {
                None
            }),
            !res.send_cancel && !res.reset_progress && !res.broadcast_reset,
    {
        let set_paused = if self.has_pause_handle {
            Some(false)
        } else {
            None
        };
        self.has_pause_handle = false;
        self.cancel_armed = false;
        self.state = DetectionRunState::Idle;
        TaskSignals { send_cancel: false, set_paused, reset_progress: false, broadcast_reset: false }
    }

    /// Whether any subtitle was found.
    pub fn has_subtitles(&self) -> (res: bool)
        ensures
            res == (self.subtitles@.len() > 0),
    {
        self.subtitles.len() > 0
    }

    /// Applies pipeline updates in order; returns, for each, the identifier
    /// and kind of the message to broadcast.
    pub fn apply_updates(&mut self, updates: Vec<SubtitleUpdate<T>>) -> (res: Vec<
        (SubtitleUpdateKind, u64),
    >)
        ensures
            final(self).subtitles@ == apply_updates_spec(old(self).subtitles@, updates@),
            res.len() == updates.len(),
            forall|i: int|
                0 <= i < res.len() ==> #[trigger] res[i] == (updates[i].kind, updates[i].record.id),
            final(self).state == old(self).state,
            final(self).has_pause_handle == old(self).has_pause_handle,
            final(self).cancel_armed == old(self).cancel_armed,
            final(self).video_path == old(self).video_path,
    {
        let total = updates.len();
        let ghost original = updates@;
        let ghost start = self.subtitles@;
        let mut pending = updates;
        let mut messages: Vec<(SubtitleUpdateKind, u64)> = Vec::new();
        let mut done: usize = 0;
        while pending.len() > 0
            invariant
                done + pending.len() == original.len(),
                original.len() == total,
                pending@ == original.subrange(done as int, original.len() as int),
                self.subtitles@ == apply_updates_spec(start, original.subrange(0, done as int)),
                messages.len() == done,
                forall|i: int|
                    0 <= i < done ==> #[trigger] messages[i] == (original[i].kind, original[i].record.id),
                self.state == old(self).state,
                self.has_pause_handle == old(self).has_pause_handle,
                self.cancel_armed == old(self).cancel_armed,
                self.video_path == old(self).video_path,
            decreases pending.len(),
        {
            let update = pending.remove(0);
            assert(update == original[done as int]);
            let kind = update.kind;
            let id = update.record.id;
            let ghost before = self.subtitles@;
            match kind {
                SubtitleUpdateKind::New => {
                    self.subtitles.push(update.record);
                },
                SubtitleUpdateKind::Updated => {
                    match find_record(&self.subtitles, id) {
                        Some(i) => {
                            self.subtitles.set(i, update.record);
                        },
                        None => {
                            self.subtitles.push(update.record);
                        },
                    }
                },
            }
            assert(self.subtitles@ == apply_update_spec(before, original[done as int]));
            assert(original.subrange(0, done + 1).drop_last() =~= original.subrange(0, done as int));
            messages.push((kind, id));
            done = done + 1;
        }
        assert(original.subrange(0, original.len() as int) =~= original);
        messages
    }
}

/// Whether `x` occurs in `s`.
pub open spec fn contains_name(s: Seq<String>, x: Seq<char>) -> bool {
    exists|i: int| 0 <= i < s.len() && #[trigger] s[i]@ == x
}

fn vec_contains(s: &Vec<String>, x: &str) -> (res: bool)
    ensures
        res == contains_name(s@, x@),
{
    let mut i: usize = 0;
    while i < s.len()
        invariant
            0 <= i <= s.len(),
            forall|j: int| 0 <= j < i ==> #[trigger] s@[j]@ != x@,
        decreases s.len() - i,
    {
        if str_equal(s[i].as_str(), x) {
            return true;
        }
        i = i + 1;
    }
    false
}

/// The first available backend that was not tried yet.
pub fn select_next_backend(available: &Vec<String>, tried: &Vec<String>) -> (res: Option<String>)
    ensures
        match res {
            Some(b) => exists|i: int|
                {
                    &&& 0 <= i < available.len()
                    &&& #[trigger] available[i]@ == b@
                    &&& !contains_name(tried@, b@)
                    &&& forall|j: int| 0 <= j < i ==> contains_name(tried@, #[trigger] available[j]@)
                },
            None => forall|i: int| 0 <= i < available.len() ==> contains_name(tried@, #[trigger] available[i]@),
        },
{
    let mut i: usize = 0;
    while i < available.len()
        invariant
            0 <= i <= available.len(),
            forall|j: int| 0 <= j < i ==> contains_name(tried@, #[trigger] available@[j]@),
        decreases available.len() - i,
    {
        if !vec_contains(tried, available[i].as_str()) {
            let b = available[i].clone();
            assert(available[i as int]@ == b@);
            return Some(b);
        }
        i = i + 1;
    }
    None
}


/// How a decoding attempt ended.
#[derive(Clone, Copy, Debug, PartialEq, Eq, Structural)]
pub enum AttemptOutcome {
    /// The decoder backend could not be initialized.
    ProviderFailed,
    /// The detection pipeline could not be built on the decoder.
    SetupFailed,
    /// The pipeline failed after `processed` samples.
    PipelineFailed { processed: u64 },
    /// The pipeline ran to its end (or was cancelled).
    Completed,
}

/// What to do after an attempt.
#[derive(Debug)]
pub enum NextStep {
    /// Try again with this backend.
    Retry(String),
    /// Stop; the task is finished.
    Finish,
}

/// Why a detection could not start decoding at all.
#[derive(Clone, Copy, Debug, PartialEq, Eq, Structural)]
pub enum BackendUnavailable {
    /// No decoding backend is compiled in.
    NoBackend,
    /// The configured backend is not among the available ones.
    NotAvailable,
}

/// The decoder backends tried by one detection run, and the fallback rule:
/// unless the backend was chosen explicitly (locked), a failure to
/// initialize, to build the pipeline, or to decode before the first sample
/// moves on to the first available backend not tried yet.
#[derive(Debug)]
pub struct BackendAttempts {
    pub available: Vec<String>,
    pub tried: Vec<String>,
    pub locked: bool,
    pub current: String,
}

/// What follows an attempt that ended with `outcome`, from the attempts
/// `before` to `after`: a retry only when the backend was not chosen
/// explicitly, the attempt failed before decoding a sample, and an
/// available backend is untried, the first such in the order of the
/// available backends then becoming the current one; else the
/// run finishes, every backend having been tried when a retry was allowed.
pub open spec fn attempt_settled(
    before: BackendAttempts,
    after: BackendAttempts,
    outcome: AttemptOutcome,
    res: NextStep,
) -> bool {
    &&& after.available == before.available
    &&& after.tried == before.tried
    &&& after.locked == before.locked
    &&& match res {
        NextStep::Retry(b) => {
            &&& !before.locked
            &&& outcome !is Completed
            &&& (outcome matches AttemptOutcome::PipelineFailed { processed } ==> processed == 0)
            &&& contains_name(before.available@, b@)
            &&& !contains_name(before.tried@, b@)
            &&& exists|i: int|
                {
                    &&& 0 <= i < before.available.len()
                    &&& #[trigger] before.available[i]@ == b@
                    &&& forall|j: int|
                        0 <= j < i ==> contains_name(before.tried@, #[trigger] before.available[j]@)
                }
            &&& after.current@ == b@
        },
        NextStep::Finish => {
            &&& after.current == before.current
            &&& (!before.locked && outcome !is Completed && !(
            outcome matches AttemptOutcome::PipelineFailed { processed } && processed != 0)
                ==> forall|i: int|
                0 <= i < before.available.len() ==> contains_name(
                    before.tried@,
                    #[trigger] before.available[i]@,
                ))
        },
    }
}

impl BackendAttempts {
    /// Starts with `initial`, which must be one of `available`.
    pub fn new(available: Vec<String>, initial: String, locked: bool) -> (res: Result<
        BackendAttempts,
        BackendUnavailable,
    >)
        ensures
            available.len() == 0 ==> res == Err::<BackendAttempts, BackendUnavailable>(
                BackendUnavailable::NoBackend,
            ),
            available.len() > 0 && !contains_name(available@, initial@) ==> res == Err::<
                BackendAttempts,
                BackendUnavailable,
            >(BackendUnavailable::NotAvailable),
            available.len() > 0 && contains_name(available@, initial@) ==> (res matches Ok(a) && {
                &&& a.available@ == available@
                &&& a.tried@.len() == 0
                &&& a.current@ == initial@
                &&& a.locked == locked
            }),
    {
        if available.len() == 0 {
            return Err(BackendUnavailable::NoBackend);
        }
        if !vec_contains(&available, initial.as_str()) {
            return Err(BackendUnavailable::NotAvailable);
        }
        Ok(BackendAttempts { available, tried: Vec::new(), locked, current: initial })
    }

    /// Notes that the current backend is being tried.
    pub fn begin_attempt(&mut self)
        ensures
            contains_name(final(self).tried@, final(self).current@),
            final(self).current == old(self).current,
            final(self).available == old(self).available,
            final(self).locked == old(self).locked,
            forall|x: Seq<char>| contains_name(old(self).tried@, x) ==> contains_name(final(self).tried@, x),
            forall|x: Seq<char>|
                contains_name(final(self).tried@, x) ==> contains_name(old(self).tried@, x) || x
                    == old(self).current@,
    {
        if !vec_contains(&self.tried, self.current.as_str()) {
            let ghost old_tried = self.tried@;
            let c = self.current.clone();
            self.tried.push(c);
            assert(self.tried@[old_tried.len() as int]@ == self.current@);
            assert forall|x: Seq<char>| contains_name(old_tried, x) implies contains_name(
                self.tried@,
                x,
            ) by {
                let i = choose|i: int| 0 <= i < old_tried.len() && #[trigger] old_tried[i]@ == x;
                assert(self.tried@[i] == old_tried[i]);
            }
            assert forall|x: Seq<char>| contains_name(self.tried@, x) implies contains_name(
                old_tried,
                x,
            ) || x == self.current@ by {
                let i = choose|i: int| 0 <= i < self.tried@.len() && #[trigger] self.tried@[i]@ == x;
                if i < old_tried.len() {
                    assert(self.tried@[i] == old_tried[i]);
                }
            }
        }
    }

    /// Decides what follows an attempt; on a retry the new backend becomes
    /// the current one.
    pub fn after_attempt(&mut self, outcome: AttemptOutcome) -> (res: NextStep)
        ensures
            attempt_settled(*old(self), *final(self), outcome, res),
    {
        let may_retry = match outcome {
            AttemptOutcome::ProviderFailed => true,
            AttemptOutcome::SetupFailed => true,
            AttemptOutcome::PipelineFailed { processed } => processed == 0,
            AttemptOutcome::Completed => false,
        };
        if !may_retry || self.locked {
            return NextStep::Finish;
        }
        match select_next_backend(&self.available, &self.tried) {
            Some(next) => {
                self.current = next.clone();
                NextStep::Retry(next)
            },
            None => NextStep::Finish,
        }
    }
}

/// Opens a detection run on `available` backends starting with `initial`:
/// when no attempt can be made the run ends at once and the task is
/// finished (idle), with the signals of that.
pub fn open_run<T>(
    task: &mut DetectionTask<T>,
    available: Vec<String>,
    initial: String,
    locked: bool,
) -> (res: (Result<BackendAttempts, BackendUnavailable>, Option<TaskSignals>))
    ensures
        available.len() == 0 ==> res.0 == Err::<BackendAttempts, BackendUnavailable>(
            BackendUnavailable::NoBackend,
        ),
        available.len() > 0 && !contains_name(available@, initial@) ==> res.0 == Err::<
            BackendAttempts,
            BackendUnavailable,
        >(BackendUnavailable::NotAvailable),
        available.len() > 0 && contains_name(available@, initial@) ==> (res.0 matches Ok(a) && {
            &&& a.available@ == available@
            &&& a.tried@.len() == 0
            &&& a.current@ == initial@
            &&& a.locked == locked
        }),
        res.0 is Ok ==> res.1 is None && *final(task) == *old(task),
        res.0 is Err ==> final(task).state is Idle && res.1 is Some,
{
    match BackendAttempts::new(available, initial, locked) {
        Ok(a) => (Ok(a), None),
        Err(e) => {
            let signals = task.finish();
            (Err(e), Some(signals))
        },
    }
}

/// Settles an attempt of a detection run: decides what follows it and,
/// when the run ends, finishes the task, which becomes idle.
pub fn settle_attempt<T>(
    task: &mut DetectionTask<T>,
    attempts: &mut BackendAttempts,
    outcome: AttemptOutcome,
) -> (res: (NextStep, Option<TaskSignals>))
    ensures
        attempt_settled(*old(attempts), *final(attempts), outcome, res.0),
        res.0 is Retry ==> res.1 is None && *final(task) == *old(task),
        res.0 is Finish ==> final(task).state is Idle && res.1 is Some,
{
    let step = attempts.after_attempt(outcome);
    match step {
        NextStep::Retry(b) => (NextStep::Retry(b), None),
        NextStep::Finish => {
            let signals = task.finish();
            (NextStep::Finish, Some(signals))
        },
    }
}

/// The status label of a task in the task list.
pub open spec fn status_text_spec(run_state: DetectionRunState, completed: bool) -> Seq<char> {
    if completed {
        "Done"@
    } else {
        match run_state {
            DetectionRunState::Idle => "Idle"@,
            DetectionRunState::Running => "Processing"@,
            DetectionRunState::Paused => "Paused"@,
        }
    }
}

/// The status label of a task: `Done` once its progress is complete,
/// otherwise its run state.
pub fn status_text(run_state: DetectionRunState, completed: bool) -> (res: &'static str)
    ensures
        res@ == status_text_spec(run_state, completed),
{
    if completed {
        "Done"
    } else {
        match run_state {
            DetectionRunState::Idle => "Idle",
            DetectionRunState::Running => "Processing",
            DetectionRunState::Paused => "Paused",
        }
    }
}

/// An icon of the task list.
#[derive(Clone, Copy, Debug, PartialEq, Eq, Structural)]
pub enum TaskIcon {
    Film,
    Check,
    Pause,
    Play,
    Stop,
}

/// A button of a task row.
#[derive(Clone, Copy, Debug, PartialEq, Eq, Structural)]
pub enum TaskAction {
    Start,
    Pause,
    Cancel,
}

/// A button of a task row: its icon and what it does.
#[derive(Clone, Copy, Debug, PartialEq, Eq, Structural)]
pub struct TaskControl {
    pub icon: TaskIcon,
    pub action: TaskAction,
}

/// What a row of the task list shows besides its label and progress.
pub struct TaskRow {
    pub status_icon: TaskIcon,
    /// Whether the status icon is drawn bright rather than subdued.
    pub bright: bool,
    pub controls: Vec<TaskControl>,
}

/// The status icon of a task: film while running or idle, a check once
/// done, pause while paused.
pub open spec fn status_icon_spec(run_state: DetectionRunState, completed: bool) -> TaskIcon {
    if run_state is Running {
        TaskIcon::Film
    } else if completed {
        TaskIcon::Check
    } else if run_state is Paused {
        TaskIcon::Pause
    } else {
        TaskIcon::Film
    }
}

/// The buttons of a task row: start for an idle task not yet done, pause
/// (or resume) and stop for a running or paused one.
pub open spec fn controls_spec(run_state: DetectionRunState, completed: bool) -> Seq<TaskControl> {
    let start = if run_state is Idle && !completed {
        seq![TaskControl { icon: TaskIcon::Play, action: TaskAction::Start }]
    } else {
        Seq::empty()
    };
    let active = run_state is Running || run_state is Paused;
    let pause = if active {
        seq![
            TaskControl {
                icon: if run_state is Paused {
                    TaskIcon::Play
                } else {
                    TaskIcon::Pause
                },
                action: TaskAction::Pause,
            },
        ]
    } else {
        Seq::empty()
    };
    let stop = if active {
        seq![TaskControl { icon: TaskIcon::Stop, action: TaskAction::Cancel }]
    } else {
        Seq::empty()
    };
    start + pause + stop
}

/// The status icon and buttons of a task row; the icon is bright for the
/// shown task, a running one or a finished one.
pub fn task_row(run_state: DetectionRunState, completed: bool, is_active: bool) -> (res: TaskRow)
    ensures
        res.status_icon == status_icon_spec(run_state, completed),
        res.bright == (is_active || run_state is Running || completed),
        res.controls@ == controls_spec(run_state, completed),
{
    let is_idle = run_state == DetectionRunState::Idle;
    let is_running = run_state == DetectionRunState::Running;
    let is_paused = run_state == DetectionRunState::Paused;
    let status_icon = if is_running {
        TaskIcon::Film
    } else if completed {
        TaskIcon::Check
    } else if is_paused {
        TaskIcon::Pause
    } else {
        TaskIcon::Film
    };
    let mut controls: Vec<TaskControl> = Vec::new();
    if is_idle && !completed {
        controls.push(TaskControl { icon: TaskIcon::Play, action: TaskAction::Start });
    }
    if is_running || is_paused {
        let icon = if is_paused {
            TaskIcon::Play
        } else {
            TaskIcon::Pause
        };
        controls.push(TaskControl { icon, action: TaskAction::Pause });
    }
    if run_state.is_running() || is_paused {
        controls.push(TaskControl { icon: TaskIcon::Stop, action: TaskAction::Cancel });
    }
    assert(controls@ =~= controls_spec(run_state, completed));
    TaskRow { status_icon, bright: is_active || is_running || completed, controls }
}

/// What the start/pause command does to a task.
#[derive(Clone, Copy, Debug, PartialEq, Eq, Structural)]
pub enum ToggleCommand {
    /// Nothing: the task is done.
    Nothing,
    /// Start the idle task.
    Start,
    /// Pause or resume the task.
    TogglePause,
}

/// The start/pause command: a completed task is left alone, an idle one is
/// started, a running or paused one is paused or resumed.
pub fn toggle_command(run_state: DetectionRunState, completed: bool) -> (res: ToggleCommand)
    ensures
        completed ==> res == ToggleCommand::Nothing,
        !completed && run_state is Idle ==> res == ToggleCommand::Start,
        !completed && run_state.is_running_spec() ==> res == ToggleCommand::TogglePause,
{
    if completed {
        return ToggleCommand::Nothing;
    }
    match run_state {
        DetectionRunState::Idle => ToggleCommand::Start,
        DetectionRunState::Running | DetectionRunState::Paused => ToggleCommand::TogglePause,
    }
}

/// The export dialog's directory and file name, given the parent directory
/// and the file name of the video: the parent (or `.`), and the video's stem
/// with `.srt` (or `subtitles.srt` when there is no file name).
pub fn export_seed_from_parts(parent: Option<String>, file_name: Option<String>) -> (res: (
    String,
    Option<String>,
))
    ensures
        res.0@ == (match parent {
            Some(p) => p@,
            None => "."@,
        }),
        res.1 is Some,
        res.1->Some_0@ == (match file_name {
            Some(n) => stem_spec(n@) + ".srt"@,
            None => "subtitles.srt"@,
        }),
{
    let directory = match parent {
        Some(p) => p,
        None => String::from_str("."),
    };
    let name = match file_name {
        Some(n) => {
            let (mut stem, _ext) = split_file_name(n.as_str());
            stem.append(".srt");
            stem
        },
        None => String::from_str("subtitles.srt"),
    };
    (directory, Some(name))
}

/// Where the export dialog opens and the name it suggests: beside the video,
/// named after it; without a video, in `current_dir` (or `.`) as
/// `subtitles.srt`.
pub fn export_dialog_seed(video_path: Option<&str>, current_dir: Option<&str>) -> (res: (
    String,
    Option<String>,
))
    ensures
        res.1 is Some,
        video_path is None ==> res.0@ == (match current_dir {
            Some(d) => d@,
            None => "."@,
        }) && res.1->Some_0@ == "subtitles.srt"@,
        video_path is Some && has_simple_parent(video_path->Some_0@) ==> res.0@
            == before_last_slash(video_path->Some_0@) && res.1->Some_0@ == stem_spec(
            after_last_slash(video_path->Some_0@),
        ) + ".srt"@,
        video_path is Some && is_plain_name(video_path->Some_0@) ==> res.0@.len() == 0
            && res.1->Some_0@ == stem_spec(video_path->Some_0@) + ".srt"@,
{
    match video_path {
        Some(path) => {
            let parent = path_parent(path);
            let name = path_file_name(path);
            proof {
                if has_simple_parent(path@) {
                    lemma_last_slash(path@);
                    let d = before_last_slash(path@);
                    assert(d.len() >= 1);
                    assert(d[0] == path@[0]);
                    if d.len() >= 2 {
                        assert(d[1] == path@[1]);
                    }
                    assert(!starts_with_two_slashes(path@));
                }
            }
            export_seed_from_parts(parent, name)
        },
        None => {
            let directory = match current_dir {
                Some(d) => String::from_str(d),
                None => String::from_str("."),
            };
            (directory, Some(String::from_str("subtitles.srt")))
        },
    }
}

} // verus!

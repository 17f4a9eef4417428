//! The editing form of the subtitle editor window: the search box, the
//! start and end time inputs, one input per subtitle line (each can be
//! marked deleted), which subtitle is loaded, whether it has unsaved
//! edits, and the status line.

use vstd::prelude::*;

use crate::subtitles::{
    is_normal_line, lemma_normalize_lines_idempotent, lemma_normalized_are_normal, normalize_lines,
    normalize_lines_spec,
};
use crate::text::{trim, trim_spec};
use crate::text_input::{utf8_len, InputKind, TextInput, TextInputView};

verus! {

/// Placeholder of a line input.
pub const LINE_PLACEHOLDER: &'static str = "Subtitle line";

/// One line input and whether the line is marked for deletion.
pub struct LineInputState {
    pub input: TextInput,
    pub deleted: bool,
}

/// A message under the form.
pub struct StatusMessage {
    pub text: String,
    pub is_error: bool,
}

/// The abstract state of the form.
pub struct EditorFormView {
    pub search: TextInputView,
    pub start: TextInputView,
    pub end: TextInputView,
    pub lines: Seq<(TextInputView, bool)>,
    pub search_query: Seq<char>,
    pub selected_id: Option<u64>,
    pub dirty: bool,
    pub status: Option<(Seq<char>, bool)>,
}

impl EditorFormView {
    /// Every input of the form is well formed.
    pub open spec fn wf(self) -> bool {
        &&& self.search.wf()
        &&& self.start.wf()
        &&& self.end.wf()
        &&& forall|k: int| 0 <= k < self.lines.len() ==> (#[trigger] self.lines[k]).0.wf()
    }
}

/// A fresh line input holding `text`, cursor at its end.
pub open spec fn fresh_line(text: Seq<char>) -> TextInputView {
    TextInputView {
        content: text,
        placeholder: LINE_PLACEHOLDER@,
        kind: InputKind::Text,
        invalid: false,
        selected: (utf8_len(text) as usize, utf8_len(text) as usize),
        reversed: false,
        marked: None,
        selecting: false,
    }
}

/// The lines the form shows for `lines`: normalized, or one empty line
/// when nothing is left.
pub open spec fn shown_lines(lines: Seq<Seq<char>>) -> Seq<Seq<char>> {
    if normalize_lines_spec(lines).len() == 0 {
        seq![Seq::<char>::empty()]
    } else {
        normalize_lines_spec(lines)
    }
}

/// Fresh, undeleted inputs holding `texts`.
pub open spec fn fresh_lines(texts: Seq<Seq<char>>) -> Seq<(TextInputView, bool)> {
    Seq::new(texts.len(), |k: int| (fresh_line(texts[k]), false))
}

/// The trimmed text of every line that is neither deleted nor blank.
pub open spec fn kept_lines(lines: Seq<(TextInputView, bool)>) -> Seq<Seq<char>>
    decreases lines.len(),
{
    if lines.len() == 0 {
        Seq::empty()
    } else {
        let rest = kept_lines(lines.drop_last());
        let last = lines.last();
        if !last.1 && trim_spec(last.0.content).len() > 0 {
            rest.push(trim_spec(last.0.content))
        } else {
            rest
        }
    }
}

/// The lines a save sends: the kept lines, normalized.
pub open spec fn collected_lines(lines: Seq<(TextInputView, bool)>) -> Seq<Seq<char>> {
    normalize_lines_spec(kept_lines(lines))
}

/// The form of the subtitle editor.
pub struct SubtitleEditorForm {
    search_input: TextInput,
    start_input: TextInput,
    end_input: TextInput,
    line_inputs: Vec<LineInputState>,
    search_query: String,
    selected_id: Option<u64>,
    dirty: bool,
    status: Option<StatusMessage>,
}

impl View for SubtitleEditorForm {
    type V = EditorFormView;

    closed spec fn view(&self) -> EditorFormView {
        EditorFormView {
            search: self.search_input@,
            start: self.start_input@,
            end: self.end_input@,
            lines: self.line_inputs@.map_values(|l: LineInputState| (l.input@, l.deleted)),
            search_query: self.search_query@,
            selected_id: self.selected_id,
            dirty: self.dirty,
            status: match self.status {
                Some(m) => Some((m.text@, m.is_error)),
                None => None,
            },
        }
    }
}

/// A fresh line input.
pub fn build_line_input() -> (res: LineInputState)
    ensures
        res.input@ == fresh_line(Seq::<char>::empty()),
        !res.deleted,
{
    proof {
        reveal_strlit("Subtitle line");
    }
    LineInputState { input: TextInput::new(LINE_PLACEHOLDER, InputKind::Text), deleted: false }
}

/// An input as `TextInput::new` makes it.
pub open spec fn empty_input(placeholder: Seq<char>, kind: InputKind) -> TextInputView {
    TextInputView {
        content: Seq::empty(),
        placeholder,
        kind,
        invalid: false,
        selected: (0usize, 0usize),
        reversed: false,
        marked: None,
        selecting: false,
    }
}

/// An input after `set_text(text)`.
pub open spec fn with_text(v: TextInputView, text: Seq<char>) -> TextInputView {
    TextInputView {
        content: text,
        selected: (utf8_len(text) as usize, utf8_len(text) as usize),
        reversed: false,
        marked: None,
        ..v
    }
}

/// What the time inputs held, as checked by the caller: a time that is
/// missing or not a finite non-negative number (with its message), an end
/// before the start, or two ordered times.
pub enum TimingCheck {
    Invalid(String),
    EndBeforeStart,
    Ordered,
}

/// The status a failed save shows for a timing problem.
pub open spec fn timing_error(timing: TimingCheck) -> Option<Seq<char>> {
    match timing {
        TimingCheck::Invalid(msg) => Some(msg@),
        TimingCheck::EndBeforeStart => Some("End time must be >= start time."@),
        TimingCheck::Ordered => None,
    }
}

impl SubtitleEditorForm {
    /// A fresh form; the status says so when the task's video file is
    /// missing.
    pub fn new(video_found: bool) -> (res: SubtitleEditorForm)
        ensures
            res@.wf(),
            res@.search == empty_input("Search subtitles or time..."@, InputKind::Text),
            res@.start == empty_input("Start s"@, InputKind::Float),
            res@.end == empty_input("End s"@, InputKind::Float),
            res@.lines == fresh_lines(seq![Seq::<char>::empty()]),
            res@.search_query == Seq::<char>::empty(),
            res@.selected_id is None,
            !res@.dirty,
            res@.status == (if video_found {
                None
            } else {
                Some(("Video file not found for this session."@, true))
            }),
    {
        let mut line_inputs: Vec<LineInputState> = Vec::new();
        line_inputs.push(build_line_input());
        let status = if video_found {
            None
        } else {
            Some(
                StatusMessage {
                    text: String::from_str("Video file not found for this session."),
                    is_error: true,
                },
            )
        };
        let form = SubtitleEditorForm {
            search_input: TextInput::new("Search subtitles or time...", InputKind::Text),
            start_input: TextInput::new("Start s", InputKind::Float),
            end_input: TextInput::new("End s", InputKind::Float),
            line_inputs,
            search_query: String::new(),
            selected_id: None,
            dirty: false,
            status,
        };
        assert(form@.lines =~= fresh_lines(seq![Seq::<char>::empty()]));
        form
    }

    /// Replaces the line inputs with fresh ones holding `lines`, normalized
    /// (one empty line when nothing is left).
    pub fn replace_line_inputs(&mut self, lines: &Vec<String>)
        requires
            old(self)@.wf(),
        ensures
            final(self)@.wf(),
            final(self)@ == (EditorFormView {
                lines: fresh_lines(shown_lines(lines@.map_values(|v: String| v@))),
                ..old(self)@
            }),
    {
        let mut normalized = normalize_lines(lines);
        let ghost texts = shown_lines(lines@.map_values(|v: String| v@));
        if normalized.len() == 0 {
            normalized.push(String::new());
        }
        assert(normalized@.map_values(|v: String| v@) =~= texts);
        let mut inputs: Vec<LineInputState> = Vec::new();
        let mut k: usize = 0;
        while k < normalized.len()
            invariant
                0 <= k <= normalized.len(),
                normalized@.map_values(|v: String| v@) == texts,
                inputs@.map_values(|l: LineInputState| (l.input@, l.deleted)) =~= fresh_lines(
                    texts.subrange(0, k as int),
                ),
                forall|j: int| 0 <= j < inputs@.len() ==> (#[trigger] inputs@[j]).input@.wf(),
            decreases normalized.len() - k,
        {
            let mut line = build_line_input();
            line.input.set_text(normalized[k].as_str());
            assert(line.input@ == fresh_line(normalized@[k as int]@));
            let ghost before = inputs@;
            inputs.push(line);
            assert(texts[k as int] == normalized@[k as int]@);
            assert(inputs@ == before.push(line));
            proof {
                let f = |l: LineInputState| (l.input@, l.deleted);
                let want = fresh_lines(texts.subrange(0, k + 1));
                let had = fresh_lines(texts.subrange(0, k as int));
                assert(texts.len() == normalized@.len());
                assert(before.map_values(f) =~= had);
                assert(texts.subrange(0, k as int).len() == k);
                assert(before.map_values(f).len() == before.len());
                assert(before.len() == k);
                assert forall|j: int| 0 <= j < inputs@.len() implies #[trigger] inputs@.map_values(f)[j]
                    == want[j] by {
                    if j < k {
                        assert(inputs@[j] == before[j]);
                        assert(before.map_values(f)[j] == had[j]);
                    }
                }
                assert(inputs@.map_values(f) =~= want);
            }
            k = k + 1;
        }
        assert(texts.subrange(0, normalized.len() as int) =~= texts);
        self.line_inputs = inputs;
    }

    /// Adds an empty line input; a loaded subtitle then has unsaved edits.
    pub fn add_line_input(&mut self)
        requires
            old(self)@.wf(),
        ensures
            final(self)@.wf(),
            final(self)@ == (EditorFormView {
                lines: old(self)@.lines.push((fresh_line(Seq::<char>::empty()), false)),
                dirty: old(self)@.dirty || old(self)@.selected_id is Some,
                ..old(self)@
            }),
    {
        self.line_inputs.push(build_line_input());
        if self.selected_id.is_some() && !self.dirty {
            self.dirty = true;
        }
        assert(self@.lines =~= old(self)@.lines.push((fresh_line(Seq::<char>::empty()), false)));
    }

    /// Marks line `index` deleted, or restores it; a loaded subtitle then
    /// has unsaved edits. An index past the last line changes nothing.
    pub fn toggle_line_deleted(&mut self, index: usize)
        requires
            old(self)@.wf(),
        ensures
            final(self)@.wf(),
            index >= old(self)@.lines.len() ==> final(self)@ == old(self)@,
            index < old(self)@.lines.len() ==> final(self)@ == (EditorFormView {
                lines: old(self)@.lines.update(
                    index as int,
                    (old(self)@.lines[index as int].0, !old(self)@.lines[index as int].1),
                ),
                dirty: old(self)@.dirty || old(self)@.selected_id is Some,
                ..old(self)@
            }),
    {
        if index >= self.line_inputs.len() {
            return;
        }
        let mut line = self.line_inputs.remove(index);
        line.deleted = !line.deleted;
        self.line_inputs.insert(index, line);
        if self.selected_id.is_some() && !self.dirty {
            self.dirty = true;
        }
        assert(self@.lines =~= old(self)@.lines.update(
            index as int,
            (old(self)@.lines[index as int].0, !old(self)@.lines[index as int].1),
        ));
    }

    /// The lines a save sends: every line that is not deleted, trimmed,
    /// blank ones dropped, then normalized.
    pub fn collect_lines(&self) -> (res: Vec<String>)
        ensures
            res@.map_values(|v: String| v@) == collected_lines(self@.lines),
    {
        let ghost views = self@.lines;
        let mut raw: Vec<String> = Vec::new();
        let mut k: usize = 0;
        while k < self.line_inputs.len()
            invariant
                0 <= k <= self.line_inputs.len(),
                views == self@.lines,
                raw@.map_values(|v: String| v@) =~= kept_lines(views.subrange(0, k as int)),
            decreases self.line_inputs.len() - k,
        {
            let line = &self.line_inputs[k];
            assert(views.subrange(0, k + 1).drop_last() =~= views.subrange(0, k as int));
            assert(views.subrange(0, k + 1).last() == (line.input@, line.deleted));
            if !line.deleted {
                let text = line.input.text();
                let trimmed = trim(text.as_str());
                if trimmed.unicode_len() > 0 {
                    raw.push(String::from_str(trimmed));
                }
            }
            k = k + 1;
        }
        assert(views.subrange(0, self.line_inputs.len() as int) =~= views);
        normalize_lines(&raw)
    }
}

impl SubtitleEditorForm {
    /// An edit of a time or line input: a loaded subtitle now has unsaved
    /// edits.
    pub fn input_changed(&mut self)
        ensures
            final(self)@ == (EditorFormView {
                dirty: old(self)@.dirty || old(self)@.selected_id is Some,
                ..old(self)@
            }),
    {
        if self.selected_id.is_some() && !self.dirty {
            self.dirty = true;
        }
    }

    /// The search box now holds `text`; the query follows it.
    pub fn set_search_text(&mut self, text: &str)
        requires
            old(self)@.wf(),
        ensures
            final(self)@.wf(),
            final(self)@ == (EditorFormView {
                search: with_text(old(self)@.search, text@),
                search_query: text@,
                ..old(self)@
            }),
    {
        self.search_input.set_text(text);
        let next = self.search_input.text();
        if !crate::text::str_equal(self.search_query.as_str(), next.as_str()) {
            self.search_query = next;
        }
    }

    /// The start time input now holds `text`.
    pub fn edit_start_text(&mut self, text: &str)
        requires
            old(self)@.wf(),
        ensures
            final(self)@.wf(),
            final(self)@ == (EditorFormView {
                start: with_text(old(self)@.start, text@),
                dirty: old(self)@.dirty || old(self)@.selected_id is Some,
                ..old(self)@
            }),
    {
        self.start_input.set_text(text);
        self.input_changed();
    }

    /// The end time input now holds `text`.
    pub fn edit_end_text(&mut self, text: &str)
        requires
            old(self)@.wf(),
        ensures
            final(self)@.wf(),
            final(self)@ == (EditorFormView {
                end: with_text(old(self)@.end, text@),
                dirty: old(self)@.dirty || old(self)@.selected_id is Some,
                ..old(self)@
            }),
    {
        self.end_input.set_text(text);
        self.input_changed();
    }

    /// Line input `index` now holds `text`; an index past the last line
    /// changes nothing.
    pub fn edit_line_text(&mut self, index: usize, text: &str)
        requires
            old(self)@.wf(),
        ensures
            final(self)@.wf(),
            index >= old(self)@.lines.len() ==> final(self)@ == old(self)@,
            index < old(self)@.lines.len() ==> final(self)@ == (EditorFormView {
                lines: old(self)@.lines.update(
                    index as int,
                    (with_text(old(self)@.lines[index as int].0, text@), old(self)@.lines[index as int].1),
                ),
                dirty: old(self)@.dirty || old(self)@.selected_id is Some,
                ..old(self)@
            }),
    {
        if index >= self.line_inputs.len() {
            return;
        }
        let mut line = self.line_inputs.remove(index);
        proof {
            assert(line.input@ == old(self)@.lines[index as int].0);
        }
        line.input.set_text(text);
        self.line_inputs.insert(index, line);
        self.input_changed();
        assert(self@.lines =~= old(self)@.lines.update(
            index as int,
            (with_text(old(self)@.lines[index as int].0, text@), old(self)@.lines[index as int].1),
        ));
    }

    /// Empties the time inputs and leaves one empty line input.
    pub fn clear_inputs(&mut self)
        requires
            old(self)@.wf(),
        ensures
            final(self)@.wf(),
            final(self)@ == (EditorFormView {
                start: with_text(old(self)@.start, Seq::<char>::empty()),
                end: with_text(old(self)@.end, Seq::<char>::empty()),
                lines: fresh_lines(seq![Seq::<char>::empty()]),
                ..old(self)@
            }),
    {
        proof {
            reveal_strlit("");
            assert(""@ =~= Seq::<char>::empty());
        }
        self.start_input.set_text("");
        self.end_input.set_text("");
        assert(self@.lines == old(self)@.lines);
        let none: Vec<String> = Vec::new();
        self.replace_line_inputs(&none);
        proof {
            assert(none@.map_values(|v: String| v@) =~= Seq::<Seq<char>>::empty());
            assert(normalize_lines_spec(Seq::<Seq<char>>::empty()) =~= Seq::<Seq<char>>::empty());
            assert(shown_lines(none@.map_values(|v: String| v@)) =~= seq![Seq::<char>::empty()]);
        }
    }

    /// Loads subtitle `id`: `entry` holds its start and end as shown in the
    /// time inputs and its lines, or nothing when the list has no such
    /// subtitle, in which case nothing is selected and the inputs are
    /// cleared.
    pub fn load_selected(&mut self, id: u64, entry: Option<(&str, &str, &Vec<String>)>)
        requires
            old(self)@.wf(),
        ensures
            final(self)@.wf(),
            match entry {
                None => final(self)@ == (EditorFormView {
                    start: with_text(old(self)@.start, Seq::<char>::empty()),
                    end: with_text(old(self)@.end, Seq::<char>::empty()),
                    lines: fresh_lines(seq![Seq::<char>::empty()]),
                    selected_id: None,
                    ..old(self)@
                }),
                Some((start, end, lines)) => final(self)@ == (EditorFormView {
                    start: with_text(old(self)@.start, start@),
                    end: with_text(old(self)@.end, end@),
                    lines: fresh_lines(shown_lines(lines@.map_values(|v: String| v@))),
                    selected_id: Some(id),
                    dirty: false,
                    status: None,
                    ..old(self)@
                }),
            },
    {
        match entry {
            None => {
                let ghost before = self@;
                self.selected_id = None;
                assert(self@.lines == before.lines);
                assert forall|k: int| 0 <= k < self@.lines.len() implies (
                #[trigger] self@.lines[k]).0.wf() by {
                    assert(before.lines[k].0.wf());
                }
                self.clear_inputs();
            },
            Some((start, end, lines)) => {
                self.start_input.set_text(start);
                self.end_input.set_text(end);
                assert(self@.lines == old(self)@.lines);
                assert(self@.search.wf() && self@.start.wf() && self@.end.wf());
                self.replace_line_inputs(lines);
                let ghost replaced = self@;
                self.selected_id = Some(id);
                self.dirty = false;
                self.status = None;
                assert(self@.lines == replaced.lines);
                assert forall|k: int| 0 <= k < self@.lines.len() implies (
                #[trigger] self@.lines[k]).0.wf() by {
                    assert(replaced.lines[k].0.wf());
                }
            },
        }
    }

    /// The subtitle list was cleared: nothing is loaded and the inputs are
    /// cleared.
    pub fn reset(&mut self)
        requires
            old(self)@.wf(),
        ensures
            final(self)@.wf(),
            final(self)@ == (EditorFormView {
                start: with_text(old(self)@.start, Seq::<char>::empty()),
                end: with_text(old(self)@.end, Seq::<char>::empty()),
                lines: fresh_lines(seq![Seq::<char>::empty()]),
                selected_id: None,
                dirty: false,
                status: None,
                ..old(self)@
            }),
    {
        self.clear_inputs();
        self.selected_id = None;
        self.dirty = false;
        self.status = None;
    }

    /// Whether an update of subtitle `id` reloads the form: it is the
    /// loaded one and has no unsaved edits.
    pub fn should_reload(&self, id: u64) -> (res: bool)
        ensures
            res == (self@.selected_id == Some(id) && !self@.dirty),
    {
        match self.selected_id {
            Some(current) => current == id && !self.dirty,
            None => false,
        }
    }

    /// Shows a message under the form.
    pub fn set_status(&mut self, text: String, is_error: bool)
        ensures
            final(self)@ == (EditorFormView { status: Some((text@, is_error)), ..old(self)@ }),
    {
        self.status = Some(StatusMessage { text, is_error });
    }

    /// Which subtitle is loaded.
    pub fn selected_id(&self) -> (res: Option<u64>)
        ensures
            res == self@.selected_id,
    {
        self.selected_id
    }

    /// Whether the loaded subtitle has unsaved edits.
    pub fn is_dirty(&self) -> (res: bool)
        ensures
            res == self@.dirty,
    {
        self.dirty
    }

    /// The current search query.
    pub fn search_query(&self) -> (res: String)
        ensures
            res@ == self@.search_query,
    {
        String::from_str(self.search_query.as_str())
    }

    /// The message under the form and whether it reports an error.
    pub fn status(&self) -> (res: Option<(String, bool)>)
        ensures
            match self@.status {
                Some((text, is_error)) => res matches Some(r) && r.0@ == text && r.1 == is_error,
                None => res is None,
            },
    {
        match &self.status {
            Some(m) => Some((String::from_str(m.text.as_str()), m.is_error)),
            None => None,
        }
    }

    /// Checks a save of the loaded subtitle: with nothing loaded, a timing
    /// problem, or no text left, the status reports why and nothing is
    /// sent; else the identifier and the collected lines are.
    pub fn apply_selected(&mut self, timing: TimingCheck) -> (res: Option<(u64, Vec<String>)>)
        ensures
            ({
                let o = old(self)@;
                let lines = collected_lines(o.lines);
                if o.selected_id is None {
                    &&& res is None
                    &&& final(self)@ == (EditorFormView {
                        status: Some(("Select a subtitle first."@, true)),
                        ..o
                    })
                } else if timing_error(timing) is Some {
                    &&& res is None
                    &&& final(self)@ == (EditorFormView {
                        status: Some((timing_error(timing)->0, true)),
                        ..o
                    })
                } else if lines.len() == 0 {
                    &&& res is None
                    &&& final(self)@ == (EditorFormView {
                        status: Some(("Subtitle text cannot be empty."@, true)),
                        ..o
                    })
                } else {
                    &&& res matches Some(r)
                    &&& r.0 == o.selected_id->0
                    &&& r.1@.map_values(|v: String| v@) == lines
                    &&& final(self)@ == o
                }
            }),
    {
        let id = match self.selected_id {
            Some(id) => id,
            None => {
                self.set_status(String::from_str("Select a subtitle first."), true);
                return None;
            },
        };
        match timing {
            TimingCheck::Invalid(msg) => {
                self.set_status(msg, true);
                return None;
            },
            TimingCheck::EndBeforeStart => {
                self.set_status(String::from_str("End time must be >= start time."), true);
                return None;
            },
            TimingCheck::Ordered => {},
        }
        let lines = self.collect_lines();
        if lines.len() == 0 {
            self.set_status(String::from_str("Subtitle text cannot be empty."), true);
            return None;
        }
        Some((id, lines))
    }

    /// The outcome of sending a save: on success the edits are saved;
    /// either way the status says what happened.
    pub fn edit_saved(&mut self, outcome: Result<(), String>)
        ensures
            match outcome {
                Ok(()) => final(self)@ == (EditorFormView {
                    dirty: false,
                    status: Some(("Subtitle updated."@, false)),
                    ..old(self)@
                }),
                Err(e) => final(self)@ == (EditorFormView { status: Some((e@, true)), ..old(self)@ }),
            },
    {
        match outcome {
            Ok(()) => {
                self.dirty = false;
                self.set_status(String::from_str("Subtitle updated."), false);
            },
            Err(e) => {
                self.set_status(e, true);
            },
        }
    }
}

/// What a time input holds once trimmed, or the message saying it is
/// required.
pub fn seconds_text(label: &str, value: &str) -> (res: Result<String, String>)
    ensures
        trim_spec(value@).len() == 0 ==> res == Err::<String, String>(
            res->Err_0,
        ) && res->Err_0@ == label@ + " time (s) is required."@,
        trim_spec(value@).len() > 0 ==> res is Ok && res->Ok_0@ == trim_spec(value@),
{
    let raw = trim(value);
    if raw.unicode_len() == 0 {
        let mut message = String::from_str(label);
        message.append(" time (s) is required.");
        return Err(message);
    }
    Ok(String::from_str(raw))
}

proof fn lemma_kept_fresh_normal(texts: Seq<Seq<char>>)
    requires
        forall|k: int| 0 <= k < texts.len() ==> is_normal_line(#[trigger] texts[k]),
    ensures
        kept_lines(fresh_lines(texts)) == texts,
    decreases texts.len(),
{
    if texts.len() > 0 {
        let init = texts.drop_last();
        assert(fresh_lines(texts).drop_last() =~= fresh_lines(init));
        assert forall|k: int| 0 <= k < init.len() implies is_normal_line(#[trigger] init[k]) by {
            assert(init[k] == texts[k]);
        }
        lemma_kept_fresh_normal(init);
        assert(is_normal_line(texts.last()));
        assert(kept_lines(fresh_lines(texts)) =~= init.push(texts.last()));
    } else {
        assert(fresh_lines(texts) =~= Seq::<(TextInputView, bool)>::empty());
    }
}

/// Loading a subtitle and saving it without edits sends its lines back as
/// they were normalized: the form loses and invents nothing.
pub proof fn lemma_load_then_collect(lines: Seq<Seq<char>>)
    ensures
        collected_lines(fresh_lines(shown_lines(lines))) == normalize_lines_spec(lines),
{
    let texts = normalize_lines_spec(lines);
    if texts.len() == 0 {
        let one = fresh_lines(seq![Seq::<char>::empty()]);
        assert(one.drop_last() =~= Seq::<(TextInputView, bool)>::empty());
        assert(one.len() == 1);
        assert(one.last().0.content =~= Seq::<char>::empty());
        assert(!one.last().1);
        assert(trim_spec(Seq::<char>::empty()) =~= Seq::<char>::empty());
        assert(kept_lines(one.drop_last()) =~= Seq::<Seq<char>>::empty());
        assert(kept_lines(one) =~= Seq::<Seq<char>>::empty());
        assert(normalize_lines_spec(Seq::<Seq<char>>::empty()) =~= Seq::<Seq<char>>::empty());
    } else {
        lemma_normalized_are_normal(lines);
        lemma_kept_fresh_normal(texts);
        lemma_normalize_lines_idempotent(lines);
    }
}

} // verus!

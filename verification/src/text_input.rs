//! The editing model behind the single-line text inputs of the editors:
//! content, a selection held as UTF-8 byte offsets, an optional marked
//! (composition) range, and the conversions to and from the UTF-16 offsets
//! that platform input methods speak.

use vstd::prelude::*;
use vstd::utf8::*;
use std::ops::Range;

use crate::text::is_digit;

verus! {

/// Number of bytes in the UTF-8 encoding of `c` (`char::len_utf8`).
pub open spec fn utf8_width(c: char) -> nat {
    let v = c as u32;
    if v <= 0x7F {
        1
    } else if v <= 0x7FF {
        2
    } else if v <= 0xFFFF {
        3
    } else {
        4
    }
}

/// Number of UTF-16 code units that encode `c` (`char::len_utf16`).
pub open spec fn utf16_width(c: char) -> nat {
    if (c as u32) <= 0xFFFF {
        1
    } else {
        2
    }
}

/// Byte length of the UTF-8 encoding of `s`.
pub open spec fn utf8_len(s: Seq<char>) -> nat
    decreases s.len(),
{
    if s.len() == 0 {
        0
    } else {
        utf8_width(s[0]) + utf8_len(s.drop_first())
    }
}

/// Number of UTF-16 code units that encode `s`.
pub open spec fn utf16_len(s: Seq<char>) -> nat
    decreases s.len(),
{
    if s.len() == 0 {
        0
    } else {
        utf16_width(s[0]) + utf16_len(s.drop_first())
    }
}

/// Whether byte offset `b` falls between two characters of `s` (or at
/// either end of it).
pub open spec fn is_boundary(s: Seq<char>, b: int) -> bool
    decreases s.len(),
{
    if b == 0 {
        true
    } else if b < 0 || s.len() == 0 {
        false
    } else {
        is_boundary(s.drop_first(), b - utf8_width(s[0]))
    }
}

/// How many characters of `s` lie before byte offset `b`.
pub open spec fn char_index(s: Seq<char>, b: int) -> nat
    decreases s.len(),
{
    if b <= 0 || s.len() == 0 {
        0
    } else {
        1 + char_index(s.drop_first(), b - utf8_width(s[0]))
    }
}

/// The byte offset reached by walking characters while fewer than `off`
/// UTF-16 units have been passed.
pub open spec fn from_utf16(s: Seq<char>, off: int) -> nat
    decreases s.len(),
{
    if off <= 0 || s.len() == 0 {
        0
    } else {
        utf8_width(s[0]) + from_utf16(s.drop_first(), off - utf16_width(s[0]))
    }
}

/// The UTF-16 offset reached by walking characters while fewer than `off`
/// bytes have been passed.
pub open spec fn to_utf16(s: Seq<char>, off: int) -> nat
    decreases s.len(),
{
    if off <= 0 || s.len() == 0 {
        0
    } else {
        utf16_width(s[0]) + to_utf16(s.drop_first(), off - utf8_width(s[0]))
    }
}

/// The start of the last character that starts before byte offset `off`,
/// or 0 when there is none.
pub open spec fn previous_boundary_of(s: Seq<char>, off: int) -> nat
    decreases s.len(),
{
    if off <= 0 || s.len() == 0 {
        0
    } else if off - utf8_width(s[0]) > 0 && s.len() > 1 {
        utf8_width(s[0]) + previous_boundary_of(s.drop_first(), off - utf8_width(s[0]))
    } else {
        0
    }
}

/// The start of the first character that starts after byte offset `off`,
/// or the byte length of `s` when there is none.
pub open spec fn next_boundary_of(s: Seq<char>, off: int) -> nat
    decreases s.len(),
{
    if s.len() == 0 || off < 0 {
        0
    } else {
        utf8_width(s[0]) + next_boundary_of(s.drop_first(), off - utf8_width(s[0]))
    }
}

proof fn lemma_width_bounds(c: char)
    ensures
        1 <= utf16_width(c) <= utf8_width(c) <= 4,
{
}

/// The width used here is the length of the encoding vstd defines.
pub proof fn lemma_utf8_len_is_encoding_len(s: Seq<char>)
    ensures
        encode_utf8(s).len() == utf8_len(s),
    decreases s.len(),
{
    if s.len() > 0 {
        char_is_scalar(s[0]);
        lemma_utf8_len_is_encoding_len(s.drop_first());
    }
}

proof fn lemma_utf8_len_concat(a: Seq<char>, b: Seq<char>)
    ensures
        utf8_len(a + b) == utf8_len(a) + utf8_len(b),
        utf16_len(a + b) == utf16_len(a) + utf16_len(b),
    decreases a.len(),
{
    if a.len() > 0 {
        assert((a + b).drop_first() =~= a.drop_first() + b);
        lemma_utf8_len_concat(a.drop_first(), b);
    } else {
        assert(a + b =~= b);
    }
}

proof fn lemma_utf16_le_utf8(s: Seq<char>)
    ensures
        utf16_len(s) <= utf8_len(s),
        s.len() <= utf16_len(s),
    decreases s.len(),
{
    if s.len() > 0 {
        lemma_width_bounds(s[0]);
        lemma_utf16_le_utf8(s.drop_first());
    }
}

proof fn lemma_take_drop_first(s: Seq<char>, i: int)
    requires
        1 <= i <= s.len(),
    ensures
        s.take(i) =~= seq![s[0]] + s.drop_first().take(i - 1),
        s.take(i).drop_first() =~= s.drop_first().take(i - 1),
{
}

/// The start of character `i` is a boundary, and `i` characters lie
/// before it.
proof fn lemma_prefix_boundary(s: Seq<char>, i: int)
    requires
        0 <= i <= s.len(),
    ensures
        is_boundary(s, utf8_len(s.take(i)) as int),
        char_index(s, utf8_len(s.take(i)) as int) == i,
        utf8_len(s.take(i)) <= utf8_len(s),
    decreases i,
{
    if i == 0 {
        assert(s.take(0) =~= Seq::<char>::empty());
        if s.len() > 0 {
            lemma_utf8_len_concat(s.take(0), s);
        }
    } else {
        lemma_take_drop_first(s, i);
        lemma_prefix_boundary(s.drop_first(), i - 1);
        lemma_width_bounds(s[0]);
    }
}

/// Every boundary is the start of some character index.
proof fn lemma_boundary_prefix(s: Seq<char>, b: int)
    requires
        is_boundary(s, b),
    ensures
        0 <= char_index(s, b) <= s.len(),
        utf8_len(s.take(char_index(s, b) as int)) == b,
        0 <= b <= utf8_len(s),
    decreases s.len(),
{
    if b == 0 {
        assert(s.take(0) =~= Seq::<char>::empty());
    } else {
        lemma_width_bounds(s[0]);
        lemma_boundary_prefix(s.drop_first(), b - utf8_width(s[0]));
        let k = char_index(s, b);
        lemma_take_drop_first(s, k as int);
    }
}

/// The byte length of the whole text is a boundary.
proof fn lemma_end_is_boundary(s: Seq<char>)
    ensures
        is_boundary(s, utf8_len(s) as int),
        char_index(s, utf8_len(s) as int) == s.len(),
{
    lemma_prefix_boundary(s, s.len() as int);
    assert(s.take(s.len() as int) =~= s);
}

proof fn lemma_from_utf16_boundary(s: Seq<char>, off: int)
    ensures
        is_boundary(s, from_utf16(s, off) as int),
        from_utf16(s, off) <= utf8_len(s),
    decreases s.len(),
{
    if off > 0 && s.len() > 0 {
        lemma_width_bounds(s[0]);
        lemma_from_utf16_boundary(s.drop_first(), off - utf16_width(s[0]));
    }
}

proof fn lemma_to_utf16_bound(s: Seq<char>, off: int)
    ensures
        to_utf16(s, off) <= utf16_len(s),
    decreases s.len(),
{
    if off > 0 && s.len() > 0 {
        lemma_to_utf16_bound(s.drop_first(), off - utf8_width(s[0]));
    }
}

proof fn lemma_previous_boundary(s: Seq<char>, off: int)
    ensures
        is_boundary(s, previous_boundary_of(s, off) as int),
        off > 0 ==> previous_boundary_of(s, off) < off,
        previous_boundary_of(s, off) <= utf8_len(s),
    decreases s.len(),
{
    if off > 0 && s.len() > 0 {
        lemma_width_bounds(s[0]);
        if off - utf8_width(s[0]) > 0 && s.len() > 1 {
            lemma_previous_boundary(s.drop_first(), off - utf8_width(s[0]));
        }
    }
}

proof fn lemma_next_boundary(s: Seq<char>, off: int)
    ensures
        is_boundary(s, next_boundary_of(s, off) as int),
        next_boundary_of(s, off) <= utf8_len(s),
        0 <= off < utf8_len(s) ==> off < next_boundary_of(s, off),
    decreases s.len(),
{
    if s.len() > 0 && off >= 0 {
        lemma_width_bounds(s[0]);
        lemma_next_boundary(s.drop_first(), off - utf8_width(s[0]));
    }
}

/// Converting the start of any character to UTF-16 and back gives it back,
/// and so does the converse: byte and UTF-16 offsets of the same character
/// boundary map to each other exactly.
pub proof fn lemma_utf16_round_trip(s: Seq<char>, i: int)
    requires
        0 <= i <= s.len(),
    ensures
        to_utf16(s, utf8_len(s.take(i)) as int) == utf16_len(s.take(i)),
        from_utf16(s, utf16_len(s.take(i)) as int) == utf8_len(s.take(i)),
        from_utf16(s, to_utf16(s, utf8_len(s.take(i)) as int) as int) == utf8_len(s.take(i)),
    decreases i,
{
    if i == 0 {
        assert(s.take(0) =~= Seq::<char>::empty());
    } else {
        lemma_take_drop_first(s, i);
        lemma_width_bounds(s[0]);
        lemma_utf16_round_trip(s.drop_first(), i - 1);
    }
}

/// Every boundary converts to UTF-16 and back unchanged.
pub proof fn lemma_boundary_round_trip(s: Seq<char>, b: int)
    requires
        is_boundary(s, b),
    ensures
        from_utf16(s, to_utf16(s, b) as int) == b,
{
    lemma_boundary_prefix(s, b);
    lemma_utf16_round_trip(s, char_index(s, b) as int);
}

proof fn lemma_take_push(s: Seq<char>, i: int)
    requires
        0 <= i < s.len(),
    ensures
        utf8_len(s.take(i + 1)) == utf8_len(s.take(i)) + utf8_width(s[i]),
        utf16_len(s.take(i + 1)) == utf16_len(s.take(i)) + utf16_width(s[i]),
        utf16_len(s.take(i + 1)) <= utf8_len(s.take(i + 1)) <= utf8_len(s),
        s.skip(i).len() > 0,
        s.skip(i)[0] == s[i],
        s.skip(i).drop_first() =~= s.skip(i + 1),
{
    assert(s.take(i + 1) =~= s.take(i) + seq![s[i]]);
    let one = seq![s[i]];
    assert(one.drop_first() =~= Seq::<char>::empty());
    assert(one.len() == 1 && one[0] == s[i]);
    assert(utf8_len(one.drop_first()) == 0 && utf16_len(one.drop_first()) == 0);
    assert(utf8_len(one) == utf8_width(s[i]));
    assert(utf16_len(one) == utf16_width(s[i]));
    lemma_utf8_len_concat(s.take(i), one);
    lemma_utf16_le_utf8(s.take(i + 1));
    lemma_prefix_boundary(s, i + 1);
}

fn char_utf8_width(c: char) -> (res: usize)
    ensures
        res == utf8_width(c),
{
    let v = c as u32;
    if v <= 0x7F {
        1
    } else if v <= 0x7FF {
        2
    } else if v <= 0xFFFF {
        3
    } else {
        4
    }
}

fn char_utf16_width(c: char) -> (res: usize)
    ensures
        res == utf16_width(c),
{
    if (c as u32) <= 0xFFFF {
        1
    } else {
        2
    }
}






/// How many characters of `s` lie before byte offset `offset`.
fn char_count_before(s: &str, offset: usize) -> (res: usize)
    requires
        utf8_len(s@) <= usize::MAX,
    ensures
        res == char_index(s@, offset as int),
        res <= s@.len(),
{
    let n = s.unicode_len();
    let mut i: usize = 0;
    let mut acc: usize = 0;
    proof {
        assert(s@.skip(0) =~= s@);
        assert(s@.take(0) =~= Seq::<char>::empty());
    }
    while i < n && acc < offset
        invariant
            n == s@.len(),
            0 <= i <= n,
            utf8_len(s@) <= usize::MAX,
            acc == utf8_len(s@.take(i as int)),
            char_index(s@, offset as int) == i + char_index(s@.skip(i as int), offset - acc),
        decreases n - i,
    {
        let ch = s.get_char(i);
        proof {
            lemma_take_push(s@, i as int);
        }
        acc = acc + char_utf8_width(ch);
        i = i + 1;
    }
    i
}

/// Byte length of `s` (`str::len`); a string in memory always has one
/// that fits in `usize`.
fn str_byte_len(s: &str) -> (res: usize)
    ensures
        res == utf8_len(s@),
{
    proof {
        lemma_utf8_len_is_encoding_len(s@);
    }
    s.as_bytes().len()
}

fn is_ascii_digit(c: char) -> (res: bool)
    ensures
        res == is_digit(c),
{
    let v = c as u32;
    48 <= v && v <= 57
}

proof fn lemma_rest_contains(s: Seq<char>, cs: int, ce: int, x: char)
    requires
        0 <= cs <= s.len(),
        0 <= ce <= s.len(),
    ensures
        (s.take(cs) + s.skip(ce)).contains(x) <==> exists|j: int|
            0 <= j < s.len() && (j < cs || j >= ce) && #[trigger] s[j] == x,
{
    let rest = s.take(cs) + s.skip(ce);
    if rest.contains(x) {
        let k = choose|k: int| 0 <= k < rest.len() && rest[k] == x;
        if k < cs {
            assert(s[k] == x);
        } else {
            assert(s[ce + (k - cs)] == x);
        }
    }
    if exists|j: int| 0 <= j < s.len() && (j < cs || j >= ce) && #[trigger] s[j] == x {
        let j = choose|j: int| 0 <= j < s.len() && (j < cs || j >= ce) && #[trigger] s[j] == x;
        if j < cs {
            assert(rest[j] == x);
        } else {
            assert(rest[cs + (j - ce)] == x);
        }
    }
}

proof fn lemma_char_index_monotonic(s: Seq<char>, a: int, b: int)
    requires
        a <= b,
    ensures
        char_index(s, a) <= char_index(s, b),
    decreases s.len(),
{
    if a > 0 && s.len() > 0 {
        lemma_char_index_monotonic(s.drop_first(), a - utf8_width(s[0]), b - utf8_width(s[0]));
    }
}

/// `text` with every newline turned into a space (`str::replace`).
fn replace_newlines(text: &str) -> (res: String)
    ensures
        res@ == newlines_to_spaces(text@),
{
    let n = text.unicode_len();
    let mut out = String::new();
    let mut i: usize = 0;
    while i < n
        invariant
            n == text@.len(),
            0 <= i <= n,
            out@ == newlines_to_spaces(text@.take(i as int)),
        decreases n - i,
    {
        let c = text.get_char(i);
        if c == '\n' {
            out.append(" ");
        } else {
            out.append(text.substring_char(i, i + 1));
        }
        proof {
            reveal_strlit(" ");
            assert(newlines_to_spaces(text@.take(i + 1)) =~= newlines_to_spaces(text@.take(i as int))
                + seq![if c == '\n' { ' ' } else { c }]);
        }
        i = i + 1;
    }
    assert(text@.take(n as int) =~= text@);
    out
}

/// What an input accepts.
#[derive(Clone, Copy, Debug, PartialEq, Eq, Structural)]
pub enum InputKind {
    Integer,
    Float,
    Text,
}

/// The characters of `t` that an input of `kind` keeps: digits for an
/// integer input; digits and a first decimal point (when the rest of the
/// text has none yet, `has_dot` false) for a decimal input; everything but
/// line breaks for a text input.
pub open spec fn filter_spec(kind: InputKind, has_dot: bool, t: Seq<char>) -> Seq<char>
    decreases t.len(),
{
    if t.len() == 0 {
        Seq::empty()
    } else {
        let c = t[0];
        let rest = t.drop_first();
        match kind {
            InputKind::Integer => if is_digit(c) {
                seq![c] + filter_spec(kind, has_dot, rest)
            } else {
                filter_spec(kind, has_dot, rest)
            },
            InputKind::Float => if is_digit(c) {
                seq![c] + filter_spec(kind, has_dot, rest)
            } else if c == '.' && !has_dot {
                seq![c] + filter_spec(kind, true, rest)
            } else {
                filter_spec(kind, has_dot, rest)
            },
            InputKind::Text => if c != '\n' && c != '\r' {
                seq![c] + filter_spec(kind, has_dot, rest)
            } else {
                filter_spec(kind, has_dot, rest)
            },
        }
    }
}

/// `s` with the bytes from `start` to `end` replaced by `t` (the text
/// before `start`, then `t`, then the text from `end` on).
pub open spec fn splice(s: Seq<char>, start: usize, end: usize, t: Seq<char>) -> Seq<char> {
    s.take(char_index(s, start as int) as int) + t + s.skip(char_index(s, end as int) as int)
}

/// `t` with every newline turned into a space.
pub open spec fn newlines_to_spaces(t: Seq<char>) -> Seq<char> {
    t.map_values(|c: char| if c == '\n' { ' ' } else { c })
}

/// The abstract state of a text input.
pub struct TextInputView {
    pub content: Seq<char>,
    pub placeholder: Seq<char>,
    pub kind: InputKind,
    pub invalid: bool,
    /// The selection as byte offsets, start then end.
    pub selected: (usize, usize),
    /// Whether the cursor sits at the start of the selection.
    pub reversed: bool,
    /// The range an input method is composing, as byte offsets.
    pub marked: Option<(usize, usize)>,
    /// Whether a mouse drag is extending the selection.
    pub selecting: bool,
}

impl TextInputView {
    /// Offsets lie on character boundaries and the text fits in memory.
    pub open spec fn wf(self) -> bool {
        &&& utf8_len(self.content) <= usize::MAX
        &&& is_boundary(self.content, self.selected.0 as int)
        &&& is_boundary(self.content, self.selected.1 as int)
        &&& match self.marked {
            Some(m) => is_boundary(self.content, m.0 as int) && is_boundary(self.content, m.1 as int),
            None => true,
        }
    }

    /// The byte length of the content.
    pub open spec fn byte_len(self) -> usize {
        utf8_len(self.content) as usize
    }

    /// Whether nothing is selected (`Range::is_empty`).
    pub open spec fn selection_empty(self) -> bool {
        self.selected.0 >= self.selected.1
    }

    /// The end of the selection that the cursor is at.
    pub open spec fn cursor(self) -> usize {
        if self.reversed {
            self.selected.0
        } else {
            self.selected.1
        }
    }

    /// The state with the cursor moved to `off` and nothing selected.
    pub open spec fn moved_to(self, off: usize) -> Self {
        TextInputView { selected: (off, off), ..self }
    }

    /// The state with the cursor's end of the selection moved to `off`,
    /// flipped round when it passes the other end.
    pub open spec fn selected_to(self, off: usize) -> Self {
        let sel = if self.reversed {
            (off, self.selected.1)
        } else {
            (self.selected.0, off)
        };
        if sel.1 < sel.0 {
            TextInputView { selected: (sel.1, sel.0), reversed: !self.reversed, ..self }
        } else {
            TextInputView { selected: sel, ..self }
        }
    }

    /// The byte range an edit applies to: the given UTF-16 range when there
    /// is one, else the marked range, else the selection.
    pub open spec fn edit_range(self, range_utf16: Option<Range<usize>>) -> (usize, usize) {
        match range_utf16 {
            Some(r) => (
                from_utf16(self.content, r.start as int) as usize,
                from_utf16(self.content, r.end as int) as usize,
            ),
            None => match self.marked {
                Some(m) => m,
                None => self.selected,
            },
        }
    }

    /// What of `t` the input keeps when it replaces `range`.
    pub open spec fn filtered(self, range: (usize, usize), t: Seq<char>) -> Seq<char> {
        let rest = self.content.take(char_index(self.content, range.0 as int) as int)
            + self.content.skip(char_index(self.content, range.1 as int) as int);
        filter_spec(self.kind, self.kind == InputKind::Float && rest.contains('.'), t)
    }

    /// The content after `t` replaces the edit range.
    pub open spec fn replaced_content(self, range_utf16: Option<Range<usize>>, t: Seq<char>) -> Seq<char> {
        let range = self.edit_range(range_utf16);
        splice(self.content, range.0, range.1, self.filtered(range, t))
    }

    /// The state after `t` replaces the edit range: the cursor after the
    /// inserted text, nothing marked.
    pub open spec fn replaced(self, range_utf16: Option<Range<usize>>, t: Seq<char>) -> Self {
        let range = self.edit_range(range_utf16);
        let caret = (range.0 + utf8_len(self.filtered(range, t))) as usize;
        TextInputView {
            content: self.replaced_content(range_utf16, t),
            selected: (caret, caret),
            marked: None,
            ..self
        }
    }
}

impl TextInputView {
    /// The state after `t` replaces the edit range and, when
    /// `new_selected` is given, that UTF-16 range of the new text becomes
    /// both the selection and the marked range.
    pub open spec fn replaced_and_marked(
        self,
        range_utf16: Option<Range<usize>>,
        t: Seq<char>,
        new_selected: Option<Range<usize>>,
    ) -> Self {
        let base = self.replaced(range_utf16, t);
        match new_selected {
            Some(r) => {
                let m = (
                    from_utf16(base.content, r.start as int) as usize,
                    from_utf16(base.content, r.end as int) as usize,
                );
                TextInputView { selected: m, marked: Some(m), ..base }
            },
            None => base,
        }
    }

    /// The state with the character before the cursor selected, when
    /// nothing was selected.
    pub open spec fn with_previous_char_selected(self) -> Self {
        if self.selection_empty() {
            self.selected_to(previous_boundary_of(self.content, self.cursor() as int) as usize)
        } else {
            self
        }
    }

    /// The state with the character after the cursor selected, when
    /// nothing was selected.
    pub open spec fn with_next_char_selected(self) -> Self {
        if self.selection_empty() {
            self.selected_to(next_boundary_of(self.content, self.cursor() as int) as usize)
        } else {
            self
        }
    }

    /// The text between two byte offsets.
    pub open spec fn slice(self, start: usize, end: usize) -> Seq<char> {
        self.content.subrange(
            char_index(self.content, start as int) as int,
            char_index(self.content, end as int) as int,
        )
    }
}

/// Whether an input of `kind` accepts character `c` at all.
pub open spec fn accepts(kind: InputKind, c: char) -> bool {
    match kind {
        InputKind::Integer => is_digit(c),
        InputKind::Float => is_digit(c) || c == '.',
        InputKind::Text => c != '\n' && c != '\r',
    }
}

/// Whether every character of `s` is one an input of `kind` accepts.
pub open spec fn all_accepted(kind: InputKind, s: Seq<char>) -> bool {
    forall|i: int| 0 <= i < s.len() ==> accepts(kind, #[trigger] s[i])
}

/// How many times `c` occurs in `s`.
pub open spec fn count_char(s: Seq<char>, c: char) -> nat
    decreases s.len(),
{
    if s.len() == 0 {
        0
    } else {
        (if s[0] == c {
            1nat
        } else {
            0nat
        }) + count_char(s.drop_first(), c)
    }
}

proof fn lemma_filter_accepted(kind: InputKind, has_dot: bool, t: Seq<char>)
    ensures
        all_accepted(kind, filter_spec(kind, has_dot, t)),
        kind == InputKind::Float ==> count_char(filter_spec(kind, has_dot, t), '.') <= (if has_dot {
            0nat
        } else {
            1nat
        }),
    decreases t.len(),
{
    if t.len() > 0 {
        let c = t[0];
        let rest = t.drop_first();
        lemma_filter_accepted(kind, has_dot, rest);
        lemma_filter_accepted(kind, true, rest);
        let f = filter_spec(kind, has_dot, t);
        if f.len() > 0 && f[0] == c && (f.drop_first() == filter_spec(kind, has_dot, rest)
            || f.drop_first() == filter_spec(kind, true, rest)) {
            assert forall|i: int| 0 <= i < f.len() implies accepts(kind, #[trigger] f[i]) by {
                if i > 0 {
                    assert(f[i] == f.drop_first()[i - 1]);
                }
            }
        }
        if kind == InputKind::Float && is_digit(c) {
            assert(filter_spec(kind, has_dot, t) == seq![c] + filter_spec(kind, has_dot, rest));
            assert((seq![c] + filter_spec(kind, has_dot, rest)).drop_first() =~= filter_spec(
                kind,
                has_dot,
                rest,
            ));
        } else if kind == InputKind::Float && c == '.' && !has_dot {
            assert((seq![c] + filter_spec(kind, true, rest)).drop_first() =~= filter_spec(
                kind,
                true,
                rest,
            ));
        } else if kind == InputKind::Integer && is_digit(c) {
            assert((seq![c] + filter_spec(kind, has_dot, rest)).drop_first() =~= filter_spec(
                kind,
                has_dot,
                rest,
            ));
        } else if kind == InputKind::Text && c != '\n' && c != '\r' {
            assert((seq![c] + filter_spec(kind, has_dot, rest)).drop_first() =~= filter_spec(
                kind,
                has_dot,
                rest,
            ));
        }
    }
}

proof fn lemma_count_concat(a: Seq<char>, b: Seq<char>, c: char)
    ensures
        count_char(a + b, c) == count_char(a, c) + count_char(b, c),
    decreases a.len(),
{
    if a.len() > 0 {
        assert((a + b).drop_first() =~= a.drop_first() + b);
        lemma_count_concat(a.drop_first(), b, c);
    } else {
        assert(a + b =~= b);
    }
}

proof fn lemma_count_zero(s: Seq<char>, c: char)
    ensures
        count_char(s, c) == 0 <==> !s.contains(c),
    decreases s.len(),
{
    if s.len() > 0 {
        lemma_count_zero(s.drop_first(), c);
        if s.drop_first().contains(c) {
            let k = choose|k: int| 0 <= k < s.drop_first().len() && s.drop_first()[k] == c;
            assert(s[k + 1] == c);
        }
        if s.contains(c) && s[0] != c {
            let k = choose|k: int| 0 <= k < s.len() && s[k] == c;
            assert(s.drop_first()[k - 1] == c);
        }
    }
}

proof fn lemma_splice_parts(s: Seq<char>, cs: int, ce: int, f: Seq<char>)
    requires
        0 <= cs <= ce <= s.len(),
    ensures
        count_char(s.take(cs) + s.skip(ce), '.') <= count_char(s, '.'),
        count_char(s.take(cs) + f + s.skip(ce), '.') == count_char(s.take(cs) + s.skip(ce), '.')
            + count_char(f, '.'),
{
    lemma_count_concat(s.take(cs), f, '.');
    lemma_count_concat(s.take(cs) + f, s.skip(ce), '.');
    lemma_count_concat(s.take(cs), s.skip(ce), '.');
    assert(s =~= s.take(cs) + (s.subrange(cs, ce) + s.skip(ce)));
    lemma_count_concat(s.subrange(cs, ce), s.skip(ce), '.');
    lemma_count_concat(s.take(cs), s.subrange(cs, ce) + s.skip(ce), '.');
}

/// Edits keep an input to the characters it accepts: digits in an integer
/// input, digits and points in a decimal input, no line breaks in a text
/// input.
pub proof fn lemma_edit_keeps_accepted_chars(
    v: TextInputView,
    range_utf16: Option<Range<usize>>,
    t: Seq<char>,
)
    requires
        v.wf(),
        all_accepted(v.kind, v.content),
    ensures
        all_accepted(v.kind, v.replaced(range_utf16, t).content),
{
    let range = v.edit_range(range_utf16);
    let f = v.filtered(range, t);
    let rest = v.content.take(char_index(v.content, range.0 as int) as int)
        + v.content.skip(char_index(v.content, range.1 as int) as int);
    lemma_filter_accepted(v.kind, v.kind == InputKind::Float && rest.contains('.'), t);
    let cs = char_index(v.content, range.0 as int) as int;
    let ce = char_index(v.content, range.1 as int) as int;
    lemma_from_utf16_boundary(v.content, 0);
    if range_utf16 is Some {
        lemma_from_utf16_boundary(v.content, range_utf16->0.start as int);
        lemma_from_utf16_boundary(v.content, range_utf16->0.end as int);
    }
    lemma_boundary_prefix(v.content, range.0 as int);
    lemma_boundary_prefix(v.content, range.1 as int);
    let n = v.replaced(range_utf16, t).content;
    assert(n == v.content.take(cs) + f + v.content.skip(ce));
    assert forall|i: int| 0 <= i < n.len() implies accepts(v.kind, #[trigger] n[i]) by {
        if i < cs {
            assert(n[i] == v.content[i]);
        } else if i < cs + f.len() {
            assert(n[i] == f[i - cs]);
        } else {
            assert(n[i] == v.content[ce + (i - cs - f.len())]);
        }
    }
}

/// A decimal input never ends up with a second point: an edit of an
/// in-order range leaves at most one where there was at most one.
pub proof fn lemma_decimal_input_keeps_one_point(
    v: TextInputView,
    range_utf16: Option<Range<usize>>,
    t: Seq<char>,
)
    requires
        v.wf(),
        v.kind == InputKind::Float,
        count_char(v.content, '.') <= 1,
        v.edit_range(range_utf16).0 <= v.edit_range(range_utf16).1,
    ensures
        count_char(v.replaced(range_utf16, t).content, '.') <= 1,
{
    let range = v.edit_range(range_utf16);
    let cs = char_index(v.content, range.0 as int) as int;
    let ce = char_index(v.content, range.1 as int) as int;
    let rest = v.content.take(cs) + v.content.skip(ce);
    let f = v.filtered(range, t);
    if range_utf16 is Some {
        lemma_from_utf16_boundary(v.content, range_utf16->0.start as int);
        lemma_from_utf16_boundary(v.content, range_utf16->0.end as int);
    }
    lemma_boundary_prefix(v.content, range.0 as int);
    lemma_boundary_prefix(v.content, range.1 as int);
    lemma_char_index_monotonic(v.content, range.0 as int, range.1 as int);
    lemma_filter_accepted(v.kind, rest.contains('.'), t);
    lemma_count_zero(rest, '.');
    lemma_splice_parts(v.content, cs, ce, f);
}

/// Selecting everything and deleting it leaves the input empty (when no
/// input method is composing).
pub proof fn lemma_select_all_then_backspace_clears(v: TextInputView)
    requires
        v.wf(),
        v.marked is None,
    ensures
        v.moved_to(0).selected_to(v.byte_len()).with_previous_char_selected().replaced(
            None,
            Seq::<char>::empty(),
        ).content == Seq::<char>::empty(),
{
    lemma_end_is_boundary(v.content);
    let w = v.moved_to(0).selected_to(v.byte_len()).with_previous_char_selected();
    let n = v.content.len() as int;
    assert(char_index(v.content, 0) == 0);
    if v.byte_len() > 0 {
        assert(w.selected == (0usize, v.byte_len()));
    } else {
        if v.content.len() > 0 {
            lemma_width_bounds(v.content[0]);
            lemma_utf8_len_concat(seq![v.content[0]], v.content.drop_first());
        }
        assert(v.content.len() == 0);
    }
    let f = w.filtered(w.selected, Seq::<char>::empty());
    assert(f == Seq::<char>::empty());
    assert(w.replaced(None, Seq::<char>::empty()).content =~= Seq::<char>::empty());
}

/// A single-line text input's editing state.
pub struct TextInput {
    content: String,
    placeholder: String,
    input_kind: InputKind,
    invalid: bool,
    selected_range: Range<usize>,
    selection_reversed: bool,
    marked_range: Option<Range<usize>>,
    is_selecting: bool,
}

impl View for TextInput {
    type V = TextInputView;

    closed spec fn view(&self) -> TextInputView {
        TextInputView {
            content: self.content@,
            placeholder: self.placeholder@,
            kind: self.input_kind,
            invalid: self.invalid,
            selected: (self.selected_range.start, self.selected_range.end),
            reversed: self.selection_reversed,
            marked: match self.marked_range {
                Some(r) => Some((r.start, r.end)),
                None => None,
            },
            selecting: self.is_selecting,
        }
    }
}

impl TextInput {
    /// An empty input of the given kind.
    pub fn new(placeholder: &str, input_kind: InputKind) -> (res: TextInput)
        ensures
            res@.wf(),
            res@.content == Seq::<char>::empty(),
            res@.placeholder == placeholder@,
            res@.kind == input_kind,
            !res@.invalid,
            res@.selected == (0usize, 0usize),
            !res@.reversed,
            res@.marked is None,
            !res@.selecting,
    {
        TextInput {
            content: String::new(),
            placeholder: String::from_str(placeholder),
            input_kind,
            invalid: false,
            selected_range: Range { start: 0, end: 0 },
            selection_reversed: false,
            marked_range: None,
            is_selecting: false,
        }
    }

    /// Marks the input as holding an invalid value, or not.
    pub fn set_invalid(&mut self, invalid: bool)
        ensures
            final(self)@ == (TextInputView { invalid, ..old(self)@ }),
    {
        self.invalid = invalid;
    }

    /// Whether the input is marked invalid.
    pub fn is_invalid(&self) -> (res: bool)
        ensures
            res == self@.invalid,
    {
        self.invalid
    }

    /// The current text.
    pub fn text(&self) -> (res: String)
        ensures
            res@ == self@.content,
    {
        String::from_str(self.content.as_str())
    }

    /// The placeholder shown while the input is empty.
    pub fn placeholder(&self) -> (res: String)
        ensures
            res@ == self@.placeholder,
    {
        String::from_str(self.placeholder.as_str())
    }

    /// The byte offset of UTF-16 offset `offset`.
    pub fn offset_from_utf16(&self, offset: usize) -> (res: usize)
        requires
            self@.wf(),
        ensures
            res == from_utf16(self@.content, offset as int),
            is_boundary(self@.content, res as int),
    {
        let s = self.content.as_str();
        let n = s.unicode_len();
        let mut i: usize = 0;
        let mut utf8_offset: usize = 0;
        let mut utf16_count: usize = 0;
        proof {
            assert(s@.skip(0) =~= s@);
            assert(s@.take(0) =~= Seq::<char>::empty());
        }
        while i < n && utf16_count < offset
            invariant
                n == s@.len(),
                0 <= i <= n,
                utf8_len(s@) <= usize::MAX,
                utf8_offset == utf8_len(s@.take(i as int)),
                utf16_count == utf16_len(s@.take(i as int)),
                from_utf16(s@, offset as int) == utf8_offset + from_utf16(
                    s@.skip(i as int),
                    offset - utf16_count,
                ),
            decreases n - i,
        {
            let ch = s.get_char(i);
            proof {
                lemma_take_push(s@, i as int);
            }
            utf16_count = utf16_count + char_utf16_width(ch);
            utf8_offset = utf8_offset + char_utf8_width(ch);
            i = i + 1;
        }
        proof {
            lemma_from_utf16_boundary(s@, offset as int);
        }
        utf8_offset
    }

    /// The UTF-16 offset of byte offset `offset`.
    pub fn offset_to_utf16(&self, offset: usize) -> (res: usize)
        requires
            self@.wf(),
        ensures
            res == to_utf16(self@.content, offset as int),
    {
        let s = self.content.as_str();
        let n = s.unicode_len();
        let mut i: usize = 0;
        let mut utf16_offset: usize = 0;
        let mut utf8_count: usize = 0;
        proof {
            assert(s@.skip(0) =~= s@);
            assert(s@.take(0) =~= Seq::<char>::empty());
        }
        while i < n && utf8_count < offset
            invariant
                n == s@.len(),
                0 <= i <= n,
                utf8_len(s@) <= usize::MAX,
                utf8_count == utf8_len(s@.take(i as int)),
                utf16_offset == utf16_len(s@.take(i as int)),
                to_utf16(s@, offset as int) == utf16_offset + to_utf16(
                    s@.skip(i as int),
                    offset - utf8_count,
                ),
            decreases n - i,
        {
            let ch = s.get_char(i);
            proof {
                lemma_take_push(s@, i as int);
            }
            utf8_count = utf8_count + char_utf8_width(ch);
            utf16_offset = utf16_offset + char_utf16_width(ch);
            i = i + 1;
        }
        utf16_offset
    }

    /// The start of the last character that starts before `offset`, or 0.
    pub fn previous_boundary(&self, offset: usize) -> (res: usize)
        requires
            self@.wf(),
        ensures
            res == previous_boundary_of(self@.content, offset as int),
            is_boundary(self@.content, res as int),
    {
        let s = self.content.as_str();
        let n = s.unicode_len();
        let mut i: usize = 0;
        let mut acc: usize = 0;
        proof {
            assert(s@.skip(0) =~= s@);
            assert(s@.take(0) =~= Seq::<char>::empty());
        }
        while n - i > 1 && acc < offset && offset - acc > char_utf8_width(s.get_char(i))
            invariant
                n == s@.len(),
                0 <= i <= n,
                utf8_len(s@) <= usize::MAX,
                acc == utf8_len(s@.take(i as int)),
                previous_boundary_of(s@, offset as int) == acc + previous_boundary_of(
                    s@.skip(i as int),
                    offset - acc,
                ),
            decreases n - i,
        {
            let ch = s.get_char(i);
            proof {
                lemma_take_push(s@, i as int);
            }
            acc = acc + char_utf8_width(ch);
            i = i + 1;
        }
        proof {
            if i < n {
                lemma_take_push(s@, i as int);
            }
            lemma_previous_boundary(s@, offset as int);
        }
        acc
    }

    /// The start of the first character that starts after `offset`, or the
    /// end of the text.
    pub fn next_boundary(&self, offset: usize) -> (res: usize)
        requires
            self@.wf(),
        ensures
            res == next_boundary_of(self@.content, offset as int),
            is_boundary(self@.content, res as int),
    {
        let s = self.content.as_str();
        let n = s.unicode_len();
        let mut i: usize = 0;
        let mut acc: usize = 0;
        proof {
            assert(s@.skip(0) =~= s@);
            assert(s@.take(0) =~= Seq::<char>::empty());
        }
        while i < n && acc <= offset
            invariant
                n == s@.len(),
                0 <= i <= n,
                utf8_len(s@) <= usize::MAX,
                acc == utf8_len(s@.take(i as int)),
                next_boundary_of(s@, offset as int) == acc + next_boundary_of(
                    s@.skip(i as int),
                    offset - acc,
                ),
            decreases n - i,
        {
            let ch = s.get_char(i);
            proof {
                lemma_take_push(s@, i as int);
            }
            acc = acc + char_utf8_width(ch);
            i = i + 1;
        }
        proof {
            lemma_next_boundary(s@, offset as int);
        }
        acc
    }

    /// The byte length of the content (`str::len`).
    fn content_len(&self) -> (res: usize)
        requires
            self@.wf(),
        ensures
            res == utf8_len(self@.content),
            res == self@.byte_len(),
            is_boundary(self@.content, res as int),
    {
        proof {
            lemma_end_is_boundary(self.content@);
        }
        str_byte_len(self.content.as_str())
    }

    /// Replaces the whole text and puts the cursor at its end.
    pub fn set_text(&mut self, text: &str)
        requires
            old(self)@.wf(),
        ensures
            final(self)@.wf(),
            final(self)@ == (TextInputView {
                content: text@,
                selected: (utf8_len(text@) as usize, utf8_len(text@) as usize),
                reversed: false,
                marked: None,
                ..old(self)@
            }),
    {
        let len = str_byte_len(text);
        self.content = String::from_str(text);
        proof {
            lemma_end_is_boundary(text@);
        }
        self.selected_range = Range { start: len, end: len };
        self.selection_reversed = false;
        self.marked_range = None;
    }

    /// The end of the selection that the cursor is at.
    pub fn cursor_offset(&self) -> (res: usize)
        ensures
            res == self@.cursor(),
    {
        if self.selection_reversed {
            self.selected_range.start
        } else {
            self.selected_range.end
        }
    }

    /// Puts the cursor at `offset`, selecting nothing.
    pub fn move_to(&mut self, offset: usize)
        requires
            old(self)@.wf(),
            is_boundary(old(self)@.content, offset as int),
        ensures
            final(self)@.wf(),
            final(self)@ == old(self)@.moved_to(offset),
    {
        self.selected_range = Range { start: offset, end: offset };
    }

    /// Moves the cursor's end of the selection to `offset`.
    pub fn select_to(&mut self, offset: usize)
        requires
            old(self)@.wf(),
            is_boundary(old(self)@.content, offset as int),
        ensures
            final(self)@.wf(),
            final(self)@ == old(self)@.selected_to(offset),
    {
        if self.selection_reversed {
            self.selected_range.start = offset;
        } else {
            self.selected_range.end = offset;
        }
        if self.selected_range.end < self.selected_range.start {
            self.selection_reversed = !self.selection_reversed;
            self.selected_range = Range { start: self.selected_range.end, end: self.selected_range.start };
        }
    }

    /// Moves the cursor one character left, or to the start of the selection.
    pub fn left(&mut self)
        requires
            old(self)@.wf(),
        ensures
            final(self)@.wf(),
            final(self)@ == (if old(self)@.selection_empty() {
                old(self)@.moved_to(
                    previous_boundary_of(old(self)@.content, old(self)@.cursor() as int) as usize,
                )
            } else {
                old(self)@.moved_to(old(self)@.selected.0)
            }),
    {
        if self.selected_range.start >= self.selected_range.end {
            let target = self.previous_boundary(self.cursor_offset());
            self.move_to(target);
        } else {
            let target = self.selected_range.start;
            self.move_to(target);
        }
    }

    /// Moves the cursor one character right, or to the end of the selection.
    pub fn right(&mut self)
        requires
            old(self)@.wf(),
        ensures
            final(self)@.wf(),
            final(self)@ == (if old(self)@.selection_empty() {
                old(self)@.moved_to(
                    next_boundary_of(old(self)@.content, old(self)@.selected.1 as int) as usize,
                )
            } else {
                old(self)@.moved_to(old(self)@.selected.1)
            }),
    {
        if self.selected_range.start >= self.selected_range.end {
            let target = self.next_boundary(self.selected_range.end);
            self.move_to(target);
        } else {
            let target = self.selected_range.end;
            self.move_to(target);
        }
    }

    /// Extends the selection one character left.
    pub fn select_left(&mut self)
        requires
            old(self)@.wf(),
        ensures
            final(self)@.wf(),
            final(self)@ == old(self)@.selected_to(
                previous_boundary_of(old(self)@.content, old(self)@.cursor() as int) as usize,
            ),
    {
        let target = self.previous_boundary(self.cursor_offset());
        self.select_to(target);
    }

    /// Extends the selection one character right.
    pub fn select_right(&mut self)
        requires
            old(self)@.wf(),
        ensures
            final(self)@.wf(),
            final(self)@ == old(self)@.selected_to(
                next_boundary_of(old(self)@.content, old(self)@.cursor() as int) as usize,
            ),
    {
        let target = self.next_boundary(self.cursor_offset());
        self.select_to(target);
    }

    /// Selects the whole text.
    pub fn select_all(&mut self)
        requires
            old(self)@.wf(),
        ensures
            final(self)@.wf(),
            final(self)@ == old(self)@.moved_to(0).selected_to(old(self)@.byte_len()),
    {
        self.move_to(0);
        let len = self.content_len();
        self.select_to(len);
    }

    /// Puts the cursor at the start of the text.
    pub fn home(&mut self)
        requires
            old(self)@.wf(),
        ensures
            final(self)@.wf(),
            final(self)@ == old(self)@.moved_to(0),
    {
        self.move_to(0);
    }

    /// Puts the cursor at the end of the text.
    pub fn end(&mut self)
        requires
            old(self)@.wf(),
        ensures
            final(self)@.wf(),
            final(self)@ == old(self)@.moved_to(old(self)@.byte_len()),
    {
        let len = self.content_len();
        self.move_to(len);
    }

    /// A press at `offset`: extends the selection with shift held, else
    /// moves the cursor there; either way a drag may follow.
    pub fn on_mouse_down(&mut self, offset: usize, shift: bool)
        requires
            old(self)@.wf(),
            is_boundary(old(self)@.content, offset as int),
        ensures
            final(self)@.wf(),
            final(self)@ == (if shift {
                TextInputView { selecting: true, ..old(self)@ }.selected_to(offset)
            } else {
                TextInputView { selecting: true, ..old(self)@ }.moved_to(offset)
            }),
    {
        self.is_selecting = true;
        if shift {
            self.select_to(offset);
        } else {
            self.move_to(offset);
        }
    }

    /// The mouse button is released: the drag is over.
    pub fn on_mouse_up(&mut self)
        ensures
            final(self)@ == (TextInputView { selecting: false, ..old(self)@ }),
    {
        self.is_selecting = false;
    }

    /// The pointer moved over `offset`: a drag extends the selection.
    pub fn on_mouse_move(&mut self, offset: usize)
        requires
            old(self)@.wf(),
            is_boundary(old(self)@.content, offset as int),
        ensures
            final(self)@.wf(),
            final(self)@ == (if old(self)@.selecting {
                old(self)@.selected_to(offset)
            } else {
                old(self)@
            }),
    {
        if self.is_selecting {
            self.select_to(offset);
        }
    }

    /// Both ends of a byte range as UTF-16 offsets.
    pub fn range_to_utf16(&self, range: &Range<usize>) -> (res: Range<usize>)
        requires
            self@.wf(),
        ensures
            res.start == to_utf16(self@.content, range.start as int),
            res.end == to_utf16(self@.content, range.end as int),
    {
        Range { start: self.offset_to_utf16(range.start), end: self.offset_to_utf16(range.end) }
    }

    /// Both ends of a UTF-16 range as byte offsets.
    pub fn range_from_utf16(&self, range_utf16: &Range<usize>) -> (res: Range<usize>)
        requires
            self@.wf(),
        ensures
            res.start == from_utf16(self@.content, range_utf16.start as int),
            res.end == from_utf16(self@.content, range_utf16.end as int),
            is_boundary(self@.content, res.start as int),
            is_boundary(self@.content, res.end as int),
    {
        Range {
            start: self.offset_from_utf16(range_utf16.start),
            end: self.offset_from_utf16(range_utf16.end),
        }
    }

    /// The selection in UTF-16 offsets, and whether it was made leftwards.
    pub fn selected_text_range(&self) -> (res: (Range<usize>, bool))
        requires
            self@.wf(),
        ensures
            res.0.start == to_utf16(self@.content, self@.selected.0 as int),
            res.0.end == to_utf16(self@.content, self@.selected.1 as int),
            res.1 == self@.reversed,
    {
        (self.range_to_utf16(&self.selected_range), self.selection_reversed)
    }

    /// The marked range in UTF-16 offsets, if any.
    pub fn marked_text_range(&self) -> (res: Option<Range<usize>>)
        requires
            self@.wf(),
        ensures
            match self@.marked {
                Some(m) => res matches Some(r) && r.start == to_utf16(self@.content, m.0 as int)
                    && r.end == to_utf16(self@.content, m.1 as int),
                None => res is None,
            },
    {
        match &self.marked_range {
            Some(range) => Some(self.range_to_utf16(range)),
            None => None,
        }
    }

    /// Drops the marked range.
    pub fn unmark_text(&mut self)
        ensures
            final(self)@ == (TextInputView { marked: None, ..old(self)@ }),
    {
        self.marked_range = None;
    }

    /// Whether the text outside `range` already holds a decimal point.
    fn has_dot_outside(&self, range: &Range<usize>) -> (res: bool)
        requires
            self@.wf(),
        ensures
            res == (self@.content.take(char_index(self@.content, range.start as int) as int)
                + self@.content.skip(char_index(self@.content, range.end as int) as int)).contains(
                '.',
            ),
    {
        let s = self.content.as_str();
        let n = s.unicode_len();
        let cs = char_count_before(s, range.start);
        let ce = char_count_before(s, range.end);
        proof {
            lemma_rest_contains(s@, cs as int, ce as int, '.');
        }
        let mut j: usize = 0;
        while j < n
            invariant
                n == s@.len(),
                0 <= j <= n,
                cs <= n,
                ce <= n,
                s@ == self@.content,
                cs == char_index(s@, range.start as int),
                ce == char_index(s@, range.end as int),
                forall|k: int| 0 <= k < j && (k < cs || k >= ce) ==> #[trigger] s@[k] != '.',
            decreases n - j,
        {
            if (j < cs || j >= ce) && s.get_char(j) == '.' {
                proof {
                    lemma_rest_contains(s@, cs as int, ce as int, '.');
                    assert(s@[j as int] == '.');
                }
                return true;
            }
            j = j + 1;
        }
        false
    }

    /// The part of `new_text` this input keeps when it replaces `range`.
    pub fn filter_input(&self, range: &Range<usize>, new_text: &str) -> (res: String)
        requires
            self@.wf(),
        ensures
            res@ == self@.filtered((range.start, range.end), new_text@),
    {
        let has_dot = match self.input_kind {
            InputKind::Float => self.has_dot_outside(range),
            _ => false,
        };
        let kind = self.input_kind;
        let ghost t = new_text@;
        let n = new_text.unicode_len();
        let mut out = String::new();
        let mut dot = has_dot;
        let mut i: usize = 0;
        proof {
            assert(t.skip(0) =~= t);
            assert(out@ + filter_spec(kind, dot, t.skip(0)) =~= filter_spec(kind, dot, t));
        }
        while i < n
            invariant
                n == t.len(),
                t == new_text@,
                0 <= i <= n,
                filter_spec(kind, has_dot, t) == out@ + filter_spec(kind, dot, t.skip(i as int)),
            decreases n - i,
        {
            let c = new_text.get_char(i);
            let ghost old_out = out@;
            let ghost old_dot = dot;
            let keep = match kind {
                InputKind::Integer => is_ascii_digit(c),
                InputKind::Float => if is_ascii_digit(c) {
                    true
                } else if c == '.' && !dot {
                    dot = true;
                    true
                } else {
                    false
                },
                InputKind::Text => c != '\n' && c != '\r',
            };
            proof {
                let sk = t.skip(i as int);
                assert(sk.len() > 0 && sk[0] == c);
                assert(sk.drop_first() =~= t.skip(i + 1));
            }
            if keep {
                out.append(new_text.substring_char(i, i + 1));
                proof {
                    assert(t.subrange(i as int, i + 1) =~= seq![c]);
                    assert(old_out + (seq![c] + filter_spec(kind, dot, t.skip(i + 1))) =~= out@
                        + filter_spec(kind, dot, t.skip(i + 1)));
                }
            }
            i = i + 1;
        }
        proof {
            assert(t.skip(n as int) =~= Seq::<char>::empty());
            assert(out@ + Seq::<char>::empty() =~= out@);
        }
        out
    }

    /// Replaces the given UTF-16 range (else the marked range, else the
    /// selection) with what the input keeps of `new_text`, and puts the
    /// cursor after it.
    pub fn replace_text_in_range(&mut self, range_utf16: Option<Range<usize>>, new_text: &str)
        requires
            old(self)@.wf(),
        ensures
            final(self)@.wf(),
            final(self)@ == old(self)@.replaced(range_utf16, new_text@),
    {
        let range = match &range_utf16 {
            Some(r) => self.range_from_utf16(r),
            None => match &self.marked_range {
                Some(m) => Range { start: m.start, end: m.end },
                None => Range { start: self.selected_range.start, end: self.selected_range.end },
            },
        };
        let filtered = self.filter_input(&range, new_text);
        let s = self.content.as_str();
        let n = s.unicode_len();
        let cs = char_count_before(s, range.start);
        let ce = char_count_before(s, range.end);
        let mut content = String::from_str(s.substring_char(0, cs));
        content.append(filtered.as_str());
        content.append(s.substring_char(ce, n));
        let ghost f = filtered@;
        proof {
            let old_s = s@;
            assert(old_s.subrange(0, cs as int) =~= old_s.take(cs as int));
            assert(old_s.subrange(ce as int, n as int) =~= old_s.skip(ce as int));
            assert(content@ =~= splice(old_s, range.start, range.end, f));
            lemma_boundary_prefix(old_s, range.start as int);
            lemma_utf8_len_concat(old_s.take(cs as int), f);
            lemma_utf8_len_concat(old_s.take(cs as int) + f, old_s.skip(ce as int));
            assert(content@.take(cs + f.len()) =~= old_s.take(cs as int) + f);
            lemma_prefix_boundary(content@, cs + f.len());
        }
        let total = str_byte_len(content.as_str());
        let inserted = str_byte_len(filtered.as_str());
        // The caret lands inside the new text, so the sum fits.
        assert(range.start + inserted <= total);
        let caret = range.start + inserted;
        self.content = content;
        self.selected_range = Range { start: caret, end: caret };
        self.marked_range = None;
    }

    /// Like `replace_text_in_range`; then, when `new_selected_range` is
    /// given, that UTF-16 range of the new text becomes both the selection
    /// and the marked range (an input method composing), else nothing is
    /// marked.
    pub fn replace_and_mark_text_in_range(
        &mut self,
        range_utf16: Option<Range<usize>>,
        new_text: &str,
        new_selected_range: Option<Range<usize>>,
    )
        requires
            old(self)@.wf(),
        ensures
            final(self)@.wf(),
            final(self)@ == old(self)@.replaced_and_marked(range_utf16, new_text@, new_selected_range),
    {
        self.replace_text_in_range(range_utf16, new_text);
        match &new_selected_range {
            Some(r) => {
                let m = self.range_from_utf16(r);
                self.selected_range = Range { start: m.start, end: m.end };
                self.marked_range = Some(m);
            },
            None => {},
        }
    }

    /// The text of a UTF-16 range, and that range as it falls on character
    /// boundaries.
    pub fn text_for_range(&self, range_utf16: Range<usize>) -> (res: (String, Range<usize>))
        requires
            self@.wf(),
            from_utf16(self@.content, range_utf16.start as int) <= from_utf16(
                self@.content,
                range_utf16.end as int,
            ),
        ensures
            ({
                let start = from_utf16(self@.content, range_utf16.start as int) as usize;
                let end = from_utf16(self@.content, range_utf16.end as int) as usize;
                &&& res.0@ == self@.slice(start, end)
                &&& res.1.start == to_utf16(self@.content, start as int)
                &&& res.1.end == to_utf16(self@.content, end as int)
            }),
    {
        let range = self.range_from_utf16(&range_utf16);
        let actual = self.range_to_utf16(&range);
        (self.text_between(&range), actual)
    }

    /// The text between two boundaries.
    fn text_between(&self, range: &Range<usize>) -> (res: String)
        requires
            self@.wf(),
            is_boundary(self@.content, range.start as int),
            is_boundary(self@.content, range.end as int),
            range.start <= range.end,
        ensures
            res@ == self@.slice(range.start, range.end),
    {
        let s = self.content.as_str();
        let cs = char_count_before(s, range.start);
        let ce = char_count_before(s, range.end);
        proof {
            lemma_char_index_monotonic(s@, range.start as int, range.end as int);
        }
        String::from_str(s.substring_char(cs, ce))
    }

    /// The selected text, when something is selected.
    pub fn copy(&self) -> (res: Option<String>)
        requires
            self@.wf(),
        ensures
            self@.selection_empty() ==> res is None,
            !self@.selection_empty() ==> (res matches Some(t) && t@ == self@.slice(
                self@.selected.0,
                self@.selected.1,
            )),
    {
        if self.selected_range.start < self.selected_range.end {
            Some(self.text_between(&self.selected_range))
        } else {
            None
        }
    }

    /// Removes the selected text and hands it back, when something is
    /// selected.
    pub fn cut(&mut self) -> (res: Option<String>)
        requires
            old(self)@.wf(),
        ensures
            final(self)@.wf(),
            old(self)@.selection_empty() ==> res is None && final(self)@ == old(self)@,
            !old(self)@.selection_empty() ==> (res matches Some(t) && t@ == old(self)@.slice(
                old(self)@.selected.0,
                old(self)@.selected.1,
            ) && final(self)@ == old(self)@.replaced(None, Seq::<char>::empty())),
    {
        if self.selected_range.start < self.selected_range.end {
            let text = self.text_between(&self.selected_range);
            proof {
                reveal_strlit("");
            }
            self.replace_text_in_range(None, "");
            Some(text)
        } else {
            None
        }
    }

    /// Inserts `text` as the selection's replacement, newlines turned into
    /// spaces.
    pub fn paste(&mut self, text: &str)
        requires
            old(self)@.wf(),
        ensures
            final(self)@.wf(),
            final(self)@ == old(self)@.replaced(None, newlines_to_spaces(text@)),
    {
        let flattened = replace_newlines(text);
        self.replace_text_in_range(None, flattened.as_str());
    }

    /// Deletes the selection, or the character before the cursor.
    pub fn backspace(&mut self)
        requires
            old(self)@.wf(),
        ensures
            final(self)@.wf(),
            final(self)@ == old(self)@.with_previous_char_selected().replaced(
                None,
                Seq::<char>::empty(),
            ),
    {
        if self.selected_range.start >= self.selected_range.end {
            let target = self.previous_boundary(self.cursor_offset());
            self.select_to(target);
        }
        proof {
            reveal_strlit("");
        }
        self.replace_text_in_range(None, "");
    }

    /// Deletes the selection, or the character after the cursor.
    pub fn delete(&mut self)
        requires
            old(self)@.wf(),
        ensures
            final(self)@.wf(),
            final(self)@ == old(self)@.with_next_char_selected().replaced(
                None,
                Seq::<char>::empty(),
            ),
    {
        if self.selected_range.start >= self.selected_range.end {
            let target = self.next_boundary(self.cursor_offset());
            self.select_to(target);
        }
        proof {
            reveal_strlit("");
        }
        self.replace_text_in_range(None, "");
    }
}

/// A stretch of the shown text, in bytes, and whether it is underlined
/// (the part an input method is composing).
#[derive(Clone, Copy, Debug, PartialEq, Eq, Structural)]
pub struct StyledRun {
    pub len: usize,
    pub underline: bool,
}

/// What an input shows: its content, or its placeholder when empty.
pub open spec fn shown_text(v: TextInputView) -> Seq<char> {
    if v.content.len() == 0 {
        v.placeholder
    } else {
        v.content
    }
}

/// The runs of a shown text of `total` bytes: one plain run, or, around a
/// marked range, the plain part before it, the underlined marked part and
/// the plain part after it, leaving out empty ones.
pub open spec fn runs_spec(total: int, marked: Option<(usize, usize)>) -> Seq<StyledRun> {
    match marked {
        None => seq![StyledRun { len: total as usize, underline: false }],
        Some((start, end)) => (if start > 0 {
            seq![StyledRun { len: start, underline: false }]
        } else {
            Seq::empty()
        }) + (if end > start {
            seq![StyledRun { len: (end - start) as usize, underline: true }]
        } else {
            Seq::empty()
        }) + (if total > end {
            seq![StyledRun { len: (total - end) as usize, underline: false }]
        } else {
            Seq::empty()
        }),
    }
}

/// Milliseconds that the caret stays on, then off.
pub const CURSOR_BLINK_INTERVAL_MS: u128 = 500;

/// Whether a blinking caret is on `elapsed_ms` after it was last reset:
/// never when the input is not focused.
pub fn cursor_blink_on(focused: bool, elapsed_ms: u128) -> (res: bool)
    ensures
        res == (focused && (elapsed_ms / CURSOR_BLINK_INTERVAL_MS) % 2 == 0),
{
    focused && (elapsed_ms / CURSOR_BLINK_INTERVAL_MS) % 2 == 0
}

/// How the selection is painted: a caret, or a highlighted range.
#[derive(Clone, Copy, Debug, PartialEq, Eq, Structural)]
pub enum CaretPaint {
    Cursor,
    Selection,
}

impl TextInput {
    /// The text to lay out, whether it is the placeholder, and its runs.
    pub fn display_line(&self) -> (res: (String, bool, Vec<StyledRun>))
        requires
            self@.wf(),
            self@.marked matches Some((start, end)) ==> start <= end,
        ensures
            res.0@ == shown_text(self@),
            res.1 == (self@.content.len() == 0),
            res.2@ == runs_spec(utf8_len(shown_text(self@)) as int, self@.marked),
    {
        let placeholder = self.content.as_str().unicode_len() == 0;
        let shown = if placeholder {
            String::from_str(self.placeholder.as_str())
        } else {
            String::from_str(self.content.as_str())
        };
        let total = str_byte_len(shown.as_str());
        let mut runs: Vec<StyledRun> = Vec::new();
        match &self.marked_range {
            None => {
                runs.push(StyledRun { len: total, underline: false });
            },
            Some(m) => {
                proof {
                    lemma_boundary_prefix(self@.content, m.end as int);
                }
                if m.start > 0 {
                    runs.push(StyledRun { len: m.start, underline: false });
                }
                if m.end > m.start {
                    runs.push(StyledRun { len: m.end - m.start, underline: true });
                }
                if total > m.end {
                    runs.push(StyledRun { len: total - m.end, underline: false });
                }
            },
        }
        assert(runs@ =~= runs_spec(total as int, self@.marked));
        (shown, placeholder, runs)
    }

    /// A caret when nothing is selected and the blink is on, else the
    /// selected range.
    pub fn caret_paint(&self, blink_on: bool) -> (res: CaretPaint)
        ensures
            res == (if self@.selected.0 >= self@.selected.1 && blink_on {
                CaretPaint::Cursor
            } else {
                CaretPaint::Selection
            }),
    {
        if self.selected_range.start >= self.selected_range.end && blink_on {
            CaretPaint::Cursor
        } else {
            CaretPaint::Selection
        }
    }
}

} // verus!

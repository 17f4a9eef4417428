//! Subtitle text as the editors handle it: splitting entered text into
//! lines, the searchable text of a subtitle, and window titles.

use vstd::prelude::*;

use crate::paths::{
    after_last_slash, extension_spec, is_part_of, is_plain_name, no_backslash, path_file_name,
    split_file_name, starts_with_two_slashes,
};
use crate::text::{ascii_eq_ignore_case, eq_ignore_ascii_case, trim, trim_spec};

verus! {

/// `r` with `c` put in front of its first piece.
pub open spec fn prepend_piece(c: Seq<char>, r: Seq<Seq<char>>) -> Seq<Seq<char>> {
    r.update(0, c + r[0])
}

/// The pieces of `s` between line breaks, where a line break is either a
/// newline character or the two characters `\` `n` (an escaped newline).
pub open spec fn segments(s: Seq<char>) -> Seq<Seq<char>>
    decreases s.len(),
{
    if s.len() == 0 {
        seq![Seq::<char>::empty()]
    } else if s[0] == '\n' {
        seq![Seq::<char>::empty()] + segments(s.drop_first())
    } else if s.len() >= 2 && s[0] == '\\' && s[1] == 'n' {
        seq![Seq::<char>::empty()] + segments(s.subrange(2, s.len() as int))
    } else {
        prepend_piece(seq![s[0]], segments(s.drop_first()))
    }
}

/// The trimmed pieces that are not blank, in order.
pub open spec fn kept_pieces(parts: Seq<Seq<char>>) -> Seq<Seq<char>>
    decreases parts.len(),
{
    if parts.len() == 0 {
        Seq::empty()
    } else {
        let rest = kept_pieces(parts.drop_last());
        if trim_spec(parts.last()).len() > 0 {
            rest.push(trim_spec(parts.last()))
        } else {
            rest
        }
    }
}

/// Every line split at line breaks, each piece trimmed, blank pieces dropped.
pub open spec fn normalize_lines_spec(lines: Seq<Seq<char>>) -> Seq<Seq<char>>
    decreases lines.len(),
{
    if lines.len() == 0 {
        Seq::empty()
    } else {
        normalize_lines_spec(lines.drop_last()) + kept_pieces(segments(lines.last()))
    }
}

proof fn lemma_segments_nonempty(s: Seq<char>)
    ensures
        segments(s).len() >= 1,
    decreases s.len(),
{
    if s.len() > 0 {
        if s[0] == '\n' {
            lemma_segments_nonempty(s.drop_first());
        } else if s.len() >= 2 && s[0] == '\\' && s[1] == 'n' {
            lemma_segments_nonempty(s.subrange(2, s.len() as int));
        } else {
            lemma_segments_nonempty(s.drop_first());
        }
    }
}

proof fn lemma_kept_push(parts: Seq<Seq<char>>, p: Seq<char>)
    ensures
        kept_pieces(parts.push(p)) == if trim_spec(p).len() > 0 {
            kept_pieces(parts).push(trim_spec(p))
        } else {
            kept_pieces(parts)
        },
{
    assert(parts.push(p).drop_last() =~= parts);
}

fn trimmed_piece(line: &str, from: usize, to: usize) -> (res: Option<String>)
    requires
        from <= to <= line@.len(),
    ensures
        match res {
            Some(t) => trim_spec(line@.subrange(from as int, to as int)).len() > 0 && t@ == trim_spec(
                line@.subrange(from as int, to as int),
            ),
            None => trim_spec(line@.subrange(from as int, to as int)).len() == 0,
        },
{
    let piece = line.substring_char(from, to);
    let t = trim(piece);
    if t.unicode_len() == 0 {
        None
    } else {
        Some(String::from_str(t))
    }
}

/// Splits one line into trimmed, non-blank pieces and appends them to `out`.
fn push_line_pieces(line: &str, out: &mut Vec<String>)
    ensures
        final(out)@.map_values(|v: String| v@) == old(out)@.map_values(|v: String| v@) + kept_pieces(
            segments(line@),
        ),
{
    let n = line.unicode_len();
    let ghost s = line@;
    let ghost start = old(out)@.map_values(|v: String| v@);
    let ghost mut done: Seq<Seq<char>> = Seq::empty();
    let mut p: usize = 0;
    let mut i: usize = 0;
    proof {
        lemma_segments_nonempty(s);
        assert(s.subrange(0, n as int) =~= s);
        assert(s.subrange(p as int, i as int) =~= Seq::<char>::empty());
        assert(prepend_piece(Seq::<char>::empty(), segments(s)) =~= segments(s));
    }
    while i < n
        invariant
            n == s.len(),
            s == line@,
            p <= i <= n,
            done + prepend_piece(s.subrange(p as int, i as int), segments(s.subrange(i as int, n as int)))
                == segments(s),
            out@.map_values(|v: String| v@) == start + kept_pieces(done),
        decreases n - i,
    {
        let ghost rest = s.subrange(i as int, n as int);
        let ghost cur = s.subrange(p as int, i as int);
        let c = line.get_char(i);
        if c == '\n' || (c == '\\' && i + 1 < n && line.get_char(i + 1) == 'n') {
            let step: usize = if c == '\n' {
                1
            } else {
                2
            };
            let ghost after = s.subrange(i + step, n as int);
            proof {
                if c == '\n' {
                    assert(rest.drop_first() =~= after);
                } else {
                    assert(rest.subrange(2, rest.len() as int) =~= after);
                }
                assert(segments(rest) == seq![Seq::<char>::empty()] + segments(after));
                lemma_segments_nonempty(after);
                assert(prepend_piece(cur, segments(rest)) =~= seq![cur] + segments(after));
                assert(prepend_piece(Seq::<char>::empty(), segments(after)) =~= segments(after));
                assert(s.subrange(i + step, i + step) =~= Seq::<char>::empty());
                lemma_kept_push(done, cur);
                assert((done.push(cur)) + segments(after) =~= done + (seq![cur] + segments(after)));
            }
            let piece = trimmed_piece(line, p, i);
            let ghost before_out = out@;
            if let Some(t) = piece {
                out.push(t);
                assert(out@.map_values(|v: String| v@) =~= before_out.map_values(|v: String| v@).push(
                    t@,
                ));
            } else {
                assert(out@ == before_out);
            }
            proof {
                assert(kept_pieces(done.push(cur)) == if trim_spec(cur).len() > 0 {
                    kept_pieces(done).push(trim_spec(cur))
                } else {
                    kept_pieces(done)
                });
                done = done.push(cur);
                assert(out@.map_values(|v: String| v@) =~= start + kept_pieces(done));
            }
            i = i + step;
            p = i;
        } else {
            proof {
                let after = s.subrange(i + 1, n as int);
                assert(rest.drop_first() =~= after);
                assert(!(rest.len() >= 2 && rest[0] == '\\' && rest[1] == 'n'));
                assert(segments(rest) == prepend_piece(seq![c], segments(after)));
                lemma_segments_nonempty(after);
                assert(s.subrange(p as int, i + 1) =~= cur + seq![c]);
                let r = segments(after);
                assert((cur + seq![c]) + r[0] =~= cur + (seq![c] + r[0]));
                assert(prepend_piece(cur, prepend_piece(seq![c], segments(after))) =~= prepend_piece(
                    cur + seq![c],
                    segments(after),
                ));
            }
            i = i + 1;
        }
    }
    proof {
        let cur = s.subrange(p as int, n as int);
        assert(s.subrange(n as int, n as int) =~= Seq::<char>::empty());
        assert(prepend_piece(cur, segments(Seq::<char>::empty())) =~= seq![cur]);
        assert(done + seq![cur] =~= done.push(cur));
        lemma_kept_push(done, cur);
    }
    let last = trimmed_piece(line, p, n);
    let ghost before_out = out@;
    if let Some(t) = last {
        out.push(t);
        assert(out@.map_values(|v: String| v@) =~= before_out.map_values(|v: String| v@).push(t@));
    } else {
        assert(out@ == before_out);
    }
    proof {
        let cur = s.subrange(p as int, n as int);
        assert(segments(s) == done.push(cur));
        assert(out@.map_values(|v: String| v@) =~= start + kept_pieces(segments(s)));
    }
}

/// Splits entered subtitle lines at newlines and escaped newlines (`\n`),
/// trims every piece and drops the blank ones.
pub fn normalize_lines(lines: &Vec<String>) -> (res: Vec<String>)
    ensures
        res@.map_values(|v: String| v@) == normalize_lines_spec(lines@.map_values(|v: String| v@)),
{
    let ghost views = lines@.map_values(|v: String| v@);
    let mut out: Vec<String> = Vec::new();
    let mut j: usize = 0;
    assert(out@.map_values(|v: String| v@) =~= Seq::<Seq<char>>::empty());
    while j < lines.len()
        invariant
            0 <= j <= lines.len(),
            views == lines@.map_values(|v: String| v@),
            out@.map_values(|v: String| v@) == normalize_lines_spec(views.subrange(0, j as int)),
        decreases lines.len() - j,
    {
        push_line_pieces(lines[j].as_str(), &mut out);
        assert(views.subrange(0, j + 1).drop_last() =~= views.subrange(0, j as int));
        assert(views.subrange(0, j + 1).last() == lines@[j as int]@);
        j = j + 1;
    }
    assert(views.subrange(0, lines.len() as int) =~= views);
    out
}


/// Whether `p` holds no line break.
pub open spec fn has_no_break(p: Seq<char>) -> bool {
    forall|i: int|
        0 <= i < p.len() ==> #[trigger] p[i] != '\n' && !(p[i] == '\\' && i + 1 < p.len() && p[i
            + 1] == 'n')
}

proof fn lemma_segments_first_prefix(s: Seq<char>)
    ensures
        segments(s).len() >= 1,
        segments(s)[0].len() <= s.len(),
        segments(s)[0] == s.subrange(0, segments(s)[0].len() as int),
    decreases s.len(),
{
    lemma_segments_nonempty(s);
    if s.len() > 0 && s[0] != '\n' && !(s.len() >= 2 && s[0] == '\\' && s[1] == 'n') {
        lemma_segments_first_prefix(s.drop_first());
        let r = segments(s.drop_first());
        assert(seq![s[0]] + r[0] =~= s.subrange(0, r[0].len() + 1 as int));
    }
}

proof fn lemma_segments_no_break(s: Seq<char>)
    ensures
        forall|k: int| 0 <= k < segments(s).len() ==> has_no_break(#[trigger] segments(s)[k]),
    decreases s.len(),
{
    lemma_segments_nonempty(s);
    if s.len() == 0 {
    } else if s[0] == '\n' {
        lemma_segments_no_break(s.drop_first());
        let r = segments(s.drop_first());
        assert forall|k: int| 0 <= k < segments(s).len() implies has_no_break(
            #[trigger] segments(s)[k],
        ) by {
            if k > 0 {
                assert(segments(s)[k] == r[k - 1]);
            }
        }
    } else if s.len() >= 2 && s[0] == '\\' && s[1] == 'n' {
        let t = s.subrange(2, s.len() as int);
        lemma_segments_no_break(t);
        let r = segments(t);
        assert forall|k: int| 0 <= k < segments(s).len() implies has_no_break(
            #[trigger] segments(s)[k],
        ) by {
            if k > 0 {
                assert(segments(s)[k] == r[k - 1]);
            }
        }
    } else {
        let t = s.drop_first();
        lemma_segments_no_break(t);
        lemma_segments_first_prefix(t);
        let r = segments(t);
        let head = seq![s[0]] + r[0];
        assert(has_no_break(r[0]));
        assert forall|i: int| 0 <= i < head.len() implies #[trigger] head[i] != '\n' && !(head[i]
            == '\\' && i + 1 < head.len() && head[i + 1] == 'n') by {
            if i > 0 {
                assert(head[i] == r[0][i - 1]);
                if i + 1 < head.len() {
                    assert(head[i + 1] == r[0][i]);
                }
            } else if 1 < head.len() {
                assert(head[1] == r[0][0]);
                assert(r[0][0] == t[0]);
            }
        }
        assert forall|k: int| 0 <= k < segments(s).len() implies has_no_break(
            #[trigger] segments(s)[k],
        ) by {
            if k > 0 {
                assert(segments(s)[k] == r[k]);
            }
        }
    }
}

proof fn lemma_no_break_single_segment(p: Seq<char>)
    requires
        has_no_break(p),
    ensures
        segments(p) == seq![p],
    decreases p.len(),
{
    if p.len() == 0 {
        assert(p =~= Seq::<char>::empty());
    } else {
        let t = p.drop_first();
        assert(p[0] != '\n');
        assert(!(p.len() >= 2 && p[0] == '\\' && p[1] == 'n'));
        assert forall|i: int| 0 <= i < t.len() implies #[trigger] t[i] != '\n' && !(t[i] == '\\'
            && i + 1 < t.len() && t[i + 1] == 'n') by {
            assert(t[i] == p[i + 1]);
            if i + 1 < t.len() {
                assert(t[i + 1] == p[i + 2]);
            }
        }
        lemma_no_break_single_segment(t);
        assert(segments(p) == prepend_piece(seq![p[0]], segments(t)));
        assert(seq![p[0]] + t =~= p);
        assert(prepend_piece(seq![p[0]], seq![t]) =~= seq![p]);
    }
}

proof fn lemma_no_break_subrange(p: Seq<char>, a: int, b: int)
    requires
        has_no_break(p),
        0 <= a <= b <= p.len(),
    ensures
        has_no_break(p.subrange(a, b)),
{
    let q = p.subrange(a, b);
    assert forall|i: int| 0 <= i < q.len() implies #[trigger] q[i] != '\n' && !(q[i] == '\\' && i
        + 1 < q.len() && q[i + 1] == 'n') by {
        assert(q[i] == p[a + i]);
        if i + 1 < q.len() {
            assert(q[i + 1] == p[a + i + 1]);
        }
    }
}

/// A normalized line: not blank, trimmed, without line breaks.
pub open spec fn is_normal_line(p: Seq<char>) -> bool {
    p.len() > 0 && trim_spec(p) == p && has_no_break(p)
}

proof fn lemma_kept_are_normal(parts: Seq<Seq<char>>)
    requires
        forall|k: int| 0 <= k < parts.len() ==> has_no_break(#[trigger] parts[k]),
    ensures
        forall|k: int|
            0 <= k < kept_pieces(parts).len() ==> is_normal_line(#[trigger] kept_pieces(parts)[k]),
    decreases parts.len(),
{
    if parts.len() > 0 {
        let init = parts.drop_last();
        assert forall|k: int| 0 <= k < init.len() implies has_no_break(#[trigger] init[k]) by {
            assert(init[k] == parts[k]);
        }
        lemma_kept_are_normal(init);
        let p = parts.last();
        assert(has_no_break(parts[parts.len() - 1]));
        let r = crate::text::lemma_trim_bounds(p);
        lemma_no_break_subrange(p, r.0, r.1);
        crate::text::lemma_trim_idempotent(p);
        let rest = kept_pieces(init);
        if trim_spec(p).len() > 0 {
            assert(kept_pieces(parts) == rest.push(trim_spec(p)));
            assert forall|k: int| 0 <= k < kept_pieces(parts).len() implies is_normal_line(
                #[trigger] kept_pieces(parts)[k],
            ) by {
                if k < rest.len() {
                    assert(kept_pieces(parts)[k] == rest[k]);
                }
            }
        } else {
            assert(kept_pieces(parts) == rest);
        }
    }
}

pub(crate) proof fn lemma_normalized_are_normal(lines: Seq<Seq<char>>)
    ensures
        forall|k: int|
            0 <= k < normalize_lines_spec(lines).len() ==> is_normal_line(
                #[trigger] normalize_lines_spec(lines)[k],
            ),
    decreases lines.len(),
{
    if lines.len() > 0 {
        lemma_normalized_are_normal(lines.drop_last());
        lemma_segments_no_break(lines.last());
        lemma_kept_are_normal(segments(lines.last()));
        let a = normalize_lines_spec(lines.drop_last());
        let b = kept_pieces(segments(lines.last()));
        assert forall|k: int| 0 <= k < (a + b).len() implies is_normal_line(#[trigger] (a + b)[k]) by {
            if k < a.len() {
                assert((a + b)[k] == a[k]);
            } else {
                assert((a + b)[k] == b[k - a.len()]);
            }
        }
    }
}

proof fn lemma_normal_lines_fixed(lines: Seq<Seq<char>>)
    requires
        forall|k: int| 0 <= k < lines.len() ==> is_normal_line(#[trigger] lines[k]),
    ensures
        normalize_lines_spec(lines) == lines,
    decreases lines.len(),
{
    if lines.len() > 0 {
        let init = lines.drop_last();
        assert forall|k: int| 0 <= k < init.len() implies is_normal_line(#[trigger] init[k]) by {
            assert(init[k] == lines[k]);
        }
        lemma_normal_lines_fixed(init);
        let p = lines.last();
        assert(is_normal_line(lines[lines.len() - 1]));
        lemma_no_break_single_segment(p);
        assert(seq![p].drop_last() =~= Seq::<Seq<char>>::empty());
        assert(kept_pieces(Seq::<Seq<char>>::empty()) == Seq::<Seq<char>>::empty());
        assert(kept_pieces(seq![p]) == kept_pieces(seq![p].drop_last()).push(trim_spec(p)));
        assert(kept_pieces(seq![p]) =~= seq![p]);
        assert(init + seq![p] =~= lines);
    }
}

/// Normalizing lines is idempotent: normalized lines are left as they are.
pub proof fn lemma_normalize_lines_idempotent(lines: Seq<Seq<char>>)
    ensures
        normalize_lines_spec(normalize_lines_spec(lines)) == normalize_lines_spec(lines),
{
    lemma_normalized_are_normal(lines);
    lemma_normal_lines_fixed(normalize_lines_spec(lines));
}

/// The items of `list` joined with `sep` between them.
pub open spec fn join_spec(list: Seq<Seq<char>>, sep: Seq<char>) -> Seq<char>
    decreases list.len(),
{
    if list.len() == 0 {
        Seq::empty()
    } else if list.len() == 1 {
        list[0]
    } else {
        join_spec(list.drop_last(), sep) + sep + list.last()
    }
}

/// Joins strings with a separator.
pub fn join_strings(list: &Vec<String>, sep: &str) -> (res: String)
    ensures
        res@ == join_spec(list@.map_values(|v: String| v@), sep@),
{
    let ghost views = list@.map_values(|v: String| v@);
    let mut res = String::new();
    let mut i: usize = 0;
    while i < list.len()
        invariant
            0 <= i <= list.len(),
            views == list@.map_values(|v: String| v@),
            res@ == join_spec(views.subrange(0, i as int), sep@),
        decreases list.len() - i,
    {
        assert(views.subrange(0, i + 1).drop_last() =~= views.subrange(0, i as int));
        if i > 0 {
            res.append(sep);
        } else {
            assert(res@ =~= Seq::<char>::empty());
        }
        res.append(list[i].as_str());
        proof {
            if i == 0 {
                assert(res@ =~= views.subrange(0, 1)[0]);
            }
        }
        i = i + 1;
    }
    assert(views.subrange(0, list.len() as int) =~= views);
    res
}

/// The text a subtitle is searched by: its lines joined with spaces.
pub fn search_text(lines: &Vec<String>) -> (res: String)
    ensures
        res@ == join_spec(lines@.map_values(|v: String| v@), " "@),
{
    join_strings(lines, " ")
}

/// The editor window's title for a task label.
pub open spec fn editor_title_spec(label: Seq<char>) -> Seq<char> {
    if trim_spec(label).len() == 0 {
        "Subtitle Editor"@
    } else {
        "Subtitle Editor - "@ + trim_spec(label)
    }
}

/// The subtitle editor's window title: `Subtitle Editor`, followed by the
/// trimmed task label when there is one.
pub fn subtitle_editor_title(label: &str) -> (res: String)
    ensures
        res@ == editor_title_spec(label@),
{
    let trimmed = trim(label);
    if trimmed.unicode_len() == 0 {
        String::from_str("Subtitle Editor")
    } else {
        let mut s = String::from_str("Subtitle Editor - ");
        s.append(trimmed);
        s
    }
}

/// The video file extensions a task can be opened with.
pub open spec fn supported_extensions_spec() -> Seq<Seq<char>> {
    seq!["mp4"@, "mov"@, "mkv"@, "webm"@, "avi"@, "m4v"@, "mpg"@, "mpeg"@, "ts"@]
}

/// The supported video file extensions, in the order they are offered.
pub fn supported_video_extensions() -> (res: Vec<&'static str>)
    ensures
        res@.map_values(|e: &str| e@) == supported_extensions_spec(),
{
    let v = vec!["mp4", "mov", "mkv", "webm", "avi", "m4v", "mpg", "mpeg", "ts"];
    assert(v@.map_values(|e: &str| e@) =~= supported_extensions_spec());
    v
}

/// Whether an extension is one of the supported ones, ignoring ASCII case.
pub open spec fn is_supported_extension_spec(ext: Option<Seq<char>>) -> bool {
    match ext {
        Some(e) => exists|i: int|
            0 <= i < supported_extensions_spec().len() && ascii_eq_ignore_case(
                #[trigger] supported_extensions_spec()[i],
                e,
            ),
        None => false,
    }
}

/// Every extension of the supported list is accepted as written, all
/// nine of them, the last (`ts`) included.
pub proof fn lemma_listed_extensions_accepted()
    ensures
        supported_extensions_spec().len() == 9,
        forall|i: int|
            0 <= i < supported_extensions_spec().len() ==> is_supported_extension_spec(
                Some(#[trigger] supported_extensions_spec()[i]),
            ),
        is_supported_extension_spec(Some("mp4"@)),
        is_supported_extension_spec(Some("mov"@)),
        is_supported_extension_spec(Some("mkv"@)),
        is_supported_extension_spec(Some("webm"@)),
        is_supported_extension_spec(Some("avi"@)),
        is_supported_extension_spec(Some("m4v"@)),
        is_supported_extension_spec(Some("mpg"@)),
        is_supported_extension_spec(Some("mpeg"@)),
        is_supported_extension_spec(Some("ts"@)),
        !is_supported_extension_spec(None),
{
    let l = supported_extensions_spec();
    assert forall|i: int| 0 <= i < l.len() implies is_supported_extension_spec(
        Some(#[trigger] l[i]),
    ) by {
        assert(ascii_eq_ignore_case(l[i], l[i]));
    }
    assert(is_supported_extension_spec(Some(l[0])));
    assert(is_supported_extension_spec(Some(l[1])));
    assert(is_supported_extension_spec(Some(l[2])));
    assert(is_supported_extension_spec(Some(l[3])));
    assert(is_supported_extension_spec(Some(l[4])));
    assert(is_supported_extension_spec(Some(l[5])));
    assert(is_supported_extension_spec(Some(l[6])));
    assert(is_supported_extension_spec(Some(l[7])));
    assert(is_supported_extension_spec(Some(l[8])));
}

/// Whether a file with this extension can be opened as a video.
pub fn is_supported_extension(ext: Option<&str>) -> (res: bool)
    ensures
        res == is_supported_extension_spec(match ext {
            Some(e) => Some(e@),
            None => None,
        }),
{
    let e = match ext {
        Some(e) => e,
        None => return false,
    };
    let list = supported_video_extensions();
    let ghost views = list@.map_values(|x: &str| x@);
    let mut i: usize = 0;
    while i < list.len()
        invariant
            0 <= i <= list.len(),
            views == list@.map_values(|x: &str| x@),
            views == supported_extensions_spec(),
            ext == Some(e),
            forall|k: int| 0 <= k < i ==> !ascii_eq_ignore_case(#[trigger] views[k], e@),
        decreases list.len() - i,
    {
        assert(views[i as int] == list@[i as int]@);
        if eq_ignore_ascii_case(list[i], e) {
            assert(ascii_eq_ignore_case(supported_extensions_spec()[i as int], e@));
            assert(is_supported_extension_spec(Some(e@)));
            return true;
        }
        i = i + 1;
    }
    false
}

/// Whether a file name has a supported video extension.
pub open spec fn is_supported_name_spec(name: Seq<char>) -> bool {
    is_supported_extension_spec(extension_spec(name))
}

/// Whether a file named `name` can be opened as a video: its extension
/// (after the last dot that is not its first character) is a supported
/// one, ignoring ASCII case.
pub fn is_supported_file_name(name: &str) -> (res: bool)
    ensures
        res == is_supported_name_spec(name@),
{
    let (_stem, ext) = split_file_name(name);
    match ext {
        Some(e) => is_supported_extension(Some(e.as_str())),
        None => false,
    }
}

/// Whether the file at `path` has a supported video extension: the test of
/// [`is_supported_file_name`] on the path's file name; a path without one
/// is not supported.
pub fn is_supported_video_path(path: &str) -> (res: bool)
    ensures
        path@.len() == 0 ==> !res,
        is_plain_name(path@) ==> res == is_supported_name_spec(path@),
        no_backslash(path@) && !starts_with_two_slashes(path@) && is_plain_name(
            after_last_slash(path@),
        ) ==> res == is_supported_name_spec(after_last_slash(path@)),
        res ==> exists|name: Seq<char>|
            {
                &&& 0 < name.len() && is_part_of(name, path@)
                &&& is_supported_name_spec(name)
            },
{
    match path_file_name(path) {
        Some(name) => {
            let res = is_supported_file_name(name.as_str());
            assert(res ==> is_supported_name_spec(name@));
            res
        },
        None => false,
    }
}

/// The detail of the "unsupported video format" warning.
pub fn supported_video_extensions_detail() -> (res: String)
    ensures
        res@ == "Supported formats: "@ + join_spec(
            supported_extensions_spec().map_values(|e: Seq<char>| "."@ + e),
            ", "@,
        ),
{
    let list = supported_video_extensions();
    let mut dotted: Vec<String> = Vec::new();
    let mut i: usize = 0;
    while i < list.len()
        invariant
            0 <= i <= list.len(),
            list@.map_values(|x: &str| x@) == supported_extensions_spec(),
            dotted@.len() == i,
            forall|k: int| 0 <= k < i ==> #[trigger] dotted@[k]@ == "."@ + list@[k]@,
        decreases list.len() - i,
    {
        let mut d = String::from_str(".");
        d.append(list[i]);
        dotted.push(d);
        i = i + 1;
    }
    proof {
        let a = dotted@.map_values(|v: String| v@);
        let b = supported_extensions_spec().map_values(|e: Seq<char>| "."@ + e);
        let lv = list@.map_values(|x: &str| x@);
        assert forall|k: int| 0 <= k < a.len() implies #[trigger] a[k] == b[k] by {
            assert(lv[k] == list@[k]@);
        }
        assert(a =~= b);
    }
    let joined = join_strings(&dotted, ", ");
    let mut res = String::from_str("Supported formats: ");
    res.append(joined.as_str());
    res
}

} // verus!

//! File-system path handling on string paths: the parts the library needs
//! of `std::path::Path`, and the splitting of a file name at its last dot.

use vstd::prelude::*;

verus! {

/// Whether `p` starts with `q`.
pub open spec fn is_prefix(q: Seq<char>, p: Seq<char>) -> bool {
    q.len() <= p.len() && p.subrange(0, q.len() as int) == q
}

/// Whether `q` occurs in `p` as a contiguous stretch.
pub open spec fn is_part_of(q: Seq<char>, p: Seq<char>) -> bool {
    exists|i: int| 0 <= i && i + q.len() <= p.len() && #[trigger] p.subrange(i, i + q.len()) == q
}

/// Whether `s` is a single plain path component: nonempty, with no
/// character that separates components on some platform, and neither `.`
/// nor `..`.
pub open spec fn is_plain_name(s: Seq<char>) -> bool {
    &&& s.len() > 0
    &&& forall|k: int| 0 <= k < s.len() ==> !is_separator_like(#[trigger] s[k])
    &&& s != seq!['.']
    &&& s != seq!['.', '.']
}

/// Whether no character of `s` from index `i` on separates components.
pub open spec fn separator_free_from(s: Seq<char>, i: int) -> bool
    decreases s.len() - i,
{
    i >= s.len() || (!is_separator_like(s[i]) && separator_free_from(s, i + 1))
}

/// A scan from the start that meets no separator covers every character.
pub proof fn lemma_separator_free(s: Seq<char>, i: int)
    requires
        0 <= i,
        separator_free_from(s, i),
    ensures
        forall|k: int| i <= k < s.len() ==> !is_separator_like(#[trigger] s[k]),
    decreases s.len() - i,
{
    if i < s.len() {
        lemma_separator_free(s, i + 1);
    }
}

/// Whether `c` separates path components on some platform.
pub open spec fn is_separator_like(c: char) -> bool {
    c == '/' || c == '\\' || c == ':'
}

/// Whether `s` holds no `\\` (so no Windows verbatim or device prefix).
pub open spec fn no_backslash(s: Seq<char>) -> bool {
    forall|k: int| 0 <= k < s.len() ==> #[trigger] s[k] != '\\'
}

/// Whether `s` cannot start with a Windows drive prefix such as `C:`: its
/// second character is not `:` (a `:` elsewhere is an ordinary character
/// on every platform).
pub open spec fn no_drive_prefix(s: Seq<char>) -> bool {
    !(s.len() >= 2 && s[1] == ':')
}

/// Whether `s` is `..` or ends in `/..`.
pub open spec fn ends_in_parent_dir(s: Seq<char>) -> bool {
    s == seq!['.', '.'] || (s.len() >= 3 && s[s.len() - 3] == '/' && s[s.len() - 2] == '.'
        && s.last() == '.')
}

/// Whether `s` starts with `//`.
pub open spec fn starts_with_two_slashes(s: Seq<char>) -> bool {
    s.len() >= 2 && s[0] == '/' && s[1] == '/'
}

/// The index of the last `/` in `s`, or -1.
pub open spec fn last_slash(s: Seq<char>) -> int
    decreases s.len(),
{
    if s.len() == 0 {
        -1
    } else if s.last() == '/' {
        s.len() - 1
    } else {
        last_slash(s.drop_last())
    }
}

/// What follows the last `/` of `s` (all of `s` when it has none).
pub open spec fn after_last_slash(s: Seq<char>) -> Seq<char> {
    s.subrange(last_slash(s) + 1, s.len() as int)
}

/// What precedes the last `/` of `s`.
pub open spec fn before_last_slash(s: Seq<char>) -> Seq<char> {
    s.subrange(0, last_slash(s))
}

/// Whether `s` is `d/n` with `n` a plain name and `d` a directory that the
/// standard library gives back unchanged as the parent on every platform:
/// nonempty, not ending in `/` or `/.`, not starting with `//`, no `\\`
/// anywhere, and no drive prefix.
pub open spec fn has_simple_parent(s: Seq<char>) -> bool {
    let d = before_last_slash(s);
    &&& last_slash(s) >= 1
    &&& is_plain_name(after_last_slash(s))
    &&& no_backslash(s) && no_drive_prefix(s)
    &&& d.last() != '/'
    &&& !(d.len() >= 2 && d[d.len() - 2] == '/' && d.last() == '.')
    &&& !starts_with_two_slashes(d)
}

/// Whether `res` is `base` joined with the plain name `segment` the way
/// `PathBuf::push` does it for a base without `\\` or a drive prefix: the segment
/// alone after an empty base, appended directly after a trailing `/`, else
/// after one separator (`/`, or `\\` on Windows).
pub open spec fn is_simple_join(res: Seq<char>, base: Seq<char>, segment: Seq<char>) -> bool {
    if base.len() == 0 {
        res == segment
    } else if base.last() == '/' {
        res == base + segment
    } else {
        &&& res.len() == base.len() + 1 + segment.len()
        &&& res.subrange(0, base.len() as int) == base
        &&& (res[base.len() as int] == '/' || res[base.len() as int] == '\\')
        &&& res.subrange(base.len() as int + 1, res.len() as int) == segment
    }
}

/// `Path::parent`, on a path given as a string.
///
/// Stated: the empty path and `/` have no parent; a parent is a proper
/// prefix of the path (the standard library returns a sub-slice of the
/// path without its last component); the parent of a single plain name is
/// the empty path; and the parent of `d/n`, for the paths of
/// [`has_simple_parent`], is `d`. Left unsaid: the parent of other
/// paths; that depends on the platform's separators and prefixes.
#[verifier::external_body]
pub fn path_parent(path: &str) -> (res: Option<String>)
    ensures
        path@.len() == 0 ==> res is None,
        path@ == seq!['/'] ==> res is None,
        res matches Some(p) ==> p@.len() < path@.len() && is_prefix(p@, path@),
        has_simple_parent(path@) ==> res is Some && res->Some_0@ == before_last_slash(path@),
        is_plain_name(path@) ==> res is Some && res->Some_0@.len() == 0,
{
    std::path::Path::new(path).parent().map(|p| p.to_string_lossy().into_owned())
}

/// `Path::join` with a single plain component.
///
/// Stated: the result ends with `segment`; for a base without `\\` or a
/// drive prefix it is that base joined as [`is_simple_join`] says. Left unsaid: which
/// separator is added (`/`, or `\\` on Windows), and the result for other
/// bases (a Windows verbatim base is rebuilt from its components).
#[verifier::external_body]
pub fn path_join(base: &str, segment: &str) -> (res: String)
    requires
        is_plain_name(segment@),
    ensures
        res@.len() >= segment@.len(),
        res@.subrange(res@.len() - segment@.len(), res@.len() as int) == segment@,
        no_backslash(base@) && no_drive_prefix(base@) ==> is_simple_join(res@, base@, segment@),
{
    std::path::Path::new(base).join(segment).to_string_lossy().into_owned()
}

/// `Path::file_name`, on a path given as a string.
///
/// Stated: the empty path has no file name; a file name is a nonempty
/// stretch of the path's characters (the final component, which the
/// standard library takes as a sub-slice of the path); for a path without
/// `\\` (so without a verbatim prefix, inside which `/` does not separate)
/// the file name holds no `/`, and, unless the path starts with `//` (a
/// Windows share), when what follows its last `/` is a plain name, that is
/// the file name; `/` has none, nor has a path without `\\` that ends in
/// `..`. Left unsaid: the file name of other paths; that depends on the
/// platform's separators.
#[verifier::external_body]
pub fn path_file_name(path: &str) -> (res: Option<String>)
    ensures
        path@.len() == 0 ==> res is None,
        res matches Some(n) ==> 0 < n@.len() <= path@.len() && is_part_of(n@, path@),
        no_backslash(path@) && res is Some ==> forall|k: int|
            0 <= k < res->Some_0@.len() ==> #[trigger] res->Some_0@[k] != '/',
        is_plain_name(path@) ==> res is Some && res->Some_0@ == path@,
        no_backslash(path@) && !starts_with_two_slashes(path@) && is_plain_name(
            after_last_slash(path@),
        ) ==> res is Some && res->Some_0@ == after_last_slash(path@),
        path@ == seq!['/'] ==> res is None,
        no_backslash(path@) && ends_in_parent_dir(path@) ==> res is None,
{
    std::path::Path::new(path).file_name().map(|n| n.to_string_lossy().into_owned())
}

/// The last `/` of `a`, a `/`, then `b` without `/`, is the one after `a`.
pub proof fn lemma_last_slash_of_join(a: Seq<char>, b: Seq<char>)
    requires
        forall|k: int| 0 <= k < b.len() ==> #[trigger] b[k] != '/',
    ensures
        last_slash(a + seq!['/'] + b) == a.len(),
        after_last_slash(a + seq!['/'] + b) == b,
        before_last_slash(a + seq!['/'] + b) == a,
    decreases b.len(),
{
    let s = a + seq!['/'] + b;
    if b.len() == 0 {
        assert(s.last() == '/');
    } else {
        assert(s.last() == b.last());
        assert(s.drop_last() =~= a + seq!['/'] + b.drop_last());
        lemma_last_slash_of_join(a, b.drop_last());
    }
    assert(s.subrange(a.len() as int + 1, s.len() as int) =~= b);
    assert(s.subrange(0, a.len() as int) =~= a);
}

/// The last `/` of `s`: its index is in range, it is a `/`, and none
/// follows.
pub proof fn lemma_last_slash(s: Seq<char>)
    ensures
        -1 <= last_slash(s) < s.len(),
        last_slash(s) >= 0 ==> s[last_slash(s)] == '/',
        forall|k: int| last_slash(s) < k < s.len() ==> s[k] != '/',
    decreases s.len(),
{
    if s.len() > 0 && s.last() != '/' {
        lemma_last_slash(s.drop_last());
        assert forall|k: int| last_slash(s) < k < s.len() implies s[k] != '/' by {
            if k < s.len() - 1 {
                assert(s.drop_last()[k] == s[k]);
            }
        }
    }
}

/// The index of the last `.` in `s`, or -1.
pub open spec fn last_dot(s: Seq<char>) -> int
    decreases s.len(),
{
    if s.len() == 0 {
        -1
    } else if s.last() == '.' {
        s.len() - 1
    } else {
        last_dot(s.drop_last())
    }
}

/// Whether a file name has an extension: it is not `..` and has a dot
/// after its first character.
pub open spec fn has_extension(name: Seq<char>) -> bool {
    name != seq!['.', '.'] && last_dot(name) > 0
}

/// The stem of a file name (`Path::file_stem` on that name).
pub open spec fn stem_spec(name: Seq<char>) -> Seq<char> {
    if has_extension(name) {
        name.subrange(0, last_dot(name))
    } else {
        name
    }
}

/// The extension of a file name (`Path::extension` on that name).
pub open spec fn extension_spec(name: Seq<char>) -> Option<Seq<char>> {
    if has_extension(name) {
        Some(name.subrange(last_dot(name) + 1, name.len() as int))
    } else {
        None
    }
}

proof fn lemma_last_dot(s: Seq<char>)
    ensures
        -1 <= last_dot(s) < s.len(),
        last_dot(s) >= 0 ==> s[last_dot(s)] == '.',
        forall|k: int| last_dot(s) < k < s.len() ==> s[k] != '.',
    decreases s.len(),
{
    if s.len() > 0 && s.last() != '.' {
        lemma_last_dot(s.drop_last());
        assert forall|k: int| last_dot(s) < k < s.len() implies s[k] != '.' by {
            if k < s.len() - 1 {
                assert(s.drop_last()[k] == s[k]);
            }
        }
    }
}

fn find_last_dot(name: &str) -> (res: Option<usize>)
    ensures
        match res {
            Some(i) => i as int == last_dot(name@),
            None => last_dot(name@) == -1,
        },
{
    let n = name.unicode_len();
    let mut j: usize = n;
    assert(name@.subrange(0, n as int) =~= name@);
    while j > 0
        invariant
            n == name@.len(),
            j <= n,
            last_dot(name@) == last_dot(name@.subrange(0, j as int)),
        decreases j,
    {
        let ghost pre = name@.subrange(0, j as int);
        assert(pre.drop_last() =~= name@.subrange(0, j - 1));
        if name.get_char(j - 1) == '.' {
            return Some(j - 1);
        }
        j = j - 1;
    }
    assert(name@.subrange(0, 0) =~= Seq::<char>::empty());
    None
}

fn is_dot_dot(name: &str) -> (res: bool)
    ensures
        res == (name@ == seq!['.', '.']),
{
    let n = name.unicode_len();
    if n == 2 && name.get_char(0) == '.' && name.get_char(1) == '.' {
        assert(name@ =~= seq!['.', '.']);
        true
    } else {
        false
    }
}

/// Splits a file name into its stem and its extension.
pub fn split_file_name(name: &str) -> (res: (String, Option<String>))
    ensures
        res.0@ == stem_spec(name@),
        match res.1 {
            Some(e) => extension_spec(name@) == Some(e@),
            None => extension_spec(name@) is None,
        },
{
    let n = name.unicode_len();
    if is_dot_dot(name) {
        return (String::from_str(name), None);
    }
    proof {
        lemma_last_dot(name@);
    }
    match find_last_dot(name) {
        Some(i) => {
            if i == 0 {
                (String::from_str(name), None)
            } else {
                (
                    String::from_str(name.substring_char(0, i)),
                    Some(String::from_str(name.substring_char(i + 1, n))),
                )
            }
        },
        None => (String::from_str(name), None),
    }
}

} // verus!

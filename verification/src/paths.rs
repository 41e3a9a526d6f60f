//! File names of paths given as text, through `std::path::Path`.

use vstd::prelude::*;

verus! {

/// The text after the last `/` of `path`: all of it when it has none.
pub open spec fn last_segment(path: Seq<char>) -> Seq<char>
    decreases path.len(),
{
    if path.len() == 0 {
        path
    } else if path.last() == '/' {
        Seq::empty()
    } else {
        last_segment(path.drop_last()).push(path.last())
    }
}

/// `c` separates path components on some platform: `/` everywhere, `\` on
/// Windows.
pub open spec fn is_any_separator(c: char) -> bool {
    c == '/' || c == '\\'
}

/// The text after the last `/` or `\` of `path`: all of it when it has
/// neither.
pub open spec fn last_segment_any(path: Seq<char>) -> Seq<char>
    decreases path.len(),
{
    if path.len() == 0 {
        path
    } else if is_any_separator(path.last()) {
        Seq::empty()
    } else {
        last_segment_any(path.drop_last()).push(path.last())
    }
}

/// `path` has a file name under every platform's path syntax: it does not
/// begin with two separators (a network or verbatim prefix on Windows), and
/// the text after its last `/` or `\` is neither empty, `.` nor `..`, and
/// holds no `:` (so it is no drive prefix). Where `\` separates, that text
/// is the file name; elsewhere the text after the last `/` is.
pub open spec fn has_file_name_everywhere(path: Seq<char>) -> bool {
    &&& !(path.len() >= 2 && is_any_separator(path[0]) && is_any_separator(path[1]))
    &&& last_segment_any(path).len() > 0
    &&& last_segment_any(path) != "."@
    &&& last_segment_any(path) != ".."@
    &&& !last_segment_any(path).contains(':')
}

/// `path` reads the same under every platform's path syntax, and its file
/// name is its last segment: it holds no `\` or `:`, does not begin with
/// `//`, and the text after its last `/` is neither empty nor `.` or `..`.
pub open spec fn has_plain_file_name(path: Seq<char>) -> bool {
    &&& !path.contains('\\')
    &&& !path.contains(':')
    &&& !(path.len() >= 2 && path[0] == '/' && path[1] == '/')
    &&& last_segment(path).len() > 0
    &&& last_segment(path) != "."@
    &&& last_segment(path) != ".."@
}

/// `part` is a contiguous stretch of `whole`.
pub open spec fn is_part_of(part: Seq<char>, whole: Seq<char>) -> bool {
    exists|i: int, j: int| 0 <= i <= j <= whole.len() && part == whole.subrange(i, j)
}

/// `name` is what a path's file name gives as a name, with `fallback` where
/// the path has none: a stretch of the path or the fallback; the last
/// segment where the path has a plain file name; the fallback for `..` and
/// `/`; one of the two readings of the final segment where the path has a
/// file name on every platform.
pub open spec fn named_by_file_name(name: Seq<char>, path: Seq<char>, fallback: Seq<char>) -> bool {
    &&& (name == fallback || is_part_of(name, path))
    &&& (has_plain_file_name(path) ==> name == last_segment(path))
    &&& (path == ".."@ || path == "/"@ ==> name == fallback)
    &&& (has_file_name_everywhere(path) ==> name == last_segment(path) || name == last_segment_any(path))
}

/// The text after the last `/` of a path is an end of the path that holds
/// no `/` and is the whole path or follows a `/`.
proof fn lemma_last_segment_ends_path(path: Seq<char>)
    ensures
        last_segment(path).len() <= path.len(),
        path.subrange(path.len() - last_segment(path).len(), path.len() as int) == last_segment(path),
        !last_segment(path).contains('/'),
        last_segment(path).len() == path.len() || path[path.len() - last_segment(path).len() - 1] == '/',
    decreases path.len(),
{
    let n = path.len() as int;
    if n == 0 {
        assert(path.subrange(0, 0) =~= path);
    } else if path.last() == '/' {
        assert(path.subrange(n, n) =~= Seq::<char>::empty());
    } else {
        let p = path.drop_last();
        lemma_last_segment_ends_path(p);
        let s = last_segment(p);
        assert(path.subrange(n - s.len() - 1, n) =~= p.subrange(p.len() - s.len(), p.len() as int).push(path.last()));
        assert forall|k: int| 0 <= k < s.len() + 1 implies s.push(path.last())[k] != '/' by {
            if k < s.len() {
                assert(s.push(path.last())[k] == s[k]);
            }
        }
        if s.len() < p.len() {
            assert(path[n - s.len() - 2] == p[p.len() - s.len() - 1]);
        }
    }
}

/// The text after the last `/` or `\` of a path is an end of the path that
/// holds neither and is the whole path or follows one of them.
proof fn lemma_last_segment_any_ends_path(path: Seq<char>)
    ensures
        last_segment_any(path).len() <= path.len(),
        path.subrange(path.len() - last_segment_any(path).len(), path.len() as int) == last_segment_any(path),
        !last_segment_any(path).contains('/'),
        !last_segment_any(path).contains('\\'),
        last_segment_any(path).len() == path.len()
            || is_any_separator(path[path.len() - last_segment_any(path).len() - 1]),
    decreases path.len(),
{
    let n = path.len() as int;
    if n == 0 {
        assert(path.subrange(0, 0) =~= path);
    } else if is_any_separator(path.last()) {
        assert(path.subrange(n, n) =~= Seq::<char>::empty());
    } else {
        let p = path.drop_last();
        lemma_last_segment_any_ends_path(p);
        let s = last_segment_any(p);
        assert(path.subrange(n - s.len() - 1, n) =~= p.subrange(p.len() - s.len(), p.len() as int).push(path.last()));
        assert forall|k: int| 0 <= k < s.len() + 1 implies !is_any_separator(#[trigger] s.push(path.last())[k]) by {
            if k < s.len() {
                assert(s.push(path.last())[k] == s[k]);
            }
        }
        if s.len() < p.len() {
            assert(path[n - s.len() - 2] == p[p.len() - s.len() - 1]);
        }
    }
}

/// A path that has a file name on every platform gives a name that is a
/// final segment of the path: a non-empty end of it that holds no `/` and
/// is the whole path or follows a `/` or `\`.
pub proof fn lemma_file_name_is_final_segment(name: Seq<char>, path: Seq<char>, fallback: Seq<char>)
    requires
        named_by_file_name(name, path, fallback),
        has_file_name_everywhere(path),
    ensures
        0 < name.len() <= path.len(),
        path.subrange(path.len() - name.len(), path.len() as int) == name,
        !name.contains('/'),
        name.len() == path.len() || is_any_separator(path[path.len() - name.len() - 1]),
{
    lemma_last_segment_ends_path(path);
    lemma_last_segment_any_ends_path(path);
    assert(path.len() > 0 && !is_any_separator(path.last()));
    if name == last_segment(path) {
        assert(last_segment(path).len() > 0);
    }
}

/// `Path::file_name` on a path given as text: the final component of the
/// path, as text, or `None` when there is none. Where a path holds `\` or
/// `:`, or begins with `//`, platforms read it differently (separators,
/// drive and network prefixes), so no name stands for the result. The
/// contract states what holds on every platform: a file name is a stretch
/// of the path; a path with a plain file name has its last segment as file
/// name; `..` and `/` have none; a path with a file name on every platform
/// has one, the text after its last `/` or, where `\` also separates (on
/// Windows), the text after its last `/` or `\`.
#[verifier::external_body]
pub(crate) fn path_file_name(path: &str) -> (name: Option<String>)
    ensures
        name is Some ==> is_part_of(name.unwrap()@, path@),
        has_plain_file_name(path@) ==> name is Some && name.unwrap()@ == last_segment(path@),
        path@ == ".."@ || path@ == "/"@ ==> name is None,
        has_file_name_everywhere(path@) ==> name is Some && (name.unwrap()@ == last_segment(path@)
            || name.unwrap()@ == last_segment_any(path@)),
{
    match std::path::Path::new(path).file_name() {
        Some(n) => Some(n.to_string_lossy().into_owned()),
        None => None,
    }
}

} // verus!

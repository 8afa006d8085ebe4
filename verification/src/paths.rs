//! Paths below the sync root. A path is a sequence of components separated
//! by `/`, whatever the host's own separator is.

use crate::text::{replace_char, replaced};
use vstd::prelude::*;

verus! {

/// `path` with every `\` turned into `/`.
pub open spec fn normalized(path: Seq<char>) -> Seq<char> {
    replaced(path, '\\', '/')
}

/// Whether a component of `path` begins at position `i`.
pub open spec fn component_start(path: Seq<char>, i: int) -> bool {
    0 <= i < path.len() && (i == 0 || path[i - 1] == '/')
}

/// Whether some component of `path` begins with a dot. Such a file, or a
/// file below such a directory, is hidden.
pub open spec fn hidden(path: Seq<char>) -> bool {
    exists|i: int| #[trigger] component_start(path, i) && path[i] == '.'
}

/// Writes a path that may use `\` between components with `/`.
pub fn normalize_separators(path: &str) -> (r: String)
    ensures
        r@ == normalized(path@),
{
    replace_char(path, '\\', '/')
}

/// Whether `path` names a hidden file.
pub fn is_hidden_path(path: &str) -> (r: bool)
    ensures
        r == hidden(path@),
{
    let mut at_start = true;
    for c in it: path.chars()
        invariant
            it.seq() == path@,
            at_start == (it.index() == 0 || path@[it.index() - 1] == '/'),
            forall|k: int| 0 <= k < it.index() && component_start(path@, k) ==> path@[k] != '.',
    {
        if at_start && c == '.' {
            assert(component_start(path@, it.index() as int));
            return true;
        }
        at_start = c == '/';
    }
    false
}

/// The position of the last `c` in `s`, if `c` occurs in `s`.
pub open spec fn last_position(s: Seq<char>, c: char) -> Option<int>
    decreases s.len(),
{
    if s.len() == 0 {
        None
    } else if s.last() == c {
        Some(s.len() - 1)
    } else {
        last_position(s.drop_last(), c)
    }
}

/// The last position of `c` is a position of `s` that holds `c`.
pub proof fn lemma_last_position(s: Seq<char>, c: char)
    ensures
        last_position(s, c) matches Some(i) ==> 0 <= i < s.len() && s[i] == c,
    decreases s.len(),
{
    if s.len() > 0 && s.last() != c {
        lemma_last_position(s.drop_last(), c);
    }
}

/// Where the last component of `path` begins: behind the last `/`.
pub open spec fn name_start(path: Seq<char>) -> int {
    match last_position(path, '/') {
        Some(i) => i + 1,
        None => 0,
    }
}

/// The last component of `path`.
pub open spec fn file_name(path: Seq<char>) -> Seq<char> {
    path.skip(name_start(path))
}

/// What stands before the last component of `path`, with the `/` that
/// ends it.
pub open spec fn directory(path: Seq<char>) -> Seq<char> {
    path.take(name_start(path))
}

/// Whether the last component of `path` names a file: it is not empty and
/// is neither `.` nor `..`.
pub open spec fn names_file(path: Seq<char>) -> bool {
    file_name(path).len() > 0 && file_name(path) != "."@ && file_name(path) != ".."@
}

/// How long the stem of the file name `name` is. The stem ends before the
/// last dot; a name without a dot, or with its only dot in front, is all
/// stem.
pub open spec fn stem_len(name: Seq<char>) -> int {
    match last_position(name, '.') {
        Some(i) => if i > 0 {
            i
        } else {
            name.len() as int
        },
        None => name.len() as int,
    }
}

/// The file name `name` without its extension.
pub open spec fn stem(name: Seq<char>) -> Seq<char> {
    name.take(stem_len(name))
}

/// What follows the last dot of the file name `name`; empty if the name
/// has no extension.
pub open spec fn extension(name: Seq<char>) -> Seq<char> {
    if stem_len(name) < name.len() {
        name.skip(stem_len(name) + 1)
    } else {
        Seq::empty()
    }
}

/// Whether `path` names the sidecar of a conflict: a file with the
/// extension `conflict`.
pub open spec fn sidecar(path: Seq<char>) -> bool {
    extension(file_name(path)) == "conflict"@
}

/// Whether a file at `path` under the root is listed among the files to
/// synchronise. Hidden files and the sidecars of conflicts are not.
pub open spec fn synced(path: Seq<char>) -> bool {
    !hidden(path) && !sidecar(path)
}

/// Finds the last `c` in `s`.
pub fn find_last(s: &str, c: char) -> (position: Option<usize>)
    ensures
        position is Some <==> last_position(s@, c) is Some,
        position is Some ==> position->0 as int == last_position(s@, c)->0,
        position is Some ==> position->0 < s@.len(),
{
    let n = s.unicode_len();
    let mut found: Option<usize> = None;
    let mut i: usize = 0;
    assert(s@.take(0) =~= Seq::empty());
    for x in it: s.chars()
        invariant
            it.seq() == s@,
            n == s@.len(),
            i == it.index(),
            found is Some <==> last_position(s@.take(i as int), c) is Some,
            found is Some ==> found->0 as int == last_position(s@.take(i as int), c)->0,
            found is Some ==> found->0 < i,
    {
        proof {
            let next = s@.take(i + 1);
            assert(next.last() == s@[i as int]);
            assert(next.drop_last() =~= s@.take(i as int));
        }
        if x == c {
            found = Some(i);
        }
        i += 1;
    }
    assert(s@.take(s@.len() as int) =~= s@);
    found
}

/// Says whether `path` names the sidecar of a conflict.
pub fn is_sidecar_path(path: &str) -> (r: bool)
    ensures
        r == sidecar(path@),
{
    let len = path.unicode_len();
    let start = match find_last(path, '/') {
        Some(i) => i + 1,
        None => 0,
    };
    let name = path.substring_char(start, len);
    assert(name@ =~= file_name(path@));
    let (_, ext) = split_name(name);
    ext.as_str().eq("conflict")
}

/// Says whether a file at `path` under the root is listed among the files
/// to synchronise.
pub fn is_synced_path(path: &str) -> (r: bool)
    ensures
        r == synced(path@),
{
    !is_hidden_path(path) && !is_sidecar_path(path)
}

/// The last component of `path`, if it names a file.
pub fn last_component(path: &str) -> (name: Option<String>)
    ensures
        name is Some <==> names_file(path@),
        name is Some ==> name->0@ == file_name(path@),
{
    let len = path.unicode_len();
    let start = match find_last(path, '/') {
        Some(i) => i + 1,
        None => 0,
    };
    let name = path.substring_char(start, len);
    assert(name@ =~= file_name(path@));
    if start == len || name.eq(".") || name.eq("..") {
        None
    } else {
        Some(name.to_owned())
    }
}

/// Splits a file name into its stem and its extension.
pub fn split_name(name: &str) -> (parts: (String, String))
    ensures
        parts.0@ == stem(name@),
        parts.1@ == extension(name@),
{
    let len = name.unicode_len();
    proof {
        lemma_last_position(name@, '.');
    }
    let stem_len = match find_last(name, '.') {
        Some(i) => if i > 0 {
            i
        } else {
            len
        },
        None => len,
    };
    let front = name.substring_char(0, stem_len).to_owned();
    assert(name@.subrange(0, stem_len as int) =~= name@.take(stem_len as int));
    if stem_len < len {
        let back = name.substring_char(stem_len + 1, len).to_owned();
        assert(name@.subrange(stem_len + 1, len as int) =~= name@.skip(stem_len + 1));
        (front, back)
    } else {
        (front, String::new())
    }
}

} // verus!

//! Moving a notebook into another folder: what has to hold before the
//! move is made, and how a move that is refused is reported.

use crate::paths::{file_name, last_component, names_file, normalize_separators, normalized};
use crate::text::joined;
use vstd::prelude::*;

verus! {

/// What the caller found out about the folders of a move.
#[derive(Clone, Copy, Debug, PartialEq, Eq)]
pub struct MoveFacts {
    pub source_exists: bool,
    pub source_is_dir: bool,
    pub target_exists: bool,
    /// Whether the target folder already has an entry with the name of the
    /// notebook.
    pub destination_exists: bool,
}

/// Whether `path` is `folder` or lies below it.
pub open spec fn inside(path: Seq<char>, folder: Seq<char>) -> bool {
    folder.is_prefix_of(path) && (path.len() == folder.len() || path[folder.len() as int] == '/'
        || (folder.len() > 0 && folder.last() == '/'))
}

/// The name under which the notebook at `source` is moved: the last
/// component of its path.
pub open spec fn folder_name_of(source: Seq<char>) -> Option<Seq<char>> {
    if names_file(normalized(source)) {
        Some(file_name(normalized(source)))
    } else {
        None
    }
}

/// The name under which the notebook at `source_path` is moved.
pub fn folder_name(source_path: &str) -> (name: Option<String>)
    ensures
        name is Some <==> folder_name_of(source_path@) is Some,
        name is Some ==> name->0@ == folder_name_of(source_path@)->0,
{
    let path = normalize_separators(source_path);
    last_component(path.as_str())
}

/// Says whether `path` is `folder` or lies below it.
pub fn is_inside(path: &str, folder: &str) -> (r: bool)
    ensures
        r == inside(path@, folder@),
{
    let n = path.unicode_len();
    let m = folder.unicode_len();
    if m > n {
        return false;
    }
    let mut i: usize = 0;
    while i < m
        invariant
            i <= m <= n,
            n == path@.len(),
            m == folder@.len(),
            forall|k: int| 0 <= k < i ==> path@[k] == folder@[k],
        decreases m - i,
    {
        if path.get_char(i) != folder.get_char(i) {
            assert(folder@[i as int] != path@.subrange(0, folder@.len() as int)[i as int]);
            return false;
        }
        i += 1;
    }
    assert(folder@ =~= path@.subrange(0, m as int));
    n == m || path.get_char(m) == '/' || (m > 0 && folder.get_char(m - 1) == '/')
}

/// Why the notebook at `source` is not moved into `target`, if it is not.
/// The first of these that fails is reported: the notebook exists; it is a
/// folder; the target folder exists; the notebook's path ends in a name;
/// the target folder has no entry of that name; the target folder is not
/// the notebook itself and does not lie inside it.
pub open spec fn move_refusal_of(source: Seq<char>, target: Seq<char>, facts: MoveFacts) -> Option<
    Seq<char>,
> {
    if !facts.source_exists {
        Some("Source folder does not exist: "@ + source)
    } else if !facts.source_is_dir {
        Some("Source is not a directory: "@ + source)
    } else if !facts.target_exists {
        Some("Target folder does not exist: "@ + target)
    } else if folder_name_of(source) is None {
        Some("Could not get folder name"@)
    } else if facts.destination_exists {
        Some(
            "A folder named '"@ + folder_name_of(source)->0
                + "' already exists in the target location"@,
        )
    } else if inside(normalized(target), normalized(source)) {
        Some("Cannot move a folder into itself"@)
    } else {
        None
    }
}

/// Decides whether the move is made.
pub fn move_refusal(source_path: &str, target_path: &str, facts: MoveFacts) -> (refusal: Option<
    String,
>)
    ensures
        refusal is Some <==> move_refusal_of(source_path@, target_path@, facts) is Some,
        refusal is Some ==> refusal->0@ == move_refusal_of(source_path@, target_path@, facts)->0,
{
    if !facts.source_exists {
        return Some(joined("Source folder does not exist: ", source_path));
    }
    if !facts.source_is_dir {
        return Some(joined("Source is not a directory: ", source_path));
    }
    if !facts.target_exists {
        return Some(joined("Target folder does not exist: ", target_path));
    }
    let name = match folder_name(source_path) {
        Some(name) => name,
        None => {
            return Some("Could not get folder name".to_owned());
        },
    };
    if facts.destination_exists {
        let mut text = joined("A folder named '", name.as_str());
        text.append("' already exists in the target location");
        return Some(text);
    }
    let source = normalize_separators(source_path);
    let target = normalize_separators(target_path);
    if is_inside(target.as_str(), source.as_str()) {
        return Some("Cannot move a folder into itself".to_owned());
    }
    None
}

} // verus!

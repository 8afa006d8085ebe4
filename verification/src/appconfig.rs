//! The configuration of the application: a JSON document that may name
//! the folder in which the notes are kept.

use crate::json::{Json, Member};
use vstd::prelude::*;

verus! {

/// The folder that `config` names for the notes, if it names one: the
/// member `notes_dir`, if it is a string.
pub open spec fn notes_dir_of(config: Json) -> Option<Seq<char>> {
    config.text_member("notes_dir"@)
}

/// Reads the folder for the notes from the configuration.
pub fn notes_dir(config: &Json) -> (dir: Option<String>)
    ensures
        dir is Some <==> notes_dir_of(*config) is Some,
        dir is Some ==> dir->0@ == notes_dir_of(*config)->0,
{
    match config.get_text("notes_dir") {
        Some(dir) => Some(dir.clone()),
        None => None,
    }
}

/// The members of a document without those called `name`.
pub open spec fn others(members: Seq<Member>, name: Seq<char>) -> Seq<Member> {
    members.filter(|m: Member| m.name@ != name)
}

/// The members of `config`; none if it is no object.
pub open spec fn members_of(config: Json) -> Seq<Member> {
    match config {
        Json::Object(members) => members@,
        _ => Seq::empty(),
    }
}

/// Whether `updated` is `config` with `path` as the folder for the notes:
/// an object with the other members of `config`, in their order, followed
/// by the member `notes_dir` with the string `path`. A `config` that is no
/// object counts as an empty one.
pub open spec fn names_notes_dir(updated: Json, config: Json, path: Seq<char>) -> bool {
    let kept = others(members_of(config), "notes_dir"@);
    &&& updated matches Json::Object(members)
    &&& members@.len() == kept.len() + 1
    &&& members@.take(kept.len() as int) == kept
    &&& members@.last().name@ == "notes_dir"@
    &&& members@.last().value.text() == Some(path)
}

/// Names `path` as the folder for the notes.
pub fn with_notes_dir(config: Json, path: String) -> (updated: Json)
    ensures
        names_notes_dir(updated, config, path@),
        notes_dir_of(updated) == Some(path@),
{
    let members = match config {
        Json::Object(members) => members,
        _ => Vec::new(),
    };
    let ghost all = members@;
    let ghost keep = |m: Member| m.name@ != "notes_dir"@;
    let mut kept: Vec<Member> = Vec::new();
    assert(all.take(0) =~= Seq::empty());
    assert(Seq::<Member>::empty().filter(keep) =~= Seq::empty()) by {
        reveal(Seq::filter);
    }
    for member in it: members
        invariant
            it.seq() == all,
            keep == |m: Member| m.name@ != "notes_dir"@,
            kept@ == all.take(it.index() as int).filter(keep),
    {
        proof {
            let seen = all.take(it.index() as int);
            assert(all.take(it.index() + 1) =~= seen.push(member));
            seen.lemma_filter_push(member, keep);
        }
        if !member.name.as_str().eq("notes_dir") {
            kept.push(member);
        }
    }
    assert(all.take(all.len() as int) =~= all);
    let ghost before = kept@;
    kept.push(Member { name: "notes_dir".to_owned(), value: Json::Text(path) });
    assert(kept@.take(before.len() as int) =~= before);
    assert(kept@.drop_last() =~= before);
    Json::Object(kept)
}

} // verus!

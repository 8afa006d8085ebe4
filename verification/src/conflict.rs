//! Conflicts that wait for the user. While a conflict is pending, the
//! local version of the file stands under the file's own name and the
//! remote version beside it in a sidecar file: the file's name with the
//! extension `conflict` in place of its own.
//!
//! A resolution says what becomes of the sidecar. The decision is made
//! here; the caller looks whether the sidecar exists and, if it does,
//! carries the decision out. A sidecar that is gone was resolved before,
//! and nothing is done.

use crate::error::{SyncError, SyncErrorView};
use crate::model::{ConflictResolution, ConflictResolutionView};
use crate::paths::{
    directory, extension, file_name, find_last, lemma_last_position, name_start, names_file, stem,
    stem_len,
};
use vstd::prelude::*;

verus! {

/// What is done with the sidecar of a conflict.
#[derive(Clone, Debug, PartialEq, Eq)]
pub enum SidecarAction {
    /// The sidecar is deleted.
    Delete,
    /// The sidecar is renamed to this path, replacing a file that stands
    /// there.
    MoveTo(String),
}

pub ghost enum SidecarActionView {
    Delete,
    MoveTo(Seq<char>),
}

impl View for SidecarAction {
    type V = SidecarActionView;

    open spec fn view(&self) -> SidecarActionView {
        match self {
            SidecarAction::Delete => SidecarActionView::Delete,
            SidecarAction::MoveTo(target) => SidecarActionView::MoveTo(target@),
        }
    }
}

/// A decision on a conflict: the sidecar it is about and what is done with
/// it. Both paths are below the sync root.
#[derive(Clone, Debug, PartialEq, Eq)]
pub struct Settlement {
    pub sidecar: String,
    pub action: SidecarAction,
}

pub ghost struct SettlementView {
    pub sidecar: Seq<char>,
    pub action: SidecarActionView,
}

impl View for Settlement {
    type V = SettlementView;

    open spec fn view(&self) -> SettlementView {
        SettlementView { sidecar: self.sidecar@, action: self.action@ }
    }
}

/// The sidecar of the file at `path`.
pub open spec fn sidecar_of(path: Seq<char>) -> Seq<char> {
    directory(path) + stem(file_name(path)) + ".conflict"@
}

/// Where the remote version goes when both versions are kept: beside the
/// file, under the file's stem followed by `_conflict`, a dot and the
/// file's extension.
pub open spec fn kept_copy_of(path: Seq<char>) -> Seq<char> {
    directory(path) + stem(file_name(path)) + "_conflict."@ + extension(file_name(path))
}

/// Whether `kind` is one of the three resolutions.
pub open spec fn known_resolution(kind: Seq<char>) -> bool {
    kind == "keep_local"@ || kind == "keep_remote"@ || kind == "keep_both"@
}

/// What `resolution` decides, or why it decides nothing.
pub open spec fn settlement_of(resolution: ConflictResolutionView) -> Result<
    SettlementView,
    SyncErrorView,
> {
    let path = resolution.file_path;
    if !known_resolution(resolution.resolution) {
        Err(SyncErrorView::InvalidArgument("Invalid resolution type"@))
    } else if !names_file(path) {
        Err(SyncErrorView::InvalidArgument("The path names no file"@))
    } else if resolution.resolution == "keep_local"@ {
        Ok(SettlementView { sidecar: sidecar_of(path), action: SidecarActionView::Delete })
    } else if resolution.resolution == "keep_remote"@ {
        Ok(SettlementView { sidecar: sidecar_of(path), action: SidecarActionView::MoveTo(path) })
    } else {
        Ok(
            SettlementView {
                sidecar: sidecar_of(path),
                action: SidecarActionView::MoveTo(kept_copy_of(path)),
            },
        )
    }
}

/// The view of what `settle` returns.
pub open spec fn settlement_view(result: Result<Settlement, SyncError>) -> Result<
    SettlementView,
    SyncErrorView,
> {
    match result {
        Ok(settlement) => Ok(settlement@),
        Err(e) => Err(e@),
    }
}

/// The parts of a path: where its last component begins, how long the
/// path is, and how long the stem of the last component is.
struct Parts {
    name_start: usize,
    len: usize,
    stem_len: usize,
}

fn split(path: &str) -> (parts: Parts)
    ensures
        parts.name_start == name_start(path@),
        parts.len == path@.len(),
        parts.stem_len == stem_len(file_name(path@)),
        parts.name_start + parts.stem_len <= parts.len,
{
    let len = path.unicode_len();
    let start = match find_last(path, '/') {
        Some(i) => i + 1,
        None => 0,
    };
    let name = path.substring_char(start, len);
    assert(name@ =~= file_name(path@));
    let name_len = len - start;
    proof {
        lemma_last_position(name@, '.');
    }
    let stem_len = match find_last(name, '.') {
        Some(i) => if i > 0 {
            i
        } else {
            name_len
        },
        None => name_len,
    };
    Parts { name_start: start, len, stem_len }
}

/// Decides what `resolution` does with the sidecar of its file.
pub fn settle(resolution: &ConflictResolution) -> (result: Result<Settlement, SyncError>)
    ensures
        settlement_view(result) == settlement_of(resolution@),
{
    let kind = resolution.resolution.as_str();
    let keep_local = kind.eq("keep_local");
    let keep_remote = kind.eq("keep_remote");
    let keep_both = kind.eq("keep_both");
    if !keep_local && !keep_remote && !keep_both {
        return Err(SyncError::InvalidArgument("Invalid resolution type".to_owned()));
    }
    let path = resolution.file_path.as_str();
    let parts = split(path);
    let name = path.substring_char(parts.name_start, parts.len);
    assert(name@ =~= file_name(path@));
    if parts.len == parts.name_start || name.eq(".") || name.eq("..") {
        return Err(SyncError::InvalidArgument("The path names no file".to_owned()));
    }
    let stem_end = parts.name_start + parts.stem_len;
    let mut sidecar = path.substring_char(0, stem_end).to_owned();
    assert(path@.subrange(0, stem_end as int) =~= directory(path@) + stem(file_name(path@)));
    sidecar.append(".conflict");
    if keep_local {
        Ok(Settlement { sidecar, action: SidecarAction::Delete })
    } else if keep_remote {
        Ok(Settlement { sidecar, action: SidecarAction::MoveTo(path.to_owned()) })
    } else {
        let mut copy = path.substring_char(0, stem_end).to_owned();
        copy.append("_conflict.");
        if parts.stem_len < parts.len - parts.name_start {
            let ext = path.substring_char(stem_end + 1, parts.len);
            assert(ext@ =~= extension(file_name(path@)));
            copy.append(ext);
        } else {
            assert(copy@ + extension(file_name(path@)) =~= copy@);
        }
        Ok(Settlement { sidecar, action: SidecarAction::MoveTo(copy) })
    }
}

/// The files under the root after `settlement` was carried out on the
/// files `files`: nothing changes unless the sidecar is among them.
pub open spec fn files_after(files: Set<Seq<char>>, settlement: SettlementView) -> Set<Seq<char>> {
    if files.contains(settlement.sidecar) {
        match settlement.action {
            SidecarActionView::Delete => files.remove(settlement.sidecar),
            SidecarActionView::MoveTo(target) => files.remove(settlement.sidecar).insert(target),
        }
    } else {
        files
    }
}

/// An unknown resolution decides nothing, so no file is touched.
pub proof fn lemma_unknown_resolution_is_rejected(resolution: ConflictResolutionView)
    requires
        !known_resolution(resolution.resolution),
    ensures
        settlement_of(resolution) == Err::<SettlementView, SyncErrorView>(
            SyncErrorView::InvalidArgument("Invalid resolution type"@),
        ),
{
}

/// The copy that `keep_both` makes never takes the place of the sidecar
/// or of the file itself.
pub proof fn lemma_kept_copy_is_new(path: Seq<char>)
    ensures
        kept_copy_of(path) != sidecar_of(path),
        kept_copy_of(path) != path,
{
    reveal_strlit("_conflict.");
    reveal_strlit(".conflict");
    let name = file_name(path);
    let front = directory(path) + stem(name);
    let copy = kept_copy_of(path);
    let sidecar = sidecar_of(path);
    lemma_last_position(path, '/');
    lemma_last_position(name, '.');
    assert(0 <= name_start(path) <= path.len());
    assert(0 <= stem_len(name) <= name.len());
    assert(front.len() == name_start(path) + stem_len(name));
    assert(copy[front.len() as int] == '_');
    assert(sidecar[front.len() as int] == '.');
    assert(copy.len() == front.len() + 10 + extension(name).len());
    if stem_len(name) < name.len() {
        assert(path.len() == front.len() + 1 + extension(name).len());
    } else {
        assert(path.len() == front.len());
    }
}

/// Keeping both versions leaves the file as it is, puts the remote version
/// beside it and removes the sidecar. It holds for every file whose
/// sidecar is not the file itself.
pub proof fn lemma_keep_both(files: Set<Seq<char>>, path: Seq<char>)
    requires
        names_file(path),
        sidecar_of(path) != path,
        files.contains(path),
        files.contains(sidecar_of(path)),
    ensures
        settlement_of(
            ConflictResolutionView { file_path: path, resolution: "keep_both"@ },
        ) matches Ok(settlement) && {
            let after = files_after(files, settlement);
            &&& after.contains(path)
            &&& after.contains(kept_copy_of(path))
            &&& !after.contains(sidecar_of(path))
            &&& files == set![path, sidecar_of(path)] ==> after == set![path, kept_copy_of(path)]
        },
{
    reveal_strlit("keep_both");
    reveal_strlit("keep_local");
    reveal_strlit("keep_remote");
    lemma_kept_copy_is_new(path);
    let resolution = ConflictResolutionView { file_path: path, resolution: "keep_both"@ };
    assert("keep_both"@ != "keep_local"@) by {
        assert("keep_both"@[5] != "keep_local"@[5]);
    }
    assert("keep_both"@ != "keep_remote"@) by {
        assert("keep_both"@[5] != "keep_remote"@[5]);
    }
    let settlement = settlement_of(resolution)->Ok_0;
    let after = files_after(files, settlement);
    if files == set![path, sidecar_of(path)] {
        assert(after =~= set![path, kept_copy_of(path)]);
    }
}

/// A conflict is resolved once: carrying the same decision out again
/// changes nothing, unless the decision puts the remote version where the
/// sidecar stands.
pub proof fn lemma_settled_once(files: Set<Seq<char>>, settlement: SettlementView)
    requires
        settlement.action != SidecarActionView::MoveTo(settlement.sidecar),
    ensures
        files_after(files_after(files, settlement), settlement) == files_after(files, settlement),
{
}

} // verus!

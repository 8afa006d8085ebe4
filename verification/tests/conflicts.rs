use azimuth::conflict::{settle, Settlement, SidecarAction};
use azimuth::error::SyncError;
use azimuth::model::ConflictResolution;
use std::collections::BTreeSet;

fn resolution(path: &str, kind: &str) -> ConflictResolution {
    ConflictResolution { file_path: path.to_string(), resolution: kind.to_string() }
}

/// Carries a settlement out on a set of file names, as a file system
/// would.
fn carry_out(files: &mut BTreeSet<String>, settlement: &Settlement) {
    if files.remove(&settlement.sidecar) {
        match &settlement.action {
            SidecarAction::Delete => {}
            SidecarAction::MoveTo(target) => {
                files.insert(target.clone());
            }
        }
    }
}

fn set(names: &[&str]) -> BTreeSet<String> {
    names.iter().map(|n| n.to_string()).collect()
}

#[test]
fn keep_both_leaves_two_files_and_no_sidecar() {
    let mut files = set(&["notes/name.ext", "notes/name.conflict"]);
    let settlement = settle(&resolution("notes/name.ext", "keep_both")).unwrap();
    assert_eq!(
        settlement,
        Settlement {
            sidecar: "notes/name.conflict".to_string(),
            action: SidecarAction::MoveTo("notes/name_conflict.ext".to_string()),
        }
    );
    carry_out(&mut files, &settlement);
    assert_eq!(files, set(&["notes/name.ext", "notes/name_conflict.ext"]));
}

#[test]
fn keep_local_deletes_the_sidecar() {
    let mut files = set(&["a.md", "a.conflict", "b.md"]);
    let settlement = settle(&resolution("a.md", "keep_local")).unwrap();
    assert_eq!(
        settlement,
        Settlement { sidecar: "a.conflict".to_string(), action: SidecarAction::Delete }
    );
    carry_out(&mut files, &settlement);
    assert_eq!(files, set(&["a.md", "b.md"]));
}

#[test]
fn keep_remote_puts_the_sidecar_in_place_of_the_file() {
    let mut files = set(&["dir/a.md", "dir/a.conflict"]);
    let settlement = settle(&resolution("dir/a.md", "keep_remote")).unwrap();
    assert_eq!(
        settlement,
        Settlement {
            sidecar: "dir/a.conflict".to_string(),
            action: SidecarAction::MoveTo("dir/a.md".to_string()),
        }
    );
    carry_out(&mut files, &settlement);
    assert_eq!(files, set(&["dir/a.md"]));
}

#[test]
fn unknown_resolution_is_an_invalid_argument() {
    for kind in ["", "keep", "KEEP_LOCAL", "keep_both ", "merge", "keep_locale"] {
        let result = settle(&resolution("notes/a.md", kind));
        assert_eq!(
            result,
            Err(SyncError::InvalidArgument("Invalid resolution type".to_string()))
        );
    }
}

#[test]
fn unknown_resolution_leaves_the_files_alone() {
    let files = set(&["a.md", "a.conflict"]);
    let before = files.clone();
    let result = settle(&resolution("a.md", "keep_everything"));
    assert!(result.is_err());
    assert_eq!(files, before);
}

#[test]
fn a_path_without_file_name_is_an_invalid_argument() {
    for path in ["", "notes/", "..", "notes/..", ".", "a/."] {
        for kind in ["keep_local", "keep_remote", "keep_both"] {
            assert_eq!(
                settle(&resolution(path, kind)),
                Err(SyncError::InvalidArgument("The path names no file".to_string()))
            );
        }
    }
}

#[test]
fn resolving_twice_changes_nothing_more() {
    let mut files = set(&["a.md", "a.conflict"]);
    let settlement = settle(&resolution("a.md", "keep_both")).unwrap();
    carry_out(&mut files, &settlement);
    let once = files.clone();
    carry_out(&mut files, &settlement);
    assert_eq!(files, once);
    assert_eq!(files, set(&["a.md", "a_conflict.md"]));
}

#[test]
fn resolving_without_sidecar_changes_nothing() {
    let mut files = set(&["a.md"]);
    let settlement = settle(&resolution("a.md", "keep_remote")).unwrap();
    carry_out(&mut files, &settlement);
    assert_eq!(files, set(&["a.md"]));
}

#[test]
fn only_the_last_extension_is_replaced() {
    let settlement = settle(&resolution("a/archive.tar.gz", "keep_both")).unwrap();
    assert_eq!(settlement.sidecar, "a/archive.tar.conflict");
    assert_eq!(settlement.action, SidecarAction::MoveTo("a/archive.tar_conflict.gz".to_string()));
}

#[test]
fn a_file_without_extension_gets_one() {
    let settlement = settle(&resolution("docs/README", "keep_both")).unwrap();
    assert_eq!(settlement.sidecar, "docs/README.conflict");
    assert_eq!(settlement.action, SidecarAction::MoveTo("docs/README_conflict.".to_string()));
}

#[test]
fn a_leading_dot_is_part_of_the_stem() {
    let settlement = settle(&resolution("x/.profile", "keep_both")).unwrap();
    assert_eq!(settlement.sidecar, "x/.profile.conflict");
    assert_eq!(settlement.action, SidecarAction::MoveTo("x/.profile_conflict.".to_string()));
}

#[test]
fn a_dot_in_a_folder_name_is_no_extension() {
    let settlement = settle(&resolution("v1.2/notes", "keep_local")).unwrap();
    assert_eq!(settlement.sidecar, "v1.2/notes.conflict");
}

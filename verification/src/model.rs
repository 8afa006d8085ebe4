//! What a synchronisation pass reports and what a conflict resolution asks.

use vstd::prelude::*;

verus! {

/// The result of a synchronisation pass.
#[derive(Clone, Debug, PartialEq, Eq)]
pub struct SyncStatus {
    pub success: bool,
    pub message: String,
    pub files_uploaded: usize,
    pub files_downloaded: usize,
    pub conflicts: Vec<SyncConflict>,
}

/// A path whose local and remote content have diverged.
#[derive(Clone, Debug, PartialEq, Eq)]
pub struct SyncConflict {
    pub file_path: String,
    pub local_modified: String,
    pub remote_modified: String,
    pub local_hash: String,
    pub remote_hash: String,
}

/// How the user wants a conflict settled: `resolution` is `keep_local`,
/// `keep_remote` or `keep_both`.
#[derive(Clone, Debug, PartialEq, Eq)]
pub struct ConflictResolution {
    pub file_path: String,
    pub resolution: String,
}

pub ghost struct SyncConflictView {
    pub file_path: Seq<char>,
    pub local_modified: Seq<char>,
    pub remote_modified: Seq<char>,
    pub local_hash: Seq<char>,
    pub remote_hash: Seq<char>,
}

pub ghost struct SyncStatusView {
    pub success: bool,
    pub message: Seq<char>,
    pub files_uploaded: nat,
    pub files_downloaded: nat,
    pub conflicts: Seq<SyncConflictView>,
}

pub ghost struct ConflictResolutionView {
    pub file_path: Seq<char>,
    pub resolution: Seq<char>,
}

impl View for SyncConflict {
    type V = SyncConflictView;

    open spec fn view(&self) -> SyncConflictView {
        SyncConflictView {
            file_path: self.file_path@,
            local_modified: self.local_modified@,
            remote_modified: self.remote_modified@,
            local_hash: self.local_hash@,
            remote_hash: self.remote_hash@,
        }
    }
}

impl DeepView for SyncConflict {
    type V = SyncConflictView;

    open spec fn deep_view(&self) -> SyncConflictView {
        self@
    }
}

impl View for SyncStatus {
    type V = SyncStatusView;

    open spec fn view(&self) -> SyncStatusView {
        SyncStatusView {
            success: self.success,
            message: self.message@,
            files_uploaded: self.files_uploaded as nat,
            files_downloaded: self.files_downloaded as nat,
            conflicts: self.conflicts.deep_view(),
        }
    }
}

impl View for ConflictResolution {
    type V = ConflictResolutionView;

    open spec fn view(&self) -> ConflictResolutionView {
        ConflictResolutionView { file_path: self.file_path@, resolution: self.resolution@ }
    }
}

} // verus!

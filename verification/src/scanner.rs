//! The local listing: one record for every file under the root that is
//! synchronised.
//!
//! Walking the directory tree and reading the files is left to the caller,
//! who hands over what was found. A file is listed unless it is hidden, is
//! the sidecar of a conflict, or could not be read.

use crate::hasher::{fingerprint, hash_bytes};
use crate::manifest::{distinct_paths, FileRecord, FileRecordView};
use crate::paths::{hidden, is_synced_path, normalize_separators, normalized, sidecar, synced};
use vstd::prelude::*;

verus! {

/// A file found under the root.
#[derive(Clone, Debug, PartialEq, Eq)]
pub struct ScannedFile {
    /// Path below the root, as the host writes it.
    pub relative_path: String,
    /// The file's bytes, or `None` if they could not be read.
    pub content: Option<Vec<u8>>,
    /// When the file was last written.
    pub modified_at: String,
}

pub ghost struct ScannedFileView {
    pub relative_path: Seq<char>,
    pub content: Option<Seq<u8>>,
    pub modified_at: Seq<char>,
}

impl View for ScannedFile {
    type V = ScannedFileView;

    open spec fn view(&self) -> ScannedFileView {
        ScannedFileView {
            relative_path: self.relative_path@,
            content: match self.content {
                Some(bytes) => Some(bytes@),
                None => None,
            },
            modified_at: self.modified_at@,
        }
    }
}

impl DeepView for ScannedFile {
    type V = ScannedFileView;

    open spec fn deep_view(&self) -> ScannedFileView {
        self@
    }
}

/// Whether a file that was found gets a record.
pub open spec fn listed(file: ScannedFileView) -> bool {
    synced(normalized(file.relative_path)) && file.content is Some
}

/// The record of a file that is listed.
pub open spec fn record_of(file: ScannedFileView) -> FileRecordView {
    FileRecordView {
        relative_path: normalized(file.relative_path),
        content_hash: fingerprint(file.content->0),
        modified_at: file.modified_at,
    }
}

/// The listing for the files that were found: the records of the files
/// that are listed, in the order in which the files were found.
pub open spec fn listing_of(found: Seq<ScannedFileView>) -> Seq<FileRecordView> {
    found.filter(|f: ScannedFileView| listed(f)).map_values(|f: ScannedFileView| record_of(f))
}

/// No two of the files that were found have the same path once the
/// separators are normalised.
pub open spec fn distinct_files(found: Seq<ScannedFileView>) -> bool {
    forall|i: int, j: int|
        0 <= i < j < found.len() ==> normalized((#[trigger] found[i]).relative_path) != normalized(
            (#[trigger] found[j]).relative_path,
        )
}

/// Builds the local listing from the files found under the root.
pub fn scan(found: &Vec<ScannedFile>) -> (records: Vec<FileRecord>)
    ensures
        records.deep_view() == listing_of(found.deep_view()),
        forall|k: int|
            0 <= k < records.len() ==> !hidden((#[trigger] records.deep_view()[k]).relative_path)
                && !sidecar(records.deep_view()[k].relative_path),
        distinct_files(found.deep_view()) ==> distinct_paths(records.deep_view()),
{
    let ghost all = found.deep_view();
    let ghost keep = |f: ScannedFileView| listed(f);
    let ghost make = |f: ScannedFileView| record_of(f);
    let mut records: Vec<FileRecord> = Vec::new();
    let ghost mut origin: Seq<int> = Seq::empty();
    let mut i: usize = 0;
    assert(all.take(0) =~= Seq::empty());
    assert(Seq::<ScannedFileView>::empty().filter(keep) =~= Seq::empty()) by {
        reveal(Seq::filter);
    }
    while i < found.len()
        invariant
            i <= found.len(),
            all == found.deep_view(),
            keep == |f: ScannedFileView| listed(f),
            make == |f: ScannedFileView| record_of(f),
            records.deep_view() == all.take(i as int).filter(keep).map_values(make),
            origin.len() == records.len(),
            forall|k: int|
                0 <= k < origin.len() ==> 0 <= #[trigger] origin[k] < i && listed(all[origin[k]])
                    && records.deep_view()[k] == record_of(all[origin[k]]),
            forall|k: int, m: int| 0 <= k < m < origin.len() ==> origin[k] < origin[m],
        decreases found.len() - i,
    {
        let file = &found[i];
        let path = normalize_separators(file.relative_path.as_str());
        let is_synced = is_synced_path(path.as_str());
        proof {
            let before = all.take(i as int);
            assert(all.take(i + 1) =~= before.push(all[i as int]));
            before.lemma_filter_push(all[i as int], keep);
            before.filter(keep).lemma_push_map_commute(make, all[i as int]);
        }
        if is_synced {
            match &file.content {
                Some(bytes) => {
                    let ghost old_records = records.deep_view();
                    let record = FileRecord {
                        relative_path: path,
                        content_hash: hash_bytes(bytes.as_slice()),
                        modified_at: file.modified_at.clone(),
                    };
                    assert(record@ == record_of(all[i as int]));
                    records.push(record);
                    assert(records.deep_view() =~= old_records.push(record_of(all[i as int])));
                    proof {
                        origin = origin.push(i as int);
                    }
                },
                None => {},
            }
        }
        i += 1;
    }
    assert(all.take(found.len() as int) =~= all);
    proof {
        if distinct_files(all) {
            assert forall|k: int, m: int| 0 <= k < m < records.len() implies (
            #[trigger] records.deep_view()[k]).relative_path != (
            #[trigger] records.deep_view()[m]).relative_path by {
                assert(origin[k] < origin[m]);
                assert(normalized(all[origin[k]].relative_path) != normalized(
                    all[origin[m]].relative_path,
                ));
            }
        }
    }
    records
}

} // verus!

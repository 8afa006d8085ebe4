//! The two listings a synchronisation pass compares: the files under the
//! local root and the objects held by the remote store.

use vstd::prelude::*;

verus! {

/// One file under the sync root.
#[derive(Clone, Debug, PartialEq, Eq)]
pub struct FileRecord {
    /// Path below the root, with `/` between components.
    pub relative_path: String,
    /// Fingerprint of the file's bytes.
    pub content_hash: String,
    /// When the file was last written, as the file system reports it.
    pub modified_at: String,
}

/// One object held by the remote store.
#[derive(Clone, Debug, PartialEq, Eq)]
pub struct RemoteObjectRecord {
    /// The object's name in the store.
    pub key: String,
    /// What the store reports about the content. Two tags are only ever
    /// compared for equality.
    pub content_tag: String,
}

pub ghost struct FileRecordView {
    pub relative_path: Seq<char>,
    pub content_hash: Seq<char>,
    pub modified_at: Seq<char>,
}

pub ghost struct RemoteObjectView {
    pub key: Seq<char>,
    pub content_tag: Seq<char>,
}

impl View for FileRecord {
    type V = FileRecordView;

    open spec fn view(&self) -> FileRecordView {
        FileRecordView {
            relative_path: self.relative_path@,
            content_hash: self.content_hash@,
            modified_at: self.modified_at@,
        }
    }
}

impl DeepView for FileRecord {
    type V = FileRecordView;

    open spec fn deep_view(&self) -> FileRecordView {
        self@
    }
}

impl View for RemoteObjectRecord {
    type V = RemoteObjectView;

    open spec fn view(&self) -> RemoteObjectView {
        RemoteObjectView { key: self.key@, content_tag: self.content_tag@ }
    }
}

impl DeepView for RemoteObjectRecord {
    type V = RemoteObjectView;

    open spec fn deep_view(&self) -> RemoteObjectView {
        self@
    }
}

/// No two records of a local listing name the same path.
pub open spec fn distinct_paths(local: Seq<FileRecordView>) -> bool {
    forall|i: int, j: int|
        0 <= i < j < local.len() ==> (#[trigger] local[i]).relative_path != (
        #[trigger] local[j]).relative_path
}

/// No two records of a remote listing name the same key.
pub open spec fn distinct_keys(remote: Seq<RemoteObjectView>) -> bool {
    forall|i: int, j: int|
        0 <= i < j < remote.len() ==> (#[trigger] remote[i]).key != (#[trigger] remote[j]).key
}

/// Whether the local listing has a record for `path`.
pub open spec fn has_path(local: Seq<FileRecordView>, path: Seq<char>) -> bool {
    exists|i: int| 0 <= i < local.len() && (#[trigger] local[i]).relative_path == path
}

/// The tag the remote listing reports for `key`: that of the last record
/// with this key, if there is one.
pub open spec fn tag_of(remote: Seq<RemoteObjectView>, key: Seq<char>) -> Option<Seq<char>>
    decreases remote.len(),
{
    if remote.len() == 0 {
        None
    } else if remote.last().key == key {
        Some(remote.last().content_tag)
    } else {
        tag_of(remote.drop_last(), key)
    }
}

/// The fingerprint the local listing holds for `path`: that of the last
/// record with this path, if there is one.
pub open spec fn hash_of(local: Seq<FileRecordView>, path: Seq<char>) -> Option<Seq<char>>
    decreases local.len(),
{
    if local.len() == 0 {
        None
    } else if local.last().relative_path == path {
        Some(local.last().content_hash)
    } else {
        hash_of(local.drop_last(), path)
    }
}

/// A tag is reported for exactly the keys that occur in the listing, and it
/// is the tag of a record with that key.
pub proof fn lemma_tag_of(remote: Seq<RemoteObjectView>, key: Seq<char>)
    ensures
        tag_of(remote, key) is Some <==> exists|j: int|
            0 <= j < remote.len() && (#[trigger] remote[j]).key == key,
        tag_of(remote, key) is Some ==> exists|j: int|
            0 <= j < remote.len() && (#[trigger] remote[j]).key == key && tag_of(remote, key)
                == Some(remote[j].content_tag),
    decreases remote.len(),
{
    if remote.len() > 0 {
        let rest = remote.drop_last();
        lemma_tag_of(rest, key);
        if remote.last().key == key {
            assert(remote[remote.len() - 1].key == key);
        } else {
            if tag_of(rest, key) is Some {
                let j = choose|j: int|
                    0 <= j < rest.len() && (#[trigger] rest[j]).key == key && tag_of(rest, key)
                        == Some(rest[j].content_tag);
                assert(remote[j].key == key);
            }
            if exists|j: int| 0 <= j < remote.len() && (#[trigger] remote[j]).key == key {
                let j = choose|j: int| 0 <= j < remote.len() && (#[trigger] remote[j]).key == key;
                assert(rest[j].key == key);
            }
        }
    }
}

/// A fingerprint is held for exactly the paths that occur in the listing,
/// and it is the fingerprint of a record with that path.
pub proof fn lemma_hash_of(local: Seq<FileRecordView>, path: Seq<char>)
    ensures
        hash_of(local, path) is Some <==> has_path(local, path),
        hash_of(local, path) is Some ==> exists|i: int|
            0 <= i < local.len() && (#[trigger] local[i]).relative_path == path && hash_of(
                local,
                path,
            ) == Some(local[i].content_hash),
    decreases local.len(),
{
    if local.len() > 0 {
        let rest = local.drop_last();
        lemma_hash_of(rest, path);
        if local.last().relative_path == path {
            assert(local[local.len() - 1].relative_path == path);
        } else {
            if hash_of(rest, path) is Some {
                let i = choose|i: int|
                    0 <= i < rest.len() && (#[trigger] rest[i]).relative_path == path && hash_of(
                        rest,
                        path,
                    ) == Some(rest[i].content_hash);
                assert(local[i].relative_path == path);
            }
            if has_path(local, path) {
                let i = choose|i: int|
                    0 <= i < local.len() && (#[trigger] local[i]).relative_path == path;
                assert(rest[i].relative_path == path);
            }
        }
    }
}

/// Looks `path` up in the local listing.
pub fn contains_path(local: &Vec<FileRecord>, path: &str) -> (found: bool)
    ensures
        found == has_path(local.deep_view(), path@),
{
    let mut i: usize = 0;
    while i < local.len()
        invariant
            i <= local.len(),
            forall|k: int| 0 <= k < i ==> (#[trigger] local.deep_view()[k]).relative_path != path@,
        decreases local.len() - i,
    {
        if local[i].relative_path.as_str().eq(path) {
            assert(local.deep_view()[i as int].relative_path == path@);
            return true;
        }
        i += 1;
    }
    false
}

/// Looks `key` up in the remote listing and returns the tag stored with it.
pub fn find_tag<'a>(remote: &'a Vec<RemoteObjectRecord>, key: &str) -> (tag: Option<&'a String>)
    ensures
        tag is Some <==> tag_of(remote.deep_view(), key@) is Some,
        tag is Some ==> tag->0@ == tag_of(remote.deep_view(), key@)->0,
{
    let mut i: usize = remote.len();
    assert(remote.deep_view().take(i as int) =~= remote.deep_view());
    while i > 0
        invariant
            i <= remote.len(),
            tag_of(remote.deep_view(), key@) == tag_of(remote.deep_view().take(i as int), key@),
        decreases i,
    {
        let ghost prefix = remote.deep_view().take(i as int);
        assert(prefix.last() == remote.deep_view()[i - 1]);
        assert(prefix.drop_last() =~= remote.deep_view().take(i - 1));
        i -= 1;
        if remote[i].key.as_str().eq(key) {
            return Some(&remote[i].content_tag);
        }
    }
    None
}

} // verus!

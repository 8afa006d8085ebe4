//! Reconciliation: which files a pass sends to the store and which objects
//! it fetches from it.
//!
//! A local file is sent when the store has no object under its path or
//! reports another tag than the file's fingerprint. An object of the store
//! is fetched when no local file has its key. The one object that is
//! neither sent nor fetched is the index in which the library keeps the
//! tags for a store that reports none: it is the library's own and no
//! note.
//!
//! A path that both sides know with differing content is always settled in
//! favour of the local file, and no conflict is raised for it. This is a
//! decision, not an omission. A tag that differs from the fingerprint
//! need not show that the object was changed by someone else: a store may
//! tag with a digest of its own, and a file that is new to the index of a
//! store without tags has no tag yet. Raising a conflict for every
//! difference would raise one for files that nobody touched.
//!
//! Where the tag is the fingerprint, a second pass right after a first
//! finds nothing to do, as `lemma_second_pass_transfers_nothing` shows. For
//! the stores that report no tag of their own, the fingerprints are kept
//! in an index in the store, so that it is so for them too.

use crate::manifest::{
    contains_path, distinct_keys, distinct_paths, find_tag, has_path, hash_of, lemma_hash_of,
    lemma_tag_of, tag_of, FileRecord, FileRecordView, RemoteObjectRecord, RemoteObjectView,
};
use crate::lists::{kept_image, lemma_filter_map_distinct, lemma_filter_map_values};
use crate::text::contains_char;
use vstd::prelude::*;

verus! {

/// The kinds of remote store.
#[derive(Clone, Copy, Debug, PartialEq, Eq, Structural)]
pub enum Provider {
    S3,
    Dropbox,
    OneDrive,
    GoogleDrive,
}

/// The key of the index in which the tags are kept for a store that
/// reports none.
pub open spec fn index_key() -> Seq<char> {
    ".azimuth_tags.json"@
}

impl Provider {
    /// Whether the tags of this store are kept in an index in the store.
    /// Dropbox and OneDrive report no tag that can be compared with a
    /// fingerprint.
    pub open spec fn keeps_index(self) -> bool {
        self == Provider::Dropbox || self == Provider::OneDrive
    }

    /// Whether `key` is kept for the library's own use in this store: it
    /// is the key of the index, in a store that keeps one.
    pub open spec fn reserves(self, key: Seq<char>) -> bool {
        self.keeps_index() && key == index_key()
    }

    /// Whether files below the top level of the root are sent to this
    /// store. Google Drive holds the files of the root itself only.
    pub open spec fn sends_nested(self) -> bool {
        self != Provider::GoogleDrive
    }

    /// Whether objects are fetched from this store. Nothing is fetched from
    /// Google Drive.
    pub open spec fn fetches(self) -> bool {
        self != Provider::GoogleDrive
    }

    /// Whether a file at `path` is within what this store is sent.
    pub open spec fn in_scope(self, path: Seq<char>) -> bool {
        !self.reserves(path) && (self.sends_nested() || !path.contains('/'))
    }

    /// Whether an object with the key `key` is within what is fetched
    /// from this store.
    pub open spec fn fetched(self, key: Seq<char>) -> bool {
        self.fetches() && !self.reserves(key)
    }
}

/// Whether the file `record` has to be sent, given what the store lists.
pub open spec fn needs_upload(record: FileRecordView, remote: Seq<RemoteObjectView>) -> bool {
    match tag_of(remote, record.relative_path) {
        None => true,
        Some(tag) => tag != record.content_hash,
    }
}

/// The paths to send, in the order of the local listing.
pub open spec fn upload_paths(
    provider: Provider,
    local: Seq<FileRecordView>,
    remote: Seq<RemoteObjectView>,
) -> Seq<Seq<char>> {
    local.filter(
        |r: FileRecordView| provider.in_scope(r.relative_path) && needs_upload(r, remote),
    ).map_values(|r: FileRecordView| r.relative_path)
}

/// The keys to fetch, in the order of the remote listing.
pub open spec fn download_keys(
    provider: Provider,
    local: Seq<FileRecordView>,
    remote: Seq<RemoteObjectView>,
) -> Seq<Seq<char>> {
    remote.filter(|o: RemoteObjectView| provider.fetched(o.key) && !has_path(local, o.key)).map_values(
        |o: RemoteObjectView| o.key,
    )
}

/// The transfers of one pass.
#[derive(Clone, Debug, PartialEq, Eq)]
pub struct SyncPlan {
    /// Paths of the local files to send.
    pub uploads: Vec<String>,
    /// Keys of the remote objects to fetch.
    pub downloads: Vec<String>,
}

pub ghost struct SyncPlanView {
    pub uploads: Seq<Seq<char>>,
    pub downloads: Seq<Seq<char>>,
}

impl View for SyncPlan {
    type V = SyncPlanView;

    open spec fn view(&self) -> SyncPlanView {
        SyncPlanView { uploads: self.uploads.deep_view(), downloads: self.downloads.deep_view() }
    }
}

/// The plan for the listings `local` and `remote`.
pub open spec fn plan_of(
    provider: Provider,
    local: Seq<FileRecordView>,
    remote: Seq<RemoteObjectView>,
) -> SyncPlanView {
    SyncPlanView {
        uploads: upload_paths(provider, local, remote),
        downloads: download_keys(provider, local, remote),
    }
}

/// Compares the two listings and decides the transfers of a pass.
pub fn plan_sync(provider: Provider, local: &Vec<FileRecord>, remote: &Vec<RemoteObjectRecord>) -> (plan:
    SyncPlan)
    ensures
        plan@ == plan_of(provider, local.deep_view(), remote.deep_view()),
{
    let nested = !matches!(provider, Provider::GoogleDrive);
    let fetches = !matches!(provider, Provider::GoogleDrive);
    let keeps_index = matches!(provider, Provider::Dropbox) || matches!(
        provider,
        Provider::OneDrive,
    );
    let ghost l = local.deep_view();
    let ghost r = remote.deep_view();
    let ghost keep = |x: FileRecordView| provider.in_scope(x.relative_path) && needs_upload(x, r);
    let ghost path = |x: FileRecordView| x.relative_path;
    let mut uploads: Vec<String> = Vec::new();
    let mut i: usize = 0;
    assert(l.take(0) =~= Seq::empty());
    assert(Seq::<FileRecordView>::empty().filter(keep) =~= Seq::empty()) by {
        reveal(Seq::filter);
    }
    while i < local.len()
        invariant
            i <= local.len(),
            l == local.deep_view(),
            r == remote.deep_view(),
            nested == provider.sends_nested(),
            keeps_index == provider.keeps_index(),
            keep == |x: FileRecordView| provider.in_scope(x.relative_path) && needs_upload(x, r),
            path == |x: FileRecordView| x.relative_path,
            uploads.deep_view() == l.take(i as int).filter(keep).map_values(path),
        decreases local.len() - i,
    {
        let record = &local[i];
        let name = record.relative_path.as_str();
        let reserved = keeps_index && name.eq(".azimuth_tags.json");
        let in_scope = !reserved && (nested || !contains_char(name, '/'));
        let wanted = in_scope && match find_tag(remote, name) {
            None => true,
            Some(tag) => !tag.as_str().eq(record.content_hash.as_str()),
        };
        proof {
            let before = l.take(i as int);
            assert(l.take(i + 1) =~= before.push(l[i as int]));
            before.lemma_filter_push(l[i as int], keep);
            before.filter(keep).lemma_push_map_commute(path, l[i as int]);
            assert(wanted == keep(l[i as int]));
        }
        if wanted {
            let ghost old_uploads = uploads.deep_view();
            uploads.push(record.relative_path.clone());
            assert(uploads.deep_view() =~= old_uploads.push(l[i as int].relative_path));
        }
        i += 1;
    }
    assert(l.take(local.len() as int) =~= l);

    let ghost missing = |o: RemoteObjectView| provider.fetched(o.key) && !has_path(l, o.key);
    let ghost key = |o: RemoteObjectView| o.key;
    let mut downloads: Vec<String> = Vec::new();
    let mut j: usize = 0;
    assert(r.take(0) =~= Seq::empty());
    assert(Seq::<RemoteObjectView>::empty().filter(missing) =~= Seq::empty()) by {
        reveal(Seq::filter);
    }
    while j < remote.len()
        invariant
            j <= remote.len(),
            l == local.deep_view(),
            r == remote.deep_view(),
            fetches == provider.fetches(),
            keeps_index == provider.keeps_index(),
            missing == |o: RemoteObjectView| provider.fetched(o.key) && !has_path(l, o.key),
            key == |o: RemoteObjectView| o.key,
            downloads.deep_view() == r.take(j as int).filter(missing).map_values(key),
        decreases remote.len() - j,
    {
        let object = &remote[j];
        let name = object.key.as_str();
        let reserved = keeps_index && name.eq(".azimuth_tags.json");
        let wanted = fetches && !reserved && !contains_path(local, name);
        proof {
            let before = r.take(j as int);
            assert(r.take(j + 1) =~= before.push(r[j as int]));
            before.lemma_filter_push(r[j as int], missing);
            before.filter(missing).lemma_push_map_commute(key, r[j as int]);
            assert(wanted == missing(r[j as int]));
        }
        if wanted {
            let ghost old_downloads = downloads.deep_view();
            downloads.push(object.key.clone());
            assert(downloads.deep_view() =~= old_downloads.push(r[j as int].key));
        }
        j += 1;
    }
    assert(r.take(remote.len() as int) =~= r);
    SyncPlan { uploads, downloads }
}

/// A path is sent exactly if a local record names it, the store is sent
/// files at this path, and the store lacks the record's content.
pub proof fn lemma_upload_paths_contains(
    provider: Provider,
    local: Seq<FileRecordView>,
    remote: Seq<RemoteObjectView>,
    path: Seq<char>,
)
    ensures
        upload_paths(provider, local, remote).contains(path) <==> provider.in_scope(path) && exists|
            i: int,
        |
            0 <= i < local.len() && (#[trigger] local[i]).relative_path == path && needs_upload(
                local[i],
                remote,
            ),
{
    let keep = |r: FileRecordView| provider.in_scope(r.relative_path) && needs_upload(r, remote);
    let f = |r: FileRecordView| r.relative_path;
    lemma_filter_map_values(local, keep, f);
    assert(upload_paths(provider, local, remote).contains(path) <==> kept_image(
        local,
        keep,
        f,
        path,
    ));
    if kept_image(local, keep, f, path) {
        let i = choose|i: int| 0 <= i < local.len() && keep(local[i]) && #[trigger] f(local[i]) == path;
        assert(local[i].relative_path == path && needs_upload(local[i], remote));
    }
    if provider.in_scope(path) && exists|i: int|
        0 <= i < local.len() && (#[trigger] local[i]).relative_path == path && needs_upload(
            local[i],
            remote,
        ) {
        let i = choose|i: int|
            0 <= i < local.len() && (#[trigger] local[i]).relative_path == path && needs_upload(
                local[i],
                remote,
            );
        assert(keep(local[i]) && f(local[i]) == path);
    }
}

/// A key is fetched exactly if objects with this key are fetched from the
/// store, the store lists the key, and no local record has it.
pub proof fn lemma_download_keys_contains(
    provider: Provider,
    local: Seq<FileRecordView>,
    remote: Seq<RemoteObjectView>,
    key: Seq<char>,
)
    ensures
        download_keys(provider, local, remote).contains(key) <==> provider.fetched(key)
            && !has_path(local, key) && exists|j: int|
            0 <= j < remote.len() && (#[trigger] remote[j]).key == key,
{
    let keep = |o: RemoteObjectView| provider.fetched(o.key) && !has_path(local, o.key);
    let f = |o: RemoteObjectView| o.key;
    lemma_filter_map_values(remote, keep, f);
    assert(download_keys(provider, local, remote).contains(key) <==> kept_image(
        remote,
        keep,
        f,
        key,
    ));
    if kept_image(remote, keep, f, key) {
        let j = choose|j: int|
            0 <= j < remote.len() && keep(remote[j]) && #[trigger] f(remote[j]) == key;
        assert(remote[j].key == key);
    }
    if provider.fetched(key) && !has_path(local, key) && exists|j: int|
        0 <= j < remote.len() && (#[trigger] remote[j]).key == key {
        let j = choose|j: int| 0 <= j < remote.len() && (#[trigger] remote[j]).key == key;
        assert(keep(remote[j]) && f(remote[j]) == key);
    }
}

/// No path goes both ways: what a pass sends it does not fetch.
pub proof fn lemma_never_both_ways(
    provider: Provider,
    local: Seq<FileRecordView>,
    remote: Seq<RemoteObjectView>,
    path: Seq<char>,
)
    ensures
        !(upload_paths(provider, local, remote).contains(path) && download_keys(
            provider,
            local,
            remote,
        ).contains(path)),
{
    lemma_upload_paths_contains(provider, local, remote, path);
    lemma_download_keys_contains(provider, local, remote, path);
}

/// Every transfer is made once: if no two local records name the same
/// path, no file is sent twice, and if no two remote records name the same
/// key, no object is fetched twice.
pub proof fn lemma_each_transfer_once(
    provider: Provider,
    local: Seq<FileRecordView>,
    remote: Seq<RemoteObjectView>,
)
    ensures
        distinct_paths(local) ==> upload_paths(provider, local, remote).no_duplicates(),
        distinct_keys(remote) ==> download_keys(provider, local, remote).no_duplicates(),
{
    if distinct_paths(local) {
        lemma_filter_map_distinct(
            local,
            |r: FileRecordView| provider.in_scope(r.relative_path) && needs_upload(r, remote),
            |r: FileRecordView| r.relative_path,
        );
    }
    if distinct_keys(remote) {
        lemma_filter_map_distinct(
            remote,
            |o: RemoteObjectView| provider.fetched(o.key) && !has_path(local, o.key),
            |o: RemoteObjectView| o.key,
        );
    }
}

/// The files under the root once the pass planned for `local` and `remote`
/// has fetched every object of its plan, by path and fingerprint. The store
/// is taken to tag each object with the fingerprint of its content, so a
/// fetched file has the fingerprint that the store listed as the tag.
pub open spec fn files_after_pass(
    provider: Provider,
    local: Seq<FileRecordView>,
    remote: Seq<RemoteObjectView>,
) -> Map<Seq<char>, Seq<char>> {
    Map::new(
        |p: Seq<char>| has_path(local, p) || download_keys(provider, local, remote).contains(p),
        |p: Seq<char>|
            if has_path(local, p) {
                hash_of(local, p)->0
            } else {
                tag_of(remote, p)->0
            },
    )
}

/// The objects in the store once the pass planned for `local` and `remote`
/// has sent every file of its plan, by key and tag. The store is taken to
/// tag each object with the fingerprint of its content, so a sent file is
/// listed with its fingerprint.
pub open spec fn objects_after_pass(
    provider: Provider,
    local: Seq<FileRecordView>,
    remote: Seq<RemoteObjectView>,
) -> Map<Seq<char>, Seq<char>> {
    Map::new(
        |k: Seq<char>| tag_of(remote, k) is Some || upload_paths(provider, local, remote).contains(k),
        |k: Seq<char>|
            if upload_paths(provider, local, remote).contains(k) {
                hash_of(local, k)->0
            } else {
                tag_of(remote, k)->0
            },
    )
}

/// The local listing `local` names exactly the files of `files`, each with
/// its fingerprint.
pub open spec fn lists_files(local: Seq<FileRecordView>, files: Map<Seq<char>, Seq<char>>) -> bool {
    &&& forall|p: Seq<char>| #[trigger] files.contains_key(p) ==> has_path(local, p)
    &&& forall|i: int|
        0 <= i < local.len() ==> files.contains_key((#[trigger] local[i]).relative_path)
            && files[local[i].relative_path] == local[i].content_hash
}

/// The remote listing `remote` names exactly the objects of `objects`, each
/// with its tag.
pub open spec fn lists_objects(
    remote: Seq<RemoteObjectView>,
    objects: Map<Seq<char>, Seq<char>>,
) -> bool {
    &&& forall|k: Seq<char>| #[trigger] objects.contains_key(k) ==> tag_of(remote, k) is Some
    &&& forall|j: int|
        0 <= j < remote.len() ==> objects.contains_key((#[trigger] remote[j]).key)
            && objects[remote[j].key] == remote[j].content_tag
}

/// A second pass has nothing to do. Let a pass be planned for `local` and
/// `remote` and carried out completely against a store that tags each
/// object with the fingerprint of its content. If nothing else changes, and
/// `local2` and `remote2` are the listings taken afterwards, the plan for
/// them sends no file and fetches no object.
pub proof fn lemma_second_pass_transfers_nothing(
    provider: Provider,
    local: Seq<FileRecordView>,
    remote: Seq<RemoteObjectView>,
    local2: Seq<FileRecordView>,
    remote2: Seq<RemoteObjectView>,
)
    requires
        lists_files(local2, files_after_pass(provider, local, remote)),
        lists_objects(remote2, objects_after_pass(provider, local, remote)),
    ensures
        plan_of(provider, local2, remote2).uploads.len() == 0,
        plan_of(provider, local2, remote2).downloads.len() == 0,
{
    let files = files_after_pass(provider, local, remote);
    let objects = objects_after_pass(provider, local, remote);
    let sent = upload_paths(provider, local, remote);
    let keep = |r: FileRecordView| provider.in_scope(r.relative_path) && needs_upload(r, remote2);
    let path = |r: FileRecordView| r.relative_path;
    assert forall|i: int| 0 <= i < local2.len() implies !keep(#[trigger] local2[i]) by {
        let p = local2[i].relative_path;
        if provider.in_scope(p) {
            assert(files.contains_key(p) && files[p] == local2[i].content_hash);
            lemma_upload_paths_contains(provider, local, remote, p);
            lemma_download_keys_contains(provider, local, remote, p);
            lemma_hash_of(local, p);
            lemma_tag_of(remote, p);
            if has_path(local, p) {
                let i0 = choose|i0: int|
                    0 <= i0 < local.len() && (#[trigger] local[i0]).relative_path == p && hash_of(
                        local,
                        p,
                    ) == Some(local[i0].content_hash);
                if !sent.contains(p) {
                    assert(!needs_upload(local[i0], remote));
                }
            }
            assert(objects.contains_key(p) && objects[p] == files[p]);
            lemma_tag_of(remote2, p);
            let j = choose|j: int|
                0 <= j < remote2.len() && (#[trigger] remote2[j]).key == p && tag_of(remote2, p)
                    == Some(remote2[j].content_tag);
            assert(objects[remote2[j].key] == remote2[j].content_tag);
            assert(tag_of(remote2, p) == Some(local2[i].content_hash));
        }
    }
    lemma_filter_map_values(local2, keep, path);
    let missing = |o: RemoteObjectView| provider.fetched(o.key) && !has_path(local2, o.key);
    let key = |o: RemoteObjectView| o.key;
    assert forall|j: int| 0 <= j < remote2.len() implies !missing(#[trigger] remote2[j]) by {
        let k = remote2[j].key;
        if provider.fetched(k) {
            assert(objects.contains_key(k));
            lemma_upload_paths_contains(provider, local, remote, k);
            lemma_download_keys_contains(provider, local, remote, k);
            lemma_tag_of(remote, k);
            assert(files.contains_key(k));
        }
    }
    lemma_filter_map_values(remote2, missing, key);
}

/// What the store holds once the pass planned for `local` and `remote`
/// has sent every file of its plan, by key and content, if every transfer
/// leaves the bytes as they are: what it held before, and under each sent
/// path the content of the file.
pub open spec fn store_after_pass(
    provider: Provider,
    local: Seq<FileRecordView>,
    remote: Seq<RemoteObjectView>,
    files: Map<Seq<char>, Seq<u8>>,
    objects: Map<Seq<char>, Seq<u8>>,
) -> Map<Seq<char>, Seq<u8>> {
    Map::new(
        |k: Seq<char>| objects.contains_key(k) || upload_paths(provider, local, remote).contains(k),
        |k: Seq<char>|
            if upload_paths(provider, local, remote).contains(k) {
                files[k]
            } else {
                objects[k]
            },
    )
}

/// What lies under the root once the pass planned for `local` and
/// `remote` has fetched every object of its plan, by path and content, if
/// every transfer leaves the bytes as they are: what lay there before, and
/// under each fetched key the content of the object.
pub open spec fn root_after_pass(
    provider: Provider,
    local: Seq<FileRecordView>,
    remote: Seq<RemoteObjectView>,
    files: Map<Seq<char>, Seq<u8>>,
    objects: Map<Seq<char>, Seq<u8>>,
) -> Map<Seq<char>, Seq<u8>> {
    Map::new(
        |p: Seq<char>| files.contains_key(p) || download_keys(provider, local, remote).contains(p),
        |p: Seq<char>|
            if files.contains_key(p) {
                files[p]
            } else {
                objects[p]
            },
    )
}

/// The local listing `local` names exactly the paths of `files`.
pub open spec fn lists_paths(local: Seq<FileRecordView>, files: Map<Seq<char>, Seq<u8>>) -> bool {
    forall|p: Seq<char>| has_path(local, p) <==> #[trigger] files.contains_key(p)
}

/// The remote listing `remote` names exactly the keys of `objects`.
pub open spec fn lists_keys(
    remote: Seq<RemoteObjectView>,
    objects: Map<Seq<char>, Seq<u8>>,
) -> bool {
    forall|k: Seq<char>| tag_of(remote, k) is Some <==> #[trigger] objects.contains_key(k)
}

/// What is sent comes back as it was. Let a pass send the file at `key`.
/// If the file is then lost and nothing else changes, the next pass
/// fetches `key`, and what it puts under the root is the content that the
/// first pass sent, byte for byte. This holds for a store that objects
/// are fetched from, and if every transfer leaves the bytes as they are.
pub proof fn lemma_sent_then_fetched(
    provider: Provider,
    local: Seq<FileRecordView>,
    remote: Seq<RemoteObjectView>,
    files: Map<Seq<char>, Seq<u8>>,
    objects: Map<Seq<char>, Seq<u8>>,
    local2: Seq<FileRecordView>,
    remote2: Seq<RemoteObjectView>,
    key: Seq<char>,
)
    requires
        upload_paths(provider, local, remote).contains(key),
        provider.fetches(),
        lists_paths(local2, root_after_pass(provider, local, remote, files, objects).remove(key)),
        lists_keys(remote2, store_after_pass(provider, local, remote, files, objects)),
    ensures
        download_keys(provider, local2, remote2).contains(key),
        root_after_pass(
            provider,
            local2,
            remote2,
            root_after_pass(provider, local, remote, files, objects).remove(key),
            store_after_pass(provider, local, remote, files, objects),
        )[key] == files[key],
{
    let root = root_after_pass(provider, local, remote, files, objects).remove(key);
    let store = store_after_pass(provider, local, remote, files, objects);
    lemma_upload_paths_contains(provider, local, remote, key);
    assert(store.contains_key(key) && store[key] == files[key]);
    assert(!root.contains_key(key));
    assert(!has_path(local2, key));
    assert(tag_of(remote2, key) is Some);
    lemma_tag_of(remote2, key);
    lemma_download_keys_contains(provider, local2, remote2, key);
}

} // verus!

//! Tags for the stores that report none. Dropbox and OneDrive say nothing
//! about an object that can be compared with a fingerprint. For these
//! stores the fingerprints are kept in the store itself, in an index: a
//! JSON object beside the files that has one member for each file, named
//! by the file's key and holding the file's fingerprint. The index is
//! read with the listing, gives each listed object its tag, and is written
//! anew after a pass that ended well.
//!
//! The index is the library's own. No plan sends or fetches it, and its
//! name begins with a dot, so it is never listed among the files under
//! the root.

use crate::http::{is_success, success};
use crate::json::{quote, string_literal, Json, Member};
use crate::lists::{kept_image, lemma_filter_map_distinct, lemma_filter_map_values};
use crate::manifest::{
    distinct_paths, find_tag, lemma_tag_of, tag_of, FileRecord, FileRecordView,
    RemoteObjectRecord, RemoteObjectView,
};
use crate::manifest::has_path;
use crate::paths::normalized;
use crate::reconcile::{index_key, needs_upload, upload_paths, Provider};
use crate::scanner::{distinct_files, listed, listing_of, record_of, scan, ScannedFile, ScannedFileView};
use vstd::prelude::*;

verus! {

/// The key of the index.
pub fn index_name() -> (name: &'static str)
    ensures
        name@ == index_key(),
{
    ".azimuth_tags.json"
}

/// The tag that `index` holds for `key`; empty if it holds none.
pub open spec fn tag_for(index: Seq<RemoteObjectView>, key: Seq<char>) -> Seq<char> {
    match tag_of(index, key) {
        Some(tag) => tag,
        None => Seq::empty(),
    }
}

/// Whether two indexes hold the same tag for every key. The order of the
/// entries does not matter for that.
pub open spec fn same_tags(a: Seq<RemoteObjectView>, b: Seq<RemoteObjectView>) -> bool {
    forall|key: Seq<char>| #[trigger] tag_of(a, key) == tag_of(b, key)
}

/// Looks up the tag that `index` holds for `key`.
pub fn tag_in(index: &Vec<RemoteObjectRecord>, key: &str) -> (tag: String)
    ensures
        tag@ == tag_for(index.deep_view(), key@),
{
    match find_tag(index, key) {
        Some(tag) => tag.clone(),
        None => String::new(),
    }
}

/// The entry of the index for a local file.
pub open spec fn tag_entry(record: FileRecordView) -> RemoteObjectView {
    RemoteObjectView { key: record.relative_path, content_tag: record.content_hash }
}

/// The index for the local listing `local`: for each file, its path and
/// its fingerprint. The index has no entry for itself.
pub open spec fn tags_for(local: Seq<FileRecordView>) -> Seq<RemoteObjectView> {
    local.filter(|r: FileRecordView| r.relative_path != index_key()).map_values(
        |r: FileRecordView| tag_entry(r),
    )
}

/// Builds the index for a local listing.
pub fn index_for(local: &Vec<FileRecord>) -> (index: Vec<RemoteObjectRecord>)
    ensures
        index.deep_view() == tags_for(local.deep_view()),
{
    let ghost all = local.deep_view();
    let ghost keep = |r: FileRecordView| r.relative_path != index_key();
    let ghost make = |r: FileRecordView| tag_entry(r);
    let mut index: Vec<RemoteObjectRecord> = Vec::new();
    let mut i: usize = 0;
    assert(all.take(0) =~= Seq::empty());
    assert(Seq::<FileRecordView>::empty().filter(keep) =~= Seq::empty()) by {
        reveal(Seq::filter);
    }
    while i < local.len()
        invariant
            i <= local.len(),
            all == local.deep_view(),
            keep == |r: FileRecordView| r.relative_path != index_key(),
            make == |r: FileRecordView| tag_entry(r),
            index.deep_view() == all.take(i as int).filter(keep).map_values(make),
        decreases local.len() - i,
    {
        let record = &local[i];
        proof {
            let before = all.take(i as int);
            assert(all.take(i + 1) =~= before.push(all[i as int]));
            before.lemma_filter_push(all[i as int], keep);
            before.filter(keep).lemma_push_map_commute(make, all[i as int]);
        }
        if !record.relative_path.as_str().eq(".azimuth_tags.json") {
            let ghost old_index = index.deep_view();
            let entry = RemoteObjectRecord {
                key: record.relative_path.clone(),
                content_tag: record.content_hash.clone(),
            };
            assert(entry@ == tag_entry(all[i as int]));
            index.push(entry);
            assert(index.deep_view() =~= old_index.push(tag_entry(all[i as int])));
        }
        i += 1;
    }
    assert(all.take(local.len() as int) =~= all);
    index
}

/// The entry that a member of the index document stands for.
pub open spec fn member_entry(member: Member) -> RemoteObjectView {
    RemoteObjectView { key: member.name@, content_tag: member.value.text()->0 }
}

/// The index that `document` holds: an entry for each member that is a
/// string. A document that is no object holds none.
pub open spec fn index_of(document: Json) -> Seq<RemoteObjectView> {
    match document {
        Json::Object(members) => members@.filter(|m: Member| m.value is Text).map_values(
            |m: Member| member_entry(m),
        ),
        _ => Seq::empty(),
    }
}

/// What the answer to the request for the index means. An answer that
/// reports a failure or is no JSON means that the store has no index.
pub open spec fn index_from(status: u16, body: Option<Json>) -> Seq<RemoteObjectView> {
    if success(status) && body is Some {
        index_of(body->0)
    } else {
        Seq::empty()
    }
}

/// Reads the answer to the request for the index.
pub fn read_index(status: u16, body: Option<&Json>) -> (index: Vec<RemoteObjectRecord>)
    ensures
        index.deep_view() == index_from(
            status,
            match body {
                Some(b) => Some(*b),
                None => None,
            },
        ),
{
    let mut index: Vec<RemoteObjectRecord> = Vec::new();
    assert(index.deep_view() =~= Seq::empty());
    if !is_success(status) {
        return index;
    }
    let members = match body {
        Some(Json::Object(members)) => members,
        _ => {
            return index;
        },
    };
    let ghost all = members@;
    let ghost keep = |m: Member| m.value is Text;
    let ghost make = |m: Member| member_entry(m);
    let mut i: usize = 0;
    assert(all.take(0) =~= Seq::empty());
    assert(Seq::<Member>::empty().filter(keep) =~= Seq::empty()) by {
        reveal(Seq::filter);
    }
    while i < members.len()
        invariant
            i <= members.len(),
            all == members@,
            keep == |m: Member| m.value is Text,
            make == |m: Member| member_entry(m),
            index.deep_view() == all.take(i as int).filter(keep).map_values(make),
        decreases members.len() - i,
    {
        let member = &members[i];
        proof {
            let before = all.take(i as int);
            assert(all.take(i + 1) =~= before.push(all[i as int]));
            before.lemma_filter_push(all[i as int], keep);
            before.filter(keep).lemma_push_map_commute(make, all[i as int]);
        }
        match member.value.as_text() {
            Some(tag) => {
                let ghost old_index = index.deep_view();
                let entry = RemoteObjectRecord { key: member.name.clone(), content_tag: tag.clone() };
                assert(entry@ == member_entry(all[i as int]));
                index.push(entry);
                assert(index.deep_view() =~= old_index.push(member_entry(all[i as int])));
            },
            None => {},
        }
        i += 1;
    }
    assert(all.take(members.len() as int) =~= all);
    index
}

/// How an entry of the index is written: key and tag as JSON strings with
/// a colon between them.
pub open spec fn entry_text(entry: RemoteObjectView) -> Seq<char> {
    string_literal(entry.key) + ":"@ + string_literal(entry.content_tag)
}

/// The entries of `index` as they are written, with a comma between one
/// and the next.
pub open spec fn entries_text(index: Seq<RemoteObjectView>) -> Seq<char>
    decreases index.len(),
{
    if index.len() == 0 {
        Seq::empty()
    } else if index.len() == 1 {
        entry_text(index[0])
    } else {
        entries_text(index.drop_last()) + ","@ + entry_text(index.last())
    }
}

/// The JSON document that `index` is stored as.
pub open spec fn index_text_of(index: Seq<RemoteObjectView>) -> Seq<char> {
    "{"@ + entries_text(index) + "}"@
}

/// Writes the index as a JSON document.
pub fn index_text(index: &Vec<RemoteObjectRecord>) -> (text: String)
    ensures
        text@ == index_text_of(index.deep_view()),
{
    let ghost all = index.deep_view();
    let mut text = "{".to_owned();
    let ghost head = text@;
    let mut i: usize = 0;
    assert(all.take(0) =~= Seq::empty());
    assert(text@ =~= head + entries_text(all.take(0)));
    while i < index.len()
        invariant
            i <= index.len(),
            all == index.deep_view(),
            head == "{"@,
            text@ == head + entries_text(all.take(i as int)),
        decreases index.len() - i,
    {
        let ghost seen = all.take(i as int);
        let ghost next = all.take(i + 1);
        assert(next.last() == all[i as int]);
        assert(next.drop_last() =~= seen);
        if i > 0 {
            text.append(",");
        } else {
            assert(next[0] == all[0]);
        }
        text.append(quote(index[i].key.as_str()).as_str());
        text.append(":");
        text.append(quote(index[i].content_tag.as_str()).as_str());
        assert(text@ =~= head + entries_text(next));
        i += 1;
    }
    assert(all.take(index.len() as int) =~= all);
    text.append("}");
    text
}

/// The files under the root after a pass: those that `local` listed
/// before the pass, followed by those of the fetched objects that are
/// listed among the files under the root.
pub open spec fn listing_after(
    local: Seq<FileRecordView>,
    fetched: Seq<ScannedFileView>,
) -> Seq<FileRecordView> {
    local + listing_of(fetched)
}

/// Builds the listing of the files under the root after a pass, from the
/// listing taken before the pass and the objects that the pass fetched,
/// each with the content that was stored.
pub fn listing_after_pass(local: Vec<FileRecord>, fetched: &Vec<ScannedFile>) -> (after: Vec<
    FileRecord,
>)
    ensures
        after.deep_view() == listing_after(local.deep_view(), fetched.deep_view()),
{
    let ghost before = local.deep_view();
    let mut after = local;
    let mut more = scan(fetched);
    let ghost added = more.deep_view();
    after.append(&mut more);
    assert(after.deep_view() =~= before + added);
    after
}

/// The document to send to the store once a pass has ended, if one is to
/// be sent: the index for the files under the root after the pass, for a
/// store that keeps an index and after a pass that ended well.
pub open spec fn index_to_store_of(
    provider: Provider,
    ended_well: bool,
    local: Seq<FileRecordView>,
    fetched: Seq<ScannedFileView>,
) -> Option<Seq<char>> {
    if provider.keeps_index() && ended_well {
        Some(index_text_of(tags_for(listing_after(local, fetched))))
    } else {
        None
    }
}

/// Decides what is written to the index once a pass has ended. `local` is
/// the listing that the pass was planned for, and `fetched` holds the
/// objects that the pass fetched, each with the content that was stored.
/// The index that is written is the one that the laws on a second pass
/// speak of: that for the listing after the pass.
pub fn index_to_store(
    provider: Provider,
    ended_well: bool,
    local: Vec<FileRecord>,
    fetched: &Vec<ScannedFile>,
) -> (text: Option<String>)
    ensures
        text is Some <==> index_to_store_of(
            provider,
            ended_well,
            local.deep_view(),
            fetched.deep_view(),
        ) is Some,
        text is Some ==> text->0@ == index_to_store_of(
            provider,
            ended_well,
            local.deep_view(),
            fetched.deep_view(),
        )->0,
{
    let kept = matches!(provider, Provider::Dropbox) || matches!(provider, Provider::OneDrive);
    if kept && ended_well {
        let after = listing_after_pass(local, fetched);
        Some(index_text(&index_for(&after)))
    } else {
        None
    }
}

/// The listing after a pass is a listing as the laws on a second pass ask
/// for it. If no two files of `local` have the same path, no two fetched
/// objects have the same key, and no fetched object has the key of a file
/// of `local`, as it is for what a plan fetches, then no two files of the
/// listing after the pass have the same path. The listing holds every
/// file of `local`, and every fetched object that is listed among the
/// files under the root, with the fingerprint of the content that was
/// stored.
pub proof fn lemma_listing_after_pass(local: Seq<FileRecordView>, fetched: Seq<ScannedFileView>)
    requires
        distinct_paths(local),
        distinct_files(fetched),
        forall|j: int|
            0 <= j < fetched.len() ==> !has_path(
                local,
                normalized((#[trigger] fetched[j]).relative_path),
            ),
    ensures
        distinct_paths(listing_after(local, fetched)),
        forall|i: int|
            0 <= i < local.len() ==> listing_after(local, fetched)[i] == #[trigger] local[i],
        forall|j: int|
            0 <= j < fetched.len() && listed(#[trigger] fetched[j]) ==> listing_after(
                local,
                fetched,
            ).contains(record_of(fetched[j])),
{
    let keep = |f: ScannedFileView| listed(f);
    let make = |f: ScannedFileView| record_of(f);
    let more = listing_of(fetched);
    let after = listing_after(local, fetched);
    lemma_filter_map_values(fetched, keep, make);
    lemma_filter_map_distinct(fetched, keep, make);
    assert forall|a: int, b: int| 0 <= a < b < after.len() implies (
    #[trigger] after[a]).relative_path != (#[trigger] after[b]).relative_path by {
        if b < local.len() {
        } else {
            let rb = more[b - local.len()];
            assert(more.contains(rb));
            assert(kept_image(fetched, keep, make, rb));
            let jb = choose|j: int|
                0 <= j < fetched.len() && keep(fetched[j]) && #[trigger] make(fetched[j]) == rb;
            if a < local.len() {
                assert(!has_path(local, normalized(fetched[jb].relative_path)));
            } else {
                let ra = more[a - local.len()];
                assert(more.contains(ra));
                assert(kept_image(fetched, keep, make, ra));
                let ja = choose|j: int|
                    0 <= j < fetched.len() && keep(fetched[j]) && #[trigger] make(fetched[j])
                        == ra;
                assert(ra != rb);
                if ja < jb {
                    assert(normalized(fetched[ja].relative_path) != normalized(
                        fetched[jb].relative_path,
                    ));
                } else if jb < ja {
                    assert(normalized(fetched[jb].relative_path) != normalized(
                        fetched[ja].relative_path,
                    ));
                }
            }
        }
    }
    assert forall|j: int| 0 <= j < fetched.len() && listed(#[trigger] fetched[j]) implies after.contains(
        record_of(fetched[j]),
    ) by {
        assert(kept_image(fetched, keep, make, make(fetched[j])));
        assert(more.contains(record_of(fetched[j])));
        let k = choose|k: int| 0 <= k < more.len() && more[k] == record_of(fetched[j]);
        assert(after[local.len() + k] == record_of(fetched[j]));
    }
}

/// The index for a listing holds, for the path of each file, that file's
/// fingerprint.
pub proof fn lemma_tags_for(local: Seq<FileRecordView>, i: int)
    requires
        distinct_paths(local),
        0 <= i < local.len(),
        local[i].relative_path != index_key(),
    ensures
        tag_of(tags_for(local), local[i].relative_path) == Some(local[i].content_hash),
{
    let keep = |r: FileRecordView| r.relative_path != index_key();
    let make = |r: FileRecordView| tag_entry(r);
    let index = tags_for(local);
    let path = local[i].relative_path;
    lemma_filter_map_values(local, keep, make);
    assert(kept_image(local, keep, make, make(local[i])));
    assert(index.contains(tag_entry(local[i])));
    let at = choose|at: int| 0 <= at < index.len() && index[at] == tag_entry(local[i]);
    assert(index[at].key == path);
    lemma_tag_of(index, path);
    let j = choose|j: int|
        0 <= j < index.len() && (#[trigger] index[j]).key == path && tag_of(index, path) == Some(
            index[j].content_tag,
        );
    assert(index.contains(index[j]));
    assert(kept_image(local, keep, make, index[j]));
    let k = choose|k: int| 0 <= k < local.len() && keep(local[k]) && #[trigger] make(local[k]) == index[j];
    assert(local[k].relative_path == path);
    if k < i {
        assert(local[k].relative_path != local[i].relative_path);
    } else if i < k {
        assert(local[i].relative_path != local[k].relative_path);
    }
}

/// A file whose fingerprint the index holds is not sent again. If a store
/// that keeps an index lists every file of `local` that it is sent, and
/// every listed object carries the tag that the index for `local` holds
/// for its key, then no file is sent.
pub proof fn lemma_tagged_files_are_not_sent(
    provider: Provider,
    local: Seq<FileRecordView>,
    remote: Seq<RemoteObjectView>,
)
    requires
        provider.keeps_index(),
        distinct_paths(local),
        forall|j: int|
            0 <= j < remote.len() ==> (#[trigger] remote[j]).content_tag == tag_for(
                tags_for(local),
                remote[j].key,
            ),
        forall|i: int|
            0 <= i < local.len() && provider.in_scope((#[trigger] local[i]).relative_path)
                ==> exists|j: int|
                0 <= j < remote.len() && (#[trigger] remote[j]).key == local[i].relative_path,
    ensures
        upload_paths(provider, local, remote).len() == 0,
{
    let keep = |r: FileRecordView| provider.in_scope(r.relative_path) && needs_upload(r, remote);
    let path = |r: FileRecordView| r.relative_path;
    assert forall|i: int| 0 <= i < local.len() implies !keep(#[trigger] local[i]) by {
        let p = local[i].relative_path;
        if provider.in_scope(p) {
            lemma_tags_for(local, i);
            lemma_tag_of(remote, p);
            let j = choose|j: int|
                0 <= j < remote.len() && (#[trigger] remote[j]).key == p && tag_of(remote, p)
                    == Some(remote[j].content_tag);
            assert(remote[j].content_tag == tag_for(tags_for(local), p));
        }
    }
    lemma_filter_map_values(local, keep, path);
}

} // verus!

//! Dropbox. The files are kept in the folder `/Azimuth`; the path of a file
//! in the store is this folder's path followed by the file's path below the
//! sync root. Dropbox reports no tag that can be compared with a
//! fingerprint, so the tag of a listed file is taken from the index that
//! is kept in the folder.

use crate::error::{SyncError, SyncErrorView};
use crate::http::{
    bearer, bearer_header, field, is_success, json_content, json_content_header, octet_stream,
    octet_stream_header, status_error, status_failure, success, Field, HttpBody, HttpBodyView,
    HttpMethod, HttpRequest, HttpRequestView,
};
use crate::json::{quote, string_literal, Json};
use crate::lists::{kept_image, lemma_filter_map_values};
use crate::manifest::{
    distinct_paths, has_path, tag_of, FileRecordView, RemoteObjectRecord, RemoteObjectView,
};
use crate::reconcile::{
    download_keys, index_key, lemma_download_keys_contains, plan_of, Provider,
};
use crate::store::tags::{
    lemma_tagged_files_are_not_sent, same_tags, tag_for, tag_in, tags_for,
};
use crate::text::{strip_prefix, without_prefix};
use vstd::prelude::*;

verus! {

/// The path in the store of the file at `relative` below the sync root.
pub open spec fn remote_path(relative: Seq<char>) -> Seq<char> {
    "/Azimuth/"@ + relative
}

/// The path below the sync root of the file stored at `remote`, if it is
/// stored in the folder.
pub open spec fn relative_path(remote: Seq<char>) -> Option<Seq<char>> {
    without_prefix(remote, "/Azimuth/"@)
}

/// The argument of an upload to `path`: an existing file is overwritten.
pub open spec fn upload_argument(path: Seq<char>) -> Seq<char> {
    "{\"autorename\":false,\"mode\":\"overwrite\",\"mute\":true,\"path\":"@ + string_literal(path)
        + "}"@
}

/// The argument of a download from `path`.
pub open spec fn download_argument(path: Seq<char>) -> Seq<char> {
    "{\"path\":"@ + string_literal(path) + "}"@
}

/// The request that stores `content` as the file at `relative`.
pub open spec fn upload_request_of(
    token: Seq<char>,
    relative: Seq<char>,
    content: Seq<u8>,
) -> HttpRequestView {
    HttpRequestView {
        method: HttpMethod::Post,
        url: "https://content.dropboxapi.com/2/files/upload"@,
        query: Seq::empty(),
        headers: seq![
            bearer(token),
            ("Dropbox-API-Arg"@, upload_argument(remote_path(relative))),
            octet_stream(),
        ],
        body: HttpBodyView::Bytes(content),
    }
}

/// The request that lists every file in the folder.
pub open spec fn list_request_of(token: Seq<char>) -> HttpRequestView {
    HttpRequestView {
        method: HttpMethod::Post,
        url: "https://api.dropboxapi.com/2/files/list_folder"@,
        query: Seq::empty(),
        headers: seq![bearer(token), json_content()],
        body: HttpBodyView::Text("{\"path\":\"/Azimuth\",\"recursive\":true}"@),
    }
}

/// The request that hands out the file listed under `key`.
pub open spec fn download_request_of(token: Seq<char>, key: Seq<char>) -> HttpRequestView {
    HttpRequestView {
        method: HttpMethod::Post,
        url: "https://content.dropboxapi.com/2/files/download"@,
        query: Seq::empty(),
        headers: seq![bearer(token), ("Dropbox-API-Arg"@, download_argument(remote_path(key)))],
        body: HttpBodyView::Empty,
    }
}

fn path_in_store(relative: &str) -> (path: String)
    ensures
        path@ == remote_path(relative@),
{
    let mut path = "/Azimuth/".to_owned();
    path.append(relative);
    path
}

/// The request that stores `content` as the file at `relative_path`,
/// replacing what the store holds there.
pub fn upload_request(access_token: &str, relative_path: &str, content: Vec<u8>) -> (request:
    HttpRequest)
    ensures
        request@ == upload_request_of(access_token@, relative_path@, content@),
{
    let path = path_in_store(relative_path);
    let mut argument = "{\"autorename\":false,\"mode\":\"overwrite\",\"mute\":true,\"path\":".to_owned();
    argument.append(quote(path.as_str()).as_str());
    argument.append("}");
    let mut headers: Vec<Field> = Vec::new();
    headers.push(bearer_header(access_token));
    headers.push(field("Dropbox-API-Arg", argument));
    headers.push(octet_stream_header());
    let query: Vec<Field> = Vec::new();
    let request = HttpRequest {
        method: HttpMethod::Post,
        url: "https://content.dropboxapi.com/2/files/upload".to_owned(),
        query,
        headers,
        body: HttpBody::Bytes(content),
    };
    assert(request@.headers =~= upload_request_of(access_token@, relative_path@, content@).headers);
    assert(request@.query =~= Seq::empty());
    request
}

/// The request that lists every file in the folder, at any depth.
pub fn list_request(access_token: &str) -> (request: HttpRequest)
    ensures
        request@ == list_request_of(access_token@),
{
    let mut headers: Vec<Field> = Vec::new();
    headers.push(bearer_header(access_token));
    headers.push(json_content_header());
    let query: Vec<Field> = Vec::new();
    let request = HttpRequest {
        method: HttpMethod::Post,
        url: "https://api.dropboxapi.com/2/files/list_folder".to_owned(),
        query,
        headers,
        body: HttpBody::Text("{\"path\":\"/Azimuth\",\"recursive\":true}".to_owned()),
    };
    assert(request@.headers =~= list_request_of(access_token@).headers);
    assert(request@.query =~= Seq::empty());
    request
}

/// The request that hands out the file listed under `key`.
pub fn download_request(access_token: &str, key: &str) -> (request: HttpRequest)
    ensures
        request@ == download_request_of(access_token@, key@),
{
    let path = path_in_store(key);
    let mut argument = "{\"path\":".to_owned();
    argument.append(quote(path.as_str()).as_str());
    argument.append("}");
    let mut headers: Vec<Field> = Vec::new();
    headers.push(bearer_header(access_token));
    headers.push(field("Dropbox-API-Arg", argument));
    let query: Vec<Field> = Vec::new();
    let request = HttpRequest {
        method: HttpMethod::Post,
        url: "https://content.dropboxapi.com/2/files/download".to_owned(),
        query,
        headers,
        body: HttpBody::Empty,
    };
    assert(request@.headers =~= download_request_of(access_token@, key@).headers);
    assert(request@.query =~= Seq::empty());
    request
}

/// The path the store shows for `entry`; empty if it shows none.
pub open spec fn entry_path(entry: Json) -> Seq<char> {
    match entry.text_member("path_display"@) {
        Some(path) => path,
        None => Seq::empty(),
    }
}

/// Whether `entry` is a file in the folder.
pub open spec fn entry_listed(entry: Json) -> bool {
    entry.text_member(".tag"@) == Some("file"@) && relative_path(entry_path(entry)) is Some
}

/// The key of an entry that is a file in the folder.
pub open spec fn entry_key(entry: Json) -> Seq<char> {
    relative_path(entry_path(entry))->0
}

/// The record for an entry that is a file in the folder. Its tag is the
/// one that `index` holds for its key.
pub open spec fn entry_record(entry: Json, index: Seq<RemoteObjectView>) -> RemoteObjectView {
    RemoteObjectView { key: entry_key(entry), content_tag: tag_for(index, entry_key(entry)) }
}

/// The records for the entries of a listing, tagged by `index`.
pub open spec fn records_of(entries: Seq<Json>, index: Seq<RemoteObjectView>) -> Seq<
    RemoteObjectView,
> {
    entries.filter(|e: Json| entry_listed(e)).map_values(|e: Json| entry_record(e, index))
}

/// The entries of the answer `body`, if it has the shape of a listing.
pub open spec fn entries_of(body: Json) -> Option<Seq<Json>> {
    match body.member("entries"@) {
        Some(entries) => entries.items(),
        None => None,
    }
}

/// What the answer to a list request means: the records of the files in
/// the folder, tagged by `index`, or the reason why the answer is no
/// listing.
pub open spec fn listing_of(
    status: u16,
    body: Option<Json>,
    index: Seq<RemoteObjectView>,
) -> Result<Seq<RemoteObjectView>, SyncErrorView> {
    if !success(status) {
        Err(SyncErrorView::Remote(status_failure(status)))
    } else if body is None {
        Err(SyncErrorView::Remote("the answer is not a JSON document"@))
    } else if entries_of(body->0) is None {
        Err(SyncErrorView::Remote("the answer lists no entries"@))
    } else {
        Ok(records_of(entries_of(body->0)->0, index))
    }
}

/// The view of what `listing` returns.
pub open spec fn listing_view(result: Result<Vec<RemoteObjectRecord>, SyncError>) -> Result<
    Seq<RemoteObjectView>,
    SyncErrorView,
> {
    match result {
        Ok(records) => Ok(records.deep_view()),
        Err(e) => Err(e@),
    }
}

fn records(entries: &Vec<Json>, index: &Vec<RemoteObjectRecord>) -> (records: Vec<
    RemoteObjectRecord,
>)
    ensures
        records.deep_view() == records_of(entries@, index.deep_view()),
{
    let ghost tags = index.deep_view();
    let ghost keep = |e: Json| entry_listed(e);
    let ghost make = |e: Json| entry_record(e, tags);
    let mut records: Vec<RemoteObjectRecord> = Vec::new();
    let mut i: usize = 0;
    assert(entries@.take(0) =~= Seq::empty());
    assert(Seq::<Json>::empty().filter(keep) =~= Seq::empty()) by {
        reveal(Seq::filter);
    }
    while i < entries.len()
        invariant
            i <= entries.len(),
            tags == index.deep_view(),
            keep == |e: Json| entry_listed(e),
            make == |e: Json| entry_record(e, tags),
            records.deep_view() == entries@.take(i as int).filter(keep).map_values(make),
        decreases entries.len() - i,
    {
        let entry = &entries[i];
        proof {
            let before = entries@.take(i as int);
            assert(entries@.take(i + 1) =~= before.push(entries@[i as int]));
            before.lemma_filter_push(entries@[i as int], keep);
            before.filter(keep).lemma_push_map_commute(make, entries@[i as int]);
        }
        let is_file = match entry.get_text(".tag") {
            Some(tag) => tag.as_str().eq("file"),
            None => false,
        };
        if is_file {
            let relative = match entry.get_text("path_display") {
                Some(path) => strip_prefix(path.as_str(), "/Azimuth/"),
                None => {
                    proof {
                        reveal_strlit("/Azimuth/");
                    }
                    None
                },
            };
            match relative {
                Some(key) => {
                    let ghost old_records = records.deep_view();
                    let content_tag = tag_in(index, key.as_str());
                    let record = RemoteObjectRecord { key, content_tag };
                    assert(record@ == entry_record(entries@[i as int], tags));
                    records.push(record);
                    assert(records.deep_view() =~= old_records.push(
                        entry_record(entries@[i as int], tags),
                    ));
                },
                None => {},
            }
        }
        i += 1;
    }
    assert(entries@.take(entries.len() as int) =~= entries@);
    records
}

/// Reads the answer to a list request. `body` is the document the store
/// answered with, or `None` if the answer was no JSON; `index` is the
/// index that was read from the folder.
pub fn listing(status: u16, body: Option<&Json>, index: &Vec<RemoteObjectRecord>) -> (result:
    Result<Vec<RemoteObjectRecord>, SyncError>)
    ensures
        listing_view(result) == listing_of(
            status,
            match body {
                Some(b) => Some(*b),
                None => None,
            },
            index.deep_view(),
        ),
{
    if !is_success(status) {
        return Err(status_error(status));
    }
    let document = match body {
        Some(b) => b,
        None => {
            return Err(SyncError::Remote("the answer is not a JSON document".to_owned()));
        },
    };
    let entries = match document.get("entries") {
        Some(e) => e.as_list(),
        None => None,
    };
    match entries {
        Some(entries) => Ok(records(entries, index)),
        None => Err(SyncError::Remote("the answer lists no entries".to_owned())),
    }
}

/// A file is fetched from the path it was sent to: the request that sends
/// the file at `key` and the request that fetches the object listed under
/// `key` name the same path in the store, and that path leads back to
/// `key`.
pub proof fn lemma_same_path_both_ways(token: Seq<char>, key: Seq<char>, content: Seq<u8>)
    ensures
        upload_request_of(token, key, content).headers[1].1 == upload_argument(remote_path(key)),
        download_request_of(token, key).headers[1].1 == download_argument(remote_path(key)),
        relative_path(remote_path(key)) == Some(key),
{
    reveal_strlit("/Azimuth/");
    let prefix = "/Azimuth/"@;
    let path = remote_path(key);
    assert(prefix =~= path.subrange(0, prefix.len() as int));
    assert(path.skip(prefix.len() as int) =~= key);
}

/// Whether the listing with the entries `entries` shows the file at
/// `path`.
pub open spec fn shows(entries: Seq<Json>, path: Seq<char>) -> bool {
    exists|e: int|
        0 <= e < entries.len() && entry_listed(#[trigger] entries[e]) && entry_key(entries[e])
            == path
}

/// A second pass has nothing to do. Let `local` list the files under the
/// root after a pass that ended well, and let `index` be the index read
/// from the folder, holding what was written for `local`. If the folder
/// then shows every file of `local`, and shows no file but the index that
/// is missing from `local`, the plan for `local` and
/// the listing read from the folder sends no file and fetches no object.
pub proof fn lemma_second_pass_transfers_nothing(
    local: Seq<FileRecordView>,
    entries: Seq<Json>,
    index: Seq<RemoteObjectView>,
)
    requires
        distinct_paths(local),
        same_tags(index, tags_for(local)),
        forall|i: int|
            0 <= i < local.len() && (#[trigger] local[i]).relative_path != index_key() ==> shows(
                entries,
                local[i].relative_path,
            ),
        forall|e: int|
            0 <= e < entries.len() && entry_listed(#[trigger] entries[e]) && entry_key(entries[e])
                != index_key() ==> has_path(local, entry_key(entries[e])),
    ensures
        plan_of(Provider::Dropbox, local, records_of(entries, index)).uploads.len() == 0,
        plan_of(Provider::Dropbox, local, records_of(entries, index)).downloads.len() == 0,
{
    let remote = records_of(entries, index);
    let keep = |e: Json| entry_listed(e);
    let make = |e: Json| entry_record(e, index);
    lemma_filter_map_values(entries, keep, make);
    assert forall|j: int| 0 <= j < remote.len() implies (#[trigger] remote[j]).content_tag
        == tag_for(tags_for(local), remote[j].key) && (remote[j].key != index_key() ==> has_path(
        local,
        remote[j].key,
    )) by {
        assert(remote.contains(remote[j]));
        assert(kept_image(entries, keep, make, remote[j]));
        let e = choose|e: int|
            0 <= e < entries.len() && keep(entries[e]) && #[trigger] make(entries[e]) == remote[j];
        assert(entry_listed(entries[e]));
        assert(tag_of(index, remote[j].key) == tag_of(tags_for(local), remote[j].key));
    }
    assert forall|i: int|
        0 <= i < local.len() && Provider::Dropbox.in_scope(
            (#[trigger] local[i]).relative_path,
        ) implies exists|j: int|
        0 <= j < remote.len() && (#[trigger] remote[j]).key == local[i].relative_path by {
        let p = local[i].relative_path;
        assert(shows(entries, p));
        let e = choose|e: int|
            0 <= e < entries.len() && entry_listed(#[trigger] entries[e]) && entry_key(entries[e])
                == p;
        assert(keep(entries[e]) && make(entries[e]) == entry_record(entries[e], index));
        assert(kept_image(entries, keep, make, entry_record(entries[e], index)));
        assert(remote.contains(entry_record(entries[e], index)));
        let j = choose|j: int| 0 <= j < remote.len() && remote[j] == entry_record(entries[e], index);
        assert(remote[j].key == p);
    }
    lemma_tagged_files_are_not_sent(Provider::Dropbox, local, remote);
    let fetched = download_keys(Provider::Dropbox, local, remote);
    if fetched.len() > 0 {
        let k = fetched[0];
        assert(fetched.contains(k));
        lemma_download_keys_contains(Provider::Dropbox, local, remote, k);
        let j = choose|j: int| 0 <= j < remote.len() && (#[trigger] remote[j]).key == k;
        assert(remote[j].key != index_key() ==> has_path(local, remote[j].key));
    }
}

} // verus!

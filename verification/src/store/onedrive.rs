//! OneDrive. The files are kept in the folder `Azimuth` at the root of the
//! drive. A file is sent to the folder's path followed by the file's path
//! below the sync root; the listing shows the folder's own children only,
//! each by its name, and hands out an address to fetch the file from.
//! OneDrive reports no tag that can be compared with a fingerprint, so the
//! tag of a listed file is taken from the index that is kept in the
//! folder.

use crate::error::{SyncError, SyncErrorView};
use crate::http::{
    bearer, bearer_header, is_success, octet_stream, octet_stream_header, status_error,
    status_failure, success, Field, HttpBody, HttpBodyView, HttpMethod, HttpRequest,
    HttpRequestView,
};
use crate::json::Json;
use crate::manifest::{
    distinct_paths, has_path, tag_of, FileRecordView, RemoteObjectRecord, RemoteObjectView,
};
use crate::reconcile::{
    download_keys, index_key, lemma_download_keys_contains, plan_of, Provider,
};
use crate::store::tags::{
    lemma_tagged_files_are_not_sent, same_tags, tag_for, tag_in, tags_for,
};
use vstd::prelude::*;

verus! {

/// A file among the folder's children.
#[derive(Clone, Debug, PartialEq, Eq)]
pub struct DriveItem {
    pub name: String,
    /// Where the content is fetched from.
    pub download_url: String,
}

pub ghost struct DriveItemView {
    pub name: Seq<char>,
    pub download_url: Seq<char>,
}

impl View for DriveItem {
    type V = DriveItemView;

    open spec fn view(&self) -> DriveItemView {
        DriveItemView { name: self.name@, download_url: self.download_url@ }
    }
}

impl DeepView for DriveItem {
    type V = DriveItemView;

    open spec fn deep_view(&self) -> DriveItemView {
        self@
    }
}

/// The address the file at `relative` below the sync root is sent to.
pub open spec fn upload_url(relative: Seq<char>) -> Seq<char> {
    "https://graph.microsoft.com/v1.0/drive/root:/Azimuth/"@ + relative + ":/content"@
}

/// The request that stores `content` as the file at `relative`.
pub open spec fn upload_request_of(
    token: Seq<char>,
    relative: Seq<char>,
    content: Seq<u8>,
) -> HttpRequestView {
    HttpRequestView {
        method: HttpMethod::Put,
        url: upload_url(relative),
        query: Seq::empty(),
        headers: seq![bearer(token), octet_stream()],
        body: HttpBodyView::Bytes(content),
    }
}

/// The request that lists the folder's children.
pub open spec fn list_request_of(token: Seq<char>) -> HttpRequestView {
    HttpRequestView {
        method: HttpMethod::Get,
        url: "https://graph.microsoft.com/v1.0/drive/root:/Azimuth:/children"@,
        query: Seq::empty(),
        headers: seq![bearer(token)],
        body: HttpBodyView::Empty,
    }
}

/// The request that fetches from `url`. The address carries its own
/// authorisation, so no token is presented.
pub open spec fn fetch_request_of(url: Seq<char>) -> HttpRequestView {
    HttpRequestView {
        method: HttpMethod::Get,
        url,
        query: Seq::empty(),
        headers: Seq::empty(),
        body: HttpBodyView::Empty,
    }
}

/// The request that stores `content` as the file at `relative_path`.
pub fn upload_request(access_token: &str, relative_path: &str, content: Vec<u8>) -> (request:
    HttpRequest)
    ensures
        request@ == upload_request_of(access_token@, relative_path@, content@),
{
    let mut url = "https://graph.microsoft.com/v1.0/drive/root:/Azimuth/".to_owned();
    url.append(relative_path);
    url.append(":/content");
    let mut headers: Vec<Field> = Vec::new();
    headers.push(bearer_header(access_token));
    headers.push(octet_stream_header());
    let query: Vec<Field> = Vec::new();
    let request = HttpRequest {
        method: HttpMethod::Put,
        url,
        query,
        headers,
        body: HttpBody::Bytes(content),
    };
    assert(request@.headers =~= upload_request_of(access_token@, relative_path@, content@).headers);
    assert(request@.query =~= Seq::empty());
    request
}

/// The request that lists the folder's children.
pub fn list_request(access_token: &str) -> (request: HttpRequest)
    ensures
        request@ == list_request_of(access_token@),
{
    let mut headers: Vec<Field> = Vec::new();
    headers.push(bearer_header(access_token));
    let query: Vec<Field> = Vec::new();
    let request = HttpRequest {
        method: HttpMethod::Get,
        url: "https://graph.microsoft.com/v1.0/drive/root:/Azimuth:/children".to_owned(),
        query,
        headers,
        body: HttpBody::Empty,
    };
    assert(request@.headers =~= list_request_of(access_token@).headers);
    assert(request@.query =~= Seq::empty());
    request
}

/// Whether the child `item` is a file that has a name and can be fetched.
pub open spec fn item_listed(item: Json) -> bool {
    &&& item.member("file"@) matches Some(facet) && facet is Object
    &&& item.text_member("name"@) is Some
    &&& item.text_member("@microsoft.graph.downloadUrl"@) is Some
}

/// The file that the child `item` shows.
pub open spec fn item_of(item: Json) -> DriveItemView {
    DriveItemView {
        name: item.text_member("name"@)->0,
        download_url: item.text_member("@microsoft.graph.downloadUrl"@)->0,
    }
}

/// The files among the children `children`.
pub open spec fn items_of(children: Seq<Json>) -> Seq<DriveItemView> {
    children.filter(|c: Json| item_listed(c)).map_values(|c: Json| item_of(c))
}

/// The children that the answer `body` shows, if it has the shape of a
/// listing.
pub open spec fn children_of(body: Json) -> Option<Seq<Json>> {
    match body.member("value"@) {
        Some(value) => value.items(),
        None => None,
    }
}

/// What the answer to a list request means: the files among the folder's
/// children, or the reason why the answer is no listing.
pub open spec fn listing_of(status: u16, body: Option<Json>) -> Result<
    Seq<DriveItemView>,
    SyncErrorView,
> {
    if !success(status) {
        Err(SyncErrorView::Remote(status_failure(status)))
    } else if body is None {
        Err(SyncErrorView::Remote("the answer is not a JSON document"@))
    } else if children_of(body->0) is None {
        Err(SyncErrorView::Remote("the answer lists no children"@))
    } else {
        Ok(items_of(children_of(body->0)->0))
    }
}

/// The view of what `listing` returns.
pub open spec fn listing_view(result: Result<Vec<DriveItem>, SyncError>) -> Result<
    Seq<DriveItemView>,
    SyncErrorView,
> {
    match result {
        Ok(items) => Ok(items.deep_view()),
        Err(e) => Err(e@),
    }
}

fn items(children: &Vec<Json>) -> (items: Vec<DriveItem>)
    ensures
        items.deep_view() == items_of(children@),
{
    let ghost keep = |c: Json| item_listed(c);
    let ghost make = |c: Json| item_of(c);
    let mut items: Vec<DriveItem> = Vec::new();
    let mut i: usize = 0;
    assert(children@.take(0) =~= Seq::empty());
    assert(Seq::<Json>::empty().filter(keep) =~= Seq::empty()) by {
        reveal(Seq::filter);
    }
    while i < children.len()
        invariant
            i <= children.len(),
            keep == |c: Json| item_listed(c),
            make == |c: Json| item_of(c),
            items.deep_view() == children@.take(i as int).filter(keep).map_values(make),
        decreases children.len() - i,
    {
        let child = &children[i];
        proof {
            let before = children@.take(i as int);
            assert(children@.take(i + 1) =~= before.push(children@[i as int]));
            before.lemma_filter_push(children@[i as int], keep);
            before.filter(keep).lemma_push_map_commute(make, children@[i as int]);
        }
        let is_file = match child.get("file") {
            Some(facet) => facet.is_object(),
            None => false,
        };
        if is_file {
            match (child.get_text("name"), child.get_text("@microsoft.graph.downloadUrl")) {
                (Some(name), Some(url)) => {
                    let ghost old_items = items.deep_view();
                    let item = DriveItem { name: name.clone(), download_url: url.clone() };
                    assert(item@ == item_of(children@[i as int]));
                    items.push(item);
                    assert(items.deep_view() =~= old_items.push(item_of(children@[i as int])));
                },
                _ => {},
            }
        }
        i += 1;
    }
    assert(children@.take(children.len() as int) =~= children@);
    items
}

/// Reads the answer to a list request. `body` is the document the store
/// answered with, or `None` if the answer was no JSON.
pub fn listing(status: u16, body: Option<&Json>) -> (result: Result<Vec<DriveItem>, SyncError>)
    ensures
        listing_view(result) == listing_of(
            status,
            match body {
                Some(b) => Some(*b),
                None => None,
            },
        ),
{
    if !is_success(status) {
        return Err(status_error(status));
    }
    let document = match body {
        Some(b) => b,
        None => {
            return Err(SyncError::Remote("the answer is not a JSON document".to_owned()));
        },
    };
    let children = match document.get("value") {
        Some(v) => v.as_list(),
        None => None,
    };
    match children {
        Some(children) => Ok(items(children)),
        None => Err(SyncError::Remote("the answer lists no children".to_owned())),
    }
}

/// The record of a file of the folder: its key is its name, and its tag is
/// the one that `index` holds for the name.
pub open spec fn record_of(item: DriveItemView, index: Seq<RemoteObjectView>) -> RemoteObjectView {
    RemoteObjectView { key: item.name, content_tag: tag_for(index, item.name) }
}

/// The remote listing for the files of the folder, tagged by `index`.
pub open spec fn records_of(items: Seq<DriveItemView>, index: Seq<RemoteObjectView>) -> Seq<
    RemoteObjectView,
> {
    items.map_values(|i: DriveItemView| record_of(i, index))
}

/// Builds the remote listing for the files of the folder. `index` is the
/// index that was read from the folder.
pub fn records(items: &Vec<DriveItem>, index: &Vec<RemoteObjectRecord>) -> (records: Vec<
    RemoteObjectRecord,
>)
    ensures
        records.deep_view() == records_of(items.deep_view(), index.deep_view()),
{
    let ghost tags = index.deep_view();
    let mut records: Vec<RemoteObjectRecord> = Vec::new();
    let mut i: usize = 0;
    while i < items.len()
        invariant
            i <= items.len(),
            records.len() == i,
            tags == index.deep_view(),
            forall|k: int|
                0 <= k < i ==> records.deep_view()[k] == record_of(items.deep_view()[k], tags),
        decreases items.len() - i,
    {
        let ghost old_records = records.deep_view();
        let record = RemoteObjectRecord {
            key: items[i].name.clone(),
            content_tag: tag_in(index, items[i].name.as_str()),
        };
        assert(record@ == record_of(items.deep_view()[i as int], tags));
        records.push(record);
        assert(records.deep_view() =~= old_records.push(
            record_of(items.deep_view()[i as int], tags),
        ));
        i += 1;
    }
    assert(records.deep_view() =~= records_of(items.deep_view(), tags));
    records
}

/// The address to fetch the file called `key` from: that of the last item
/// with this name, if there is one.
pub open spec fn download_url_of(items: Seq<DriveItemView>, key: Seq<char>) -> Option<Seq<char>>
    decreases items.len(),
{
    if items.len() == 0 {
        None
    } else if items.last().name == key {
        Some(items.last().download_url)
    } else {
        download_url_of(items.drop_last(), key)
    }
}

/// The request that fetches the file listed under `key`; `None` if the
/// listing has no file of this name.
pub fn download_request(items: &Vec<DriveItem>, key: &str) -> (request: Option<HttpRequest>)
    ensures
        request is Some <==> download_url_of(items.deep_view(), key@) is Some,
        request is Some ==> request->0@ == fetch_request_of(
            download_url_of(items.deep_view(), key@)->0,
        ),
{
    let mut i: usize = items.len();
    assert(items.deep_view().take(i as int) =~= items.deep_view());
    while i > 0
        invariant
            i <= items.len(),
            download_url_of(items.deep_view(), key@) == download_url_of(
                items.deep_view().take(i as int),
                key@,
            ),
        decreases i,
    {
        let ghost prefix = items.deep_view().take(i as int);
        assert(prefix.last() == items.deep_view()[i - 1]);
        assert(prefix.drop_last() =~= items.deep_view().take(i - 1));
        i -= 1;
        if items[i].name.as_str().eq(key) {
            let query: Vec<Field> = Vec::new();
            let headers: Vec<Field> = Vec::new();
            let request = HttpRequest {
                method: HttpMethod::Get,
                url: items[i].download_url.clone(),
                query,
                headers,
                body: HttpBody::Empty,
            };
            assert(request@.headers =~= Seq::empty());
            assert(request@.query =~= Seq::empty());
            return Some(request);
        }
    }
    None
}

/// Every key of the remote listing can be fetched: a key that `records`
/// lists has an address to fetch it from.
pub proof fn lemma_listed_key_has_url(items: Seq<DriveItemView>, j: int)
    requires
        0 <= j < items.len(),
    ensures
        download_url_of(items, items[j].name) is Some,
    decreases items.len(),
{
    if items.last().name != items[j].name {
        lemma_listed_key_has_url(items.drop_last(), j);
    }
}

/// A second pass has nothing to do. Let `local` list the files under the
/// root after a pass that ended well, and let `index` be the index read
/// from the folder, holding what was written for `local`. If the folder
/// then lists every file of `local`, and lists no file but the index that
/// is missing from `local`, the plan for `local` and
/// the listing read from the folder sends no file and fetches no object.
/// The folder lists its own children only, so this is so where the files
/// lie at the top of the root.
pub proof fn lemma_second_pass_transfers_nothing(
    local: Seq<FileRecordView>,
    items: Seq<DriveItemView>,
    index: Seq<RemoteObjectView>,
)
    requires
        distinct_paths(local),
        same_tags(index, tags_for(local)),
        forall|i: int|
            0 <= i < local.len() && (#[trigger] local[i]).relative_path != index_key() ==> exists|
                j: int,
            |
                0 <= j < items.len() && (#[trigger] items[j]).name == local[i].relative_path,
        forall|j: int|
            0 <= j < items.len() && (#[trigger] items[j]).name != index_key() ==> has_path(
                local,
                items[j].name,
            ),
    ensures
        plan_of(Provider::OneDrive, local, records_of(items, index)).uploads.len() == 0,
        plan_of(Provider::OneDrive, local, records_of(items, index)).downloads.len() == 0,
{
    let remote = records_of(items, index);
    assert forall|j: int| 0 <= j < remote.len() implies (#[trigger] remote[j]).content_tag
        == tag_for(tags_for(local), remote[j].key) by {
        assert(tag_of(index, remote[j].key) == tag_of(tags_for(local), remote[j].key));
    }
    assert forall|i: int|
        0 <= i < local.len() && Provider::OneDrive.in_scope(
            (#[trigger] local[i]).relative_path,
        ) implies exists|j: int|
        0 <= j < remote.len() && (#[trigger] remote[j]).key == local[i].relative_path by {
        let j = choose|j: int|
            0 <= j < items.len() && (#[trigger] items[j]).name == local[i].relative_path;
        assert(remote[j].key == local[i].relative_path);
    }
    lemma_tagged_files_are_not_sent(Provider::OneDrive, local, remote);
    let fetched = download_keys(Provider::OneDrive, local, remote);
    if fetched.len() > 0 {
        let k = fetched[0];
        assert(fetched.contains(k));
        lemma_download_keys_contains(Provider::OneDrive, local, remote, k);
        let j = choose|j: int| 0 <= j < remote.len() && (#[trigger] remote[j]).key == k;
        assert(items[j].name == k);
    }
}

} // verus!

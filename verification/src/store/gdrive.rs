//! Google Drive. The files are kept in a folder named `Azimuth`, which is
//! looked up first and created if the drive has none. A file is stored in
//! the folder under its name; only the files at the top level of the sync
//! root are sent, and nothing is fetched. Nothing is listed either, so no
//! tag is known for what the folder holds, and every pass sends each file
//! anew.

use crate::error::{SyncError, SyncErrorView};
use crate::http::{
    bearer, bearer_header, field, is_success, json_content, json_content_header, octet_stream,
    octet_stream_header, status_error, status_failure, success, Field, HttpBody, HttpBodyView,
    HttpMethod, HttpRequest, HttpRequestView,
};
use crate::json::Json;
use vstd::prelude::*;
use vstd::string::StringSliceAdditionalSpecFns;

verus! {

/// The bytes that are written as they are: letters, digits, `-`, `.`, `_`
/// and `~`.
pub open spec fn unreserved(b: u8) -> bool {
    ||| 0x30 <= b <= 0x39
    ||| 0x41 <= b <= 0x5a
    ||| 0x61 <= b <= 0x7a
    ||| b == 0x2d
    ||| b == 0x2e
    ||| b == 0x5f
    ||| b == 0x7e
}

/// The sixteen uppercase hexadecimal digits, by value.
pub open spec fn upper_hex_digit(nibble: int) -> char {
    seq!['0', '1', '2', '3', '4', '5', '6', '7', '8', '9', 'A', 'B', 'C', 'D', 'E', 'F'][nibble]
}

/// How one byte is written in a percent-encoded string.
pub open spec fn encoded_byte(b: u8) -> Seq<char> {
    if unreserved(b) {
        seq![b as char]
    } else {
        seq!['%', upper_hex_digit(b as int / 16), upper_hex_digit(b as int % 16)]
    }
}

/// The percent-encoding of `bytes`.
pub open spec fn percent_encoded(bytes: Seq<u8>) -> Seq<char>
    decreases bytes.len(),
{
    if bytes.len() == 0 {
        Seq::empty()
    } else {
        percent_encoded(bytes.drop_last()) + encoded_byte(bytes.last())
    }
}

/// Calls `urlencoding::encode`. Trusted: each byte of the UTF-8 form of
/// `s` is kept if it is a letter, a digit or one of `-`, `.`, `_`, `~`, and
/// is otherwise written as `%` and two uppercase hexadecimal digits.
#[verifier::external_body]
fn percent_encode(s: &str) -> (encoded: String)
    ensures
        encoded@ == percent_encoded(s.spec_bytes()),
{
    urlencoding::encode(s).into_owned()
}

/// The request that looks for the folder.
pub open spec fn find_folder_request_of(token: Seq<char>) -> HttpRequestView {
    HttpRequestView {
        method: HttpMethod::Get,
        url: "https://www.googleapis.com/drive/v3/files"@,
        query: seq![
            (
                "q"@,
                "name='Azimuth' and mimeType='application/vnd.google-apps.folder' and trashed=false"@,
            ),
            ("fields"@, "files(id,name)"@),
        ],
        headers: seq![bearer(token)],
        body: HttpBodyView::Empty,
    }
}

/// The request that creates the folder.
pub open spec fn create_folder_request_of(token: Seq<char>) -> HttpRequestView {
    HttpRequestView {
        method: HttpMethod::Post,
        url: "https://www.googleapis.com/drive/v3/files"@,
        query: Seq::empty(),
        headers: seq![bearer(token), json_content()],
        body: HttpBodyView::Text(
            "{\"mimeType\":\"application/vnd.google-apps.folder\",\"name\":\"Azimuth\"}"@,
        ),
    }
}

/// Where a file called `file_name` is sent so that it lands in the folder
/// `folder_id`.
pub open spec fn upload_url(folder_id: Seq<char>, file_name: Seq<u8>) -> Seq<char> {
    "https://www.googleapis.com/upload/drive/v3/files?uploadType=media&name="@ + percent_encoded(
        file_name,
    ) + "&parents="@ + folder_id
}

/// The request that stores `content` in the folder as the file called
/// `file_name`.
pub open spec fn upload_request_of(
    token: Seq<char>,
    folder_id: Seq<char>,
    file_name: Seq<u8>,
    content: Seq<u8>,
) -> HttpRequestView {
    HttpRequestView {
        method: HttpMethod::Post,
        url: upload_url(folder_id, file_name),
        query: Seq::empty(),
        headers: seq![bearer(token), octet_stream()],
        body: HttpBodyView::Bytes(content),
    }
}

/// The request that looks for the folder.
pub fn find_folder_request(access_token: &str) -> (request: HttpRequest)
    ensures
        request@ == find_folder_request_of(access_token@),
{
    let mut query: Vec<Field> = Vec::new();
    query.push(
        field(
            "q",
            "name='Azimuth' and mimeType='application/vnd.google-apps.folder' and trashed=false".to_owned(),
        ),
    );
    query.push(field("fields", "files(id,name)".to_owned()));
    let mut headers: Vec<Field> = Vec::new();
    headers.push(bearer_header(access_token));
    let request = HttpRequest {
        method: HttpMethod::Get,
        url: "https://www.googleapis.com/drive/v3/files".to_owned(),
        query,
        headers,
        body: HttpBody::Empty,
    };
    assert(request@.headers =~= find_folder_request_of(access_token@).headers);
    assert(request@.query =~= find_folder_request_of(access_token@).query);
    request
}

/// The request that creates the folder.
pub fn create_folder_request(access_token: &str) -> (request: HttpRequest)
    ensures
        request@ == create_folder_request_of(access_token@),
{
    let mut headers: Vec<Field> = Vec::new();
    headers.push(bearer_header(access_token));
    headers.push(json_content_header());
    let query: Vec<Field> = Vec::new();
    let request = HttpRequest {
        method: HttpMethod::Post,
        url: "https://www.googleapis.com/drive/v3/files".to_owned(),
        query,
        headers,
        body: HttpBody::Text(
            "{\"mimeType\":\"application/vnd.google-apps.folder\",\"name\":\"Azimuth\"}".to_owned(),
        ),
    };
    assert(request@.headers =~= create_folder_request_of(access_token@).headers);
    assert(request@.query =~= Seq::empty());
    request
}

/// The request that stores `content` in the folder `folder_id` as the file
/// called `file_name`.
pub fn upload_request(access_token: &str, folder_id: &str, file_name: &str, content: Vec<u8>) -> (request:
    HttpRequest)
    ensures
        request@ == upload_request_of(
            access_token@,
            folder_id@,
            file_name.spec_bytes(),
            content@,
        ),
{
    let mut url = "https://www.googleapis.com/upload/drive/v3/files?uploadType=media&name=".to_owned();
    url.append(percent_encode(file_name).as_str());
    url.append("&parents=");
    url.append(folder_id);
    let mut headers: Vec<Field> = Vec::new();
    headers.push(bearer_header(access_token));
    headers.push(octet_stream_header());
    let query: Vec<Field> = Vec::new();
    let request = HttpRequest {
        method: HttpMethod::Post,
        url,
        query,
        headers,
        body: HttpBody::Bytes(content),
    };
    assert(request@.headers =~= upload_request_of(
        access_token@,
        folder_id@,
        file_name.spec_bytes(),
        content@,
    ).headers);
    assert(request@.query =~= Seq::empty());
    request
}

/// The identifier that the document `folder` gives; empty if it gives none.
pub open spec fn folder_id_of(folder: Json) -> Seq<char> {
    match folder.text_member("id"@) {
        Some(id) => id,
        None => Seq::empty(),
    }
}

/// The folders that the answer `body` to a search shows, if it has the
/// shape of a search result.
pub open spec fn folders_of(body: Json) -> Option<Seq<Json>> {
    match body.member("files"@) {
        Some(files) => files.items(),
        None => None,
    }
}

/// What the answer to the search for the folder means: the identifier of
/// the first folder found, `None` if the drive has no such folder, or the
/// reason why the answer is no search result.
pub open spec fn search_of(status: u16, body: Option<Json>) -> Result<
    Option<Seq<char>>,
    SyncErrorView,
> {
    if !success(status) {
        Err(SyncErrorView::Remote(status_failure(status)))
    } else if body is None {
        Err(SyncErrorView::Remote("the answer is not a JSON document"@))
    } else if folders_of(body->0) is None {
        Err(SyncErrorView::Remote("Failed to search for folder"@))
    } else if folders_of(body->0)->0.len() == 0 {
        Ok(None)
    } else {
        Ok(Some(folder_id_of(folders_of(body->0)->0[0])))
    }
}

/// What the answer to the creation of the folder means: the identifier of
/// the new folder, or the reason why the answer tells none.
pub open spec fn created_of(status: u16, body: Option<Json>) -> Result<Seq<char>, SyncErrorView> {
    if !success(status) {
        Err(SyncErrorView::Remote(status_failure(status)))
    } else if body is None {
        Err(SyncErrorView::Remote("the answer is not a JSON document"@))
    } else {
        Ok(folder_id_of(body->0))
    }
}

/// The view of what `folder_search` returns.
pub open spec fn search_view(result: Result<Option<String>, SyncError>) -> Result<
    Option<Seq<char>>,
    SyncErrorView,
> {
    match result {
        Ok(Some(id)) => Ok(Some(id@)),
        Ok(None) => Ok(None),
        Err(e) => Err(e@),
    }
}

/// The view of what `created_folder` returns.
pub open spec fn created_view(result: Result<String, SyncError>) -> Result<
    Seq<char>,
    SyncErrorView,
> {
    match result {
        Ok(id) => Ok(id@),
        Err(e) => Err(e@),
    }
}

fn folder_id(folder: &Json) -> (id: String)
    ensures
        id@ == folder_id_of(*folder),
{
    match folder.get_text("id") {
        Some(id) => id.clone(),
        None => String::new(),
    }
}

/// Reads the answer to the search for the folder.
pub fn folder_search(status: u16, body: Option<&Json>) -> (result: Result<Option<String>, SyncError>)
    ensures
        search_view(result) == search_of(
            status,
            match body {
                Some(b) => Some(*b),
                None => None,
            },
        ),
{
    if !is_success(status) {
        return Err(status_error(status));
    }
    let document = match body {
        Some(b) => b,
        None => {
            return Err(SyncError::Remote("the answer is not a JSON document".to_owned()));
        },
    };
    let folders = match document.get("files") {
        Some(f) => f.as_list(),
        None => None,
    };
    match folders {
        Some(folders) => {
            if folders.len() == 0 {
                Ok(None)
            } else {
                Ok(Some(folder_id(&folders[0])))
            }
        },
        None => Err(SyncError::Remote("Failed to search for folder".to_owned())),
    }
}

/// Reads the answer to the creation of the folder.
pub fn created_folder(status: u16, body: Option<&Json>) -> (result: Result<String, SyncError>)
    ensures
        created_view(result) == created_of(
            status,
            match body {
                Some(b) => Some(*b),
                None => None,
            },
        ),
{
    if !is_success(status) {
        return Err(status_error(status));
    }
    match body {
        Some(b) => Ok(folder_id(b)),
        None => Err(SyncError::Remote("the answer is not a JSON document".to_owned())),
    }
}

} // verus!

use azimuth::error::SyncError;
use azimuth::http::{
    is_success, transfer_outcome, Field, HttpBody, HttpMethod, HttpRequest,
};
use azimuth::json::{Json, Member};
use azimuth::manifest::RemoteObjectRecord;
use azimuth::run::TransferOutcome;
use azimuth::manifest::FileRecord;
use azimuth::reconcile::{plan_sync, Provider};
use azimuth::scanner::ScannedFile;
use azimuth::store::{dropbox, gdrive, onedrive, s3, tags};

fn text(s: &str) -> Json {
    Json::Text(s.to_string())
}

fn object(members: Vec<(&str, Json)>) -> Json {
    Json::Object(
        members
            .into_iter()
            .map(|(name, value)| Member { name: name.to_string(), value })
            .collect(),
    )
}

fn header(name: &str, value: &str) -> Field {
    Field { name: name.to_string(), value: value.to_string() }
}

fn record(key: &str, tag: &str) -> RemoteObjectRecord {
    RemoteObjectRecord { key: key.to_string(), content_tag: tag.to_string() }
}

fn header_value<'a>(request: &'a HttpRequest, name: &str) -> &'a str {
    request
        .headers
        .iter()
        .find(|h| h.name == name)
        .map(|h| h.value.as_str())
        .unwrap()
}

#[test]
fn status_codes_from_200_to_299_are_success() {
    assert!(!is_success(199));
    assert!(is_success(200));
    assert!(is_success(204));
    assert!(is_success(299));
    assert!(!is_success(300));
    assert!(!is_success(401));
    assert!(!is_success(500));
    assert!(!is_success(0));
}

#[test]
fn transfer_is_judged_by_its_status() {
    assert_eq!(transfer_outcome(200), TransferOutcome::Done);
    assert_eq!(transfer_outcome(201), TransferOutcome::Done);
    assert_eq!(
        transfer_outcome(409),
        TransferOutcome::RemoteFailure("unexpected HTTP status 409".to_string())
    );
    assert_eq!(
        transfer_outcome(503),
        TransferOutcome::RemoteFailure("unexpected HTTP status 503".to_string())
    );
}

#[test]
fn dropbox_upload_request_is_exact() {
    let request = dropbox::upload_request("TOKEN", "notes/a.md", vec![1, 2, 3]);
    assert_eq!(
        request,
        HttpRequest {
            method: HttpMethod::Post,
            url: "https://content.dropboxapi.com/2/files/upload".to_string(),
            query: Vec::new(),
            headers: vec![
                header("Authorization", "Bearer TOKEN"),
                header(
                    "Dropbox-API-Arg",
                    "{\"autorename\":false,\"mode\":\"overwrite\",\"mute\":true,\"path\":\"/Azimuth/notes/a.md\"}"
                ),
                header("Content-Type", "application/octet-stream"),
            ],
            body: HttpBody::Bytes(vec![1, 2, 3]),
        }
    );
}

#[test]
fn dropbox_argument_is_what_serde_json_writes() {
    let path = "notes/say \"hi\"\\now\n.md";
    let request = dropbox::upload_request("T", path, Vec::new());
    let mut map = serde_json::Map::new();
    map.insert("path".to_string(), serde_json::Value::String(format!("/Azimuth/{}", path)));
    map.insert("mode".to_string(), serde_json::Value::String("overwrite".to_string()));
    map.insert("autorename".to_string(), serde_json::Value::Bool(false));
    map.insert("mute".to_string(), serde_json::Value::Bool(true));
    let expected = serde_json::Value::Object(map).to_string();
    assert_eq!(header_value(&request, "Dropbox-API-Arg"), expected);
    assert_eq!(
        header_value(&request, "Dropbox-API-Arg"),
        "{\"autorename\":false,\"mode\":\"overwrite\",\"mute\":true,\"path\":\"/Azimuth/notes/say \\\"hi\\\"\\\\now\\n.md\"}"
    );
}

#[test]
fn dropbox_list_request_is_exact() {
    let request = dropbox::list_request("TOKEN");
    assert_eq!(
        request,
        HttpRequest {
            method: HttpMethod::Post,
            url: "https://api.dropboxapi.com/2/files/list_folder".to_string(),
            query: Vec::new(),
            headers: vec![
                header("Authorization", "Bearer TOKEN"),
                header("Content-Type", "application/json"),
            ],
            body: HttpBody::Text("{\"path\":\"/Azimuth\",\"recursive\":true}".to_string()),
        }
    );
    let mut map = serde_json::Map::new();
    map.insert("path".to_string(), serde_json::Value::String("/Azimuth".to_string()));
    map.insert("recursive".to_string(), serde_json::Value::Bool(true));
    assert_eq!(request.body, HttpBody::Text(serde_json::Value::Object(map).to_string()));
}

#[test]
fn dropbox_download_request_is_exact() {
    let request = dropbox::download_request("TOKEN", "notes/b.md");
    assert_eq!(
        request,
        HttpRequest {
            method: HttpMethod::Post,
            url: "https://content.dropboxapi.com/2/files/download".to_string(),
            query: Vec::new(),
            headers: vec![
                header("Authorization", "Bearer TOKEN"),
                header("Dropbox-API-Arg", "{\"path\":\"/Azimuth/notes/b.md\"}"),
            ],
            body: HttpBody::Empty,
        }
    );
}

#[test]
fn dropbox_upload_and_download_use_the_same_path() {
    let key = "deep/er/note one.md";
    let up = dropbox::upload_request("T", key, Vec::new());
    let down = dropbox::download_request("T", key);
    let sent: serde_json::Value =
        serde_json::from_str(header_value(&up, "Dropbox-API-Arg")).unwrap();
    let fetched: serde_json::Value =
        serde_json::from_str(header_value(&down, "Dropbox-API-Arg")).unwrap();
    assert_eq!(sent["path"], fetched["path"]);
    assert_eq!(sent["path"], "/Azimuth/deep/er/note one.md");
}

#[test]
fn dropbox_listing_keeps_the_files_in_the_folder() {
    let body = object(vec![
        (
            "entries",
            Json::List(vec![
                object(vec![(".tag", text("folder")), ("path_display", text("/Azimuth/notes"))]),
                object(vec![(".tag", text("file")), ("path_display", text("/Azimuth/notes/a.md"))]),
                object(vec![(".tag", text("file")), ("path_display", text("/Other/b.md"))]),
                object(vec![(".tag", text("file"))]),
                object(vec![(".tag", text("file")), ("path_display", text("/Azimuth/c.md"))]),
                text("stray"),
            ]),
        ),
        ("has_more", Json::Bool(false)),
    ]);
    let listing = dropbox::listing(200, Some(&body), &Vec::new());
    assert_eq!(listing, Ok(vec![record("notes/a.md", ""), record("c.md", "")]));
}

#[test]
fn dropbox_listing_reports_a_failure_status() {
    let body = object(vec![("entries", Json::List(Vec::new()))]);
    assert_eq!(
        dropbox::listing(401, Some(&body), &Vec::new()),
        Err(SyncError::Remote("unexpected HTTP status 401".to_string()))
    );
}

#[test]
fn dropbox_listing_reports_a_malformed_answer() {
    assert_eq!(
        dropbox::listing(200, None, &Vec::new()),
        Err(SyncError::Remote("the answer is not a JSON document".to_string()))
    );
    let no_entries = object(vec![("error", text("x"))]);
    assert_eq!(
        dropbox::listing(200, Some(&no_entries), &Vec::new()),
        Err(SyncError::Remote("the answer lists no entries".to_string()))
    );
    let wrong_kind = object(vec![("entries", text("x"))]);
    assert_eq!(
        dropbox::listing(200, Some(&wrong_kind), &Vec::new()),
        Err(SyncError::Remote("the answer lists no entries".to_string()))
    );
    assert_eq!(
        dropbox::listing(200, Some(&Json::Null), &Vec::new()),
        Err(SyncError::Remote("the answer lists no entries".to_string()))
    );
}

#[test]
fn dropbox_empty_listing_is_empty() {
    let body = object(vec![("entries", Json::List(Vec::new()))]);
    assert_eq!(dropbox::listing(200, Some(&body), &Vec::new()), Ok(Vec::new()));
}

#[test]
fn onedrive_upload_request_is_exact() {
    let request = onedrive::upload_request("TOKEN", "notes/a.md", vec![9]);
    assert_eq!(
        request,
        HttpRequest {
            method: HttpMethod::Put,
            url: "https://graph.microsoft.com/v1.0/drive/root:/Azimuth/notes/a.md:/content"
                .to_string(),
            query: Vec::new(),
            headers: vec![
                header("Authorization", "Bearer TOKEN"),
                header("Content-Type", "application/octet-stream"),
            ],
            body: HttpBody::Bytes(vec![9]),
        }
    );
}

#[test]
fn onedrive_list_request_is_exact() {
    let request = onedrive::list_request("TOKEN");
    assert_eq!(
        request,
        HttpRequest {
            method: HttpMethod::Get,
            url: "https://graph.microsoft.com/v1.0/drive/root:/Azimuth:/children".to_string(),
            query: Vec::new(),
            headers: vec![header("Authorization", "Bearer TOKEN")],
            body: HttpBody::Empty,
        }
    );
}

fn onedrive_children() -> Json {
    object(vec![(
        "value",
        Json::List(vec![
            object(vec![
                ("name", text("a.md")),
                ("file", object(vec![("mimeType", text("text/markdown"))])),
                ("@microsoft.graph.downloadUrl", text("https://dl.example/a")),
            ]),
            object(vec![("name", text("folder")), ("folder", object(Vec::new()))]),
            object(vec![("name", text("no-url.md")), ("file", object(Vec::new()))]),
            object(vec![
                ("file", object(Vec::new())),
                ("@microsoft.graph.downloadUrl", text("https://dl.example/nameless")),
            ]),
            object(vec![
                ("name", text("b.md")),
                ("file", text("not an object")),
                ("@microsoft.graph.downloadUrl", text("https://dl.example/b")),
            ]),
            object(vec![
                ("name", text("c.md")),
                ("file", object(Vec::new())),
                ("@microsoft.graph.downloadUrl", text("https://dl.example/c")),
            ]),
        ]),
    )])
}

#[test]
fn onedrive_listing_keeps_the_files_that_can_be_fetched() {
    let items = onedrive::listing(200, Some(&onedrive_children())).unwrap();
    assert_eq!(
        items,
        vec![
            onedrive::DriveItem {
                name: "a.md".to_string(),
                download_url: "https://dl.example/a".to_string()
            },
            onedrive::DriveItem {
                name: "c.md".to_string(),
                download_url: "https://dl.example/c".to_string()
            },
        ]
    );
    assert_eq!(onedrive::records(&items, &Vec::new()), vec![record("a.md", ""), record("c.md", "")]);
}

#[test]
fn onedrive_download_request_uses_the_listed_address() {
    let items = onedrive::listing(200, Some(&onedrive_children())).unwrap();
    assert_eq!(
        onedrive::download_request(&items, "c.md"),
        Some(HttpRequest {
            method: HttpMethod::Get,
            url: "https://dl.example/c".to_string(),
            query: Vec::new(),
            headers: Vec::new(),
            body: HttpBody::Empty,
        })
    );
    assert_eq!(onedrive::download_request(&items, "missing.md"), None);
    assert_eq!(onedrive::download_request(&Vec::new(), "a.md"), None);
}

#[test]
fn onedrive_listing_reports_failures() {
    assert_eq!(
        onedrive::listing(500, Some(&onedrive_children())),
        Err(SyncError::Remote("unexpected HTTP status 500".to_string()))
    );
    assert_eq!(
        onedrive::listing(200, None),
        Err(SyncError::Remote("the answer is not a JSON document".to_string()))
    );
    assert_eq!(
        onedrive::listing(200, Some(&object(Vec::new()))),
        Err(SyncError::Remote("the answer lists no children".to_string()))
    );
}

#[test]
fn gdrive_find_folder_request_is_exact() {
    let request = gdrive::find_folder_request("TOKEN");
    assert_eq!(
        request,
        HttpRequest {
            method: HttpMethod::Get,
            url: "https://www.googleapis.com/drive/v3/files".to_string(),
            query: vec![
                header(
                    "q",
                    "name='Azimuth' and mimeType='application/vnd.google-apps.folder' and trashed=false"
                ),
                header("fields", "files(id,name)"),
            ],
            headers: vec![header("Authorization", "Bearer TOKEN")],
            body: HttpBody::Empty,
        }
    );
}

#[test]
fn gdrive_create_folder_request_is_exact() {
    let request = gdrive::create_folder_request("TOKEN");
    assert_eq!(request.method, HttpMethod::Post);
    assert_eq!(request.url, "https://www.googleapis.com/drive/v3/files");
    assert_eq!(
        request.headers,
        vec![
            header("Authorization", "Bearer TOKEN"),
            header("Content-Type", "application/json")
        ]
    );
    let mut map = serde_json::Map::new();
    map.insert("name".to_string(), serde_json::Value::String("Azimuth".to_string()));
    map.insert(
        "mimeType".to_string(),
        serde_json::Value::String("application/vnd.google-apps.folder".to_string()),
    );
    assert_eq!(request.body, HttpBody::Text(serde_json::Value::Object(map).to_string()));
    assert_eq!(
        request.body,
        HttpBody::Text(
            "{\"mimeType\":\"application/vnd.google-apps.folder\",\"name\":\"Azimuth\"}"
                .to_string()
        )
    );
}

#[test]
fn gdrive_upload_request_encodes_the_name() {
    let request = gdrive::upload_request("TOKEN", "FOLDER1", "my note & more.md", vec![7, 8]);
    assert_eq!(
        request,
        HttpRequest {
            method: HttpMethod::Post,
            url: "https://www.googleapis.com/upload/drive/v3/files?uploadType=media&name=my%20note%20%26%20more.md&parents=FOLDER1"
                .to_string(),
            query: Vec::new(),
            headers: vec![
                header("Authorization", "Bearer TOKEN"),
                header("Content-Type", "application/octet-stream"),
            ],
            body: HttpBody::Bytes(vec![7, 8]),
        }
    );
}

#[test]
fn gdrive_upload_request_encodes_bytes_outside_ascii() {
    let request = gdrive::upload_request("T", "F", "caf\u{e9}-_.~.md", Vec::new());
    assert_eq!(
        request.url,
        "https://www.googleapis.com/upload/drive/v3/files?uploadType=media&name=caf%C3%A9-_.~.md&parents=F"
    );
}

#[test]
fn gdrive_search_finds_the_first_folder() {
    let body = object(vec![(
        "files",
        Json::List(vec![
            object(vec![("id", text("F1")), ("name", text("Azimuth"))]),
            object(vec![("id", text("F2")), ("name", text("Azimuth"))]),
        ]),
    )]);
    assert_eq!(gdrive::folder_search(200, Some(&body)), Ok(Some("F1".to_string())));
}

#[test]
fn gdrive_search_without_folder_asks_for_creation() {
    let body = object(vec![("files", Json::List(Vec::new()))]);
    assert_eq!(gdrive::folder_search(200, Some(&body)), Ok(None));
}

#[test]
fn gdrive_search_gives_an_empty_id_for_a_folder_without_one() {
    let body = object(vec![("files", Json::List(vec![object(vec![("name", text("Azimuth"))])]))]);
    assert_eq!(gdrive::folder_search(200, Some(&body)), Ok(Some(String::new())));
}

#[test]
fn gdrive_search_reports_failures() {
    assert_eq!(
        gdrive::folder_search(200, Some(&object(vec![("error", text("x"))]))),
        Err(SyncError::Remote("Failed to search for folder".to_string()))
    );
    assert_eq!(
        gdrive::folder_search(403, Some(&object(vec![("files", Json::List(Vec::new()))]))),
        Err(SyncError::Remote("unexpected HTTP status 403".to_string()))
    );
    assert_eq!(
        gdrive::folder_search(200, None),
        Err(SyncError::Remote("the answer is not a JSON document".to_string()))
    );
}

#[test]
fn gdrive_created_folder_gives_its_id() {
    let body = object(vec![("kind", text("drive#file")), ("id", text("NEW"))]);
    assert_eq!(gdrive::created_folder(200, Some(&body)), Ok("NEW".to_string()));
    assert_eq!(gdrive::created_folder(200, Some(&object(Vec::new()))), Ok(String::new()));
    assert_eq!(
        gdrive::created_folder(500, Some(&body)),
        Err(SyncError::Remote("unexpected HTTP status 500".to_string()))
    );
    assert_eq!(
        gdrive::created_folder(200, None),
        Err(SyncError::Remote("the answer is not a JSON document".to_string()))
    );
}

#[test]
fn s3_listing_takes_complete_objects_and_unquotes_tags() {
    let objects = vec![
        s3::ListedObject {
            key: Some("notes/a.md".to_string()),
            e_tag: Some("\"9b2cf535f27731c974343645a3985328\"".to_string()),
        },
        s3::ListedObject { key: None, e_tag: Some("\"x\"".to_string()) },
        s3::ListedObject { key: Some("b.md".to_string()), e_tag: None },
        s3::ListedObject { key: Some("c.md".to_string()), e_tag: Some("plain".to_string()) },
        s3::ListedObject { key: Some("d.md".to_string()), e_tag: Some("\"\"in\"ner\"\"".to_string()) },
        s3::ListedObject { key: Some("e.md".to_string()), e_tag: Some("\"\"\"".to_string()) },
    ];
    assert_eq!(
        s3::listing(&objects),
        vec![
            record("notes/a.md", "9b2cf535f27731c974343645a3985328"),
            record("c.md", "plain"),
            record("d.md", "in\"ner"),
            record("e.md", ""),
        ]
    );
}

#[test]
fn json_members_are_looked_up_by_name() {
    let doc = object(vec![
        ("a", text("first")),
        ("b", Json::Bool(true)),
        ("a", text("second")),
        ("n", Json::Number("12".to_string())),
    ]);
    assert_eq!(doc.get("a"), Some(&text("second")));
    assert_eq!(doc.get_text("a"), Some(&"second".to_string()));
    assert_eq!(doc.get("b"), Some(&Json::Bool(true)));
    assert_eq!(doc.get_text("b"), None);
    assert_eq!(doc.get("missing"), None);
    assert_eq!(Json::Null.get("a"), None);
    assert_eq!(text("x").as_text(), Some(&"x".to_string()));
    assert_eq!(doc.as_text(), None);
    assert!(doc.is_object());
    assert!(!Json::List(Vec::new()).is_object());
    assert_eq!(Json::List(vec![Json::Null]).as_list(), Some(&vec![Json::Null]));
    assert_eq!(doc.as_list(), None);
}

/// A store that keeps what it is sent under the path named in the
/// request's argument, and hands out what it keeps.
fn dropbox_answer(
    store: &mut std::collections::HashMap<String, Vec<u8>>,
    request: HttpRequest,
) -> Option<Vec<u8>> {
    let argument: serde_json::Value =
        serde_json::from_str(header_value(&request, "Dropbox-API-Arg")).unwrap();
    let path = argument["path"].as_str().unwrap().to_string();
    if request.url.ends_with("/upload") {
        match request.body {
            HttpBody::Bytes(bytes) => {
                store.insert(path, bytes);
            }
            other => panic!("unexpected body {:?}", other),
        }
        None
    } else {
        store.get(&path).cloned()
    }
}

#[test]
fn what_is_sent_to_a_key_is_fetched_from_it() {
    let mut store = std::collections::HashMap::new();
    let content: Vec<u8> = vec![0, 159, 146, 150, 255, 10, 13, 0];
    dropbox_answer(&mut store, dropbox::upload_request("T", "notes/a b.md", content.clone()));
    dropbox_answer(&mut store, dropbox::upload_request("T", "notes/other.md", vec![1]));
    let fetched = dropbox_answer(&mut store, dropbox::download_request("T", "notes/a b.md"));
    assert_eq!(fetched, Some(content.clone()));
    // sending the same bytes again changes nothing
    dropbox_answer(&mut store, dropbox::upload_request("T", "notes/a b.md", content.clone()));
    assert_eq!(store.len(), 2);
    assert_eq!(
        dropbox_answer(&mut store, dropbox::download_request("T", "notes/a b.md")),
        Some(content)
    );
}

fn local_file(path: &str, hash: &str) -> FileRecord {
    FileRecord {
        relative_path: path.to_string(),
        content_hash: hash.to_string(),
        modified_at: "t".to_string(),
    }
}

fn json_of(value: &serde_json::Value) -> Json {
    match value {
        serde_json::Value::Null => Json::Null,
        serde_json::Value::Bool(b) => Json::Bool(*b),
        serde_json::Value::Number(n) => Json::Number(n.to_string()),
        serde_json::Value::String(s) => Json::Text(s.clone()),
        serde_json::Value::Array(items) => Json::List(items.iter().map(json_of).collect()),
        serde_json::Value::Object(map) => Json::Object(
            map.iter()
                .map(|(name, value)| Member { name: name.clone(), value: json_of(value) })
                .collect(),
        ),
    }
}

fn dropbox_entries(paths: &[&str]) -> Json {
    object(vec![(
        "entries",
        Json::List(
            paths
                .iter()
                .map(|p| {
                    object(vec![
                        (".tag", text("file")),
                        ("path_display", text(&format!("/Azimuth/{}", p))),
                    ])
                })
                .collect(),
        ),
    )])
}

#[test]
fn the_index_lists_the_fingerprint_of_every_file_but_itself() {
    let local = vec![
        local_file("notes/a.md", "h1"),
        local_file(".azimuth_tags.json", "h2"),
        local_file("c.md", "h4"),
    ];
    assert_eq!(tags::index_for(&local), vec![record("notes/a.md", "h1"), record("c.md", "h4")]);
    assert_eq!(tags::index_for(&Vec::new()), Vec::new());
    assert_eq!(tags::index_name(), ".azimuth_tags.json");
    assert!(azimuth::paths::is_hidden_path(tags::index_name()));
}

#[test]
fn the_listing_after_a_pass_holds_what_was_there_and_what_was_fetched() {
    let local = vec![local_file("a.md", "h1")];
    let fetched = vec![
        ScannedFile {
            relative_path: "notes/b.md".to_string(),
            content: Some(b"abc".to_vec()),
            modified_at: "now".to_string(),
        },
        ScannedFile {
            relative_path: ".git/config".to_string(),
            content: Some(b"x".to_vec()),
            modified_at: "now".to_string(),
        },
    ];
    let after = tags::listing_after_pass(local, &fetched);
    assert_eq!(
        after,
        vec![
            local_file("a.md", "h1"),
            FileRecord {
                relative_path: "notes/b.md".to_string(),
                content_hash: "ba7816bf8f01cfea414140de5dae2223b00361a396177a9cb410ff61f20015ad"
                    .to_string(),
                modified_at: "now".to_string(),
            },
        ]
    );
}

#[test]
fn the_index_is_written_as_a_json_object() {
    assert_eq!(tags::index_text(&Vec::new()), "{}");
    assert_eq!(tags::index_text(&vec![record("a.md", "h1")]), "{\"a.md\":\"h1\"}");
    assert_eq!(
        tags::index_text(&vec![record("a.md", "h1"), record("n/b \"x\".md", "h2")]),
        "{\"a.md\":\"h1\",\"n/b \\\"x\\\".md\":\"h2\"}"
    );
}

#[test]
fn the_index_that_was_written_is_read_back() {
    let index = vec![
        record("a.md", "h1"),
        record("notes/with \"quotes\" and \\.md", "h2"),
        record("caf\u{e9}.md", ""),
    ];
    let written = tags::index_text(&index);
    let parsed: serde_json::Value = serde_json::from_str(&written).unwrap();
    let mut read = tags::read_index(200, Some(&json_of(&parsed)));
    let mut expected = index.clone();
    read.sort_by(|a, b| a.key.cmp(&b.key));
    expected.sort_by(|a, b| a.key.cmp(&b.key));
    assert_eq!(read, expected);
}

#[test]
fn an_index_that_cannot_be_read_holds_nothing() {
    let document = object(vec![("a.md", text("h1")), ("b.md", Json::Bool(true))]);
    assert_eq!(tags::read_index(200, Some(&document)), vec![record("a.md", "h1")]);
    assert_eq!(tags::read_index(409, Some(&document)), Vec::new());
    assert_eq!(tags::read_index(200, None), Vec::new());
    assert_eq!(tags::read_index(200, Some(&Json::List(Vec::new()))), Vec::new());
    assert_eq!(tags::tag_in(&vec![record("a", "1"), record("a", "2")], "a"), "2");
    assert_eq!(tags::tag_in(&vec![record("a", "1")], "b"), "");
}

#[test]
fn the_index_is_stored_after_a_pass_that_ended_well() {
    let local = || vec![local_file("a.md", "h1")];
    let none: Vec<ScannedFile> = Vec::new();
    let fetched = vec![ScannedFile {
        relative_path: "b.md".to_string(),
        content: Some(Vec::new()),
        modified_at: "now".to_string(),
    }];
    assert_eq!(
        tags::index_to_store(Provider::Dropbox, true, local(), &none),
        Some("{\"a.md\":\"h1\"}".to_string())
    );
    assert_eq!(
        tags::index_to_store(Provider::OneDrive, true, local(), &fetched),
        Some(
            "{\"a.md\":\"h1\",\"b.md\":\"e3b0c44298fc1c149afbf4c8996fb92427ae41e4649b934ca495991b7852b855\"}"
                .to_string()
        )
    );
    assert_eq!(tags::index_to_store(Provider::Dropbox, false, local(), &none), None);
    assert_eq!(tags::index_to_store(Provider::OneDrive, false, local(), &fetched), None);
    assert_eq!(tags::index_to_store(Provider::S3, true, local(), &fetched), None);
    assert_eq!(tags::index_to_store(Provider::GoogleDrive, true, local(), &none), None);
}

#[test]
fn dropbox_listing_takes_its_tags_from_the_index() {
    let body = dropbox_entries(&["a.md", "notes/b.md", ".azimuth_tags.json"]);
    let index = vec![record("a.md", "h1"), record("gone.md", "h9")];
    assert_eq!(
        dropbox::listing(200, Some(&body), &index),
        Ok(vec![record("a.md", "h1"), record("notes/b.md", ""), record(".azimuth_tags.json", "")])
    );
}

#[test]
fn a_second_pass_with_dropbox_sends_nothing() {
    let local = vec![local_file("a.md", "h1"), local_file("notes/b.md", "h2")];
    // the first pass finds an empty folder and sends both files
    let before = dropbox::listing(200, Some(&dropbox_entries(&[])), &Vec::new()).unwrap();
    let first = plan_sync(Provider::Dropbox, &local, &before);
    assert_eq!(first.uploads, vec!["a.md".to_string(), "notes/b.md".to_string()]);
    // it ends well, so the index is written, as the store would hand it back
    let written = tags::index_to_store(Provider::Dropbox, true, local.clone(), &Vec::new()).unwrap();
    let parsed: serde_json::Value = serde_json::from_str(&written).unwrap();
    let index = tags::read_index(200, Some(&json_of(&parsed)));
    // the second pass finds the files and the index
    let body = dropbox_entries(&["a.md", "notes/b.md", ".azimuth_tags.json"]);
    let after = dropbox::listing(200, Some(&body), &index).unwrap();
    let second = plan_sync(Provider::Dropbox, &local, &after);
    assert!(second.uploads.is_empty());
    assert!(second.downloads.is_empty());
    // a file that changed since is sent again, and only that file
    let changed = vec![local_file("a.md", "h1"), local_file("notes/b.md", "other")];
    let third = plan_sync(Provider::Dropbox, &changed, &after);
    assert_eq!(third.uploads, vec!["notes/b.md".to_string()]);
}

#[test]
fn a_second_pass_with_onedrive_sends_nothing() {
    let local = vec![local_file("a.md", "h1"), local_file("c.md", "h3")];
    let first = plan_sync(Provider::OneDrive, &local, &onedrive::records(&Vec::new(), &Vec::new()));
    assert_eq!(first.uploads, vec!["a.md".to_string(), "c.md".to_string()]);
    let written =
        tags::index_to_store(Provider::OneDrive, true, local.clone(), &Vec::new()).unwrap();
    let parsed: serde_json::Value = serde_json::from_str(&written).unwrap();
    let index = tags::read_index(200, Some(&json_of(&parsed)));
    let items = onedrive::listing(200, Some(&onedrive_children())).unwrap();
    let after = onedrive::records(&items, &index);
    assert_eq!(after, vec![record("a.md", "h1"), record("c.md", "h3")]);
    let second = plan_sync(Provider::OneDrive, &local, &after);
    assert!(second.uploads.is_empty());
    assert!(second.downloads.is_empty());
}

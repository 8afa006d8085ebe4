use azimuth::config::{config_file_name, from_document, into_document, SyncConfig};
use azimuth::error::SyncError;
use azimuth::json::{Json, Member};

fn member(name: &str, value: Json) -> Member {
    Member { name: name.to_string(), value }
}

fn credentials() -> Json {
    Json::Object(vec![
        member("bucket", Json::Text("notes".to_string())),
        member("retries", Json::Number("3".to_string())),
        member("tls", Json::Bool(true)),
        member("tags", Json::List(vec![Json::Null, Json::Text("x".to_string())])),
    ])
}

fn malformed() -> Result<SyncConfig, SyncError> {
    Err(SyncError::Io("The sync configuration is malformed".to_string()))
}

#[test]
fn saved_config_is_loaded_unchanged() {
    let config = SyncConfig {
        provider: "s3".to_string(),
        enabled: true,
        credentials: credentials(),
        last_sync: Some("2024-05-01T10:00:00Z".to_string()),
    };
    let document = into_document(SyncConfig {
        provider: "s3".to_string(),
        enabled: true,
        credentials: credentials(),
        last_sync: Some("2024-05-01T10:00:00Z".to_string()),
    });
    assert_eq!(from_document(document), Ok(config));
}

#[test]
fn config_that_was_never_synced_is_loaded_unchanged() {
    let document = into_document(SyncConfig {
        provider: "dropbox".to_string(),
        enabled: false,
        credentials: Json::Null,
        last_sync: None,
    });
    assert_eq!(
        from_document(document),
        Ok(SyncConfig {
            provider: "dropbox".to_string(),
            enabled: false,
            credentials: Json::Null,
            last_sync: None,
        })
    );
}

#[test]
fn document_has_the_four_members() {
    let document = into_document(SyncConfig {
        provider: "onedrive".to_string(),
        enabled: true,
        credentials: Json::Text("secret".to_string()),
        last_sync: None,
    });
    assert_eq!(
        document,
        Json::Object(vec![
            member("provider", Json::Text("onedrive".to_string())),
            member("enabled", Json::Bool(true)),
            member("credentials", Json::Text("secret".to_string())),
            member("last_sync", Json::Null),
        ])
    );
}

#[test]
fn members_may_come_in_any_order_and_with_others() {
    let document = Json::Object(vec![
        member("last_sync", Json::Text("yesterday".to_string())),
        member("extra", Json::Number("1".to_string())),
        member("credentials", credentials()),
        member("enabled", Json::Bool(false)),
        member("provider", Json::Text("gdrive".to_string())),
    ]);
    assert_eq!(
        from_document(document),
        Ok(SyncConfig {
            provider: "gdrive".to_string(),
            enabled: false,
            credentials: credentials(),
            last_sync: Some("yesterday".to_string()),
        })
    );
}

#[test]
fn missing_last_sync_means_never() {
    let document = Json::Object(vec![
        member("provider", Json::Text("s3".to_string())),
        member("enabled", Json::Bool(true)),
        member("credentials", Json::Null),
    ]);
    assert_eq!(from_document(document).unwrap().last_sync, None);
}

#[test]
fn a_repeated_member_makes_the_document_malformed() {
    let document = Json::Object(vec![
        member("provider", Json::Text("first".to_string())),
        member("provider", Json::Text("second".to_string())),
        member("enabled", Json::Bool(true)),
        member("credentials", Json::Null),
    ]);
    assert_eq!(from_document(document), malformed());
    let document = Json::Object(vec![
        member("provider", Json::Text("s3".to_string())),
        member("enabled", Json::Bool(true)),
        member("credentials", Json::Null),
        member("last_sync", Json::Null),
        member("last_sync", Json::Null),
    ]);
    assert_eq!(from_document(document), malformed());
    // a member that the settings do not know may stand twice
    let document = Json::Object(vec![
        member("provider", Json::Text("s3".to_string())),
        member("note", Json::Null),
        member("enabled", Json::Bool(true)),
        member("note", Json::Null),
        member("credentials", Json::Null),
    ]);
    assert_eq!(from_document(document).unwrap().provider, "s3");
}

#[test]
fn malformed_documents_are_io_errors() {
    assert_eq!(from_document(Json::Null), malformed());
    assert_eq!(from_document(Json::List(Vec::new())), malformed());
    assert_eq!(from_document(Json::Object(Vec::new())), malformed());
    // no provider
    assert_eq!(
        from_document(Json::Object(vec![
            member("enabled", Json::Bool(true)),
            member("credentials", Json::Null),
        ])),
        malformed()
    );
    // provider is no string
    assert_eq!(
        from_document(Json::Object(vec![
            member("provider", Json::Bool(true)),
            member("enabled", Json::Bool(true)),
            member("credentials", Json::Null),
        ])),
        malformed()
    );
    // enabled is no boolean
    assert_eq!(
        from_document(Json::Object(vec![
            member("provider", Json::Text("s3".to_string())),
            member("enabled", Json::Text("yes".to_string())),
            member("credentials", Json::Null),
        ])),
        malformed()
    );
    // no credentials
    assert_eq!(
        from_document(Json::Object(vec![
            member("provider", Json::Text("s3".to_string())),
            member("enabled", Json::Bool(true)),
        ])),
        malformed()
    );
    // last_sync is neither string nor null
    assert_eq!(
        from_document(Json::Object(vec![
            member("provider", Json::Text("s3".to_string())),
            member("enabled", Json::Bool(true)),
            member("credentials", Json::Null),
            member("last_sync", Json::Number("5".to_string())),
        ])),
        malformed()
    );
}

#[test]
fn config_file_is_hidden_in_the_root() {
    assert_eq!(config_file_name(), ".sync_config.json");
    assert!(azimuth::paths::is_hidden_path(config_file_name()));
}

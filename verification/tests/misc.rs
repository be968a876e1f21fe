use dbx::clickhouse::basic_auth_credentials;
use dbx::elasticsearch::{insert_document_path, search_path};
use dbx::mcp::answers::{format_columns, ColumnInfo};
use dbx::mcp::connections::ConnectionSelector;
use dbx::mcp::requests::{ChangelogParams, SchemaContextRequest, UpdateCheckParams};
use dbx::mcp::web_api::mongo_list_collections_call;
use dbx::json::JsonValue;
use dbx::table_import::options::TableImportStatus;
use dbx::table_import::requests::progress_event;

#[test]
fn clickhouse_sends_credentials_only_with_a_user() {
    assert_eq!(
        basic_auth_credentials(&Some("default".to_string()), &Some("secret".to_string())),
        Some(("default".to_string(), Some("secret".to_string())))
    );
    assert_eq!(basic_auth_credentials(&Some("u".to_string()), &None), Some(("u".to_string(), None)));
    assert_eq!(basic_auth_credentials(&Some(String::new()), &Some("p".to_string())), None);
    assert_eq!(basic_auth_credentials(&None, &Some("p".to_string())), None);
}

#[test]
fn elasticsearch_document_paths() {
    assert_eq!(search_path("logs"), "/logs/_search");
    assert_eq!(insert_document_path("logs"), "/logs/_doc?refresh=true");
}

#[test]
fn formats_column_descriptions() {
    let columns = vec![
        ColumnInfo {
            name: "id".to_string(),
            data_type: "bigint".to_string(),
            is_nullable: false,
            column_default: None,
            is_primary_key: true,
            comment: None,
        },
        ColumnInfo {
            name: "note".to_string(),
            data_type: "text".to_string(),
            is_nullable: true,
            column_default: Some("''".to_string()),
            is_primary_key: false,
            comment: Some("a|b".to_string()),
        },
    ];
    let output = format_columns(&columns);
    assert!(output.starts_with("| Column | Type | Nullable | Default | Comment |"));
    assert!(output.contains("| id (PK) | bigint | NO |  |  |"));
    assert!(output.contains("| note | text | YES | '' | a\\|b |"));
}

#[test]
fn request_defaults() {
    assert_eq!(UpdateCheckParams { locale: None, source: None }.effective_locale(), "zh-CN");
    assert_eq!(UpdateCheckParams { locale: Some("en".to_string()), source: None }.effective_locale(), "en");
    assert_eq!(ChangelogParams { lang: None }.effective_lang(), "en");
    assert_eq!(ChangelogParams { lang: Some("zh".to_string()) }.effective_lang(), "zh");
    let selector = || ConnectionSelector { connection_id: None, connection_name: None };
    let request = SchemaContextRequest {
        selector: selector(),
        database: None,
        schema: None,
        tables: Some(vec!["users".to_string()]),
        max_tables: None,
    };
    assert_eq!(request.requested_tables(), vec!["users".to_string()]);
    let none = SchemaContextRequest { selector: selector(), database: None, schema: None, tables: None, max_tables: None };
    assert!(none.requested_tables().is_empty());
}

#[test]
fn lists_collections_through_web() {
    let call = mongo_list_collections_call("c", "db");
    assert_eq!(call.path, "/api/mongo/list-collections");
    assert_eq!(
        call.body,
        JsonValue::Object(vec![
            ("connectionId".to_string(), JsonValue::String("c".to_string())),
            ("database".to_string(), JsonValue::String("db".to_string())),
        ])
    );
}

#[test]
fn progress_events_carry_their_counts() {
    let event = progress_event(&"job".to_string(), TableImportStatus::Running, 3, 10);
    assert_eq!(event.import_id, "job");
    assert_eq!(event.status, TableImportStatus::Running);
    assert_eq!(event.rows_imported, 3);
    assert_eq!(event.total_rows, 10);
    assert!(event.error.is_none());
}

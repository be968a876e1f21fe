use dbx::dialect::DatabaseType;
use dbx::mcp::answers::{format_connections, list_connections_answer, open_table_answer, format_schema_context, format_table_list, select_schema_tables, ColumnInfo, TableInfo};
use dbx::mcp::connections::{
    default_port, new_connection_config, parse_database_type, resolve_database, ConnectionConfig, ConnectionSelector,
    ConnectionSummary, McpScope,
};
use dbx::mcp::markdown::{escape_cell, escape_markdown_cell};
use dbx::mcp::selection::resolve_connection;

fn config(id: &str, name: &str, db: Option<&str>) -> ConnectionConfig {
    new_connection_config(
        id.to_string(),
        name.to_string(),
        DatabaseType::Postgres,
        "127.0.0.1".to_string(),
        5432,
        String::new(),
        String::new(),
        db.map(str::to_string),
        false,
        None,
    )
}

fn selector(id: Option<&str>, name: Option<&str>) -> ConnectionSelector {
    ConnectionSelector { connection_id: id.map(str::to_string), connection_name: name.map(str::to_string) }
}

#[test]
fn connection_table_escapes_markdown_cells() {
    let output = format_connections(&vec![ConnectionSummary {
        id: "id|1".to_string(),
        name: "local\npg".to_string(),
        db_type: "postgres".to_string(),
        host: "127.0.0.1".to_string(),
        port: 5432,
        database: "app".to_string(),
    }]);
    assert!(output.contains("id\\|1"));
    assert!(output.contains("local pg"));
}

#[test]
fn parses_database_type_using_dbx_protocol_names() {
    assert_eq!(parse_database_type("Postgres").unwrap(), DatabaseType::Postgres);
    assert_eq!(parse_database_type("mongodb").unwrap(), DatabaseType::MongoDb);
    assert!(parse_database_type("unknown").is_err());
}

#[test]
fn unknown_database_type_message_names_the_input() {
    assert_eq!(parse_database_type(" Cloudflare-D1 ").unwrap(), DatabaseType::CloudflareD1);
    assert_eq!(parse_database_type("oracle9").unwrap_err(), "Unsupported database type: oracle9");
}

#[test]
fn default_ports_follow_protocol_names() {
    assert_eq!(default_port(" MySQL "), Some(3306));
    assert_eq!(default_port("gaussdb"), Some(5432));
    assert_eq!(default_port("cloudflare-d1"), Some(443));
    assert_eq!(default_port("duckdb"), Some(0));
    assert_eq!(default_port("oracle"), None);
}

#[test]
fn summaries_use_protocol_names_and_empty_database() {
    let c = config("a", "main", None);
    let s = ConnectionSummary::from_config(&c);
    assert_eq!(s.db_type, "postgres");
    assert_eq!(s.database, "");
}

#[test]
fn scope_from_environment_values_trims_and_drops_blanks() {
    let scope = McpScope::from_env(Some("  ".to_string()), Some(" prod ".to_string()), None);
    assert_eq!(scope.connection_id, None);
    assert_eq!(scope.connection_name.as_deref(), Some("prod"));
    assert!(scope.enabled());
    assert!(!McpScope::default().enabled());
}

#[test]
fn resolves_by_id_then_name_ignoring_case() {
    let connections = vec![config("a", "Main", Some("app")), config("b", "other", None)];
    let scope = McpScope::default();
    let by_id = resolve_connection(&scope, &selector(Some(" b "), Some("Main")), &connections).unwrap();
    assert_eq!(by_id.id, "b");
    let by_name = resolve_connection(&scope, &selector(None, Some("MAIN")), &connections).unwrap();
    assert_eq!(by_name.id, "a");
    let missing = resolve_connection(&scope, &selector(Some("zzz"), None), &connections).unwrap_err();
    assert_eq!(missing.code, "CONNECTION_NOT_FOUND");
    assert_eq!(missing.text(), "Error [CONNECTION_NOT_FOUND]: Connection with id \"zzz\" not found.");
    let none = resolve_connection(&scope, &selector(None, Some("  ")), &connections).unwrap_err();
    assert_eq!(none.message, "Either connection_id or connection_name is required.");
}

#[test]
fn ambiguous_names_list_every_candidate() {
    let connections = vec![config("a", "dup", None), config("b", "DUP", None)];
    let error = resolve_connection(&McpScope::default(), &selector(None, Some("dup")), &connections).unwrap_err();
    assert_eq!(error.code, "AMBIGUOUS_CONNECTION");
    assert_eq!(
        error.message,
        "Multiple connections found with name \"dup\". Please specify connection_id:\n- a: Postgres @ 127.0.0.1:5432\n- b: Postgres @ 127.0.0.1:5432"
    );
}

#[test]
fn scoped_sessions_only_reach_their_connection() {
    let connections = vec![config("a", "Main", None), config("b", "other", None)];
    let scope = McpScope::from_env(None, Some("other".to_string()), Some("analytics".to_string()));
    let scoped = resolve_connection(&scope, &selector(None, None), &connections).unwrap();
    assert_eq!(scoped.id, "b");
    let out = resolve_connection(&scope, &selector(Some("a"), None), &connections).unwrap_err();
    assert_eq!(out.code, "CONNECTION_OUT_OF_SCOPE");
    let named = resolve_connection(&scope, &selector(None, Some("Main")), &connections).unwrap_err();
    assert_eq!(named.message, "Connection \"Main\" is outside this DBX AI session scope.");
    assert_eq!(resolve_database(None, &scope, &scoped), "analytics");
    assert_eq!(resolve_database(Some("x".to_string()), &scope, &scoped), "x");
    assert_eq!(resolve_database(None, &McpScope::default(), &config("c", "c", Some("app"))), "app");
}

#[test]
fn cells_escape_pipes_and_line_breaks() {
    assert_eq!(escape_cell("a|b\nc\r"), "a\\|b c\r");
    assert_eq!(escape_markdown_cell("a|b\r\nc"), "a\\|b  c");
}

fn table(name: &str, comment: Option<&str>) -> TableInfo {
    TableInfo { name: name.to_string(), table_type: "BASE TABLE".to_string(), comment: comment.map(str::to_string) }
}

#[test]
fn table_lists_show_comments() {
    assert_eq!(format_table_list(&vec![]), "No tables found.");
    assert_eq!(
        format_table_list(&vec![table("a", Some("first")), table("b", Some(""))]),
        "- a (BASE TABLE) -- first\n- b (BASE TABLE)"
    );
}

#[test]
fn schema_context_selects_requested_tables_within_limit() {
    let available = vec![table("Users", None), table("orders", None), table("items", None)];
    let (selected, truncated) = select_schema_tables(available, vec!["users".to_string(), "ITEMS".to_string()], None);
    assert_eq!(selected.iter().map(|t| t.name.as_str()).collect::<Vec<_>>(), vec!["Users", "items"]);
    assert!(!truncated);
    let available = vec![table("a", None), table("b", None), table("c", None)];
    let (selected, truncated) = select_schema_tables(available, vec![], Some(2));
    assert_eq!(selected.len(), 2);
    assert!(truncated);
    let column = ColumnInfo {
        name: "id".to_string(),
        data_type: "int".to_string(),
        is_nullable: false,
        column_default: None,
        is_primary_key: true,
        comment: Some("key".to_string()),
    };
    let text = format_schema_context("main", "app", "", &vec![(table("users", None), vec![column])], true);
    assert_eq!(
        text,
        "Connection: main\nDatabase: app\n\n## users\nType: BASE TABLE\n- id int NOT NULL PK -- key\n\nNote: table list was truncated; request specific table names for more context."
    );
}

#[test]
fn connection_list_and_open_table_answers() {
    assert_eq!(list_connections_answer(&vec![]), "No connections configured in DBX.");
    let one = vec![ConnectionSummary {
        id: "c1".to_string(),
        name: "local".to_string(),
        db_type: "postgres".to_string(),
        host: "db".to_string(),
        port: 5432,
        database: "app".to_string(),
    }];
    assert_eq!(list_connections_answer(&one), format_connections(&one));
    assert!(list_connections_answer(&one).contains("| c1 | local | postgres | db | 5432 | app |"));
    assert_eq!(open_table_answer("users"), "Opened users in DBX");
}

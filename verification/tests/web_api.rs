use dbx::clickhouse::{column_from_row, expand_cert_path, table_from_row};
use dbx::dialect::DatabaseType;
use dbx::elasticsearch::{
    catalogue_index_names, document_path, inserted_document_id, search_body, search_hit_documents, visible_indices,
};
use dbx::json::{JsonNumber, JsonValue};
use dbx::mcp::connections::new_connection_config;
use dbx::mcp::gates::{AgentSqlPermissions, RedisCommandSafety};
use dbx::mcp::manage::ToolReply;
use dbx::mcp::results::infer_document_columns;
use dbx::mcp::web_api::{
    agent_query_arguments, agent_result, bridge_url, execute_and_show_body, execute_query_arguments, format_redis_result,
    mongo_collection_tables, mongo_sample_documents_call, open_table_body, query_execute_call, redis_execute_call,
    schema_columns_path, schema_tables_path, web_agent_check, web_mongo_call, web_mongo_reply, web_tool_result,
};
use dbx::mongo::parser::parse;
use dbx::table_import::flow::check_non_streaming_file_size;
use dbx::table_import::options::TableImportSourceFormat;

fn text(value: &str) -> JsonValue {
    JsonValue::String(value.to_string())
}

fn integer(value: i64) -> JsonValue {
    JsonValue::Number(JsonNumber { text: value.to_string(), is_integer: true })
}

fn object(members: Vec<(&str, JsonValue)>) -> JsonValue {
    JsonValue::Object(members.into_iter().map(|(k, v)| (k.to_string(), v)).collect())
}

#[test]
fn builds_web_mongo_find_call() {
    let command = parse("db.users.find({\"a\": 1}).skip(5).limit(10)").unwrap();
    let call = web_mongo_call("c1", "app", &command, &None);
    assert_eq!(call.path, "/api/mongo/find-documents");
    assert_eq!(
        call.body,
        object(vec![
            ("connectionId", text("c1")),
            ("database", text("app")),
            ("collection", text("users")),
            ("skip", integer(5)),
            ("limit", integer(10)),
            ("filter", text("{\"a\":1}")),
            ("projection", JsonValue::Null),
            ("sort", JsonValue::Null),
        ])
    );
}

#[test]
fn builds_web_mongo_count_and_stats_calls() {
    let count = parse("db.users.countDocuments({})").unwrap();
    let call = web_mongo_call("c1", "app", &count, &None);
    assert_eq!(call.path, "/api/mongo/count-documents");
    match &call.body {
        JsonValue::Object(members) => assert_eq!(members.last().unwrap(), &("mode".to_string(), text("accurate"))),
        _ => panic!("expected an object"),
    }
    let stats = parse("db.users.stats(1024)").unwrap();
    let scale = Some(JsonNumber { text: "1024.0".to_string(), is_integer: false });
    let call = web_mongo_call("c1", "app", &stats, &scale);
    assert_eq!(call.path, "/api/mongo/collection-stats");
    match &call.body {
        JsonValue::Object(members) => {
            assert_eq!(members[3], ("scale".to_string(), JsonValue::Number(JsonNumber { text: "1024.0".to_string(), is_integer: false })))
        },
        _ => panic!("expected an object"),
    }
}

#[test]
fn reads_web_mongo_replies() {
    let version = parse("db.version()").unwrap();
    assert_eq!(web_mongo_reply(&version, &text("7.0")).unwrap(), "| version |\n| --- |\n| 7.0 |\n\n1 row(s)");
    assert_eq!(
        web_mongo_reply(&version, &integer(7)).unwrap_err(),
        "Invalid MongoDB version response: expected a string"
    );
    let find = parse("db.users.find({})").unwrap();
    let docs = object(vec![("documents", JsonValue::Array(vec![object(vec![("name", text("Ada"))])]))]);
    let output = web_mongo_reply(&find, &docs).unwrap();
    assert!(output.starts_with("| name |"));
    assert!(output.ends_with("1 row(s)"));
    assert!(web_mongo_reply(&find, &object(vec![])).unwrap_err().starts_with("Invalid MongoDB find response"));
    let count = parse("db.users.countDocuments({})").unwrap();
    assert_eq!(web_mongo_reply(&count, &integer(12)).unwrap(), "| count |\n| --- |\n| 12 |\n\n1 row(s)");
    assert!(web_mongo_reply(&count, &integer(-1)).is_err());
    let insert = parse("db.users.insertOne({\"a\": 1})").unwrap();
    assert_eq!(web_mongo_reply(&insert, &object(vec![("affectedRows", integer(1))])).unwrap(), "Query executed. 1 row(s) affected.");
    let drop = parse("db.users.drop()").unwrap();
    assert_eq!(web_mongo_reply(&drop, &JsonValue::Null).unwrap(), "Query executed. 1 row(s) affected.");
}

#[test]
fn infers_columns_from_sample_documents() {
    let docs = vec![
        object(vec![("name", text("Ada")), ("age", integer(36))]),
        text("not an object"),
        object(vec![("age", text("unknown")), ("city", JsonValue::Null)]),
    ];
    let columns = infer_document_columns(&docs);
    let names: Vec<_> = columns.iter().map(|c| c.name.as_str()).collect();
    let types: Vec<_> = columns.iter().map(|c| c.data_type.as_str()).collect();
    assert_eq!(names, vec!["age", "city", "name"]);
    assert_eq!(types, vec!["integer", "null", "string"]);
    assert!(columns.iter().all(|c| c.is_nullable && !c.is_primary_key && c.column_default.is_none()));
}

#[test]
fn encodes_schema_paths_as_form_values() {
    assert_eq!(schema_tables_path("a b&c/é", "db", ""), "/api/schema/tables?connection_id=a+b%26c%2F%C3%A9&database=db&schema=");
    assert_eq!(
        schema_columns_path("id", "my db", "public", "t*1"),
        "/api/schema/columns?connection_id=id&database=my+db&schema=public&table=t*1"
    );
}

#[test]
fn builds_web_calls() {
    let call = query_execute_call("c", "db", "select 1");
    assert_eq!(call.path, "/api/query/execute");
    assert_eq!(call.body, object(vec![("connectionId", text("c")), ("database", text("db")), ("sql", text("select 1"))]));
    let call = redis_execute_call("c", 3, "GET k", true);
    assert_eq!(
        call.body,
        object(vec![("connectionId", text("c")), ("db", integer(3)), ("command", text("GET k")), ("skipSafetyCheck", JsonValue::Bool(true))])
    );
    let call = mongo_sample_documents_call("c", "db", "users");
    assert_eq!(call.path, "/api/mongo/find-documents");
    match &call.body {
        JsonValue::Object(members) => assert_eq!(members.len(), 6),
        _ => panic!("expected an object"),
    }
}

#[test]
fn lists_collection_names() {
    let values = vec![text("users"), object(vec![("name", text("orders"))]), integer(3), object(vec![("other", text("x"))])];
    let tables = mongo_collection_tables(&values);
    let names: Vec<_> = tables.iter().map(|t| t.name.as_str()).collect();
    assert_eq!(names, vec!["users", "orders"]);
    assert!(tables.iter().all(|t| t.table_type == "COLLECTION"));
}

#[test]
fn agent_tool_steps() {
    assert_eq!(web_agent_check("describe", DatabaseType::Postgres).unwrap_err(), "Unsupported DBX Web agent tool: describe");
    assert!(web_agent_check("execute_query", DatabaseType::MongoDb).is_err());
    assert!(web_agent_check("execute_query", DatabaseType::Mysql).is_ok());
    let arguments = execute_query_arguments("select 1");
    assert_eq!(agent_query_arguments(&arguments).unwrap(), ("select 1".to_string(), 100));
    assert_eq!(agent_query_arguments(&object(vec![("sql", text("x")), ("limit", integer(5))])).unwrap().1, 5);
    assert_eq!(agent_query_arguments(&object(vec![])).unwrap_err(), "Missing SQL query");
    let result = web_tool_result("execute_query", Err("boom".to_string()));
    assert_eq!(result.tool_call_id, "mcp-execute_query");
    assert_eq!(result.content, "Error: boom");
    assert!(result.is_error);
    match agent_result("Error: Error: boom", true) {
        ToolReply::Error(e) => {
            assert_eq!(e.code, "DBX_TOOL_ERROR");
            assert_eq!(e.message, "boom");
        },
        _ => panic!("expected an error"),
    }
    assert!(matches!(agent_result("rows", false), ToolReply::Text(t) if t == "rows"));
}

#[test]
fn formats_redis_results() {
    assert_eq!(format_redis_result("GET k", RedisCommandSafety::Allowed, &text("v")), "Command: GET k\nSafety: allowed\n\nv");
    let output = format_redis_result("HGETALL h", RedisCommandSafety::Allowed, &JsonValue::Array(vec![text("a")]));
    assert!(output.starts_with("Command: HGETALL h\nSafety: allowed\n\n["));
}

#[test]
fn builds_bridge_bodies() {
    let connection = new_connection_config(
        "id1".to_string(),
        "main".to_string(),
        DatabaseType::Postgres,
        "h".to_string(),
        5432,
        String::new(),
        String::new(),
        None,
        false,
        None,
    );
    assert_eq!(
        open_table_body(&connection, "users", "app", &None),
        object(vec![
            ("connection_id", text("id1")),
            ("connection_name", text("main")),
            ("table", text("users")),
            ("database", text("app")),
            ("schema", JsonValue::Null),
        ])
    );
    let body = execute_and_show_body(&connection, "select 1", "app", AgentSqlPermissions { allow_writes: true, allow_dangerous: false });
    match body {
        JsonValue::Object(members) => {
            assert_eq!(members.len(), 6);
            assert_eq!(members[5], ("allow_dangerous".to_string(), JsonValue::Bool(false)));
        },
        _ => panic!("expected an object"),
    }
    assert_eq!(bridge_url(" 4567\n", "/open-table"), "http://127.0.0.1:4567/open-table");
}

#[test]
fn maps_clickhouse_catalogue_rows() {
    let table = table_from_row(&vec![text("events_mv"), text("MaterializedView")]);
    assert_eq!(table.name, "events_mv");
    assert_eq!(table.table_type, "VIEW");
    assert_eq!(table_from_row(&vec![text("t"), text("MergeTree")]).table_type, "BASE TABLE");
    let column = column_from_row(&vec![
        text("id"),
        text("Nullable(UInt64)"),
        text("DEFAULT"),
        text("0"),
        integer(1),
        text(""),
    ]);
    assert_eq!(column.name, "id");
    assert!(column.is_nullable);
    assert_eq!(column.column_default, Some("0".to_string()));
    assert!(column.is_primary_key);
    assert!(column.comment.is_none());
    let plain = column_from_row(&vec![text("name"), text("String"), text(""), text("x"), integer(0), text("the name")]);
    assert!(!plain.is_nullable);
    assert!(plain.column_default.is_none());
    assert!(!plain.is_primary_key);
    assert_eq!(plain.comment, Some("the name".to_string()));
}

#[test]
fn expands_home_in_cert_paths() {
    let home = Some("/home/u".to_string());
    assert_eq!(expand_cert_path("~/certs/ca.pem", &home, &None), "/home/u/certs/ca.pem");
    assert_eq!(expand_cert_path("~", &home, &None), "/home/u");
    assert_eq!(expand_cert_path("$HOME/ca.pem", &home, &None), "/home/u/ca.pem");
    assert_eq!(expand_cert_path("${HOME}/ca.pem", &home, &None), "/home/u/ca.pem");
    assert_eq!(expand_cert_path("%USERPROFILE%\\ca.pem", &None, &Some("C:\\Users\\u".to_string())), "C:\\Users\\u\\ca.pem");
    assert_eq!(expand_cert_path("~/ca.pem", &None, &None), "~/ca.pem");
    assert_eq!(expand_cert_path("/etc/ca.pem", &home, &None), "/etc/ca.pem");
}

#[test]
fn lists_visible_indices_in_order() {
    let names = vec!["logs".to_string(), ".kibana".to_string(), "events".to_string(), "logs".to_string()];
    assert_eq!(visible_indices(names), vec!["events", "logs", "logs"]);
    let response = JsonValue::Array(vec![object(vec![("index", text("b"))]), object(vec![("index", text(".a"))])]);
    assert_eq!(catalogue_index_names(&response).unwrap(), vec!["b", ".a"]);
    assert!(catalogue_index_names(&JsonValue::Array(vec![integer(1)])).is_err());
}

#[test]
fn reads_search_hits_as_documents() {
    assert_eq!(
        search_body(10, 5),
        object(vec![("from", integer(10)), ("size", integer(5)), ("sort", JsonValue::Array(vec![text("_doc")]))])
    );
    let response = object(vec![(
        "hits",
        object(vec![
            ("total", object(vec![("value", integer(2))])),
            (
                "hits",
                JsonValue::Array(vec![
                    object(vec![("_id", text("1")), ("_source", object(vec![("_id", text("old")), ("name", text("Ada"))]))]),
                    object(vec![("_id", text("2")), ("_source", object(vec![("name", text("Grace"))]))]),
                ]),
            ),
        ]),
    )]);
    let (docs, total) = search_hit_documents(&response).unwrap();
    assert_eq!(total, 2);
    assert_eq!(docs[0], object(vec![("_id", text("1")), ("name", text("Ada"))]));
    assert_eq!(docs[1], object(vec![("name", text("Grace")), ("_id", text("2"))]));
    assert!(search_hit_documents(&object(vec![])).is_err());
    assert_eq!(document_path("logs", "7"), "/logs/_doc/7?refresh=true");
    assert_eq!(inserted_document_id(&object(vec![("_id", text("abc"))])), "abc");
    assert_eq!(inserted_document_id(&JsonValue::Null), "");
}

#[test]
fn limits_size_of_files_read_whole() {
    assert!(check_non_streaming_file_size(TableImportSourceFormat::Csv, u64::MAX).is_ok());
    assert!(check_non_streaming_file_size(TableImportSourceFormat::Json, 104_857_600).is_ok());
    assert_eq!(
        check_non_streaming_file_size(TableImportSourceFormat::Excel, 104_857_601).unwrap_err(),
        "File too large for excel import: 104857601 bytes (max 104857600 bytes)"
    );
}

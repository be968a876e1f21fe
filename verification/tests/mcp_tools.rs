use dbx::dialect::DatabaseType;
use dbx::mcp::connections::{new_connection_config, ConnectionConfig, McpScope};
use dbx::mcp::gates::{
    boolean_flag, default_permissions, enabled_tools, parse_redis_database, redis_command_gate, redis_connection_gate,
    redis_database, redis_production_gate, redis_tool_plan, sql_connection_gate, sql_gate, validate_mongo_command,
    AgentSqlPermissions, RedisCommandSafety, RedisPlan, SqlRisk,
};
use dbx::mcp::web_api::{query_tool_plan, QueryPlan};
use dbx::mcp::manage::{added_message, plan_add_connection, plan_remove_connection, AddConnectionRequest, RemoveConnectionRequest, ToolReply};
use dbx::mcp::paths::{app_data_dir, join_path, storage_db_path, TargetOs};
use dbx::mcp::web::{
    auth_after_check, needs_auth_check, normalize_base_url, retry_after_unauthorized, session_from_login, AuthCheck, AuthStep,
};

fn config(id: &str, name: &str, db_type: DatabaseType, database: Option<&str>) -> ConnectionConfig {
    new_connection_config(
        id.to_string(),
        name.to_string(),
        db_type,
        "127.0.0.1".to_string(),
        5432,
        String::new(),
        String::new(),
        database.map(str::to_string),
        false,
        None,
    )
}

fn permissions(allow_writes: bool, allow_dangerous: bool) -> AgentSqlPermissions {
    AgentSqlPermissions { allow_writes, allow_dangerous }
}

#[test]
fn server_registers_list_connections_tool() {
    let scope = McpScope::default();
    let names = enabled_tools(scope.connection_id.is_some() || scope.connection_name.is_some(), false);
    assert_eq!(names.len(), 10);
    for tool in [
        "dbx_list_connections",
        "dbx_list_tables",
        "dbx_describe_table",
        "dbx_execute_query",
        "dbx_add_connection",
        "dbx_remove_connection",
        "dbx_execute_redis_command",
        "dbx_get_schema_context",
        "dbx_open_table",
        "dbx_execute_and_show",
    ] {
        assert!(names.contains(&tool), "{tool}");
    }
}

#[test]
fn scoped_server_hides_mutating_and_desktop_tools() {
    let scope = McpScope { connection_id: Some("scoped".to_string()), ..Default::default() };
    let names = enabled_tools(scope.connection_id.is_some() || scope.connection_name.is_some(), false);
    assert_eq!(names.len(), 6);
    assert!(!names.iter().any(|name| *name == "dbx_add_connection"));
    assert!(!names.iter().any(|name| *name == "dbx_remove_connection"));
    assert!(!names.iter().any(|name| *name == "dbx_open_table"));
    assert!(!names.iter().any(|name| *name == "dbx_execute_and_show"));
}

#[test]
fn web_mode_hides_desktop_tools_only() {
    let names = enabled_tools(false, true);
    assert_eq!(names.len(), 8);
    assert!(names.contains(&"dbx_add_connection"));
    assert!(!names.contains(&"dbx_open_table"));
}

#[test]
fn reads_boolean_flags() {
    assert_eq!(boolean_flag(Some(" TRUE ".to_string())), Some(true));
    assert_eq!(boolean_flag(Some("0".to_string())), Some(false));
    assert_eq!(boolean_flag(Some("yes".to_string())), None);
    assert_eq!(boolean_flag(None), None);
    let p = default_permissions(None, None);
    assert!(p.allow_writes);
    assert!(!p.allow_dangerous);
    let p = default_permissions(Some("false".to_string()), Some("1".to_string()));
    assert!(!p.allow_writes);
    assert!(p.allow_dangerous);
}

#[test]
fn mongo_gate_blocks_writes_in_read_only_session() {
    let error = validate_mongo_command("db.users.insertOne({\"a\": 1})", permissions(false, false), false).unwrap_err();
    assert_eq!(error.code, "SQL_BLOCKED");
    assert!(error.message.contains("read-only"));
}

#[test]
fn mongo_gate_blocks_empty_filter_delete_and_production_writes() {
    let error = validate_mongo_command("db.users.deleteMany({})", permissions(true, false), false).unwrap_err();
    assert!(error.message.contains("non-empty filter"));
    let error = validate_mongo_command("db.users.deleteOne({\"id\": 1})", permissions(true, false), true).unwrap_err();
    assert_eq!(error.code, "PRODUCTION_WRITE_BLOCKED");
    let ok = validate_mongo_command("db.users.find({})", permissions(false, false), true);
    assert!(ok.is_ok());
}

#[test]
fn mongo_gate_reports_parse_errors_with_usage_hint() {
    let error = validate_mongo_command("show collections", permissions(true, true), false).unwrap_err();
    assert_eq!(error.code, "QUERY_ERROR");
    assert!(error.message.ends_with("db.collection.countDocuments({})."));
}

#[test]
fn redis_gates_follow_permissions_and_production() {
    let error = redis_command_gate(RedisCommandSafety::Blocked, "flushall", permissions(true, false)).unwrap_err();
    assert_eq!(error.code, "REDIS_COMMAND_BLOCKED");
    assert_eq!(error.message, "Dangerous Redis command \"FLUSHALL\" is blocked. Set DBX_MCP_ALLOW_DANGEROUS_SQL=1 to allow it.");
    let error = redis_command_gate(RedisCommandSafety::Write, "set", permissions(false, false)).unwrap_err();
    assert!(error.message.contains("read-only"));
    assert!(redis_command_gate(RedisCommandSafety::Allowed, "get", permissions(false, false)).is_ok());
    assert_eq!(redis_production_gate(RedisCommandSafety::Blocked, false, permissions(true, true)).unwrap(), true);
    assert_eq!(redis_production_gate(RedisCommandSafety::Write, true, permissions(true, true)).unwrap_err().code, "PRODUCTION_WRITE_BLOCKED");
}

#[test]
fn picks_redis_database() {
    assert_eq!(parse_redis_database(" 3 "), Some(3));
    assert_eq!(parse_redis_database("x"), None);
    let connection = config("r", "cache", DatabaseType::Redis, Some("2"));
    let scope = McpScope { database: Some("5".to_string()), ..Default::default() };
    assert_eq!(redis_database(Some(7), &scope, &connection), 7);
    assert_eq!(redis_database(None, &scope, &connection), 5);
    assert_eq!(redis_database(None, &McpScope::default(), &connection), 2);
    assert_eq!(redis_database(None, &McpScope::default(), &config("r", "cache", DatabaseType::Redis, None)), 0);
}

#[test]
fn connection_type_gates() {
    let redis = config("r", "cache", DatabaseType::Redis, None);
    let pg = config("p", "main", DatabaseType::Postgres, None);
    assert_eq!(sql_connection_gate(&redis).unwrap_err().code, "REDIS_COMMAND_REQUIRED");
    assert!(sql_connection_gate(&pg).is_ok());
    assert_eq!(redis_connection_gate(&pg).unwrap_err().message, "Connection \"main\" is not Redis.");
    assert!(redis_connection_gate(&redis).is_ok());
}

#[test]
fn sql_gate_orders_its_checks() {
    assert_eq!(sql_gate(SqlRisk::Write, "Write", true, permissions(true, true)).unwrap_err().code, "PRODUCTION_WRITE_BLOCKED");
    assert_eq!(
        sql_gate(SqlRisk::Transaction, "Transaction", false, permissions(true, true)).unwrap_err().message,
        "Transaction statement is blocked for this session."
    );
    assert_eq!(sql_gate(SqlRisk::Ddl, "DDL", false, permissions(true, false)).unwrap_err().code, "SQL_BLOCKED");
    assert!(sql_gate(SqlRisk::Ddl, "DDL", false, permissions(true, true)).is_ok());
    assert_eq!(
        sql_gate(SqlRisk::Write, "Write", false, permissions(false, false)).unwrap_err().message,
        "MCP SQL execution is read-only for this session."
    );
    assert!(sql_gate(SqlRisk::ReadOnly, "Read", true, permissions(false, false)).is_ok());
}

#[test]
fn normalizes_web_base_url() {
    assert_eq!(normalize_base_url("  http://localhost:4224/// ").unwrap(), "http://localhost:4224");
    assert_eq!(normalize_base_url(" // ").unwrap_err(), "DBX_WEB_URL cannot be empty.");
}

#[test]
fn web_authentication_steps() {
    assert!(needs_auth_check(false, false));
    assert!(!needs_auth_check(true, false));
    let check = |authenticated, required, setup_required| AuthCheck { authenticated, required, setup_required };
    assert!(matches!(auth_after_check(check(false, true, true), false), AuthStep::Failed(_)));
    assert!(matches!(auth_after_check(check(false, false, false), true), AuthStep::Checked));
    assert!(matches!(auth_after_check(check(false, true, false), false), AuthStep::Login));
    match auth_after_check(check(false, true, false), true) {
        AuthStep::Failed(e) => assert_eq!(e, "DBX Web authentication is required. Set DBX_WEB_PASSWORD for MCP Web mode."),
        _ => panic!("expected a failure"),
    }
    assert_eq!(session_from_login(Some("dbx_session=abc; Path=/; HttpOnly")).unwrap(), "abc");
    assert!(session_from_login(Some("other=1")).is_err());
    assert!(session_from_login(None).is_err());
    assert!(retry_after_unauthorized(true, false, false));
    assert!(!retry_after_unauthorized(true, true, false));
}

#[test]
fn adds_connection_with_default_port() {
    let existing = vec![config("a", "main", DatabaseType::Postgres, None)];
    let request = |name: &str, db_type: &str, port: Option<u16>| AddConnectionRequest {
        name: name.to_string(),
        db_type: db_type.to_string(),
        host: "db".to_string(),
        port,
        username: "u".to_string(),
        password: "p".to_string(),
        database: None,
        ssl: false,
        driver_profile: None,
    };
    match plan_add_connection(&existing, request("MAIN", "mysql", None), "b".to_string()) {
        Err(ToolReply::Text(t)) => assert_eq!(t, "Connection \"MAIN\" already exists."),
        _ => panic!("expected the name to be taken"),
    }
    match plan_add_connection(&existing, request("other", "nosuchdb", None), "b".to_string()) {
        Err(ToolReply::Error(e)) => assert_eq!(e.code, "INVALID_CONNECTION_TYPE"),
        _ => panic!("expected an unknown type"),
    }
    let added = plan_add_connection(&existing, request("other", " MySQL ", None), "b".to_string()).unwrap();
    assert_eq!(added.port, 3306);
    assert_eq!(added.db_type, DatabaseType::Mysql);
    assert_eq!(added_message(&added), "Connection \"other\" added (id: b).");
}

#[test]
fn removes_connection_by_id_or_name() {
    let connections = vec![config("a", "main", DatabaseType::Postgres, None), config("b", "other", DatabaseType::Mysql, None)];
    let (rest, text) = plan_remove_connection(
        &connections,
        &RemoveConnectionRequest { connection_name: "ignored".to_string(), connection_id: Some("b".to_string()) },
    )
    .unwrap();
    assert_eq!(rest.len(), 1);
    assert_eq!(rest[0].id, "a");
    assert_eq!(text, "Connection \"other\" (id: b) removed.");
    let (rest, _) =
        plan_remove_connection(&connections, &RemoveConnectionRequest { connection_name: "MAIN".to_string(), connection_id: None })
            .unwrap();
    assert_eq!(rest.len(), 1);
    assert_eq!(rest[0].id, "b");
    let error =
        plan_remove_connection(&connections, &RemoveConnectionRequest { connection_name: "none".to_string(), connection_id: None })
            .unwrap_err();
    assert_eq!(error.code, "CONNECTION_NOT_FOUND");
}

#[test]
fn explicit_data_dir_wins() {
    let dir = app_data_dir(Some("/tmp/dbx-mcp-data".to_string()), Some("/home/u".to_string()), None, None, TargetOs::Other);
    assert_eq!(dir.unwrap(), "/tmp/dbx-mcp-data");
}

#[test]
fn data_dir_follows_platform_conventions() {
    assert_eq!(app_data_dir(None, Some("/home/u".to_string()), None, None, TargetOs::Other).unwrap(), "/home/u/.local/share/com.dbx.app");
    assert_eq!(
        app_data_dir(None, Some("/Users/u".to_string()), None, None, TargetOs::MacOs).unwrap(),
        "/Users/u/Library/Application Support/com.dbx.app"
    );
    assert!(app_data_dir(None, None, None, None, TargetOs::Other).is_err());
    assert_eq!(
        storage_db_path(Some("/data".to_string()), None, None, None, TargetOs::Other).unwrap(),
        "/data/dbx.db"
    );
    assert_eq!(join_path("C:\\Users\\u", "AppData/Roaming", true), "C:\\Users\\u\\AppData/Roaming");
}

#[test]
fn joining_onto_a_bare_windows_drive_adds_no_separator() {
    assert_eq!(join_path("C:", "AppData/Roaming", true), "C:AppData/Roaming");
    assert_eq!(join_path("\\\\?\\D:", "com.dbx.app", true), "\\\\?\\D:com.dbx.app");
    assert_eq!(join_path("C:", "dbx.db", false), "C:/dbx.db");
    assert_eq!(join_path("1:", "x", true), "1:\\x");
    assert_eq!(join_path("C:\\", "x", true), "C:\\x");
}

#[test]
fn redis_tool_checks_run_in_order() {
    let redis = config("r1", "cache", DatabaseType::Redis, Some("3"));
    let pg = config("p1", "main", DatabaseType::Postgres, None);
    let scope = McpScope::default();
    let get: Result<Vec<String>, String> = Ok(vec!["get".to_string(), "k".to_string()]);
    let flush: Result<Vec<String>, String> = Ok(vec!["flushall".to_string()]);
    let err = redis_tool_plan(&pg, &get, RedisCommandSafety::Allowed, None, &scope, permissions(true, true), false).unwrap_err();
    assert_eq!((err.code.as_str(), err.message.as_str()), ("INVALID_CONNECTION_TYPE", "Connection \"main\" is not Redis."));
    let bad: Result<Vec<String>, String> = Err("Unclosed quote".to_string());
    let err = redis_tool_plan(&redis, &bad, RedisCommandSafety::Allowed, None, &scope, permissions(true, true), false).unwrap_err();
    assert_eq!((err.code.as_str(), err.message.as_str()), ("REDIS_COMMAND_BLOCKED", "Unclosed quote"));
    let err = redis_tool_plan(&redis, &flush, RedisCommandSafety::Blocked, None, &scope, permissions(true, false), false).unwrap_err();
    assert_eq!(err.message, "Dangerous Redis command \"FLUSHALL\" is blocked. Set DBX_MCP_ALLOW_DANGEROUS_SQL=1 to allow it.");
    let err = redis_tool_plan(&redis, &flush, RedisCommandSafety::Blocked, None, &scope, permissions(true, true), true).unwrap_err();
    assert_eq!(err.code, "PRODUCTION_WRITE_BLOCKED");
    assert_eq!(
        redis_tool_plan(&redis, &flush, RedisCommandSafety::Blocked, Some(5), &scope, permissions(true, true), false).unwrap(),
        RedisPlan { database: 5, skip_safety_check: true }
    );
    assert_eq!(
        redis_tool_plan(&redis, &get, RedisCommandSafety::Allowed, None, &scope, permissions(false, false), true).unwrap(),
        RedisPlan { database: 3, skip_safety_check: false }
    );
}

#[test]
fn query_tool_routes_by_connection_type() {
    let scope = McpScope::default();
    let redis = config("r1", "cache", DatabaseType::Redis, None);
    let err = query_tool_plan(&redis, None, &scope, "select 1", permissions(true, true), false).err().unwrap();
    assert_eq!(err.code, "REDIS_COMMAND_REQUIRED");
    let mongo = config("m1", "docs", DatabaseType::MongoDb, Some("app"));
    match query_tool_plan(&mongo, None, &scope, "db.users.find({})", permissions(false, false), false) {
        Ok(QueryPlan::Mongo { database, .. }) => assert_eq!(database, "app"),
        _ => panic!("expected a MongoDB plan"),
    }
    let err = query_tool_plan(&mongo, None, &scope, "db.users.insertOne({a: 1})", permissions(false, false), false).err().unwrap();
    assert_eq!(err.code, "SQL_BLOCKED");
    let pg = config("p1", "main", DatabaseType::Postgres, Some("app"));
    match query_tool_plan(&pg, Some("other".to_string()), &scope, "select 1", permissions(false, false), false) {
        Ok(QueryPlan::Agent { database, .. }) => assert_eq!(database, "other"),
        _ => panic!("expected an agent plan"),
    }
}

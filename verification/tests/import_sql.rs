use dbx::dialect::DatabaseType;
use dbx::json::{JsonNumber, JsonValue};
use dbx::table_import::mapping::{mapping_indexes, TableImportColumnMapping};
use dbx::table_import::rows::ParsedImportFile;
use dbx::table_import::sql::{
    build_import_create_table_plan, build_import_insert_batch_from_rows, build_import_insert_batches,
    ImportCreateTableColumn, ImportSqlBatch,
};

fn text(value: &str) -> JsonValue {
    JsonValue::String(value.to_string())
}

fn integer(value: i64) -> JsonValue {
    JsonValue::Number(JsonNumber { text: value.to_string(), is_integer: true })
}

fn object(key: &str, value: &str) -> JsonValue {
    JsonValue::Object(vec![(key.to_string(), text(value))])
}

fn mapping(source: &str, target: &str, data_type: Option<&str>) -> TableImportColumnMapping {
    TableImportColumnMapping {
        source_column: source.to_string(),
        target_column: target.to_string(),
        target_data_type: data_type.map(|t| t.to_string()),
    }
}

fn columns(names: &[&str]) -> Vec<String> {
    names.iter().map(|n| n.to_string()).collect()
}

fn column(name: &str, data_type: &str) -> ImportCreateTableColumn {
    ImportCreateTableColumn { name: name.to_string(), data_type: data_type.to_string() }
}

fn batch(sql: &str, row_count: usize) -> ImportSqlBatch {
    ImportSqlBatch { sql: sql.to_string(), row_count }
}

#[test]
fn builds_create_table_plan_from_import_sample() {
    let data = ParsedImportFile {
        columns: columns(&["id", "code", "amount", "created_at", "active", "payload"]),
        rows: vec![
            vec![text("1"), text("00123"), text("12.5"), text("2026-07-06 12:30:45"), text("true"), object("source", "csv")],
            vec![text("2"), text("00456"), text("13.75"), text("2026-07-07 08:15:00"), text("false"), object("source", "json")],
        ],
        total_rows: 2,
        effective_encoding: None,
    };
    let mappings: Vec<_> = data.columns.iter().map(|c| mapping(c, c, None)).collect();

    let plan = build_import_create_table_plan(&data, &mappings, "orders", "public", &DatabaseType::Postgres).unwrap();

    assert_eq!(
        plan.sql,
        "CREATE TABLE \"public\".\"orders\" (\n  \"id\" BIGINT,\n  \"code\" TEXT,\n  \"amount\" DOUBLE PRECISION,\n  \"created_at\" TIMESTAMP,\n  \"active\" TEXT,\n  \"payload\" JSONB\n)"
    );
    assert_eq!(
        plan.columns,
        vec![
            column("id", "BIGINT"),
            column("code", "TEXT"),
            column("amount", "DOUBLE PRECISION"),
            column("created_at", "TIMESTAMP"),
            column("active", "TEXT"),
            column("payload", "JSONB"),
        ]
    );
}

#[test]
fn create_table_plan_requires_target_table_name() {
    let data = ParsedImportFile { columns: columns(&["id"]), rows: vec![vec![integer(1)]], total_rows: 1, effective_encoding: None };
    let mappings = vec![mapping("id", "id", None)];

    let error = build_import_create_table_plan(&data, &mappings, " ", "", &DatabaseType::Mysql).unwrap_err();

    assert_eq!(error, "Target table name is required");
}

#[test]
fn create_table_plan_uses_database_specific_text_type() {
    let data =
        ParsedImportFile { columns: columns(&["notes"]), rows: vec![vec![text("long text")]], total_rows: 1, effective_encoding: None };
    let mappings = vec![mapping("notes", "notes", None)];

    let plan = build_import_create_table_plan(&data, &mappings, "events", "dbo", &DatabaseType::SqlServer).unwrap();

    assert_eq!(plan.sql, "CREATE TABLE [dbo].[events] (\n  [notes] NVARCHAR(MAX)\n)");
}

#[test]
fn create_table_plan_uses_user_defined_column_type() {
    let data = ParsedImportFile {
        columns: columns(&["code", "amount"]),
        rows: vec![vec![text("1001"), text("12.5")]],
        total_rows: 1,
        effective_encoding: None,
    };
    let mappings = vec![mapping("code", "code", Some("VARCHAR(32)")), mapping("amount", "amount", Some("DECIMAL(10,2)"))];

    let plan = build_import_create_table_plan(&data, &mappings, "invoice", "", &DatabaseType::Mysql).unwrap();

    assert_eq!(plan.sql, "CREATE TABLE `invoice` (\n  `code` VARCHAR(32),\n  `amount` DECIMAL(10,2)\n)");
    assert_eq!(plan.columns, vec![column("code", "VARCHAR(32)"), column("amount", "DECIMAL(10,2)")]);
}

#[test]
fn create_table_plan_rejects_unsafe_user_defined_column_type() {
    let data = ParsedImportFile { columns: columns(&["name"]), rows: vec![vec![text("Ada")]], total_rows: 1, effective_encoding: None };
    let mappings = vec![mapping("name", "name", Some("TEXT, injected INT"))];

    let error = build_import_create_table_plan(&data, &mappings, "users", "", &DatabaseType::Mysql).unwrap_err();

    assert!(error.contains("Unsupported target data type syntax"));
}

#[test]
fn builds_import_insert_batches_from_mapped_columns() {
    let mappings = vec![mapping("id", "user_id", None), mapping("name", "display_name", None)];
    let data = ParsedImportFile {
        columns: columns(&["id", "name", "ignored"]),
        rows: vec![
            vec![integer(1), text("Ada"), text("x")],
            vec![integer(2), text("O'Hara"), text("y")],
            vec![integer(3), JsonValue::Null, text("z")],
        ],
        total_rows: 3,
        effective_encoding: None,
    };

    let batches = build_import_insert_batches(&data, &mappings, &vec![], "users", "public", &DatabaseType::Postgres, 2).unwrap();

    assert_eq!(
        batches,
        vec![
            batch("INSERT INTO \"public\".\"users\" (\"user_id\", \"display_name\") VALUES\n(1, 'Ada'),\n(2, 'O''Hara')", 2),
            batch("INSERT INTO \"public\".\"users\" (\"user_id\", \"display_name\") VALUES\n(3, NULL)", 1),
        ]
    );
}

#[test]
fn iris_import_uses_single_row_values_statements() {
    let mappings = vec![mapping("id", "id", None)];
    let data = ParsedImportFile {
        columns: columns(&["id"]),
        rows: vec![vec![integer(1)], vec![integer(2)]],
        total_rows: 2,
        effective_encoding: None,
    };

    let batches = build_import_insert_batches(&data, &mappings, &vec![], "items", "SQLUSER", &DatabaseType::Iris, 100).unwrap();

    assert_eq!(batches.len(), 2);
    assert_eq!(batches[0].sql, "INSERT INTO \"SQLUSER\".\"items\" (\"id\") VALUES\n(1)");
    assert_eq!(batches[0].row_count, 1);
    assert_eq!(batches[1].sql, "INSERT INTO \"SQLUSER\".\"items\" (\"id\") VALUES\n(2)");
    assert_eq!(batches[1].row_count, 1);
}

#[test]
fn builds_single_streaming_import_batch_from_rows() {
    let columns = columns(&["id", "name"]);
    let mappings = vec![mapping("id", "id", None), mapping("name", "name", None)];
    let rows = vec![vec![integer(1), text("Ada")]];

    let batch = build_import_insert_batch_from_rows(&rows, &columns, &mappings, &vec![], "users", "public", &DatabaseType::Postgres)
        .unwrap()
        .unwrap();

    assert_eq!(batch.sql, "INSERT INTO \"public\".\"users\" (\"id\", \"name\") VALUES\n(1, 'Ada')");
    assert_eq!(batch.row_count, 1);
}

#[test]
fn streaming_batch_of_no_rows_is_none() {
    let columns = columns(&["id"]);
    let mappings = vec![mapping("id", "id", None)];
    let batch =
        build_import_insert_batch_from_rows(&vec![], &columns, &mappings, &vec![], "users", "", &DatabaseType::Mysql).unwrap();
    assert!(batch.is_none());
}

#[test]
fn oracle_import_insert_batches_use_single_row_statements() {
    let mappings = vec![mapping("id", "id", None), mapping("name", "name", None)];
    let data = ParsedImportFile {
        columns: columns(&["id", "name"]),
        rows: vec![vec![integer(1), text("Ada")], vec![integer(2), text("Grace")], vec![integer(3), JsonValue::Null]],
        total_rows: 3,
        effective_encoding: None,
    };

    let batches = build_import_insert_batches(&data, &mappings, &vec![], "users", "HR", &DatabaseType::Oracle, 500).unwrap();

    assert_eq!(
        batches,
        vec![
            batch("INSERT INTO \"HR\".\"users\" (\"id\", \"name\") VALUES\n(1, 'Ada')", 1),
            batch("INSERT INTO \"HR\".\"users\" (\"id\", \"name\") VALUES\n(2, 'Grace')", 1),
            batch("INSERT INTO \"HR\".\"users\" (\"id\", \"name\") VALUES\n(3, NULL)", 1),
        ]
    );
}

#[test]
fn import_insert_batches_preserve_sqlserver_unicode_text() {
    let mappings = vec![mapping("name", "name", None)];
    let data =
        ParsedImportFile { columns: columns(&["name"]), rows: vec![vec![text("Tiếng Việt")]], total_rows: 1, effective_encoding: None };

    let batches = build_import_insert_batches(
        &data,
        &mappings,
        &vec![("name".to_string(), "nvarchar(100)".to_string())],
        "customers",
        "dbo",
        &DatabaseType::SqlServer,
        500,
    )
    .unwrap();

    assert_eq!(batches, vec![batch("INSERT INTO [dbo].[customers] ([name]) VALUES\n(N'Tiếng Việt')", 1)]);
}

#[test]
fn insert_batches_reject_unknown_source_column() {
    let mappings = vec![mapping("missing", "id", None)];
    let data = ParsedImportFile { columns: columns(&["id"]), rows: vec![vec![integer(1)]], total_rows: 1, effective_encoding: None };
    let error = build_import_insert_batches(&data, &mappings, &vec![], "users", "", &DatabaseType::Mysql, 10).unwrap_err();
    assert!(error.contains("missing"));
}

#[test]
fn mapping_indexes_of_parsed_file_follow_its_columns() {
    let data = ParsedImportFile {
        columns: columns(&["a", "b", "a"]),
        rows: vec![],
        total_rows: 0,
        effective_encoding: None,
    };
    let mapped = mapping_indexes(&data, &vec![mapping("a", "x", None), mapping("b", "y", None)]).unwrap();
    assert_eq!(mapped, vec![(0, "x".to_string()), (1, "y".to_string())]);
    assert_eq!(
        mapping_indexes(&data, &vec![mapping("c", "x", None)]).unwrap_err(),
        "Source column not found: c"
    );
    assert_eq!(
        mapping_indexes(&data, &vec![mapping("a", "x", None), mapping("b", "x", None)]).unwrap_err(),
        "Target column mapped more than once: x"
    );
}

#[test]
fn cloudflare_d1_batches_hold_at_most_one_hundred_rows() {
    let data = ParsedImportFile {
        columns: columns(&["id"]),
        rows: (0..150).map(|i| vec![integer(i)]).collect(),
        total_rows: 150,
        effective_encoding: None,
    };
    let mappings = vec![mapping("id", "id", None)];
    let batches =
        build_import_insert_batches(&data, &mappings, &vec![], "items", "", &DatabaseType::CloudflareD1, 500).unwrap();
    assert_eq!(batches.iter().map(|b| b.row_count).collect::<Vec<_>>(), vec![100, 50]);
    let small =
        build_import_insert_batches(&data, &mappings, &vec![], "items", "", &DatabaseType::CloudflareD1, 0).unwrap();
    assert_eq!(small.len(), 150);
}

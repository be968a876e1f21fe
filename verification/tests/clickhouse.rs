use dbx::clickhouse::{
    build_query_url, limited_query_result, query_result_row_limit, ChColumn, ChJsonResult, QueryResultLimit, MAX_ROWS,
};
use dbx::json::{JsonNumber, JsonValue};

#[test]
fn query_url_for_result_sets_adds_row_limit_break_settings() {
    let url = build_query_url("http://localhost:8123", Some("analytics"), QueryResultLimit::Limited(MAX_ROWS + 1));

    assert_eq!(
        url,
        "http://localhost:8123/?default_format=JSONCompact&database=analytics&max_result_rows=10001&result_overflow_mode=break"
    );
}

#[test]
fn limited_query_result_truncates_extra_probe_row() {
    let result = ChJsonResult {
        meta: vec![ChColumn { name: "id".to_string(), column_type: "UInt64".to_string() }],
        data: (0..=MAX_ROWS)
            .map(|value| vec![JsonValue::Number(JsonNumber { text: value.to_string(), is_integer: true })])
            .collect(),
        rows: MAX_ROWS + 1,
    };

    let result = limited_query_result(result, 12, None);

    assert_eq!(result.columns, vec!["id"]);
    assert_eq!(result.rows.len(), MAX_ROWS);
    assert_eq!(result.execution_time_ms, 12);
    assert!(result.truncated);
}

#[test]
fn unlimited_url_without_database() {
    assert_eq!(build_query_url("http://h", None, QueryResultLimit::Unlimited), "http://h/?default_format=JSONCompact");
}

#[test]
fn row_limit_defaults_and_is_at_least_one() {
    assert_eq!(query_result_row_limit(None), 10000);
    assert_eq!(query_result_row_limit(Some(0)), 1);
    assert_eq!(query_result_row_limit(Some(7)), 7);
}

#[test]
fn catalogue_queries_escape_quotes() {
    assert_eq!(
        dbx::clickhouse::list_tables_sql("o'k"),
        "SELECT name, engine FROM system.tables WHERE database = 'o\\'k' ORDER BY name"
    );
    assert_eq!(dbx::clickhouse::table_type_for_engine("MaterializedView"), "VIEW");
    assert_eq!(dbx::clickhouse::table_type_for_engine("MergeTree"), "BASE TABLE");
    assert!(dbx::clickhouse::is_nullable_type("Nullable(String)"));
}

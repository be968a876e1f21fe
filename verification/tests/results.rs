use dbx::clickhouse::QueryResult;
use dbx::elasticsearch::{parse_rest_request, rest_query_result, RestMethod};
use dbx::json::{JsonNumber, JsonValue};
use dbx::mcp::results::{
    extract_session_cookie, format_affected_rows, format_count_table, format_metric_table, format_mongo_documents,
    format_query_cell, format_query_result, format_version_table, json_type_name, stats_metric_key,
};

fn text(value: &str) -> JsonValue {
    JsonValue::String(value.to_string())
}

fn integer(value: i64) -> JsonValue {
    JsonValue::Number(JsonNumber { text: value.to_string(), is_integer: true })
}

fn object(members: Vec<(&str, JsonValue)>) -> JsonValue {
    JsonValue::Object(members.into_iter().map(|(k, v)| (k.to_string(), v)).collect())
}

#[test]
fn formats_single_value_tables() {
    assert_eq!(format_version_table("7.0.1"), "| version |\n| --- |\n| 7.0.1 |\n\n1 row(s)");
    assert_eq!(format_count_table(42), "| count |\n| --- |\n| 42 |\n\n1 row(s)");
    assert_eq!(stats_metric_key("dataSize"), "size");
    assert_eq!(stats_metric_key("storageSize"), "storageSize");
    let stats = object(vec![("size", integer(2048))]);
    assert_eq!(format_metric_table("dataSize", &stats), "| dataSize |\n| --- |\n| 2048 |\n\n1 row(s)");
    assert_eq!(format_metric_table("storageSize", &stats), "| storageSize |\n| --- |\n| NULL |\n\n1 row(s)");
}

#[test]
fn formats_affected_rows_from_either_key() {
    assert_eq!(format_affected_rows(&object(vec![("affected_rows", integer(3))])), "Query executed. 3 row(s) affected.");
    assert_eq!(format_affected_rows(&object(vec![("affectedRows", integer(5))])), "Query executed. 5 row(s) affected.");
    assert_eq!(format_affected_rows(&JsonValue::Null), "Query executed. 0 row(s) affected.");
}

#[test]
fn formats_query_cells() {
    assert_eq!(format_query_cell(&JsonValue::Null), "NULL");
    assert_eq!(format_query_cell(&text("a|b")), "a|b");
    assert_eq!(format_query_cell(&integer(7)), "7");
}

#[test]
fn formats_query_results_with_row_limit() {
    let result = QueryResult {
        columns: vec!["id".to_string()],
        rows: vec![vec![integer(1)], vec![integer(2)]],
        affected_rows: 0,
        execution_time_ms: 1,
        truncated: false,
        session_id: None,
        has_more: false,
    };
    let output = format_query_result(&result, 1);
    assert!(output.contains("| id |"));
    assert!(output.contains("| 1 |"));
    assert!(!output.contains("| 2 |"));
}

#[test]
fn formats_mongo_documents_with_sorted_headers() {
    assert_eq!(format_mongo_documents(&vec![]), "Query returned 0 rows.");
    let docs = vec![object(vec![("name", text("Ada")), ("age", integer(36))]), object(vec![("city", text("London"))])];
    let output = format_mongo_documents(&docs);
    assert!(output.starts_with("| age | city | name |"));
    assert!(output.contains("2 row(s)"));
}

#[test]
fn names_json_types() {
    assert_eq!(json_type_name(&JsonValue::Null), "null");
    assert_eq!(json_type_name(&integer(1)), "integer");
    assert_eq!(json_type_name(&JsonValue::Number(JsonNumber { text: "1.5".to_string(), is_integer: false })), "number");
    assert_eq!(json_type_name(&JsonValue::Array(vec![])), "array");
}

#[test]
fn extracts_session_cookie() {
    assert_eq!(extract_session_cookie("a=1; dbx_session=xyz; Path=/"), Some("xyz".to_string()));
    assert_eq!(extract_session_cookie("dbx_session=; Path=/"), None);
    assert_eq!(extract_session_cookie("other=1"), None);
}

#[test]
fn parses_rest_requests() {
    let request = parse_rest_request("get logs/_search\n{\"size\": 1}").unwrap();
    assert_eq!(request.method, RestMethod::Get);
    assert_eq!(request.path, "/logs/_search");
    assert_eq!(request.body, Some(object(vec![("size", integer(1))])));
    let delete = parse_rest_request("DELETE /logs\n{\"ignored\": true}").unwrap();
    assert_eq!(delete.method, RestMethod::Delete);
    assert!(delete.body.is_none());
    assert_eq!(parse_rest_request("GET").unwrap_err(), "Invalid query: expected METHOD /path");
    assert_eq!(parse_rest_request("PATCH /x").unwrap_err(), "Unsupported HTTP method: PATCH. Use GET, POST, PUT, or DELETE.");
    assert!(parse_rest_request("POST /x\n{bad").unwrap_err().starts_with("Invalid JSON body: "));
}

#[test]
fn reads_search_hits_as_rows() {
    let body = object(vec![(
        "hits",
        object(vec![
            ("total", object(vec![("value", integer(10))])),
            (
                "hits",
                JsonValue::Array(vec![
                    object(vec![("_id", text("1")), ("_source", object(vec![("name", text("Ada")), ("age", integer(36))]))]),
                    object(vec![("_id", text("2")), ("_source", object(vec![("name", text("Grace"))]))]),
                ]),
            ),
        ]),
    )]);
    let result = rest_query_result(200, &body, 5);
    assert_eq!(result.columns, vec!["_id", "name", "age"]);
    assert_eq!(result.rows[0], vec![text("1"), text("Ada"), text("36")]);
    assert_eq!(result.rows[1], vec![text("2"), text("Grace"), JsonValue::Null]);
    assert_eq!(result.affected_rows, 10);
    assert_eq!(result.execution_time_ms, 5);
}

#[test]
fn reads_aggregation_buckets_and_metrics() {
    let body = object(vec![(
        "aggregations",
        object(vec![(
            "by_city",
            object(vec![(
                "buckets",
                JsonValue::Array(vec![object(vec![("key", text("London")), ("doc_count", integer(3))])]),
            )]),
        )]),
    )]);
    let result = rest_query_result(200, &body, 0);
    assert_eq!(result.columns, vec!["key", "doc_count"]);
    assert_eq!(result.rows, vec![vec![text("London"), text("3")]]);
    assert_eq!(result.affected_rows, 1);

    let metrics = object(vec![("aggs", object(vec![("avg_age", object(vec![("value", integer(40))]))]))]);
    let result = rest_query_result(200, &metrics, 0);
    assert_eq!(result.columns, vec!["avg_age"]);
    assert_eq!(result.rows, vec![vec![text("40")]]);
}

#[test]
fn falls_back_to_status_and_response() {
    let result = rest_query_result(201, &object(vec![("acknowledged", JsonValue::Bool(true))]), 0);
    assert_eq!(result.columns, vec!["status", "response"]);
    assert_eq!(result.rows[0][0], integer(201));
    assert_eq!(result.affected_rows, 0);
}

use dbx::dialect::DatabaseType;
use dbx::json::{JsonNumber, JsonValue};
use dbx::table_import::encoding::{bom_text_encoding, matching_bom_len, resolve_text_encoding_from_bytes};
use dbx::table_import::json_rows::{parse_json_bytes, parse_json_bytes_with_options};
use dbx::table_import::mapping::{
    is_textual_import_target_type, mapping_indexes_for_columns, supports_multi_row_insert_values,
    textual_source_columns_for_import, truncate_sql, validate_import_target_data_type, TableImportColumnMapping,
};
use dbx::table_import::options::{
    effective_delimited_config, effective_import_row_range, effective_source_format, import_file_kind,
    source_format_for_path, DelimitedParseConfig, ImportFileKind, ImportRowRange, TableImportJsonShape, TableImportParseOptions,
    TableImportSourceFormat, TableImportTextEncoding,
};
use dbx::table_import::rows::{
    csv_value, normalize_header, parse_csv_bytes, parse_delimited_bytes, parse_delimited_bytes_with_options,
    parse_delimited_text,
};

fn text(value: &str) -> JsonValue {
    JsonValue::String(value.to_string())
}

fn integer(value: i64) -> JsonValue {
    JsonValue::Number(JsonNumber { text: value.to_string(), is_integer: true })
}

fn mapping(source: &str, target: &str) -> TableImportColumnMapping {
    TableImportColumnMapping { source_column: source.to_string(), target_column: target.to_string(), target_data_type: None }
}

fn utf16(text: &str, little_endian: bool) -> Vec<u8> {
    text.encode_utf16().flat_map(|unit| if little_endian { unit.to_le_bytes() } else { unit.to_be_bytes() }).collect()
}

#[test]
fn parses_csv_headers_and_preview_rows() {
    let parsed = parse_csv_bytes(b"id,name,active\n1,Ada,true\n2,,false\n", 10).unwrap();

    assert_eq!(parsed.columns, vec!["id", "name", "active"]);
    assert_eq!(parsed.total_rows, 2);
    assert_eq!(parsed.rows[0], vec![text("1"), text("Ada"), text("true")]);
    assert_eq!(parsed.rows[1], vec![text("2"), JsonValue::Null, text("false")]);
}

#[test]
fn auto_detects_and_parses_gbk_csv() {
    let (bytes, _, had_errors) = encoding_rs::GBK.encode("id,name\n1,中文\n2,上海\n");
    assert!(!had_errors);

    let parsed = parse_delimited_bytes_with_options(
        bytes.as_ref(),
        TableImportSourceFormat::Csv,
        &TableImportParseOptions::default(),
        10,
    )
    .unwrap();

    assert_eq!(parsed.effective_encoding, Some(TableImportTextEncoding::Gbk));
    assert_eq!(parsed.columns, vec!["id", "name"]);
    assert_eq!(parsed.rows[0], vec![text("1"), text("中文")]);
    assert_eq!(parsed.rows[1], vec![text("2"), text("上海")]);
}

#[test]
fn explicit_utf8_rejects_gbk_csv_without_replacing_data() {
    let (bytes, _, had_errors) = encoding_rs::GBK.encode("id,name\n1,中文\n");
    assert!(!had_errors);
    let options =
        TableImportParseOptions { encoding: Some(TableImportTextEncoding::Utf8), ..TableImportParseOptions::default() };

    let error =
        parse_delimited_bytes_with_options(bytes.as_ref(), TableImportSourceFormat::Csv, &options, 10).unwrap_err();

    assert!(error.contains("Invalid byte sequence for UTF-8 encoding"), "{error}");
}

#[test]
fn gbk_option_decodes_gb18030_four_byte_characters() {
    let (bytes, _, had_errors) = encoding_rs::GB18030.encode("id,name\n1,😀\n");
    assert!(!had_errors);

    let parsed = parse_delimited_bytes_with_options(
        bytes.as_ref(),
        TableImportSourceFormat::Csv,
        &TableImportParseOptions::default(),
        10,
    )
    .unwrap();

    assert_eq!(parsed.effective_encoding, Some(TableImportTextEncoding::Gbk));
    assert_eq!(parsed.rows[0], vec![text("1"), text("😀")]);
}

#[test]
fn auto_detects_utf16le_bom_csv() {
    let mut bytes = vec![0xFF, 0xFE];
    bytes.extend(utf16("id,name\n1,中文\n", true));

    let parsed = parse_delimited_bytes_with_options(
        &bytes,
        TableImportSourceFormat::Csv,
        &TableImportParseOptions::default(),
        10,
    )
    .unwrap();

    assert_eq!(parsed.effective_encoding, Some(TableImportTextEncoding::Utf16Le));
    assert_eq!(parsed.rows[0], vec![text("1"), text("中文")]);
}

#[test]
fn auto_detects_utf16be_bom_csv() {
    let mut bytes = vec![0xFE, 0xFF];
    bytes.extend(utf16("id,name\n1,中文\n", false));

    let parsed = parse_delimited_bytes_with_options(
        &bytes,
        TableImportSourceFormat::Csv,
        &TableImportParseOptions::default(),
        10,
    )
    .unwrap();

    assert_eq!(parsed.effective_encoding, Some(TableImportTextEncoding::Utf16Be));
    assert_eq!(parsed.columns, vec!["id", "name"]);
    assert_eq!(parsed.rows[0], vec![text("1"), text("中文")]);
}

#[test]
fn explicit_utf16le_parses_csv_without_bom() {
    let bytes = utf16("id,name\n1,中文\n", true);
    let options = TableImportParseOptions {
        encoding: Some(TableImportTextEncoding::Utf16Le),
        ..TableImportParseOptions::default()
    };

    let parsed = parse_delimited_bytes_with_options(&bytes, TableImportSourceFormat::Csv, &options, 10).unwrap();

    assert_eq!(parsed.effective_encoding, Some(TableImportTextEncoding::Utf16Le));
    assert_eq!(parsed.columns, vec!["id", "name"]);
    assert_eq!(parsed.rows[0], vec![text("1"), text("中文")]);
}

#[test]
fn gbk_decoder_preserves_multibyte_character_across_read_chunks() {
    let ascii_prefix = "a".repeat(16 * 1024 - "name\n".len() - 1);
    let csv = format!("name\n{ascii_prefix}中\n");
    let (bytes, _, had_errors) = encoding_rs::GBK.encode(&csv);
    assert!(!had_errors);
    let options =
        TableImportParseOptions { encoding: Some(TableImportTextEncoding::Gbk), ..TableImportParseOptions::default() };

    let parsed =
        parse_delimited_bytes_with_options(bytes.as_ref(), TableImportSourceFormat::Csv, &options, 10).unwrap();

    assert_eq!(parsed.rows[0][0], text(&format!("{ascii_prefix}中")));
}

#[test]
fn parses_tsv_with_tab_delimiter() {
    let parsed = parse_delimited_bytes(b"id\tname\n1\tAda\n", b'\t', 10).unwrap();

    assert_eq!(parsed.columns, vec!["id", "name"]);
    assert_eq!(parsed.total_rows, 1);
    assert_eq!(parsed.rows[0], vec![text("1"), text("Ada")]);
}

#[test]
fn parses_delimited_text_without_header_and_trims_values() {
    let options = TableImportParseOptions {
        delimiter: Some("|".to_string()),
        has_header: Some(false),
        trim_values: Some(true),
        empty_string_as_null: Some(true),
        ..TableImportParseOptions::default()
    };
    let parsed =
        parse_delimited_bytes_with_options(b" 1 | Ada \n 2 |   \n", TableImportSourceFormat::Delimited, &options, 10)
            .unwrap();

    assert_eq!(parsed.columns, vec!["column_1", "column_2"]);
    assert_eq!(parsed.total_rows, 2);
    assert_eq!(parsed.rows[0], vec![text("1"), text("Ada")]);
    assert_eq!(parsed.rows[1], vec![text("2"), JsonValue::Null]);
}

#[test]
fn parses_delimited_text_with_custom_title_and_data_rows() {
    let options = TableImportParseOptions {
        title_row: Some(2),
        data_start_row: Some(4),
        last_data_row: Some(5),
        ..TableImportParseOptions::default()
    };
    let parsed = parse_delimited_bytes_with_options(
        b"report,ignored\nid,name\nnotes,ignored\n1,Ada\n2,Grace\nsummary,2\n",
        TableImportSourceFormat::Csv,
        &options,
        10,
    )
    .unwrap();

    assert_eq!(parsed.columns, vec!["id", "name"]);
    assert_eq!(parsed.total_rows, 2);
    assert_eq!(parsed.rows[0], vec![text("1"), text("Ada")]);
    assert_eq!(parsed.rows[1], vec![text("2"), text("Grace")]);
}

#[test]
fn rejects_title_row_inside_data_range() {
    let options = TableImportParseOptions {
        title_row: Some(2),
        data_start_row: Some(1),
        last_data_row: Some(3),
        ..TableImportParseOptions::default()
    };

    assert!(effective_import_row_range(&options).unwrap_err().contains("before the data start row"));
}

#[test]
fn parses_json_array_objects_with_union_columns() {
    let parsed = parse_json_bytes(br#"[{"id":1,"name":"Ada"},{"id":2,"active":true}]"#, 10).unwrap();

    assert_eq!(parsed.columns, vec!["id", "name", "active"]);
    assert_eq!(parsed.total_rows, 2);
    assert_eq!(parsed.rows[0], vec![integer(1), text("Ada"), JsonValue::Null]);
    assert_eq!(parsed.rows[1], vec![integer(2), JsonValue::Null, JsonValue::Bool(true)]);
}

#[test]
fn parses_json_with_utf8_bom() {
    let parsed = parse_json_bytes(b"\xEF\xBB\xBF[{\"id\":1,\"name\":\"Ada\"}]", 10).unwrap();

    assert_eq!(parsed.columns, vec!["id", "name"]);
    assert_eq!(parsed.total_rows, 1);
    assert_eq!(parsed.rows[0], vec![integer(1), text("Ada")]);
}

#[test]
fn json_shape_option_rejects_wrong_row_shape() {
    let options =
        TableImportParseOptions { json_shape: Some(TableImportJsonShape::Objects), ..TableImportParseOptions::default() };
    let error = parse_json_bytes_with_options(br#"[["id","name"],[1,"Ada"]]"#, &options, 10).unwrap_err();

    assert!(error.contains("configured for object rows"));
}

#[test]
fn recognizes_supported_textual_import_target_types() {
    for data_type in
        ["FixedString(32)", "Nullable(FixedString(32))", "LowCardinality(String)", "sysname", "LONG", "LONG VARCHAR"]
    {
        assert!(is_textual_import_target_type(data_type), "{data_type}");
    }
    for data_type in ["LONG RAW", "BIGINT", "Nullable(Float64)"] {
        assert!(!is_textual_import_target_type(data_type), "{data_type}");
    }
}

#[test]
fn selects_excel_display_conversion_only_for_textual_mappings() {
    let mappings = vec![mapping("code_source", "code"), mapping("amount_source", "amount")];

    let selected = textual_source_columns_for_import(
        &mappings,
        &vec![("code".to_string(), "varchar(32)".to_string()), ("amount".to_string(), "double".to_string())],
    );

    assert_eq!(selected, vec!["code_source".to_string()]);
}

#[test]
fn multi_row_insert_values_support_matches_database_dialects() {
    assert!(!supports_multi_row_insert_values(&DatabaseType::Oracle));
    assert!(!supports_multi_row_insert_values(&DatabaseType::OceanbaseOracle));
    assert!(!supports_multi_row_insert_values(&DatabaseType::Iris));
    assert!(supports_multi_row_insert_values(&DatabaseType::Postgres));
    assert!(supports_multi_row_insert_values(&DatabaseType::Mysql));
}

#[test]
fn duplicate_mapping_is_rejected_before_sql_generation() {
    let columns = vec!["id".to_string(), "name".to_string()];
    let mappings = vec![mapping("id", "target"), mapping("name", "target")];

    let error = mapping_indexes_for_columns(&columns, &mappings).unwrap_err();

    assert!(error.contains("mapped more than once"));
}

#[test]
fn file_kinds_follow_extensions_in_any_case() {
    assert_eq!(import_file_kind("data/Report.CSV").unwrap(), ImportFileKind::Csv);
    assert_eq!(import_file_kind("a.tsv").unwrap(), ImportFileKind::Tsv);
    assert_eq!(import_file_kind("a.TXT").unwrap(), ImportFileKind::Txt);
    assert_eq!(import_file_kind("a.json").unwrap(), ImportFileKind::Json);
    assert_eq!(import_file_kind("a.xlsm").unwrap(), ImportFileKind::Xlsx);
    assert_eq!(import_file_kind("a.XLS").unwrap(), ImportFileKind::Xlsx);
    assert_eq!(import_file_kind("a.parquet").unwrap_err(), "Unsupported import file type");
    assert_eq!(source_format_for_path("a.txt").unwrap(), TableImportSourceFormat::Delimited);
    assert_eq!(effective_source_format("a.bin", Some(TableImportSourceFormat::Json)).unwrap(), TableImportSourceFormat::Json);
    assert!(effective_source_format("a.bin", None).is_err());
    assert_eq!(ImportFileKind::Xlsx.label(), "xlsx");
    assert_eq!(TableImportSourceFormat::Delimited.label(), "txt");
    assert!(TableImportSourceFormat::Tsv.is_delimited());
    assert!(!TableImportSourceFormat::Excel.is_delimited());
}

#[test]
fn row_range_defaults_and_errors() {
    let range = effective_import_row_range(&TableImportParseOptions::default()).unwrap();
    assert_eq!(range, ImportRowRange { title_row: Some(1), data_start_row: 2, last_data_row: None });
    let no_header = TableImportParseOptions { has_header: Some(false), last_data_row: Some(0), ..Default::default() };
    assert_eq!(
        effective_import_row_range(&no_header).unwrap(),
        ImportRowRange { title_row: None, data_start_row: 1, last_data_row: None }
    );
    let zero_start = TableImportParseOptions { data_start_row: Some(0), ..Default::default() };
    assert_eq!(effective_import_row_range(&zero_start).unwrap_err(), "Data start row must be at least 1");
    let last_before = TableImportParseOptions { data_start_row: Some(5), last_data_row: Some(3), ..Default::default() };
    assert_eq!(
        effective_import_row_range(&last_before).unwrap_err(),
        "Last data row must be 0 or not less than the data start row"
    );
}

#[test]
fn delimiter_options_map_to_bytes() {
    let tab = TableImportParseOptions { delimiter: Some("tab".to_string()), ..Default::default() };
    assert_eq!(effective_delimited_config(TableImportSourceFormat::Csv, &tab).unwrap().delimiter, b'\t');
    let tsv = TableImportParseOptions::default();
    assert_eq!(effective_delimited_config(TableImportSourceFormat::Tsv, &tsv).unwrap().delimiter, b'\t');
    let semicolon = TableImportParseOptions { delimiter: Some(";".to_string()), ..Default::default() };
    assert_eq!(effective_delimited_config(TableImportSourceFormat::Csv, &semicolon).unwrap().delimiter, b';');
    let wide = TableImportParseOptions { delimiter: Some("§".to_string()), ..Default::default() };
    assert_eq!(
        effective_delimited_config(TableImportSourceFormat::Csv, &wide).unwrap_err(),
        "Delimiter must be a single-byte character"
    );
    assert!(parse_delimited_bytes(b"a\n1\n", 0xA7, 10).is_err());
}

#[test]
fn headers_and_values_are_normalized() {
    assert_eq!(normalize_header("  name ", 0), "name");
    assert_eq!(normalize_header("   ", 2), "column_3");
    assert_eq!(csv_value(""), JsonValue::Null);
    assert_eq!(csv_value(" x "), text(" x "));
}

#[test]
fn byte_order_marks_select_encodings() {
    assert_eq!(bom_text_encoding(&[0xEF, 0xBB, 0xBF, b'a']), Some((TableImportTextEncoding::Utf8, 3)));
    assert_eq!(bom_text_encoding(&[0xFF, 0xFE]), Some((TableImportTextEncoding::Utf16Le, 2)));
    assert_eq!(bom_text_encoding(b"id"), None);
    assert_eq!(matching_bom_len(&[0xFE, 0xFF, 0], TableImportTextEncoding::Utf16Be), 2);
    assert_eq!(matching_bom_len(&[0xFE, 0xFF, 0], TableImportTextEncoding::Utf8), 0);
    assert!(resolve_text_encoding_from_bytes(&[0xFF, 0xFF, 0xFF], None).is_err());
    assert_eq!(resolve_text_encoding_from_bytes(b"abc", None).unwrap(), (TableImportTextEncoding::Utf8, 0));
}

#[test]
fn target_data_types_reject_extra_clauses() {
    assert!(validate_import_target_data_type("DECIMAL(10,2)").is_ok());
    assert_eq!(
        validate_import_target_data_type("TEXT, injected INT").unwrap_err(),
        "Unsupported target data type syntax: TEXT, injected INT"
    );
    assert!(validate_import_target_data_type("INT)").is_err());
    assert!(validate_import_target_data_type("INT -- x").is_err());
    assert!(validate_import_target_data_type("VARCHAR(3").is_err());
}

#[test]
fn truncation_statements_follow_dialects() {
    assert_eq!(truncate_sql("users", "public", &DatabaseType::Postgres), "TRUNCATE TABLE \"public\".\"users\"");
    assert_eq!(truncate_sql("users", "", &DatabaseType::Sqlite), "DELETE FROM \"users\"");
    assert_eq!(truncate_sql("users", "dbo", &DatabaseType::SqlServer), "TRUNCATE TABLE [dbo].[users]");
}

#[test]
fn parse_delimited_text_reads_decoded_records_within_the_row_range() {
    let config = DelimitedParseConfig {
        delimiter: b';',
        trim_values: true,
        empty_string_as_null: true,
        row_range: ImportRowRange { title_row: Some(2), data_start_row: 3, last_data_row: Some(4) },
    };
    let parsed = parse_delimited_text("skip;me\nid;name\n1; Ada \n2;\n3;Bob\n", config, 10).unwrap();
    assert_eq!(parsed.columns, vec!["id".to_string(), "name".to_string()]);
    assert_eq!(parsed.rows, vec![vec![text("1"), text("Ada")], vec![text("2"), JsonValue::Null]]);
    assert_eq!(parsed.total_rows, 2);
    assert_eq!(parsed.effective_encoding, Some(TableImportTextEncoding::Utf8));
    let empty = DelimitedParseConfig {
        delimiter: b',',
        trim_values: false,
        empty_string_as_null: true,
        row_range: ImportRowRange { title_row: Some(1), data_start_row: 2, last_data_row: None },
    };
    assert_eq!(
        parse_delimited_text("a,b\n", empty, 10).unwrap_err(),
        "Import file has no data rows in the selected row range"
    );
}

fn utf8_rows_with_tail(tail_at: usize) -> Vec<u8> {
    let mut bytes = b"id,name\n1,Ada\n2,Bob\n".to_vec();
    while bytes.len() < tail_at {
        bytes.extend_from_slice(b"3,padding\n");
    }
    bytes.push(0xFF);
    bytes.extend_from_slice(b"\n4,Eve\n");
    bytes
}

#[test]
fn delimited_reading_stops_before_undecodable_bytes_past_the_last_data_row() {
    let options = TableImportParseOptions {
        encoding: Some(TableImportTextEncoding::Utf8),
        last_data_row: Some(2),
        ..Default::default()
    };
    let parsed =
        parse_delimited_bytes_with_options(&utf8_rows_with_tail(40000), TableImportSourceFormat::Csv, &options, 10)
            .unwrap();
    assert_eq!(parsed.columns, vec!["id".to_string(), "name".to_string()]);
    assert_eq!(parsed.rows, vec![vec![text("1"), text("Ada")]]);
    assert_eq!(parsed.total_rows, 1);
    assert_eq!(parsed.effective_encoding, Some(TableImportTextEncoding::Utf8));
}

#[test]
fn delimited_reading_fails_on_undecodable_bytes_it_reaches() {
    let stop_early = TableImportParseOptions {
        encoding: Some(TableImportTextEncoding::Utf8),
        last_data_row: Some(2),
        ..Default::default()
    };
    assert_eq!(
        parse_delimited_bytes_with_options(&utf8_rows_with_tail(100), TableImportSourceFormat::Csv, &stop_early, 10)
            .unwrap_err(),
        "Invalid byte sequence for UTF-8 encoding"
    );
    let read_all = TableImportParseOptions { encoding: Some(TableImportTextEncoding::Utf8), ..Default::default() };
    assert_eq!(
        parse_delimited_bytes_with_options(&utf8_rows_with_tail(40000), TableImportSourceFormat::Csv, &read_all, 10)
            .unwrap_err(),
        "Invalid byte sequence for UTF-8 encoding"
    );
}

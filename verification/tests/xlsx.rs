use dbx::json::{JsonNumber, JsonValue};
use dbx::table_import::inference::{infer_value_type, ImportInferredType};
use dbx::table_import::options::{ImportRowRange, TableImportParseOptions};
use dbx::table_import::xlsx::{xlsx_builtin_temporal_kind, xlsx_temporal_kind_from_format_code, XlsxTemporalKind};
use dbx::table_import::xlsx_rows::{
    format_chrono_duration_hms, is_legacy_xls_path, select_sheet_name, xlsx_cell_label, xlsx_cell_value,
    xlsx_cell_value_with_temporal_kind, xlsx_rows, ExcelDateTimeParts, XlsxCell,
};
use dbx::table_import::xlsx_xml::{
    parse_xlsx_sheet_cell_styles, parse_xlsx_styles, xlsx_cell_ref_position, xlsx_relationship_target_path,
    xlsx_sheet_path_for_name, xlsx_workbook_sheet_refs, XlsxCellStyle,
};

fn text(value: &str) -> JsonValue {
    JsonValue::String(value.to_string())
}

fn float_cell(text: &str, json_text: &str) -> XlsxCell {
    XlsxCell::Float {
        text: text.to_string(),
        json: Some(JsonNumber { text: json_text.to_string(), is_integer: false }),
        finite: true,
        display: None,
    }
}

fn string_cell(value: &str) -> XlsxCell {
    XlsxCell::String(value.to_string())
}

fn float_json(text: &str) -> JsonValue {
    JsonValue::Number(JsonNumber { text: text.to_string(), is_integer: false })
}

#[test]
fn retains_only_temporal_and_text_target_xlsx_styles() {
    let styles = vec![
        XlsxCellStyle { temporal_kind: None, number_format: Some("0.00".to_string()) },
        XlsxCellStyle { temporal_kind: Some(XlsxTemporalKind::Date), number_format: None },
    ];
    let sheet = r#"<worksheet><sheetData><row r="1">
            <c r="A1" s="0"><v>10</v></c>
            <c r="B1" s="0"><v>20</v></c>
            <c r="C1" s="1"><v>45996</v></c>
        </row></sheetData></worksheet>"#;

    let retained = parse_xlsx_sheet_cell_styles(sheet, &styles, &vec![2]).unwrap();

    let find = |pos: (usize, usize)| retained.iter().find(|(p, _)| *p == pos).map(|(_, s)| s);
    assert_eq!(retained.len(), 2);
    assert!(find((1, 1)).is_none());
    assert_eq!(find((1, 2)).and_then(|style| style.number_format.as_deref()), Some("0.00"));
    assert_eq!(find((1, 3)).and_then(|style| style.temporal_kind), Some(XlsxTemporalKind::Date));
}

#[test]
fn formats_unclassified_excel_datetimes_conservatively() {
    let date_cell = XlsxCell::DateTime(ExcelDateTimeParts {
        is_duration: false,
        duration_millis: Some(45996 * 86_400_000),
        date_and_datetime: Some(("2025-12-05".to_string(), "2025-12-05 00:00:00".to_string())),
        in_unit_interval: false,
        text: "45996".to_string(),
    });
    let time_cell = XlsxCell::DateTime(ExcelDateTimeParts {
        is_duration: false,
        duration_millis: Some(43_200_000),
        date_and_datetime: Some(("1899-12-30".to_string(), "1899-12-30 12:00:00".to_string())),
        in_unit_interval: true,
        text: "0.5".to_string(),
    });
    let duration_cell = XlsxCell::DateTime(ExcelDateTimeParts {
        is_duration: true,
        duration_millis: Some(216_000_000),
        date_and_datetime: None,
        in_unit_interval: false,
        text: "2.5".to_string(),
    });

    let date_value = xlsx_cell_value(&date_cell);
    let time_value = xlsx_cell_value(&time_cell);

    assert_eq!(date_value, text("2025-12-05 00:00:00"));
    assert_eq!(time_value, text("0.5"));
    assert_eq!(xlsx_cell_value(&duration_cell), text("60:00:00"));
    assert_eq!(infer_value_type(&date_value), Some(ImportInferredType::Timestamp));
    assert_eq!(infer_value_type(&time_value), Some(ImportInferredType::Decimal));
}

#[test]
fn keeps_excel_numeric_and_text_cell_types_distinct() {
    let integer_valued_float = xlsx_cell_value(&float_cell("10401029008", "10401029008.0"));
    assert_eq!(integer_valued_float, float_json("10401029008.0"));
    assert_eq!(infer_value_type(&integer_valued_float), Some(ImportInferredType::Decimal));
    assert_eq!(xlsx_cell_value(&float_cell("10401029008.5", "10401029008.5")), float_json("10401029008.5"));
    assert_eq!(
        xlsx_cell_value(&float_cell("9007199254740992", "9007199254740992.0")),
        float_json("9007199254740992.0")
    );
    for value in ["10.0", "00123", "1e3", "10401029008.0"] {
        assert_eq!(xlsx_cell_value(&string_cell(value)), text(value));
    }
}

#[test]
fn temporal_kind_shapes_date_time_cells() {
    let parts = || ExcelDateTimeParts {
        is_duration: false,
        duration_millis: Some(45996 * 86_400_000 + 3_723_004),
        date_and_datetime: Some(("2025-12-05".to_string(), "2025-12-05 01:02:03.004".to_string())),
        in_unit_interval: false,
        text: "45996.04".to_string(),
    };
    let cell = XlsxCell::DateTime(parts());
    assert_eq!(xlsx_cell_value_with_temporal_kind(&cell, Some(XlsxTemporalKind::Date)), text("2025-12-05"));
    assert_eq!(xlsx_cell_value_with_temporal_kind(&cell, Some(XlsxTemporalKind::DateTime)), text("2025-12-05 01:02:03.004"));
    assert_eq!(xlsx_cell_value_with_temporal_kind(&cell, Some(XlsxTemporalKind::Time)), text("01:02:03.004"));
}

#[test]
fn formats_durations_as_hours_minutes_seconds() {
    assert_eq!(format_chrono_duration_hms(3_723_004, false), "01:02:03.004");
    assert_eq!(format_chrono_duration_hms(3_723_500, false), "01:02:03.5");
    assert_eq!(format_chrono_duration_hms(216_000_000, false), "60:00:00");
    assert_eq!(format_chrono_duration_hms(90_000_000, true), "01:00:00");
    assert_eq!(format_chrono_duration_hms(-61_000, false), "-00:01:01");
}

#[test]
fn labels_cells_as_headers_show_them() {
    assert_eq!(xlsx_cell_label(&XlsxCell::Empty), "");
    assert_eq!(xlsx_cell_label(&XlsxCell::Bool(true)), "true");
    assert_eq!(xlsx_cell_label(&XlsxCell::Int { value: -42, float_text: "-42".to_string(), display: None }), "-42");
    assert_eq!(xlsx_cell_label(&float_cell("1.5", "1.5")), "1.5");
}

#[test]
fn recognizes_builtin_and_custom_temporal_formats() {
    assert_eq!(xlsx_builtin_temporal_kind(14), Some(XlsxTemporalKind::Date));
    assert_eq!(xlsx_builtin_temporal_kind(2), None);
    assert_eq!(xlsx_temporal_kind_from_format_code("yyyy-mm-dd"), Some(XlsxTemporalKind::Date));
    assert_eq!(xlsx_temporal_kind_from_format_code("0.00"), None);
}

#[test]
fn selects_sheet_by_name_index_or_first() {
    let names = vec!["Orders".to_string(), "Users".to_string()];
    let mut options = TableImportParseOptions::default();
    assert_eq!(select_sheet_name(&options, &names).unwrap(), "Orders");
    options.sheet_index = Some(1);
    assert_eq!(select_sheet_name(&options, &names).unwrap(), "Users");
    options.sheet_index = Some(5);
    assert_eq!(select_sheet_name(&options, &names).unwrap_err(), "Workbook sheet index out of range: 5");
    options.sheet_name = Some("Missing".to_string());
    assert_eq!(select_sheet_name(&options, &names).unwrap_err(), "Workbook sheet not found: Missing");
    assert_eq!(select_sheet_name(&TableImportParseOptions::default(), &vec![]).unwrap_err(), "Workbook has no sheets");
}

#[test]
fn recognizes_legacy_xls_paths() {
    assert!(is_legacy_xls_path("/tmp/report.XLS"));
    assert!(!is_legacy_xls_path("/tmp/report.xlsx"));
    assert!(!is_legacy_xls_path("/tmp/report"));
}

#[test]
fn reads_cell_references() {
    assert_eq!(xlsx_cell_ref_position("A1"), Some((1, 1)));
    assert_eq!(xlsx_cell_ref_position("$B$12"), Some((12, 2)));
    assert_eq!(xlsx_cell_ref_position("AA3"), Some((3, 27)));
    assert_eq!(xlsx_cell_ref_position("12"), None);
}

#[test]
fn finds_worksheet_path_through_relationships() {
    let workbook = r#"<workbook><sheets><sheet name="Data" sheetId="1" r:id="rId1"/></sheets></workbook>"#;
    let rels = r#"<Relationships><Relationship Id="rId1" Target="worksheets/sheet1.xml"/></Relationships>"#;
    assert_eq!(xlsx_workbook_sheet_refs(workbook), vec![("Data".to_string(), Some("rId1".to_string()))]);
    assert_eq!(xlsx_sheet_path_for_name(workbook, rels, "Data"), Some("xl/worksheets/sheet1.xml".to_string()));
    assert_eq!(xlsx_sheet_path_for_name(workbook, rels, "Other"), None);
    assert_eq!(xlsx_relationship_target_path("xl", "/xl/worksheets/sheet2.xml"), "xl/worksheets/sheet2.xml");
}

#[test]
fn reads_temporal_kinds_of_cell_styles() {
    let styles = r#"<styleSheet><numFmts><numFmt numFmtId="164" formatCode="yyyy-mm-dd hh:mm"/></numFmts>
        <cellXfs><xf numFmtId="0"/><xf numFmtId="14"/><xf numFmtId="164"/></cellXfs></styleSheet>"#;
    let parsed = parse_xlsx_styles(styles);
    assert_eq!(parsed.len(), 3);
    assert_eq!(parsed[0].temporal_kind, None);
    assert_eq!(parsed[1].temporal_kind, Some(XlsxTemporalKind::Date));
    assert_eq!(parsed[2].temporal_kind, Some(XlsxTemporalKind::DateTime));
}

#[test]
fn reads_sheet_rows_between_title_and_last_data_row() {
    let cells = vec![
        vec![string_cell("report")],
        vec![string_cell("id"), string_cell("name")],
        vec![XlsxCell::Int { value: 1, float_text: "1".to_string(), display: None }, string_cell("Ada")],
        vec![XlsxCell::Int { value: 2, float_text: "2".to_string(), display: None }, string_cell("Grace")],
        vec![XlsxCell::Int { value: 3, float_text: "3".to_string(), display: None }, string_cell("Linus")],
    ];
    let range = ImportRowRange { title_row: Some(2), data_start_row: 3, last_data_row: Some(4) };
    let parsed = xlsx_rows(&cells, (0, 0), &range, 1, &vec![], &vec![], false).unwrap();
    assert_eq!(parsed.columns, vec!["id", "name"]);
    assert_eq!(parsed.total_rows, 2);
    assert_eq!(parsed.rows.len(), 1);
    assert_eq!(parsed.rows[0], vec![JsonValue::Number(JsonNumber { text: "1".to_string(), is_integer: true }), text("Ada")]);
}

#[test]
fn legacy_sheet_rejects_numeric_cell_for_text_target() {
    let cells = vec![vec![float_cell("10", "10.0")]];
    let range = ImportRowRange { title_row: None, data_start_row: 1, last_data_row: None };
    let error = xlsx_rows(&cells, (0, 0), &range, 10, &vec!["column_1".to_string()], &vec![], true).unwrap_err();
    assert!(error.contains("Legacy .xls"));
    assert!(error.contains("column_1"));
    let numeric = xlsx_rows(&cells, (0, 0), &range, 10, &vec![], &vec![], true).unwrap();
    assert_eq!(numeric.rows[0], vec![float_json("10.0")]);
}

#[test]
fn sheet_without_data_rows_is_an_error() {
    let cells = vec![vec![string_cell("id")]];
    let range = ImportRowRange { title_row: Some(1), data_start_row: 2, last_data_row: None };
    let error = xlsx_rows(&cells, (0, 0), &range, 10, &vec![], &vec![], false).unwrap_err();
    assert_eq!(error, "Import file has no data rows in the selected row range");
}

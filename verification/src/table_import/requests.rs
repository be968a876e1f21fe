//! What callers ask of an import, and what an import reports back.
use vstd::prelude::*;
use crate::json::JsonValue;
use crate::table_import::mapping::TableImportColumnMapping;
use crate::table_import::options::{
    TableImportMode, TableImportParseOptions, TableImportSourceFormat, TableImportStatus, TableImportTextEncoding,
};
use crate::text::{dec, push_dec, push_str};

verus! {

/// A request to preview a file before importing it.
#[derive(Debug, Clone)]
pub struct TableImportPreviewRequest {
    pub file_path: String,
    pub source_ref: Option<String>,
    pub source_format: Option<TableImportSourceFormat>,
    pub parse_options: TableImportParseOptions,
    pub preview_limit: Option<usize>,
}

/// A request to import a file into a table.
#[derive(Debug, Clone)]
pub struct TableImportRequest {
    pub import_id: String,
    pub connection_id: String,
    pub database: String,
    pub schema: String,
    pub table: String,
    pub file_path: String,
    pub source_ref: Option<String>,
    pub source_format: Option<TableImportSourceFormat>,
    pub parse_options: TableImportParseOptions,
    pub mappings: Vec<TableImportColumnMapping>,
    pub mode: TableImportMode,
    pub create_table: bool,
    pub batch_size: usize,
    pub date_time_format: Option<String>,
}

/// The preview of a file: its columns and first rows.
#[derive(Debug)]
pub struct TableImportPreview {
    pub file_name: String,
    pub file_path: String,
    pub source_ref: Option<String>,
    pub file_type: String,
    pub size_bytes: u64,
    pub columns: Vec<String>,
    pub rows: Vec<Vec<JsonValue>>,
    pub total_rows: usize,
    pub effective_encoding: Option<TableImportTextEncoding>,
    pub sheets: Vec<String>,
}

/// The outcome of a finished import.
#[derive(Debug, Clone)]
pub struct TableImportSummary {
    pub import_id: String,
    pub rows_imported: usize,
    pub total_rows: usize,
}

/// A progress event of a running import.
#[derive(Debug, Clone)]
pub struct TableImportProgress {
    pub import_id: String,
    pub status: TableImportStatus,
    pub rows_imported: usize,
    pub total_rows: usize,
    pub error: Option<String>,
}

/// The message an import failure is reported with.
pub open spec fn spec_import_error_message(table: Seq<char>, rows_imported: nat, error: Seq<char>) -> Seq<char> {
    "Import into table '"@ + table + "' failed after "@ + dec(rows_imported) + " imported rows: "@ + error
}

pub fn import_error_message(request: &TableImportRequest, rows_imported: usize, error: &str) -> (r: String)
    ensures
        r@ == spec_import_error_message(request.table@, rows_imported as nat, error@),
{
    let mut out = "Import into table '".to_owned();
    push_str(&mut out, request.table.as_str());
    push_str(&mut out, "' failed after ");
    push_dec(&mut out, rows_imported as u64);
    push_str(&mut out, " imported rows: ");
    push_str(&mut out, error);
    out
}

/// The failure message of an import and the error event that reports it.
pub fn emit_import_error(
    request: &TableImportRequest,
    rows_imported: usize,
    total_rows: usize,
    error: &str,
) -> (r: (String, TableImportProgress))
    ensures
        r.0@ == spec_import_error_message(request.table@, rows_imported as nat, error@),
        r.1.import_id@ == request.import_id@,
        r.1.status == TableImportStatus::Error,
        r.1.rows_imported == rows_imported,
        r.1.total_rows == total_rows,
        r.1.error matches Some(e) && e@ == r.0@,
{
    let message = import_error_message(request, rows_imported, error);
    let progress = TableImportProgress {
        import_id: request.import_id.clone(),
        status: TableImportStatus::Error,
        rows_imported,
        total_rows,
        error: Some(message.clone()),
    };
    (message, progress)
}

/// A progress event without an error.
pub fn progress_event(import_id: &String, status: TableImportStatus, rows_imported: usize, total_rows: usize) -> (r:
    TableImportProgress)
    ensures
        r.import_id@ == import_id@,
        r.status == status,
        r.rows_imported == rows_imported,
        r.total_rows == total_rows,
        r.error is None,
{
    TableImportProgress { import_id: import_id.clone(), status, rows_imported, total_rows, error: None }
}

/// Rows imported after a batch: the count grows by the batch's rows, never past the total.
pub open spec fn spec_advance_rows(rows_imported: nat, batch_rows: nat, total_rows: nat) -> nat {
    if rows_imported + batch_rows < total_rows { rows_imported + batch_rows } else { total_rows }
}

pub fn advance_rows_imported(rows_imported: usize, batch_rows: usize, total_rows: usize) -> (r: usize)
    ensures
        r == spec_advance_rows(rows_imported as nat, batch_rows as nat, total_rows as nat),
{
    if batch_rows < total_rows && rows_imported < total_rows - batch_rows {
        rows_imported + batch_rows
    } else {
        total_rows
    }
}

} // verus!

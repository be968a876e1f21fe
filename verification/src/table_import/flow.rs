//! The decisions of a running import: batch sizes, which column types to use, where
//! the rows of a streamed file begin and end, and the progress it reports.
use vstd::prelude::*;
use crate::dialect::DatabaseType;
use crate::table_import::options::{
    DelimitedParseConfig, ImportRowRange, TableImportMode, TableImportParseOptions, TableImportStatus,
    TableImportTextEncoding, DEFAULT_BATCH_SIZE, MAX_NON_STREAMING_IMPORT_BYTES, TableImportSourceFormat,
};
use crate::table_import::requests::{
    emit_import_error, spec_advance_rows, spec_import_error_message, TableImportProgress, TableImportRequest,
    TableImportSummary,
};
use crate::table_import::rows::{column_name, generated_columns, headers_exec, spec_generated_columns, spec_headers};
use crate::table_import::mapping::texts;
use crate::text::push_str;

verus! {

/// The batch size an import asks for: the request's, or the default for zero.
pub open spec fn spec_request_batch_size(batch_size: usize) -> int {
    if batch_size == 0 {
        DEFAULT_BATCH_SIZE as int
    } else {
        batch_size as int
    }
}

pub fn request_batch_size(batch_size: usize) -> (r: usize)
    ensures
        r == spec_request_batch_size(batch_size),
{
    if batch_size == 0 {
        DEFAULT_BATCH_SIZE
    } else {
        batch_size
    }
}

/// Rows per `INSERT` while streaming a delimited file: one for Oracle dialects,
/// between 1 and 100 for Cloudflare D1, at least one otherwise.
pub open spec fn spec_streaming_batch_size(db: DatabaseType, batch_size: usize) -> int {
    match db {
        DatabaseType::Oracle | DatabaseType::OceanbaseOracle => 1,
        DatabaseType::CloudflareD1 => if batch_size < 1 {
            1
        } else if batch_size > 100 {
            100
        } else {
            batch_size as int
        },
        _ => if batch_size < 1 {
            1
        } else {
            batch_size as int
        },
    }
}

pub fn streaming_batch_size(db_type: &DatabaseType, batch_size: usize) -> (r: usize)
    ensures
        r == spec_streaming_batch_size(*db_type, batch_size),
        r >= 1,
{
    match db_type {
        DatabaseType::Oracle | DatabaseType::OceanbaseOracle => 1,
        DatabaseType::CloudflareD1 => if batch_size < 1 {
            1
        } else if batch_size > 100 {
            100
        } else {
            batch_size
        },
        _ => if batch_size < 1 {
            1
        } else {
            batch_size
        },
    }
}

/// A table that the import creates cannot also be truncated by it.
pub fn check_create_table_mode(create_table: bool, mode: TableImportMode) -> (r: Result<(), String>)
    ensures
        r is Err <==> (create_table && mode == TableImportMode::Truncate),
        r matches Err(e) ==> e@ == "Cannot truncate a table that is being created by the import"@,
{
    if create_table && mode == TableImportMode::Truncate {
        let mut e = String::new();
        push_str(&mut e, "Cannot truncate a table that is being created by the import");
        Err(e)
    } else {
        Ok(())
    }
}

/// The column types inserts are written for: those the target table reports, or,
/// when it reports none, those of the table the import created.
pub fn target_column_types(fetched: Vec<(String, String)>, created: Option<Vec<(String, String)>>) -> (r: Vec<
    (String, String),
>)
    ensures
        fetched@.len() > 0 ==> r@ == fetched@,
        fetched@.len() == 0 ==> r@ == match created {
            Some(c) => c@,
            None => Seq::empty(),
        },
{
    if fetched.len() > 0 {
        fetched
    } else {
        match created {
            Some(c) => c,
            None => Vec::new(),
        }
    }
}

/// The encoding a streamed read uses: the one asked for, or, when that is automatic
/// detection (or unset), the one the preview detected.
pub fn streaming_encoding(requested: Option<TableImportTextEncoding>, detected: Option<TableImportTextEncoding>) -> (r:
    Option<TableImportTextEncoding>)
    ensures
        r == (match requested {
            Some(e) => if e == TableImportTextEncoding::Auto {
                detected
            } else {
                Some(e)
            },
            None => detected,
        }),
{
    match requested {
        Some(e) => if e == TableImportTextEncoding::Auto {
            detected
        } else {
            Some(e)
        },
        None => detected,
    }
}

/// What a streamed read does with the record at a row number while looking for the
/// header and the first data row.
pub enum HeaderStep {
    /// The title row: these are the columns; keep reading.
    Title(Vec<String>),
    /// A row before the data range; keep reading.
    Skip,
    /// Past the last data row before any data: the range holds no data rows.
    Stop,
    /// The first data row, with the columns to use (generated when there was no
    /// title row).
    Data(Vec<String>),
    /// The first data row came without any column.
    NoColumns,
}

/// The step for the record at `row_number` (counting from 1), given the record's
/// fields and the columns found so far: its kind (0 title, 1 skip, 2 stop, 3 data,
/// 4 no columns) and the columns it yields.
pub open spec fn spec_header_step(
    range: ImportRowRange,
    row_number: usize,
    record: Seq<Seq<char>>,
    columns: Seq<Seq<char>>,
) -> (int, Seq<Seq<char>>) {
    if range.title_row == Some(row_number) {
        (0, spec_headers(record))
    } else if (row_number as int) < range.data_start_row as int {
        (1, columns)
    } else if range.last_data_row matches Some(last) && row_number > last {
        (2, columns)
    } else {
        let c = if columns.len() == 0 {
            spec_generated_columns(record.len())
        } else {
            columns
        };
        if c.len() == 0 {
            (4, c)
        } else {
            (3, c)
        }
    }
}

impl HeaderStep {
    pub open spec fn model(self) -> (int, Seq<Seq<char>>) {
        match self {
            HeaderStep::Title(c) => (0, texts(c@)),
            HeaderStep::Skip => (1, Seq::empty()),
            HeaderStep::Stop => (2, Seq::empty()),
            HeaderStep::Data(c) => (3, texts(c@)),
            HeaderStep::NoColumns => (4, Seq::empty()),
        }
    }
}

/// Decides what the record at `row_number` is while a streamed read looks for the
/// columns and the first data row.
pub fn header_step(range: &ImportRowRange, row_number: usize, record: &Vec<String>, columns: &Vec<String>) -> (r:
    HeaderStep)
    ensures
        r.model().0 == spec_header_step(*range, row_number, texts(record@), texts(columns@)).0,
        (r.model().0 == 0 || r.model().0 == 3) ==> r.model().1 == spec_header_step(
            *range,
            row_number,
            texts(record@),
            texts(columns@),
        ).1,
{
    if range.title_row == Some(row_number) {
        return HeaderStep::Title(headers_exec(record));
    }
    if row_number < range.data_start_row {
        return HeaderStep::Skip;
    }
    if let Some(last) = range.last_data_row {
        if row_number > last {
            return HeaderStep::Stop;
        }
    }
    let c = if columns.len() == 0 {
        generated_columns(record.len())
    } else {
        let mut copy: Vec<String> = Vec::new();
        let mut i: usize = 0;
        while i < columns.len()
            invariant
                i <= columns.len(),
                texts(copy@) == texts(columns@.subrange(0, i as int)),
            decreases columns.len() - i,
        {
            let ghost before = copy@;
            copy.push(columns[i].clone());
            assert(texts(copy@) =~= texts(before).push(columns@[i as int]@));
            assert(texts(columns@.subrange(0, i + 1)) =~= texts(columns@.subrange(0, i as int)).push(
                columns@[i as int]@,
            ));
            i = i + 1;
        }
        assert(columns@.subrange(0, columns@.len() as int) =~= columns@);
        copy
    };
    if c.len() == 0 {
        HeaderStep::NoColumns
    } else {
        HeaderStep::Data(c)
    }
}

/// The progress of a running import: how many rows are in, out of how many.
pub struct ImportProgressState {
    pub import_id: String,
    pub rows_imported: usize,
    pub total_rows: usize,
}

impl ImportProgressState {
    /// Every state the import reports has at most the total rows imported.
    pub open spec fn wf(self) -> bool {
        self.rows_imported <= self.total_rows
    }

    /// An import that has not written any row yet.
    pub fn start(import_id: &String, total_rows: usize) -> (r: Self)
        ensures
            r.wf(),
            r.import_id@ == import_id@,
            r.rows_imported == 0,
            r.total_rows == total_rows,
    {
        ImportProgressState { import_id: import_id.clone(), rows_imported: 0, total_rows }
    }

    fn event(&self, status: TableImportStatus) -> (r: TableImportProgress)
        ensures
            r.import_id@ == self.import_id@,
            r.status == status,
            r.rows_imported == self.rows_imported,
            r.total_rows == self.total_rows,
            r.error is None,
    {
        TableImportProgress {
            import_id: self.import_id.clone(),
            status,
            rows_imported: self.rows_imported,
            total_rows: self.total_rows,
            error: None,
        }
    }

    /// The event that says the import runs, with the rows so far.
    pub fn running(&self) -> (r: TableImportProgress)
        ensures
            r.import_id@ == self.import_id@,
            r.status == TableImportStatus::Running,
            r.rows_imported == self.rows_imported,
            r.total_rows == self.total_rows,
            r.error is None,
    {
        self.event(TableImportStatus::Running)
    }

    /// Counts a written batch (never past the total) and gives the progress event.
    pub fn record_batch(&mut self, batch_rows: usize) -> (r: TableImportProgress)
        requires
            old(self).wf(),
        ensures
            final(self).wf(),
            final(self).import_id == old(self).import_id,
            final(self).total_rows == old(self).total_rows,
            final(self).rows_imported == spec_advance_rows(
                old(self).rows_imported as nat,
                batch_rows as nat,
                old(self).total_rows as nat,
            ),
            r.status == TableImportStatus::Running,
            r.rows_imported == final(self).rows_imported,
            r.total_rows == final(self).total_rows,
            r.import_id@ == final(self).import_id@,
            r.error is None,
    {
        self.rows_imported = crate::table_import::requests::advance_rows_imported(
            self.rows_imported,
            batch_rows,
            self.total_rows,
        );
        self.event(TableImportStatus::Running)
    }

    /// The cancellation: the error text and the event that reports it.
    pub fn cancelled(&self) -> (r: (String, TableImportProgress))
        ensures
            r.0@ == "Import cancelled"@,
            r.1.status == TableImportStatus::Cancelled,
            r.1.rows_imported == self.rows_imported,
            r.1.total_rows == self.total_rows,
            r.1.import_id@ == self.import_id@,
            r.1.error is None,
    {
        let mut m = String::new();
        push_str(&mut m, "Import cancelled");
        (m, self.event(TableImportStatus::Cancelled))
    }

    /// A failure: its message and the error event, with the rows imported so far.
    pub fn failed(&self, request: &TableImportRequest, error: &str) -> (r: (String, TableImportProgress))
        ensures
            r.0@ == spec_import_error_message(request.table@, self.rows_imported as nat, error@),
            r.1.status == TableImportStatus::Error,
            r.1.rows_imported == self.rows_imported,
            r.1.total_rows == self.total_rows,
            r.1.error matches Some(e) && e@ == r.0@,
    {
        emit_import_error(request, self.rows_imported, self.total_rows, error)
    }

    /// The end of the import: its summary and the final event.
    pub fn done(&self) -> (r: (TableImportSummary, TableImportProgress))
        ensures
            r.0.import_id@ == self.import_id@,
            r.0.rows_imported == self.rows_imported,
            r.0.total_rows == self.total_rows,
            r.1.status == TableImportStatus::Done,
            r.1.import_id@ == self.import_id@,
            r.1.rows_imported == self.rows_imported,
            r.1.total_rows == self.total_rows,
            r.1.error is None,
    {
        (
            TableImportSummary {
                import_id: self.import_id.clone(),
                rows_imported: self.rows_imported,
                total_rows: self.total_rows,
            },
            self.event(TableImportStatus::Done),
        )
    }
}

/// Whether a streamed read stops before the record at `row_number`: it lies past the
/// last data row.
pub fn past_last_data_row(range: &ImportRowRange, row_number: usize) -> (r: bool)
    ensures
        r == (range.last_data_row matches Some(last) && row_number > last),
{
    match range.last_data_row {
        Some(last) => row_number > last,
        None => false,
    }
}

/// Whether the rows waiting for an `INSERT` fill a batch.
pub fn batch_is_full(pending: usize, batch_size: usize) -> (r: bool)
    ensures
        r == (pending >= batch_size),
{
    pending >= batch_size
}

/// Rows written through a progress state never exceed the total, and the count never
/// goes down.
pub proof fn lemma_progress_bounded_and_monotone(rows_imported: nat, batch_rows: nat, total_rows: nat)
    requires
        rows_imported <= total_rows,
    ensures
        rows_imported <= spec_advance_rows(rows_imported, batch_rows, total_rows) <= total_rows,
{
}


/// Files that are read whole (JSON and Excel) may hold at most
/// `MAX_NON_STREAMING_IMPORT_BYTES` bytes; delimited files are streamed and have no
/// limit.
pub fn check_non_streaming_file_size(format: TableImportSourceFormat, size: u64) -> (r: Result<(), String>)
    ensures
        r is Err <==> (!format.spec_is_delimited() && size > MAX_NON_STREAMING_IMPORT_BYTES),
        r matches Err(e) ==> e@ == "File too large for "@ + format.spec_label() + " import: "@ + crate::text::dec(
            size as nat,
        ) + " bytes (max "@ + crate::text::dec(MAX_NON_STREAMING_IMPORT_BYTES as nat) + " bytes)"@,
{
    if format.is_delimited() || size <= MAX_NON_STREAMING_IMPORT_BYTES {
        return Ok(());
    }
    let mut e = String::new();
    push_str(&mut e, "File too large for ");
    push_str(&mut e, format.label());
    push_str(&mut e, " import: ");
    crate::text::push_dec(&mut e, size);
    push_str(&mut e, " bytes (max ");
    crate::text::push_dec(&mut e, MAX_NON_STREAMING_IMPORT_BYTES);
    push_str(&mut e, " bytes)");
    Err(e)
}


/// Where a streamed import stands: reading records, writing a full batch, writing the
/// last batch after the records ran out, or finished.
#[derive(Debug, Clone, Copy, PartialEq, Eq, Structural)]
pub enum ImportPhase {
    Reading,
    Writing,
    Closing,
    Finished,
}

/// A streamed import between two steps: its progress, the rows waiting for an
/// `INSERT`, and what it needs to decide the next step.
pub struct ImportRun {
    pub progress: ImportProgressState,
    pub table: String,
    pub last_data_row: Option<usize>,
    pub batch_size: usize,
    pub pending: usize,
    pub phase: ImportPhase,
}

/// What happened since the last step.
pub enum ImportEvent {
    /// The record that came with the columns (or right after the title row); it is
    /// kept without any test.
    FirstRecord,
    /// The next record, at source row `row_number`; `cancelled` tells whether the
    /// import was cancelled meanwhile.
    Record { row_number: usize, cancelled: bool },
    /// The records ran out.
    EndOfRecords { cancelled: bool },
    /// The pending rows were written by one `INSERT` of `row_count` rows.
    BatchWritten { row_count: usize },
    /// The pending rows gave no `INSERT` at all.
    BatchEmpty,
    /// Reading a record, or building or running a batch, failed.
    Failed { error: String },
}

/// What to do next.
pub enum ImportAction {
    /// Read the next record.
    ReadNext,
    /// Build and run the `INSERT` of the pending rows.
    WriteBatch,
    /// Report the progress, then read the next record.
    Report(TableImportProgress),
    /// The import was cancelled: its error text and its last event.
    Cancelled(String, TableImportProgress),
    /// The import failed: its error text and its last event.
    Failed(String, TableImportProgress),
    /// The import is done: its summary and its last event.
    Done(TableImportSummary, TableImportProgress),
    /// The event does not belong to this phase; nothing changes.
    Ignore,
}

impl ImportRun {
    /// Rows imported never exceed the total; the pending count stays within one row
    /// past a batch, and below a batch while reading.
    pub open spec fn wf(self) -> bool {
        &&& self.progress.wf()
        &&& 1 <= self.batch_size
        &&& self.batch_size + 1 < usize::MAX
        &&& self.pending <= self.batch_size + 1
        &&& self.phase == ImportPhase::Reading ==> self.pending <= self.batch_size
    }

    /// The fields that no step changes.
    pub open spec fn same_frame(self, other: Self) -> bool {
        &&& self.progress.import_id@ == other.progress.import_id@
        &&& self.progress.total_rows == other.progress.total_rows
        &&& self.table@ == other.table@
        &&& self.last_data_row == other.last_data_row
        &&& self.batch_size == other.batch_size
    }

    /// A streamed import before its first record.
    pub fn new(import_id: &String, table: &String, total_rows: usize, last_data_row: Option<usize>, batch_size: usize) -> (r:
        Self)
        requires
            1 <= batch_size,
            batch_size + 1 < usize::MAX,
        ensures
            r.wf(),
            r.progress.import_id@ == import_id@,
            r.progress.rows_imported == 0,
            r.progress.total_rows == total_rows,
            r.table@ == table@,
            r.last_data_row == last_data_row,
            r.batch_size == batch_size,
            r.pending == 0,
            r.phase == ImportPhase::Reading,
    {
        ImportRun {
            progress: ImportProgressState::start(import_id, total_rows),
            table: table.clone(),
            last_data_row,
            batch_size,
            pending: 0,
            phase: ImportPhase::Reading,
        }
    }

    fn with(&self, rows_imported: usize, pending: usize, phase: ImportPhase) -> (r: Self)
        ensures
            r.same_frame(*self),
            r.progress.rows_imported == rows_imported,
            r.pending == pending,
            r.phase == phase,
    {
        ImportRun {
            progress: ImportProgressState {
                import_id: self.progress.import_id.clone(),
                rows_imported,
                total_rows: self.progress.total_rows,
            },
            table: self.table.clone(),
            last_data_row: self.last_data_row,
            batch_size: self.batch_size,
            pending,
            phase,
        }
    }

    fn failure(&self, error: &str) -> (r: (String, TableImportProgress))
        ensures
            r.0@ == spec_import_error_message(self.table@, self.progress.rows_imported as nat, error@),
            r.1.import_id@ == self.progress.import_id@,
            r.1.status == TableImportStatus::Error,
            r.1.rows_imported == self.progress.rows_imported,
            r.1.total_rows == self.progress.total_rows,
            r.1.error matches Some(e) && e@ == r.0@,
    {
        let mut message = "Import into table '".to_owned();
        push_str(&mut message, self.table.as_str());
        push_str(&mut message, "' failed after ");
        crate::text::push_dec(&mut message, self.progress.rows_imported as u64);
        push_str(&mut message, " imported rows: ");
        push_str(&mut message, error);
        let event = TableImportProgress {
            import_id: self.progress.import_id.clone(),
            status: TableImportStatus::Error,
            rows_imported: self.progress.rows_imported,
            total_rows: self.progress.total_rows,
            error: Some(message.clone()),
        };
        (message, event)
    }

    /// The records ran out, or the next one lies past the last data row.
    fn end_of_records(&self, cancelled: bool) -> (r: (Self, ImportAction))
        requires
            self.wf(),
            self.phase == ImportPhase::Reading,
        ensures
            r.0.wf(),
            r.0.same_frame(*self),
            r.0.progress.rows_imported == self.progress.rows_imported,
            spec_end_of_records(*self, cancelled, r.0, r.1),
    {
        if self.pending == 0 {
            let next = self.with(self.progress.rows_imported, 0, ImportPhase::Finished);
            let (summary, event) = self.progress.done();
            (next, ImportAction::Done(summary, event))
        } else if cancelled {
            let next = self.with(self.progress.rows_imported, self.pending, ImportPhase::Finished);
            let (message, event) = self.progress.cancelled();
            (next, ImportAction::Cancelled(message, event))
        } else {
            (self.with(self.progress.rows_imported, self.pending, ImportPhase::Closing), ImportAction::WriteBatch)
        }
    }
}

/// The final event of an import that ends with `rows` rows imported.
pub open spec fn is_final_event(p: TableImportProgress, run: ImportRun, status: TableImportStatus) -> bool {
    &&& p.import_id@ == run.progress.import_id@
    &&& p.status == status
    &&& p.rows_imported == run.progress.rows_imported
    &&& p.total_rows == run.progress.total_rows
    &&& p.error is None
}

/// The end of the records: done when no row waits, cancelled when asked, else the last
/// batch is written.
pub open spec fn spec_end_of_records(s: ImportRun, cancelled: bool, next: ImportRun, a: ImportAction) -> bool {
    if s.pending == 0 {
        &&& next.phase == ImportPhase::Finished && next.pending == 0
        &&& a matches ImportAction::Done(summary, p) && is_final_event(p, s, TableImportStatus::Done)
            && summary.import_id@ == s.progress.import_id@ && summary.rows_imported == s.progress.rows_imported
            && summary.total_rows == s.progress.total_rows
    } else if cancelled {
        &&& next.phase == ImportPhase::Finished && next.pending == s.pending
        &&& a matches ImportAction::Cancelled(m, p) && m@ == "Import cancelled"@ && is_final_event(
            p,
            s,
            TableImportStatus::Cancelled,
        )
    } else {
        next.phase == ImportPhase::Closing && next.pending == s.pending && a is WriteBatch
    }
}

/// A failure ends the import with its message and error event.
pub open spec fn spec_failed(s: ImportRun, error: Seq<char>, next: ImportRun, a: ImportAction) -> bool {
    &&& next.phase == ImportPhase::Finished && next.pending == s.pending
    &&& next.progress.rows_imported == s.progress.rows_imported
    &&& a matches ImportAction::Failed(m, p) && m@ == spec_import_error_message(
        s.table@,
        s.progress.rows_imported as nat,
        error,
    ) && p.status == TableImportStatus::Error && p.rows_imported == s.progress.rows_imported && p.total_rows
        == s.progress.total_rows && p.import_id@ == s.progress.import_id@ && (p.error matches Some(e) && e@ == m@)
}

/// One step of a streamed import: what the event does to the run and what to do next.
pub open spec fn spec_import_step(s: ImportRun, e: ImportEvent, next: ImportRun, a: ImportAction) -> bool {
    let rows = s.progress.rows_imported;
    match s.phase {
        ImportPhase::Reading => match e {
            ImportEvent::FirstRecord => if s.pending == 0 {
                next.phase == ImportPhase::Reading && next.pending == 1 && next.progress.rows_imported == rows
                    && a is ReadNext
            } else {
                next.phase == s.phase && next.pending == s.pending && next.progress.rows_imported == rows
                    && a is Ignore
            },
            ImportEvent::Record { row_number, cancelled } => if s.last_data_row matches Some(last) && row_number
                > last {
                next.progress.rows_imported == rows && spec_end_of_records(s, cancelled, next, a)
            } else if cancelled {
                &&& next.phase == ImportPhase::Finished && next.pending == s.pending
                &&& next.progress.rows_imported == rows
                &&& a matches ImportAction::Cancelled(m, p) && m@ == "Import cancelled"@ && is_final_event(
                    p,
                    s,
                    TableImportStatus::Cancelled,
                )
            } else if s.pending + 1 >= s.batch_size {
                next.phase == ImportPhase::Writing && next.pending == s.pending + 1
                    && next.progress.rows_imported == rows && a is WriteBatch
            } else {
                next.phase == ImportPhase::Reading && next.pending == s.pending + 1
                    && next.progress.rows_imported == rows && a is ReadNext
            },
            ImportEvent::EndOfRecords { cancelled } => next.progress.rows_imported == rows && spec_end_of_records(
                s,
                cancelled,
                next,
                a,
            ),
            ImportEvent::Failed { error } => spec_failed(s, error@, next, a),
            _ => next.phase == s.phase && next.pending == s.pending && next.progress.rows_imported == rows
                && a is Ignore,
        },
        ImportPhase::Writing | ImportPhase::Closing => match e {
            ImportEvent::BatchWritten { row_count } => {
                let after = spec_advance_rows(rows as nat, row_count as nat, s.progress.total_rows as nat);
                &&& next.progress.rows_imported == after && next.pending == 0
                &&& if s.phase == ImportPhase::Writing {
                    &&& next.phase == ImportPhase::Reading
                    &&& a matches ImportAction::Report(p) && is_final_event(p, next, TableImportStatus::Running)
                } else {
                    &&& next.phase == ImportPhase::Finished
                    &&& a matches ImportAction::Done(summary, p) && is_final_event(p, next, TableImportStatus::Done)
                        && summary.import_id@ == next.progress.import_id@ && summary.rows_imported == after
                        && summary.total_rows == next.progress.total_rows
                }
            },
            ImportEvent::BatchEmpty => {
                &&& next.progress.rows_imported == rows && next.pending == 0
                &&& if s.phase == ImportPhase::Writing {
                    next.phase == ImportPhase::Reading && a is ReadNext
                } else {
                    &&& next.phase == ImportPhase::Finished
                    &&& a matches ImportAction::Done(summary, p) && is_final_event(p, s, TableImportStatus::Done)
                        && summary.import_id@ == s.progress.import_id@ && summary.rows_imported == rows
                        && summary.total_rows == s.progress.total_rows
                }
            },
            ImportEvent::Failed { error } => spec_failed(s, error@, next, a),
            _ => next.phase == s.phase && next.pending == s.pending && next.progress.rows_imported == rows
                && a is Ignore,
        },
        ImportPhase::Finished => next.phase == s.phase && next.pending == s.pending && next.progress.rows_imported
            == rows && a is Ignore,
    }
}

/// One step of a streamed import (see [`spec_import_step`]). Whatever the event, the
/// rows imported never go down and never pass the total, and a finished import stays
/// finished.
pub fn import_step(state: &ImportRun, event: ImportEvent) -> (r: (ImportRun, ImportAction))
    requires
        state.wf(),
    ensures
        r.0.wf(),
        r.0.same_frame(*state),
        state.progress.rows_imported <= r.0.progress.rows_imported <= r.0.progress.total_rows,
        state.phase == ImportPhase::Finished ==> r.0.phase == ImportPhase::Finished,
        spec_import_step(*state, event, r.0, r.1),
{
    let rows = state.progress.rows_imported;
    match state.phase {
        ImportPhase::Reading => match event {
            ImportEvent::FirstRecord => if state.pending == 0 {
                (state.with(rows, 1, ImportPhase::Reading), ImportAction::ReadNext)
            } else {
                (state.with(rows, state.pending, state.phase), ImportAction::Ignore)
            },
            ImportEvent::Record { row_number, cancelled } => {
                if past_last_data_row_of(state.last_data_row, row_number) {
                    state.end_of_records(cancelled)
                } else if cancelled {
                    let (message, p) = state.progress.cancelled();
                    (state.with(rows, state.pending, ImportPhase::Finished), ImportAction::Cancelled(message, p))
                } else if batch_is_full(state.pending + 1, state.batch_size) {
                    (state.with(rows, state.pending + 1, ImportPhase::Writing), ImportAction::WriteBatch)
                } else {
                    (state.with(rows, state.pending + 1, ImportPhase::Reading), ImportAction::ReadNext)
                }
            },
            ImportEvent::EndOfRecords { cancelled } => state.end_of_records(cancelled),
            ImportEvent::Failed { error } => {
                let (message, p) = state.failure(error.as_str());
                (state.with(rows, state.pending, ImportPhase::Finished), ImportAction::Failed(message, p))
            },
            _ => (state.with(rows, state.pending, state.phase), ImportAction::Ignore),
        },
        ImportPhase::Writing | ImportPhase::Closing => match event {
            ImportEvent::BatchWritten { row_count } => {
                let mut progress = ImportProgressState {
                    import_id: state.progress.import_id.clone(),
                    rows_imported: rows,
                    total_rows: state.progress.total_rows,
                };
                let p = progress.record_batch(row_count);
                let after = progress.rows_imported;
                if state.phase == ImportPhase::Writing {
                    (state.with(after, 0, ImportPhase::Reading), ImportAction::Report(p))
                } else {
                    let (summary, done) = progress.done();
                    (state.with(after, 0, ImportPhase::Finished), ImportAction::Done(summary, done))
                }
            },
            ImportEvent::BatchEmpty => if state.phase == ImportPhase::Writing {
                (state.with(rows, 0, ImportPhase::Reading), ImportAction::ReadNext)
            } else {
                let (summary, done) = state.progress.done();
                (state.with(rows, 0, ImportPhase::Finished), ImportAction::Done(summary, done))
            },
            ImportEvent::Failed { error } => {
                let (message, p) = state.failure(error.as_str());
                (state.with(rows, state.pending, ImportPhase::Finished), ImportAction::Failed(message, p))
            },
            _ => (state.with(rows, state.pending, state.phase), ImportAction::Ignore),
        },
        ImportPhase::Finished => (state.with(rows, state.pending, state.phase), ImportAction::Ignore),
    }
}

fn past_last_data_row_of(last_data_row: Option<usize>, row_number: usize) -> (r: bool)
    ensures
        r == (last_data_row matches Some(last) && row_number > last),
{
    match last_data_row {
        Some(last) => row_number > last,
        None => false,
    }
}

/// Over any run of steps from a well-formed import, the rows imported never go down
/// and stay within the total.
pub proof fn lemma_import_steps_keep_progress(s: ImportRun, next: ImportRun, a: ImportAction, e: ImportEvent)
    requires
        s.wf(),
        spec_import_step(s, e, next, a),
        next.same_frame(s),
    ensures
        s.progress.rows_imported <= next.progress.rows_imported <= s.progress.total_rows,
{
}

} // verus!

use dbx::dialect::DatabaseType;
use dbx::table_import::flow::{
    batch_is_full, check_create_table_mode, header_step, past_last_data_row, request_batch_size, streaming_batch_size,
    streaming_encoding, target_column_types, HeaderStep, ImportProgressState,
    import_step, ImportAction, ImportEvent, ImportPhase, ImportRun,
};
use dbx::table_import::options::{ImportRowRange, TableImportMode, TableImportStatus, TableImportTextEncoding};

fn strings(values: &[&str]) -> Vec<String> {
    values.iter().map(|v| v.to_string()).collect()
}

#[test]
fn batch_sizes_follow_dialects() {
    assert_eq!(request_batch_size(0), 500);
    assert_eq!(request_batch_size(25), 25);
    assert_eq!(streaming_batch_size(&DatabaseType::Oracle, 500), 1);
    assert_eq!(streaming_batch_size(&DatabaseType::OceanbaseOracle, 500), 1);
    assert_eq!(streaming_batch_size(&DatabaseType::CloudflareD1, 500), 100);
    assert_eq!(streaming_batch_size(&DatabaseType::CloudflareD1, 0), 1);
    assert_eq!(streaming_batch_size(&DatabaseType::Postgres, 0), 1);
    assert_eq!(streaming_batch_size(&DatabaseType::Postgres, 250), 250);
    assert!(batch_is_full(250, 250));
    assert!(!batch_is_full(249, 250));
}

#[test]
fn cannot_truncate_a_created_table() {
    assert_eq!(
        check_create_table_mode(true, TableImportMode::Truncate).unwrap_err(),
        "Cannot truncate a table that is being created by the import"
    );
    assert!(check_create_table_mode(true, TableImportMode::Append).is_ok());
    assert!(check_create_table_mode(false, TableImportMode::Truncate).is_ok());
}

#[test]
fn target_types_prefer_the_fetched_ones() {
    let fetched = vec![("id".to_string(), "bigint".to_string())];
    let created = Some(vec![("id".to_string(), "BIGINT".to_string())]);
    assert_eq!(target_column_types(fetched.clone(), created.clone()), fetched);
    assert_eq!(target_column_types(vec![], created.clone()), created.unwrap());
    assert!(target_column_types(vec![], None).is_empty());
}

#[test]
fn streaming_uses_detected_encoding_for_auto() {
    assert_eq!(streaming_encoding(Some(TableImportTextEncoding::Auto), Some(TableImportTextEncoding::Gbk)), Some(TableImportTextEncoding::Gbk));
    assert_eq!(streaming_encoding(None, Some(TableImportTextEncoding::Utf16Le)), Some(TableImportTextEncoding::Utf16Le));
    assert_eq!(streaming_encoding(Some(TableImportTextEncoding::Utf8), Some(TableImportTextEncoding::Gbk)), Some(TableImportTextEncoding::Utf8));
}

#[test]
fn header_steps_through_title_skip_and_data() {
    let range = ImportRowRange { title_row: Some(2), data_start_row: 4, last_data_row: Some(5) };
    match header_step(&range, 2, &strings(&["id", "name"]), &vec![]) {
        HeaderStep::Title(columns) => assert_eq!(columns, strings(&["id", "name"])),
        _ => panic!("expected the title row"),
    }
    assert!(matches!(header_step(&range, 3, &strings(&["x"]), &strings(&["id"])), HeaderStep::Skip));
    match header_step(&range, 4, &strings(&["1", "Ada"]), &strings(&["id", "name"])) {
        HeaderStep::Data(columns) => assert_eq!(columns, strings(&["id", "name"])),
        _ => panic!("expected data"),
    }
    assert!(matches!(header_step(&range, 6, &strings(&["1"]), &strings(&["id"])), HeaderStep::Stop));
    let untitled = ImportRowRange { title_row: None, data_start_row: 1, last_data_row: None };
    match header_step(&untitled, 1, &strings(&["1", "Ada"]), &vec![]) {
        HeaderStep::Data(columns) => assert_eq!(columns, strings(&["column_1", "column_2"])),
        _ => panic!("expected generated columns"),
    }
    assert!(matches!(header_step(&untitled, 1, &vec![], &vec![]), HeaderStep::NoColumns));
    assert!(past_last_data_row(&range, 6));
    assert!(!past_last_data_row(&untitled, 1_000_000));
}

#[test]
fn progress_never_passes_the_total() {
    let mut state = ImportProgressState::start(&"job".to_string(), 5);
    assert_eq!(state.running().status, TableImportStatus::Running);
    let event = state.record_batch(3);
    assert_eq!(event.rows_imported, 3);
    let event = state.record_batch(3);
    assert_eq!(event.rows_imported, 5);
    assert_eq!(event.total_rows, 5);
    let (message, cancelled) = state.cancelled();
    assert_eq!(message, "Import cancelled");
    assert_eq!(cancelled.status, TableImportStatus::Cancelled);
    let (summary, done) = state.done();
    assert_eq!(summary.rows_imported, 5);
    assert_eq!(done.status, TableImportStatus::Done);
}

fn run(last_data_row: Option<usize>, batch_size: usize) -> ImportRun {
    ImportRun::new(&"imp".to_string(), &"users".to_string(), 3, last_data_row, batch_size)
}

#[test]
fn import_steps_write_full_batches_then_the_rest() {
    let s = run(None, 2);
    let (s, a) = import_step(&s, ImportEvent::FirstRecord);
    assert!(matches!(a, ImportAction::ReadNext));
    let (s, a) = import_step(&s, ImportEvent::Record { row_number: 3, cancelled: false });
    assert!(matches!(a, ImportAction::WriteBatch));
    assert_eq!(s.phase, ImportPhase::Writing);
    let (s, a) = import_step(&s, ImportEvent::BatchWritten { row_count: 2 });
    match a {
        ImportAction::Report(p) => {
            assert_eq!(p.status, TableImportStatus::Running);
            assert_eq!((p.rows_imported, p.total_rows), (2, 3));
        }
        _ => panic!("expected a progress report"),
    }
    let (s, a) = import_step(&s, ImportEvent::Record { row_number: 4, cancelled: false });
    assert!(matches!(a, ImportAction::ReadNext));
    let (s, a) = import_step(&s, ImportEvent::EndOfRecords { cancelled: false });
    assert!(matches!(a, ImportAction::WriteBatch));
    assert_eq!(s.phase, ImportPhase::Closing);
    let (s, a) = import_step(&s, ImportEvent::BatchWritten { row_count: 5 });
    match a {
        ImportAction::Done(summary, p) => {
            assert_eq!((summary.rows_imported, summary.total_rows), (3, 3));
            assert_eq!(p.status, TableImportStatus::Done);
        }
        _ => panic!("expected the end"),
    }
    let (s, a) = import_step(&s, ImportEvent::Record { row_number: 5, cancelled: false });
    assert!(matches!(a, ImportAction::Ignore));
    assert_eq!(s.phase, ImportPhase::Finished);
    assert_eq!(s.progress.rows_imported, 3);
}

#[test]
fn import_steps_stop_past_the_last_row_on_cancel_and_on_failure() {
    let s = run(Some(2), 10);
    let (s, _) = import_step(&s, ImportEvent::FirstRecord);
    let (s, a) = import_step(&s, ImportEvent::Record { row_number: 3, cancelled: false });
    assert!(matches!(a, ImportAction::WriteBatch));
    assert_eq!((s.phase, s.pending), (ImportPhase::Closing, 1));
    let (_, a) = import_step(&s, ImportEvent::BatchEmpty);
    assert!(matches!(a, ImportAction::Done(_, _)));

    let s = run(None, 10);
    let (s, _) = import_step(&s, ImportEvent::FirstRecord);
    let (_, a) = import_step(&s, ImportEvent::Record { row_number: 3, cancelled: true });
    match a {
        ImportAction::Cancelled(message, p) => {
            assert_eq!(message, "Import cancelled");
            assert_eq!(p.status, TableImportStatus::Cancelled);
        }
        _ => panic!("expected a cancellation"),
    }
    let (_, a) = import_step(&run(None, 10), ImportEvent::EndOfRecords { cancelled: true });
    assert!(matches!(a, ImportAction::Done(_, _)));

    let (_, a) = import_step(&s, ImportEvent::Failed { error: "disk full".to_string() });
    match a {
        ImportAction::Failed(message, p) => {
            assert_eq!(message, "Import into table 'users' failed after 0 imported rows: disk full");
            assert_eq!(p.error, Some(message.clone()));
            assert_eq!(p.status, TableImportStatus::Error);
        }
        _ => panic!("expected a failure"),
    }
}

use std::sync::Arc;

use oracle_thin::cursor::{merge_define_reply, classify_execute, cursor_from_execute, Cursor, CursorStep, ExecuteOutcome};
use oracle_thin::error::Error;
use oracle_thin::response::{ErrorInfo, ExecuteResponse, FetchResponse};
use oracle_thin::types::{ColumnInfo, ColumnMetadata, OracleValue, Row};

fn make_test_column_info() -> Arc<ColumnInfo> {
    Arc::new(ColumnInfo::from_metadata(&[ColumnMetadata::new("ID".to_string(), 2)]).unwrap())
}

fn make_test_row(id: i32, column_info: Arc<ColumnInfo>) -> Row {
    Row::new(vec![OracleValue::Number(id.to_string())], column_info)
}

fn make_test_columns() -> Vec<ColumnMetadata> {
    vec![ColumnMetadata::new("ID".to_string(), 2)]
}

#[test]
fn test_cursor_creation() {
    let col_info = make_test_column_info();
    let rows = vec![make_test_row(1, col_info.clone()), make_test_row(2, col_info)];
    let cursor = Cursor::new(make_test_columns(), 42, rows, true, 100);
    assert_eq!(cursor.cursor_id(), 42);
    assert_eq!(cursor.buffered_count(), 2);
    assert_eq!(cursor.fetch_size(), 100);
    assert!(cursor.has_more());
    assert!(!cursor.is_exhausted());
}

#[test]
fn test_take_buffered() {
    let col_info = make_test_column_info();
    let rows = vec![make_test_row(1, col_info.clone()), make_test_row(2, col_info)];
    let mut cursor = Cursor::new(make_test_columns(), 42, rows, false, 100);
    assert_eq!(cursor.buffered_count(), 2);
    let row1 = cursor.take_buffered().unwrap();
    assert_eq!(row1.get(0).unwrap().to_i64(), Some(1));
    assert_eq!(cursor.buffered_count(), 1);
    let row2 = cursor.take_buffered().unwrap();
    assert_eq!(row2.get(0).unwrap().to_i64(), Some(2));
    assert_eq!(cursor.buffered_count(), 0);
    assert!(cursor.take_buffered().is_none());
    assert!(cursor.is_exhausted());
}

#[test]
fn test_drain_buffer() {
    let col_info = make_test_column_info();
    let rows = vec![
        make_test_row(1, col_info.clone()),
        make_test_row(2, col_info.clone()),
        make_test_row(3, col_info),
    ];
    let mut cursor = Cursor::new(make_test_columns(), 42, rows, false, 100);
    cursor.take_buffered();
    assert_eq!(cursor.buffered_count(), 2);
    let drained: Vec<_> = cursor.drain_buffer();
    assert_eq!(drained.len(), 2);
    assert_eq!(cursor.buffered_count(), 0);
}

#[test]
fn test_add_rows_reuses_buffer() {
    let col_info = make_test_column_info();
    let rows = vec![make_test_row(1, col_info.clone())];
    let mut cursor = Cursor::new(make_test_columns(), 42, rows, true, 100);
    cursor.take_buffered();
    assert_eq!(cursor.buffered_count(), 0);
    cursor.add_rows(vec![make_test_row(2, col_info.clone()), make_test_row(3, col_info)], false);
    assert_eq!(cursor.buffered_count(), 2);
    assert_eq!(cursor.rows_fetched(), 3);
    assert!(!cursor.more_rows());
}

#[test]
fn test_needs_fetch() {
    let col_info = make_test_column_info();
    let rows = vec![make_test_row(1, col_info)];
    let mut cursor = Cursor::new(make_test_columns(), 42, rows, true, 100);
    assert!(!cursor.needs_fetch());
    cursor.take_buffered();
    assert!(cursor.needs_fetch());
    cursor.set_no_more_rows();
    assert!(!cursor.needs_fetch());
}

fn batch(from: i32, to: i32, info: &Arc<ColumnInfo>) -> Vec<Row> {
    (from..=to).map(|i| make_test_row(i, info.clone())).collect()
}

fn info_with(error_num: u32, cursor_id: u16) -> ErrorInfo {
    ErrorInfo { error_num, cursor_id, row_count: 0, message: None }
}

#[test]
fn multi_batch_iteration_issues_five_fetches() {
    let info = make_test_column_info();
    let execute = ExecuteResponse {
        columns: make_test_columns(),
        rows: batch(1, 5, &info),
        error_info: info_with(0, 7),
        more_rows: true,
    };
    assert!(matches!(classify_execute(&execute), Ok(ExecuteOutcome::Rows)));
    let mut cursor = cursor_from_execute(execute, 5).unwrap();
    let mut seen = Vec::new();
    let mut fetches = 0;
    loop {
        match cursor.next_step() {
            CursorStep::Row(r) => seen.push(r.get(0).unwrap().to_i64().unwrap()),
            CursorStep::Fetch(msg) => {
                assert_eq!(msg.cursor_id, 7);
                assert_eq!(msg.fetch_size, 5);
                fetches += 1;
                let reply = if fetches <= 4 {
                    let start = (fetches * 5 + 1) as i32;
                    FetchResponse { rows: batch(start, start + 4, &info), error_info: info_with(0, 7), more_rows: true }
                } else {
                    FetchResponse { rows: vec![], error_info: info_with(1403, 7), more_rows: false }
                };
                cursor.on_fetch_response(reply).unwrap();
            }
            CursorStep::Done => break,
        }
    }
    assert_eq!(seen, (1..=25).collect::<Vec<i64>>());
    assert_eq!(fetches, 5);
    assert_eq!(cursor.rows_fetched(), 25);
    assert_eq!(cursor.cursor_id(), 0);
}

#[test]
fn single_round_trip_closes_the_cursor() {
    let info = make_test_column_info();
    let execute = ExecuteResponse {
        columns: make_test_columns(),
        rows: batch(1, 1, &info),
        error_info: info_with(0, 3),
        more_rows: false,
    };
    let mut cursor = cursor_from_execute(execute, 100).unwrap();
    assert!(matches!(cursor.next_step(), CursorStep::Row(_)));
    assert!(matches!(cursor.next_step(), CursorStep::Done));
    assert_eq!(cursor.cursor_id(), 0);
}

#[test]
fn empty_reply_with_more_rows_needs_define() {
    let execute = ExecuteResponse {
        columns: make_test_columns(),
        rows: vec![],
        error_info: info_with(0, 3),
        more_rows: true,
    };
    assert!(matches!(classify_execute(&execute), Ok(ExecuteOutcome::NeedsDefine)));
    let done = ExecuteResponse { columns: vec![], rows: vec![], error_info: info_with(1403, 3), more_rows: false };
    assert!(matches!(classify_execute(&done), Ok(ExecuteOutcome::Complete)));
}

#[test]
fn server_error_fails_the_statement() {
    let execute = ExecuteResponse {
        columns: vec![],
        rows: vec![],
        error_info: ErrorInfo {
            error_num: 942,
            cursor_id: 0,
            row_count: 0,
            message: Some("ORA-00942: table or view does not exist".to_string()),
        },
        more_rows: false,
    };
    assert!(matches!(classify_execute(&execute), Err(942)));
    match cursor_from_execute(execute, 10) {
        Err(Error::Oracle { code, message }) => {
            assert_eq!(code, 942);
            assert!(message.contains("does not exist"));
        }
        _ => panic!("expected an Oracle error"),
    }
    let info = make_test_column_info();
    let mut cursor = Cursor::new(make_test_columns(), 9, batch(1, 1, &info), true, 10);
    let bad = FetchResponse { rows: vec![], error_info: info_with(1013, 9), more_rows: false };
    assert!(matches!(cursor.on_fetch_response(bad), Err(Error::Oracle { code: 1013, .. })));
}

#[test]
fn define_reply_keeps_the_cursor_id() {
    let info = make_test_column_info();
    let first = ExecuteResponse { columns: make_test_columns(), rows: vec![], error_info: info_with(0, 9), more_rows: true };
    let define = FetchResponse { rows: batch(1, 2, &info), error_info: info_with(0, 0), more_rows: true };
    let merged = merge_define_reply(first, define);
    assert_eq!(merged.error_info.cursor_id, 9);
    assert_eq!(merged.rows.len(), 2);
    assert_eq!(merged.columns.len(), 1);
    assert!(merged.more_rows);
}

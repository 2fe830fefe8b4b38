use std::sync::Arc;

use oracle_thin::buffer::ReadBuffer;
use oracle_thin::constants::{ORA_TYPE_NUM_BLOB, ORA_TYPE_NUM_CLOB, ORA_TYPE_NUM_NUMBER, ORA_TYPE_NUM_VARCHAR};
use oracle_thin::error::Error;
use oracle_thin::response::{parse_column_value, parse_execute_response, parse_fetch_response, parse_row_data};
use oracle_thin::types::{ColumnInfo, ColumnMetadata, OracleValue};

fn encode_ub4(val: u32) -> Vec<u8> {
    if val == 0 {
        return vec![0];
    }
    let bytes = val.to_be_bytes();
    let start = bytes.iter().position(|&b| b != 0).unwrap_or(3);
    let mut result = vec![(4 - start) as u8];
    result.extend_from_slice(&bytes[start..]);
    result
}

fn encode_ub8(val: u64) -> Vec<u8> {
    if val == 0 {
        return vec![0];
    }
    let bytes = val.to_be_bytes();
    let start = bytes.iter().position(|&b| b != 0).unwrap_or(7);
    let mut result = vec![(8 - start) as u8];
    result.extend_from_slice(&bytes[start..]);
    result
}

fn build_lob_wire_data(size: u64, chunk_size: u32, locator: &[u8], prefetch_data: Option<&[u8]>) -> Vec<u8> {
    let mut data = Vec::new();
    data.extend_from_slice(&encode_ub4(1));
    data.extend_from_slice(&encode_ub8(size));
    data.extend_from_slice(&encode_ub4(chunk_size));
    if let Some(pdata) = prefetch_data {
        data.push(pdata.len() as u8);
        data.extend_from_slice(pdata);
    }
    data.push(locator.len() as u8);
    data.extend_from_slice(locator);
    data
}

#[test]
fn test_read_lob_with_length_null() {
    let mut buf = ReadBuffer::new(vec![0u8]);
    let result = buf.read_lob_with_length(false, false, false).unwrap();
    assert!(result.is_none());
}

#[test]
fn test_read_lob_with_length_with_prefetch() {
    let locator = vec![1, 2, 3, 4, 5, 6, 7, 8];
    let prefetch_data = b"Hello, LOB!";
    let data = build_lob_wire_data(11, 8192, &locator, Some(prefetch_data));
    let mut buf = ReadBuffer::new(data);
    let result = buf.read_lob_with_length(false, true, false).unwrap();
    assert!(result.is_some());
    let lob = result.unwrap();
    assert!(lob.has_data());
    assert_eq!(lob.locator.size, 11);
    assert_eq!(lob.locator.chunk_size, 8192);
    assert_eq!(lob.locator.locator, locator);
    assert_eq!(lob.as_bytes(), Some(&prefetch_data[..]));
}

#[test]
fn test_read_lob_with_length_locator_only() {
    let locator = vec![10, 20, 30, 40];
    let data = build_lob_wire_data(1000000, 8192, &locator, None);
    let mut buf = ReadBuffer::new(data);
    let result = buf.read_lob_with_length(false, false, false).unwrap();
    assert!(result.is_some());
    let lob = result.unwrap();
    assert!(!lob.has_data());
    assert_eq!(lob.locator.size, 1000000);
    assert_eq!(lob.locator.chunk_size, 8192);
    assert_eq!(lob.locator.locator, locator);
    assert!(lob.locator.has_metadata);
}

#[test]
fn test_read_lob_with_length_bfile() {
    let locator = vec![1, 2, 3, 4];
    let mut data = Vec::new();
    data.extend_from_slice(&encode_ub4(1));
    data.push(locator.len() as u8);
    data.extend_from_slice(&locator);
    let mut buf = ReadBuffer::new(data);
    let result = buf.read_lob_with_length(true, false, false).unwrap();
    assert!(result.is_some());
    let lob = result.unwrap();
    assert_eq!(lob.locator.size, 0);
    assert_eq!(lob.locator.chunk_size, 0);
    assert!(!lob.locator.has_metadata);
    assert!(!lob.has_data());
}

#[test]
fn clob_prefetch_is_utf16() {
    let text: Vec<u8> = "Hello, LOB!".encode_utf16().flat_map(|u| u.to_be_bytes()).collect();
    let mut data = Vec::new();
    data.extend_from_slice(&encode_ub4(1));
    data.extend_from_slice(&encode_ub8(11));
    data.extend_from_slice(&encode_ub4(8192));
    data.extend_from_slice(&[1, 2, 0x07, 0xD0, 1]);
    data.push(text.len() as u8);
    data.extend_from_slice(&text);
    data.push(8);
    data.extend_from_slice(&[1, 2, 3, 4, 5, 6, 7, 8]);
    let col = ColumnMetadata::new("C".to_string(), ORA_TYPE_NUM_CLOB as u8);
    let mut buf = ReadBuffer::new(data);
    match parse_column_value(&mut buf, &col, true).unwrap() {
        OracleValue::Clob(lob) => {
            assert!(lob.has_data());
            assert_eq!(lob.locator.size, 11);
            assert_eq!(lob.as_string(), Some("Hello, LOB!".to_string()));
        }
        other => panic!("expected a CLOB, got {:?}", other),
    }
}

#[test]
fn null_columns_decode_as_null() {
    let cols = vec![
        ColumnMetadata::new("A".to_string(), ORA_TYPE_NUM_VARCHAR as u8),
        ColumnMetadata::new("B".to_string(), ORA_TYPE_NUM_NUMBER as u8),
        ColumnMetadata::new("C".to_string(), ORA_TYPE_NUM_VARCHAR as u8),
        ColumnMetadata::new("D".to_string(), ORA_TYPE_NUM_BLOB as u8),
    ];
    let info = Arc::new(ColumnInfo::from_metadata(&cols[..3]).unwrap());
    let mut data = vec![0, 0xFF, 4];
    data.extend_from_slice(b"text");
    data.push(0);
    let mut buf = ReadBuffer::new(data);
    let mut rows = Vec::new();
    parse_row_data(&mut buf, &cols, info, false, &mut rows).unwrap();
    let values = rows[0].values();
    assert_eq!(values[0], OracleValue::Null);
    assert_eq!(values[1], OracleValue::Null);
    assert_eq!(values[2], OracleValue::String("text".to_string()));
    assert_eq!(values[3], OracleValue::Null);
}

fn error_message(error_num: u32, cursor_id: u8, message: Option<&str>) -> Vec<u8> {
    let mut m = vec![4];
    m.extend_from_slice(&[0, 0, 0, 0, 0, 0]);
    m.extend_from_slice(&[1, cursor_id]);
    m.extend_from_slice(&[0; 21]);
    m.extend_from_slice(&encode_ub4(error_num));
    m.push(0);
    if let Some(text) = message {
        m.push(text.len() as u8);
        m.extend_from_slice(text.as_bytes());
    }
    m
}

#[test]
fn execute_response_with_one_row() {
    let mut data = vec![16, 0];
    data.extend_from_slice(&[1, 10, 1, 1, 0]);
    data.extend_from_slice(&[1, 0, 0, 0]);
    data.extend_from_slice(&[1, 10, 0, 0, 0xFF, 0, 0, 0, 0, 1, 10]);
    data.extend_from_slice(&[1, 0]);
    data.extend_from_slice(&[1, 7, 7]);
    data.extend_from_slice(b"'HELLO'");
    data.extend_from_slice(&[0, 0, 0, 0]);
    data.extend_from_slice(&[0, 0, 0, 0, 0, 0]);
    data.extend_from_slice(&[7, 5]);
    data.extend_from_slice(b"hello");
    data.extend_from_slice(&error_message(0, 5, None));
    data.push(29);
    let mut buf = ReadBuffer::new(data);
    let resp = parse_execute_response(&mut buf, 12, 12, false).unwrap();
    assert_eq!(resp.columns.len(), 1);
    assert_eq!(resp.columns[0].name, "'HELLO'");
    assert_eq!(resp.rows.len(), 1);
    assert_eq!(resp.rows[0].values()[0], OracleValue::String("hello".to_string()));
    assert_eq!(resp.error_info.cursor_id, 5);
    assert!(resp.more_rows);
}

#[test]
fn fetch_response_end_of_data_and_errors() {
    let cols = vec![ColumnMetadata::new("ID".to_string(), ORA_TYPE_NUM_NUMBER as u8)];
    let mut data = vec![7, 2, 0xC1, 0x02];
    data.extend_from_slice(&error_message(1403, 5, Some("ORA-01403: no data found")));
    let mut buf = ReadBuffer::new(data);
    let resp = parse_fetch_response(&mut buf, &cols, 12, false).unwrap();
    assert_eq!(resp.rows.len(), 1);
    assert_eq!(resp.rows[0].values()[0], OracleValue::Number("1".to_string()));
    assert_eq!(resp.error_info.error_num, 1403);
    assert!(!resp.more_rows);
    let mut bad = ReadBuffer::new(vec![99]);
    assert!(matches!(parse_fetch_response(&mut bad, &cols, 12, false), Err(Error::Protocol(_))));
    let mut early_row = ReadBuffer::new(vec![7, 0]);
    assert!(parse_execute_response(&mut early_row, 12, 12, false).is_err());
}

#[test]
fn unknown_message_after_others_is_a_protocol_error() {
    let mut buf = ReadBuffer::new(vec![9, 0, 0, 99]);
    assert!(matches!(parse_execute_response(&mut buf, 12, 12, false), Err(Error::Protocol(_))));
    let mut early_row = ReadBuffer::new(vec![9, 0, 0, 7, 0]);
    assert!(matches!(parse_execute_response(&mut early_row, 12, 12, false), Err(Error::Protocol(_))));
}

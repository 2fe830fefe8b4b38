use std::sync::Arc;

use oracle_thin::constants::{
    ORA_TYPE_NUM_BLOB, ORA_TYPE_NUM_CLOB, ORA_TYPE_NUM_JSON, ORA_TYPE_NUM_NUMBER,
    ORA_TYPE_NUM_ROWID, ORA_TYPE_NUM_VARCHAR, ORA_TYPE_NUM_VECTOR, TNS_CHARSET_UTF8,
    TNS_DEFAULT_LOB_PREFETCH_SIZE, TNS_JSON_MAX_LENGTH, TNS_VECTOR_MAX_LENGTH,
};
use oracle_thin::error::Error;
use oracle_thin::types::{
    build_fetch_vars_from_metadata, Column, ColumnInfo, ColumnMetadata, FetchVarImpl, LobLocator,
    LobValue, OracleType, OracleValue, Row, TNS_LOB_LOC_FLAGS_BLOB, TNS_LOB_LOC_FLAGS_TEMP,
    TNS_LOB_LOC_OFFSET_FLAG_1, TNS_LOB_LOC_OFFSET_FLAG_4,
};

fn make_test_metadata() -> Vec<ColumnMetadata> {
    vec![
        ColumnMetadata {
            name: "ID".to_string(),
            oracle_type: 2,
            precision: 10,
            scale: 0,
            max_size: 22,
            buffer_size: 22,
            nullable: false,
        },
        ColumnMetadata {
            name: "NAME".to_string(),
            oracle_type: 1,
            precision: 0,
            scale: 0,
            max_size: 100,
            buffer_size: 100,
            nullable: true,
        },
    ]
}

#[test]
fn test_column_from_metadata() {
    let meta = &make_test_metadata()[0];
    let col = Column::from_metadata(meta).unwrap();
    assert_eq!(col.name, "ID");
    assert!(!col.nullable);
    assert_eq!(col.oracle_type_num, 2);
    if let OracleType::Number { precision, scale } = col.data_type {
        assert_eq!(precision, 10);
        assert_eq!(scale, 0);
    } else {
        panic!("Expected Number type");
    }
}

#[test]
fn test_column_info_from_metadata() {
    let metadata = make_test_metadata();
    let info = ColumnInfo::from_metadata(&metadata).unwrap();
    assert_eq!(info.len(), 2);
    assert_eq!(info.column_names(), vec!["ID", "NAME"]);
    assert_eq!(info.find_by_name("name"), Some(1));
    assert_eq!(info.find_by_name("UNKNOWN"), None);
}

#[test]
fn test_regular_column() {
    let var = FetchVarImpl::new(ORA_TYPE_NUM_VARCHAR as u8, 100, 1);
    assert_eq!(var.ora_type_num, ORA_TYPE_NUM_VARCHAR as u8);
    assert_eq!(var.buffer_size, 100);
    assert_eq!(var.charset_id, TNS_CHARSET_UTF8);
    assert_eq!(var.charset_form, 1);
    assert_eq!(var.cont_flag, 0);
    assert!(!var.is_lob());
    assert!(!var.has_lob_prefetch());
}

#[test]
fn test_clob_column() {
    let var = FetchVarImpl::new_lob(ORA_TYPE_NUM_CLOB as u8, 4000, TNS_DEFAULT_LOB_PREFETCH_SIZE);
    assert_eq!(var.ora_type_num, ORA_TYPE_NUM_CLOB as u8);
    assert_eq!(var.charset_id, TNS_CHARSET_UTF8);
    assert_eq!(var.charset_form, 1);
    assert_eq!(var.lob_prefetch_length, TNS_DEFAULT_LOB_PREFETCH_SIZE);
    assert!(var.is_lob());
    assert!(var.has_lob_prefetch());
}

#[test]
fn test_blob_column() {
    let var = FetchVarImpl::new_lob(ORA_TYPE_NUM_BLOB as u8, 4000, TNS_DEFAULT_LOB_PREFETCH_SIZE);
    assert_eq!(var.ora_type_num, ORA_TYPE_NUM_BLOB as u8);
    assert_eq!(var.charset_id, 0);
    assert_eq!(var.charset_form, 0);
    assert!(var.is_lob());
    assert!(var.has_lob_prefetch());
}

#[test]
fn test_json_column() {
    let var = FetchVarImpl::new_json();
    assert_eq!(var.ora_type_num, ORA_TYPE_NUM_JSON as u8);
    assert_eq!(var.buffer_size, TNS_JSON_MAX_LENGTH);
    assert_eq!(var.lob_prefetch_length, TNS_JSON_MAX_LENGTH);
    assert!(var.has_lob_prefetch());
}

#[test]
fn test_vector_column() {
    let var = FetchVarImpl::new_vector();
    assert_eq!(var.ora_type_num, ORA_TYPE_NUM_VECTOR as u8);
    assert_eq!(var.buffer_size, TNS_VECTOR_MAX_LENGTH);
    assert_eq!(var.lob_prefetch_length, TNS_VECTOR_MAX_LENGTH);
    assert!(var.has_lob_prefetch());
}

#[test]
fn defines_follow_the_described_types() {
    let cols = vec![
        ColumnMetadata { buffer_size: 50, ..ColumnMetadata::new("A".to_string(), ORA_TYPE_NUM_CLOB as u8) },
        ColumnMetadata::new("B".to_string(), ORA_TYPE_NUM_ROWID as u8),
        ColumnMetadata { buffer_size: 22, ..ColumnMetadata::new("C".to_string(), ORA_TYPE_NUM_NUMBER as u8) },
        ColumnMetadata { buffer_size: 30, ..ColumnMetadata::new("D".to_string(), ORA_TYPE_NUM_VARCHAR as u8) },
    ];
    let vars = build_fetch_vars_from_metadata(&cols, 4000);
    assert_eq!(vars.len(), 4);
    assert_eq!(vars[0], FetchVarImpl::new_lob(ORA_TYPE_NUM_CLOB as u8, 4000, 4000));
    assert_eq!(vars[0].lob_prefetch_length, 4000);
    assert_eq!(vars[1].ora_type_num, ORA_TYPE_NUM_VARCHAR as u8);
    assert_eq!(vars[1].buffer_size, 5267);
    assert_eq!(vars[2], FetchVarImpl::new(ORA_TYPE_NUM_NUMBER as u8, 22, 0));
    assert_eq!(vars[3], FetchVarImpl::new(ORA_TYPE_NUM_VARCHAR as u8, 30, 1));
}

#[test]
fn test_lob_locator_new() {
    let locator = LobLocator::new(vec![1, 2, 3, 4], 100, 8192, true);
    assert_eq!(locator.size, 100);
    assert_eq!(locator.chunk_size, 8192);
    assert!(locator.has_metadata);
}

#[test]
fn test_lob_locator_empty() {
    let locator = LobLocator::empty();
    assert_eq!(locator.locator.len(), 40);
    assert_eq!(locator.size, 0);
    assert!(!locator.has_metadata);
}

#[test]
fn test_lob_value_locator_only() {
    let locator = LobLocator::new(vec![1, 2, 3, 4], 1000000, 8192, true);
    let value = LobValue::locator_only(locator);
    assert!(!value.has_data());
    assert_eq!(value.as_string(), None);
    assert_eq!(value.size(), 1000000);
}

#[test]
fn lob_value_decodes_utf16() {
    let locator = LobLocator::new(vec![1, 2, 3, 4], 5, 8192, true);
    let value = LobValue::with_data(locator, vec![0, b'h', 0, b'i', 0x20, 0xAC]);
    assert!(value.has_data());
    assert_eq!(value.as_string(), Some("hi\u{20AC}".to_string()));
    assert_eq!(value.as_bytes(), Some(&[0, b'h', 0, b'i', 0x20, 0xAC][..]));
    assert_eq!(value.size(), 5);
}

#[test]
fn test_lob_locator_flags() {
    let mut locator_bytes = vec![0u8; 10];
    locator_bytes[TNS_LOB_LOC_OFFSET_FLAG_1] = TNS_LOB_LOC_FLAGS_BLOB;
    locator_bytes[TNS_LOB_LOC_OFFSET_FLAG_4] = TNS_LOB_LOC_FLAGS_TEMP;
    let locator = LobLocator::new(locator_bytes, 100, 8192, true);
    assert!(locator.is_blob());
    assert!(locator.is_temp());
    assert!(!locator.is_abstract());
}

#[test]
fn test_from_raw_varchar2() {
    let t = OracleType::from_raw(ORA_TYPE_NUM_VARCHAR as u8, 0, 0, 100);
    assert_eq!(t.unwrap(), OracleType::Varchar2 { max_size: 100 });
}

#[test]
fn test_from_raw_number() {
    let t = OracleType::from_raw(ORA_TYPE_NUM_NUMBER as u8, 10, 2, 0);
    assert_eq!(t.unwrap(), OracleType::Number { precision: 10, scale: 2 });
}

#[test]
fn test_from_raw_unsupported() {
    let t = OracleType::from_raw(255, 0, 0, 0);
    assert!(t.is_err());
    match t {
        Err(Error::UnsupportedType { type_num }) => assert_eq!(type_num, 255),
        _ => panic!("Expected UnsupportedType error"),
    }
}

#[test]
fn test_type_num() {
    assert_eq!(OracleType::Varchar2 { max_size: 10 }.type_num(), ORA_TYPE_NUM_VARCHAR as u8);
    assert_eq!(OracleType::Number { precision: 5, scale: 2 }.type_num(), ORA_TYPE_NUM_NUMBER as u8);
}

#[test]
fn test_display() {
    assert_eq!(OracleType::Varchar2 { max_size: 50 }.to_string(), "VARCHAR2(50)");
    assert_eq!(OracleType::Number { precision: 10, scale: 2 }.to_string(), "NUMBER(10,2)");
    assert_eq!(OracleType::Number { precision: 0, scale: 0 }.to_string(), "NUMBER");
}

#[test]
fn type_names_with_negative_scale() {
    assert_eq!(OracleType::Number { precision: 5, scale: -2 }.to_string(), "NUMBER(5,-2)");
    assert_eq!(OracleType::Number { precision: 5, scale: 0 }.to_string(), "NUMBER(5)");
    assert_eq!(OracleType::Char { max_size: 1 }.to_string(), "CHAR(1)");
}

fn make_row_column_info() -> Arc<ColumnInfo> {
    Arc::new(ColumnInfo::new(vec![
        Column {
            name: "NAME".to_string(),
            nullable: true,
            data_type: OracleType::Varchar2 { max_size: 100 },
            oracle_type_num: 1,
        },
        Column {
            name: "VALUE".to_string(),
            nullable: false,
            data_type: OracleType::Number { precision: 10, scale: 0 },
            oracle_type_num: 2,
        },
    ]))
}

#[test]
fn test_row_access() {
    let row = Row::new(
        vec![OracleValue::String("test".to_string()), OracleValue::Number("42".to_string())],
        make_row_column_info(),
    );
    assert_eq!(row.len(), 2);
    assert_eq!(row.get(0), Some(&OracleValue::String("test".to_string())));
    assert_eq!(row.get_by_name("value"), Some(&OracleValue::Number("42".to_string())));
    assert_eq!(row.get_by_name("VALUE"), row.get_by_name("value"));
}

#[test]
fn test_row_columns() {
    let row = Row::new(
        vec![OracleValue::String("test".to_string()), OracleValue::Number("42".to_string())],
        make_row_column_info(),
    );
    let columns = row.columns();
    assert_eq!(columns.len(), 2);
    assert_eq!(columns[0].name, "NAME");
    assert_eq!(columns[1].name, "VALUE");
}

#[test]
fn value_accessors() {
    let val = OracleValue::Null;
    assert!(val.is_null());
    assert_eq!(val.as_str(), None);
    let val = OracleValue::Number("123.45".to_string());
    assert_eq!(val.as_str(), Some("123.45"));
    assert_eq!(val.to_i64(), None);
    assert_eq!(OracleValue::Number("42".to_string()).to_i64(), Some(42));
    assert_eq!(OracleValue::Number("-9223372036854775808".to_string()).to_i64(), Some(i64::MIN));
    assert_eq!(OracleValue::Number("9223372036854775808".to_string()).to_i64(), None);
}

#[test]
fn test_oracle_value_null() {
    let val = OracleValue::Null;
    assert!(val.is_null());
    assert_eq!(val.as_str(), None);
    assert_eq!(val.to_string(), "NULL");
}

#[test]
fn test_oracle_value_string() {
    let val = OracleValue::String("hello".to_string());
    assert!(!val.is_null());
    assert_eq!(val.as_str(), Some("hello"));
    assert_eq!(val.to_string(), "hello");
}

#[test]
fn test_oracle_value_number() {
    let val = OracleValue::Number("123.45".to_string());
    assert!(!val.is_null());
    assert_eq!(val.as_str(), Some("123.45"));
    assert_eq!(val.to_i64(), None);
    assert_eq!(val.as_str().and_then(|s| s.parse::<f64>().ok()), Some(123.45));
    let int_val = OracleValue::Number("42".to_string());
    assert_eq!(int_val.to_i64(), Some(42));
    assert_eq!(int_val.as_str().and_then(|s| s.parse::<f64>().ok()), Some(42.0));
}

#[test]
fn value_text_of_dates_and_lobs() {
    let d = oracle_thin::date::decode_oracle_date(&[0x78, 0x7C, 0x0A, 0x15, 0x0D, 0x25, 0x06]).unwrap();
    assert_eq!(OracleValue::Date(d).to_string(), "2024-10-21 12:36:05");
    let early = oracle_thin::date::OracleDate { year: 5, month: 1, day: 2, hour: 3, minute: 4, second: 5 };
    assert_eq!(OracleValue::Date(early).to_string(), "0005-01-02 03:04:05");
    let lob = LobValue::locator_only(LobLocator::new(vec![1], 77, 0, true));
    assert_eq!(OracleValue::Clob(lob.clone()).to_string(), "<CLOB: 77 bytes>");
    assert_eq!(OracleValue::Blob(lob).to_string(), "<BLOB: 77 bytes>");
    assert_eq!(OracleValue::Raw(vec![1, 2, 3]).to_string(), "<RAW: 3 bytes>");
}

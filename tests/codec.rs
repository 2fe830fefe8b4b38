use oracle_thin::buffer::ReadBuffer;
use oracle_thin::codec::{
    bytes_with_length_wire_size, key_value_wire_size, ub2_wire_size, ub4_wire_size, ub8_wire_size,
    WriteExt,
};
use oracle_thin::constants::TNS_PACKET_TYPE_DATA;
use oracle_thin::messages::write_packet_header;

#[test]
fn test_ub2_wire_size() {
    assert_eq!(ub2_wire_size(0), 1);
    assert_eq!(ub2_wire_size(1), 2);
    assert_eq!(ub2_wire_size(255), 2);
    assert_eq!(ub2_wire_size(256), 3);
    assert_eq!(ub2_wire_size(65535), 3);
}

#[test]
fn test_ub4_wire_size() {
    assert_eq!(ub4_wire_size(0), 1);
    assert_eq!(ub4_wire_size(1), 2);
    assert_eq!(ub4_wire_size(255), 2);
    assert_eq!(ub4_wire_size(256), 3);
    assert_eq!(ub4_wire_size(65535), 3);
    assert_eq!(ub4_wire_size(65536), 4);
    assert_eq!(ub4_wire_size(16777215), 4);
    assert_eq!(ub4_wire_size(16777216), 5);
    assert_eq!(ub4_wire_size(u32::MAX), 5);
}

#[test]
fn test_bytes_with_length_wire_size() {
    assert_eq!(bytes_with_length_wire_size(0), 1);
    assert_eq!(bytes_with_length_wire_size(1), 2);
    assert_eq!(bytes_with_length_wire_size(252), 253);
    assert_eq!(bytes_with_length_wire_size(253), 254);
    assert!(bytes_with_length_wire_size(254) > 255);
}

#[test]
fn test_write_ub2() {
    let mut buf = Vec::new();
    buf.write_ub2(0);
    assert_eq!(buf, vec![0]);
    buf.clear();
    buf.write_ub2(1);
    assert_eq!(buf, vec![1, 1]);
    buf.clear();
    buf.write_ub2(255);
    assert_eq!(buf, vec![1, 255]);
    buf.clear();
    buf.write_ub2(256);
    assert_eq!(buf, vec![2, 1, 0]);
    buf.clear();
    buf.write_ub2(0x1234);
    assert_eq!(buf, vec![2, 0x12, 0x34]);
}

#[test]
fn test_write_ub4() {
    let mut buf = Vec::new();
    buf.write_ub4(0);
    assert_eq!(buf, vec![0]);
    buf.clear();
    buf.write_ub4(1);
    assert_eq!(buf, vec![1, 1]);
    buf.clear();
    buf.write_ub4(0x12345678);
    assert_eq!(buf, vec![4, 0x12, 0x34, 0x56, 0x78]);
    buf.clear();
    buf.write_ub4(0x8061);
    assert_eq!(buf, vec![2, 0x80, 0x61]);
}

#[test]
fn test_write_bytes_with_length() {
    let mut buf = Vec::new();
    buf.write_bytes_with_length(&[]);
    assert_eq!(buf, vec![0]);
    buf.clear();
    buf.write_bytes_with_length(&[1, 2, 3]);
    assert_eq!(buf, vec![3, 1, 2, 3]);
    buf.clear();
    buf.write_bytes_with_length(&[0xAB; 100]);
    assert_eq!(buf.len(), 101);
    assert_eq!(buf[0], 100);
}

#[test]
fn test_wire_size_matches_written() {
    let mut buf = Vec::new();
    for val in [0u32, 1, 255, 256, 65535, 65536, 0xFFFFFF, 0x1000000, u32::MAX] {
        buf.clear();
        buf.write_ub4(val);
        assert_eq!(buf.len(), ub4_wire_size(val), "UB4 wire size mismatch for {}", val);
    }
    for len in [0, 1, 100, 252, 253] {
        buf.clear();
        let data = vec![0u8; len];
        buf.write_bytes_with_length(&data);
        assert_eq!(
            buf.len(),
            bytes_with_length_wire_size(len),
            "bytes_with_length wire size mismatch for len={}",
            len
        );
    }
}

#[test]
fn test_write_key_value() {
    let mut buf = Vec::new();
    buf.write_key_value("KEY", "VALUE", 0);
    let expected_size = key_value_wire_size("KEY", "VALUE", 0);
    assert_eq!(buf.len(), expected_size);
}

#[test]
fn test_packet_header() {
    let mut buf = Vec::new();
    write_packet_header(&mut buf, TNS_PACKET_TYPE_DATA, 0, 100, false);
    assert_eq!(buf.len(), 8);
    assert_eq!(buf[0..2], [0, 100]);
    assert_eq!(buf[4], TNS_PACKET_TYPE_DATA);
    buf.clear();
    write_packet_header(&mut buf, TNS_PACKET_TYPE_DATA, 0, 100, true);
    assert_eq!(buf.len(), 8);
    assert_eq!(buf[0..4], [0, 0, 0, 100]);
    assert_eq!(buf[4], TNS_PACKET_TYPE_DATA);
}

#[test]
fn ub_values_round_trip() {
    for v in [0u32, 1, 255, 256, 65535, 65536, (1 << 24) - 1, 1 << 24, u32::MAX] {
        let mut buf = Vec::new();
        buf.write_ub4(v);
        assert_eq!(buf.len(), ub4_wire_size(v));
        let mut rb = ReadBuffer::new(buf.clone());
        assert_eq!(rb.read_ub4().unwrap(), v);
        assert_eq!(rb.position(), buf.len());
    }
    for v in [0u16, 1, 255, 256, 65535] {
        let mut buf = Vec::new();
        buf.write_ub2(v);
        assert_eq!(buf.len(), ub2_wire_size(v));
        assert_eq!(ReadBuffer::new(buf).read_ub2().unwrap(), v);
    }
    for v in [0u64, 1, 256, 1 << 40, u64::MAX] {
        let mut buf = Vec::new();
        buf.write_ub8(v);
        assert_eq!(buf.len(), ub8_wire_size(v));
        assert_eq!(ReadBuffer::new(buf).read_ub8().unwrap(), v);
    }
}

#[test]
fn bytes_with_length_round_trip() {
    for n in [0usize, 1, 100, 252, 253, 254, 65535, 65536] {
        let data: Vec<u8> = (0..n).map(|i| (i % 251) as u8).collect();
        let mut buf = Vec::new();
        buf.write_bytes_with_length(&data);
        assert_eq!(buf.len(), bytes_with_length_wire_size(n), "size for {}", n);
        let mut rb = ReadBuffer::new(buf.clone());
        assert_eq!(rb.read_bytes_with_length().unwrap(), Some(data));
        assert_eq!(rb.position(), buf.len());
    }
}

#[test]
fn null_reads_back_as_null_not_empty() {
    let mut rb = ReadBuffer::new(vec![0xFF]);
    assert_eq!(rb.read_bytes_with_length().unwrap(), None);
    let mut rb = ReadBuffer::new(vec![0x00]);
    assert_eq!(rb.read_bytes_with_length().unwrap(), Some(vec![]));
}

#[test]
fn long_values_are_chunked() {
    let data = vec![7u8; 70000];
    let mut buf = Vec::new();
    buf.write_bytes_with_length(&data);
    assert_eq!(buf[0], 0xFE);
    assert_eq!(&buf[1..5], &[3, 1, 0, 0]);
    assert_eq!(*buf.last().unwrap(), 0);
}

#[test]
fn malformed_lengths_are_rejected() {
    assert!(ReadBuffer::new(vec![5, 1, 2, 3, 4, 5]).read_ub4().is_err());
    assert!(ReadBuffer::new(vec![3, 1, 2, 3]).read_ub2().is_err());
    assert!(ReadBuffer::new(vec![2, 1]).read_ub4().is_err());
    assert!(ReadBuffer::new(vec![]).read_u8().is_err());
}

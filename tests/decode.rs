use oracle_thin::date::decode_oracle_date;
use oracle_thin::number::decode_oracle_number;

#[test]
fn number_test_decode_number_zero() {
    assert_eq!(decode_oracle_number(&[0x80]).unwrap(), "0");
}

#[test]
fn number_test_decode_number_positive_integer() {
    assert_eq!(decode_oracle_number(&[0xC1, 0x02]).unwrap(), "1");
    assert_eq!(decode_oracle_number(&[0xC1, 0x0B]).unwrap(), "10");
    assert_eq!(decode_oracle_number(&[0xC2, 0x02]).unwrap(), "100");
}

#[test]
fn number_test_decode_number_negative_integer() {
    assert_eq!(decode_oracle_number(&[0x3E, 0x64, 0x66]).unwrap(), "-1");
}

#[test]
fn number_test_decode_number_decimal() {
    assert_eq!(decode_oracle_number(&[0xC0, 0x33]).unwrap(), "0.5");
}

#[test]
fn response_test_decode_number_zero() {
    assert_eq!(decode_oracle_number(&[0x80]).unwrap(), "0");
}

#[test]
fn response_test_decode_number_positive_integer() {
    assert_eq!(decode_oracle_number(&[0xC1, 0x02]).unwrap(), "1");
    assert_eq!(decode_oracle_number(&[0xC1, 0x0B]).unwrap(), "10");
    assert_eq!(decode_oracle_number(&[0xC2, 0x02]).unwrap(), "100");
}

#[test]
fn response_test_decode_number_negative_integer() {
    assert_eq!(decode_oracle_number(&[0x3E, 0x64, 0x66]).unwrap(), "-1");
}

#[test]
fn response_test_decode_number_decimal() {
    assert_eq!(decode_oracle_number(&[0xC0, 0x33]).unwrap(), "0.5");
}

#[test]
fn number_more_values() {
    assert_eq!(decode_oracle_number(&[]).unwrap(), "0");
    assert_eq!(decode_oracle_number(&[0x3E]).unwrap(), "-1e126");
    assert_eq!(decode_oracle_number(&[0xC2, 0x02, 0x18]).unwrap(), "123");
    assert_eq!(decode_oracle_number(&[0xC2, 0x02, 0x18, 0x2E]).unwrap(), "123.45");
    assert_eq!(decode_oracle_number(&[0xC1, 0x2B]).unwrap(), "42");
    assert_eq!(decode_oracle_number(&[0x3D, 0x64, 0x66]).unwrap(), "-100");
    assert_eq!(decode_oracle_number(&[0xBF, 0x02]).unwrap(), "0.0001");
}

#[test]
fn test_decode_date_2024_10_21() {
    let data = [0x78, 0x7C, 0x0A, 0x15, 0x0D, 0x25, 0x06];
    let result = decode_oracle_date(&data).unwrap();
    assert_eq!(result.year(), 2024);
    assert_eq!(result.month(), 10);
    assert_eq!(result.day(), 21);
    assert_eq!(result.hour(), 12);
    assert_eq!(result.minute(), 36);
    assert_eq!(result.second(), 5);
}

#[test]
fn test_decode_date_midnight() {
    let data = [0x78, 0x7C, 0x01, 0x0F, 0x01, 0x01, 0x01];
    let result = decode_oracle_date(&data).unwrap();
    assert_eq!(result.year(), 2024);
    assert_eq!(result.month(), 1);
    assert_eq!(result.day(), 15);
    assert_eq!(result.hour(), 0);
    assert_eq!(result.minute(), 0);
    assert_eq!(result.second(), 0);
}

#[test]
fn test_decode_date_last_second() {
    let data = [0x78, 0x7C, 0x0C, 0x1F, 0x18, 0x3C, 0x3C];
    let result = decode_oracle_date(&data).unwrap();
    assert_eq!(result.year(), 2024);
    assert_eq!(result.month(), 12);
    assert_eq!(result.day(), 31);
    assert_eq!(result.hour(), 23);
    assert_eq!(result.minute(), 59);
    assert_eq!(result.second(), 59);
}

#[test]
fn test_decode_date_1999() {
    let data = [0x77, 0xC7, 0x06, 0x0F, 0x0D, 0x1F, 0x2E];
    let result = decode_oracle_date(&data).unwrap();
    assert_eq!(result.year(), 1999);
    assert_eq!(result.month(), 6);
    assert_eq!(result.day(), 15);
    assert_eq!(result.hour(), 12);
    assert_eq!(result.minute(), 30);
    assert_eq!(result.second(), 45);
}

#[test]
fn test_decode_date_wrong_length() {
    let data = [0x78, 0x7C, 0x0A];
    assert!(decode_oracle_date(&data).is_err());
}

#[test]
fn test_decode_date_invalid_month() {
    let data = [0x78, 0x7C, 0x0D, 0x0F, 0x01, 0x01, 0x01];
    assert!(decode_oracle_date(&data).is_err());
}

#[test]
fn test_decode_date_invalid_day() {
    let data = [0x78, 0x7C, 0x01, 0x20, 0x01, 0x01, 0x01];
    assert!(decode_oracle_date(&data).is_err());
}

#[test]
fn date_checks_the_calendar() {
    assert!(decode_oracle_date(&[0x78, 0x7B, 0x02, 0x1D, 0x01, 0x01, 0x01]).is_err());
    assert!(decode_oracle_date(&[0x78, 0x7C, 0x02, 0x1D, 0x01, 0x01, 0x01]).is_ok());
    assert!(decode_oracle_date(&[0x78, 0x7C, 0x01, 0x01, 0x00, 0x01, 0x01]).is_err());
    assert!(decode_oracle_date(&[0x63, 0x7C, 0x01, 0x01, 0x01, 0x01, 0x01]).is_err());
}

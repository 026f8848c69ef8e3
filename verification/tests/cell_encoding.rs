use sheetable::cell_encoding::{DecodeCell, EncodeCell};
use sheetable::{CellNumber, CellValue};

#[test]
fn string_encode_decode_roundtrip() {
    let s = "hello".to_string();
    // Encode
    let encoded = s.encode_cell().unwrap();
    assert_eq!(encoded, CellValue::Text("hello".to_string()));

    // Decode
    let decoded = String::decode_cell(&CellValue::Text("hello".to_string())).unwrap();
    assert_eq!(decoded, "hello");

    // Decode failure
    assert!(String::decode_cell(&CellValue::Number(CellNumber::Unsigned(42))).is_err());
}

#[test]
fn str_encode_roundtrip() {
    let s: &str = "world";
    let encoded = s.encode_cell().unwrap();
    assert_eq!(encoded, CellValue::Text("world".to_string()));
}

#[test]
fn decode_refuses_every_cell_that_is_no_text() {
    assert!(String::decode_cell(&CellValue::Null).is_err());
    assert!(String::decode_cell(&CellValue::Bool(true)).is_err());
    assert!(String::decode_cell(&CellValue::Number(CellNumber::Signed(-1))).is_err());
    assert!(String::decode_cell(&CellValue::Number(CellNumber::Real(0))).is_err());
}

#[test]
fn decode_error_says_what_was_expected() {
    let error = String::decode_cell(&CellValue::Null).unwrap_err();
    assert_eq!(error.to_string(), "expected string");
}

#[test]
fn empty_text_round_trips() {
    let encoded = String::new().encode_cell().unwrap();
    assert_eq!(String::decode_cell(&encoded).unwrap(), "");
}

#[test]
fn cells_compare_by_kind_and_value() {
    assert_eq!(CellValue::Null, CellValue::Null);
    assert_eq!(CellValue::Bool(true), CellValue::Bool(true));
    assert_ne!(CellValue::Bool(true), CellValue::Bool(false));
    assert_ne!(CellValue::Text("1".to_string()), CellValue::Number(CellNumber::Unsigned(1)));
    assert_ne!(
        CellValue::Number(CellNumber::Unsigned(1)),
        CellValue::Number(CellNumber::Signed(1))
    );
    assert_ne!(CellValue::Null, CellValue::Text(String::new()));
}

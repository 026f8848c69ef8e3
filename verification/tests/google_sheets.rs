use sheetable::providers::google_sheets::{
    delete_rows_request, find_sheet_id, read_result, GoogleSheetError, SheetProperties,
};
use sheetable::{Area, CellValue, RangeAddress};

fn address(text: &str) -> RangeAddress {
    RangeAddress::parse(text).unwrap()
}

fn sheet(title: Option<&str>, sheet_id: Option<i32>) -> Option<SheetProperties> {
    Some(SheetProperties { title: title.map(|t| t.to_string()), sheet_id })
}

fn invalid(e: GoogleSheetError) -> (String, String) {
    match e {
        GoogleSheetError::InvalidA1Range { range, reason } => (range, reason),
        other => panic!("unexpected: {other:?}"),
    }
}

fn missing(e: GoogleSheetError) -> String {
    match e {
        GoogleSheetError::MissingEffectiveRange(text) => text,
        other => panic!("unexpected: {other:?}"),
    }
}

#[test]
fn delete_request_of_one_row() {
    let request = delete_rows_request(&address("Sheet1!A2:B2")).unwrap();
    assert_eq!(request.sheet_name, "Sheet1");
    assert_eq!((request.start_index, request.end_index), (1, 2));
}

#[test]
fn delete_request_of_cell_rows_and_range() {
    let request = delete_rows_request(&address("S!C7")).unwrap();
    assert_eq!((request.start_index, request.end_index), (6, 7));
    let request = delete_rows_request(&address("S!3:5")).unwrap();
    assert_eq!((request.start_index, request.end_index), (2, 5));
    let request = delete_rows_request(&address("S!A1:Z10")).unwrap();
    assert_eq!((request.start_index, request.end_index), (0, 10));
}

#[test]
fn delete_request_refuses_column_range() {
    let (range, reason) = invalid(delete_rows_request(&address("Sheet1!A:B")).unwrap_err());
    assert_eq!(range, "A:B");
    assert_eq!(reason, "Range for deleting rows may not be a column range");
}

#[test]
fn delete_request_refuses_set_of_regions() {
    let (range, reason) = invalid(delete_rows_request(&address("Sheet1!A1,B2")).unwrap_err());
    assert_eq!(range, "A1, B2");
    assert_eq!(reason, "Range for deleting rows may not be non contiguous");
}

#[test]
fn delete_request_refuses_missing_sheet_name() {
    let (range, reason) = invalid(delete_rows_request(&address("A2:B2")).unwrap_err());
    assert_eq!(range, "A2:B2");
    assert_eq!(reason, "Range must include a sheet name");
}

#[test]
fn delete_request_refuses_rows_the_service_cannot_number() {
    let far = RangeAddress::from_parts(Some("S".to_string()), vec![Area::Cell(0, 2147483647)]).unwrap();
    let (range, reason) = invalid(delete_rows_request(&far).unwrap_err());
    assert_eq!(range, "S!A2147483648");
    assert_eq!(reason, "Row index out of bounds");
    let near = RangeAddress::from_parts(Some("S".to_string()), vec![Area::Cell(0, 2147483646)]).unwrap();
    let request = delete_rows_request(&near).unwrap();
    assert_eq!((request.start_index, request.end_index), (2147483646, 2147483647));
}

#[test]
fn sheet_id_of_titled_sheet() {
    let sheets = Some(vec![sheet(Some("One"), Some(0)), sheet(Some("Two"), Some(77)), None]);
    assert_eq!(find_sheet_id(&sheets, "Two").unwrap(), 77);
    assert_eq!(find_sheet_id(&sheets, "One").unwrap(), 0);
}

#[test]
fn sheet_id_of_first_sheet_with_the_title() {
    let sheets = Some(vec![sheet(None, Some(1)), None, sheet(Some("T"), Some(2)), sheet(Some("T"), Some(3))]);
    assert_eq!(find_sheet_id(&sheets, "T").unwrap(), 2);
    let sheets = Some(vec![sheet(Some("T"), None), sheet(Some("T"), Some(3))]);
    assert_eq!(
        missing(find_sheet_id(&sheets, "T").unwrap_err()),
        "Unable to obtain sheet id for sheet 'T'"
    );
}

#[test]
fn sheet_id_without_sheets() {
    assert_eq!(
        missing(find_sheet_id(&None, "T").unwrap_err()),
        "No sheets were found in the document"
    );
    assert_eq!(
        missing(find_sheet_id(&Some(vec![]), "T").unwrap_err()),
        "Unable to obtain sheet id for sheet 'T'"
    );
}

#[test]
fn sheet_id_of_unknown_title() {
    let sheets = Some(vec![sheet(Some("One"), Some(0))]);
    assert_eq!(
        missing(find_sheet_id(&sheets, "one").unwrap_err()),
        "Unable to obtain sheet id for sheet 'one'"
    );
}

#[test]
fn read_result_of_full_answer() {
    let rows = vec![vec![CellValue::Text("k".to_string())]];
    let result =
        read_result(&address("A:B"), Some(rows.clone()), Some("Sheet1!A1:B1".to_string())).unwrap();
    assert_eq!(result.values, rows);
    assert_eq!(result.range.to_text(), "Sheet1!A1:B1");
}

#[test]
fn read_result_without_rows_is_empty() {
    let result = read_result(&address("A:B"), None, Some("Sheet1!A1:B1000".to_string())).unwrap();
    assert!(result.values.is_empty());
    assert_eq!(result.range.to_text(), "Sheet1!A1:B1000");
}

#[test]
fn read_result_without_resolved_range() {
    let e = read_result(&address("Sheet1!A:B"), Some(vec![]), None).unwrap_err();
    assert_eq!(missing(e), "Sheet1!A:B");
}

#[test]
fn read_result_with_malformed_resolved_range() {
    let e = read_result(&address("A:B"), None, Some("Sheet1!A0".to_string())).unwrap_err();
    let (range, reason) = invalid(e);
    assert_eq!(range, "Sheet1!A0");
    assert_eq!(reason, "A1 reference must be greater than 0 (input: `0`)");
}

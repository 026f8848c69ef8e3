use sheetable::range::is_supported;
use sheetable::{AddressKind, Area, RangeAddress};

fn address(text: &str) -> RangeAddress {
    RangeAddress::parse(text).unwrap()
}

#[test]
fn parse_cell() {
    let a = address("A1");
    assert_eq!(a.sheet_name(), None);
    assert_eq!(a.areas(), vec![Area::Cell(0, 0)]);
    assert_eq!(a.kind(), AddressKind::Cell);
    assert_eq!(a.rows(), Some((0, 0)));
}

#[test]
fn parse_range_on_sheet() {
    let a = address("Sheet1!A1:B3");
    assert_eq!(a.sheet_name(), Some("Sheet1".to_string()));
    assert_eq!(a.areas(), vec![Area::Range(0, 0, 1, 2)]);
    assert_eq!(a.kind(), AddressKind::Range);
    assert_eq!(a.rows(), Some((0, 2)));
}

#[test]
fn parse_column_range() {
    let a = address("A:B");
    assert_eq!(a.areas(), vec![Area::Columns(0, 1)]);
    assert_eq!(a.kind(), AddressKind::ColumnRange);
    assert_eq!(a.rows(), None);
}

#[test]
fn parse_row_range() {
    let a = address("2:5");
    assert_eq!(a.areas(), vec![Area::Rows(1, 4)]);
    assert_eq!(a.kind(), AddressKind::RowRange);
    assert_eq!(a.rows(), Some((1, 4)));
}

#[test]
fn parse_set_of_regions() {
    let a = address("A1,C3:D4");
    assert_eq!(a.areas(), vec![Area::Cell(0, 0), Area::Range(2, 2, 3, 3)]);
    assert_eq!(a.kind(), AddressKind::NonContiguous);
    assert_eq!(a.rows(), None);
}

#[test]
fn parse_quoted_sheet_name() {
    let a = address("'My Sheet'!AA10");
    assert_eq!(a.sheet_name(), Some("My Sheet".to_string()));
    assert_eq!(a.areas(), vec![Area::Cell(26, 9)]);
}

#[test]
fn parse_long_sheet_name() {
    let a = address("Reconciliation2024!B2:C4");
    assert_eq!(a.sheet_name(), Some("Reconciliation2024".to_string()));
    assert_eq!(a.areas(), vec![Area::Range(1, 1, 2, 3)]);
}

#[test]
fn parse_rejects_malformed_text() {
    for text in ["", "A", "1A", "A0", "A1:", ":A1", "A:", ":B", "A1:B", "Sheet1!", "'Open!A1", "A-1"] {
        let e = RangeAddress::parse(text).unwrap_err();
        assert_eq!(e.range, text);
        assert!(!e.reason.is_empty());
    }
}

#[test]
fn parse_rejects_what_is_not_supported() {
    for text in [
        "$A$1",
        "S!A$1",
        "'\u{dc}bersicht'!A1",
        "S!\u{dc}1",
        "\u{dc}1",
        "ABCDEFG1",
        "A1234567890",
        "Sheet1!A:",
        "A1 :B2",
    ] {
        assert!(!is_supported(text));
        let e = RangeAddress::parse(text).unwrap_err();
        assert_eq!(e.range, text);
        assert_eq!(e.reason, "text is outside the supported A1 notation");
    }
}

#[test]
fn supported_texts() {
    for text in [
        "A1",
        "A:B",
        "2:5",
        "Sheet1!A1:B3",
        "'My Sheet'!A1",
        "ZZZZZZ999999999",
        "A1,B2",
        "\u{dc}bersicht!A1",
        "US$!A1",
        "'US$ 2024'!A1",
    ] {
        assert!(is_supported(text));
    }
}

#[test]
fn parser_message_is_handed_on() {
    let e = RangeAddress::parse("A0").unwrap_err();
    assert_eq!(e.reason, "A1 reference must be greater than 0 (input: `0`)");
}

#[test]
fn text_of_addresses() {
    for text in ["A1", "A1:B2", "A:B", "2:5", "Sheet1!A1:B3", "'My Sheet'!C7", "AA10:AB20"] {
        assert_eq!(address(text).to_text(), text);
    }
}

#[test]
fn text_round_trips_through_parse() {
    for text in ["A1", "B2:C9", "A:B", "3:3", "Data!A2:B2", "'Two Words'!A1:B1"] {
        let once = address(text);
        let twice = address(&once.to_text());
        assert_eq!(twice.sheet_name(), once.sheet_name());
        assert_eq!(twice.areas(), once.areas());
    }
}

#[test]
fn text_without_sheet_name() {
    assert_eq!(address("Sheet1!A1:B3").reference_to_text(), "A1:B3");
    assert_eq!(address("A:B").reference_to_text(), "A:B");
}

#[test]
fn from_parts_builds_what_parse_reads() {
    let built = RangeAddress::from_parts(Some("S".to_string()), vec![Area::Range(0, 1, 1, 1)]).unwrap();
    assert_eq!(built.to_text(), "S!A2:B2");
    assert_eq!(built.clone().to_text(), "S!A2:B2");
}

#[test]
fn from_parts_refuses_no_region_and_unnumbered_rows() {
    assert!(RangeAddress::from_parts(None, vec![]).is_none());
    assert!(RangeAddress::from_parts(None, vec![Area::Cell(0, usize::MAX)]).is_none());
    assert!(RangeAddress::from_parts(None, vec![Area::Rows(0, usize::MAX)]).is_none());
    assert!(RangeAddress::from_parts(None, vec![Area::Range(0, usize::MAX, 0, 0)]).is_none());
    assert!(RangeAddress::from_parts(None, vec![Area::Columns(usize::MAX, usize::MAX)]).is_some());
    assert!(RangeAddress::from_parts(None, vec![Area::Cell(0, usize::MAX - 1)]).is_some());
}

#[test]
fn row_offset_of_range_is_one_row() {
    let row = address("A1:B3").with_row_offset(1).unwrap();
    assert_eq!(row.to_text(), "A2:B2");
    assert_eq!(row.areas(), vec![Area::Range(0, 1, 1, 1)]);
}

#[test]
fn row_offset_keeps_sheet_and_columns() {
    let row = address("Data!C5:F9").with_row_offset(3).unwrap();
    assert_eq!(row.to_text(), "Data!C8:F8");
    assert_eq!(row.sheet_name(), Some("Data".to_string()));
}

#[test]
fn row_offset_of_cell_and_rows() {
    assert_eq!(address("B2").with_row_offset(2).unwrap().to_text(), "B4");
    assert_eq!(address("2:5").with_row_offset(1).unwrap().to_text(), "3:3");
    assert_eq!(address("B2").with_row_offset(0).unwrap().to_text(), "B2");
}

#[test]
fn row_offset_refuses_addresses_without_rows() {
    let e = address("A:B").with_row_offset(0).unwrap_err();
    assert_eq!(e.range, "A:B");
    assert_eq!(e.reason, "address has no row anchor");
    let e = address("S!A1,B2").with_row_offset(1).unwrap_err();
    assert_eq!(e.reason, "address has no row anchor");
}

#[test]
fn row_offset_refuses_rows_past_the_last() {
    let e = address("A1").with_row_offset(usize::MAX).unwrap_err();
    assert_eq!(e.range, "A1");
    assert_eq!(e.reason, "row offset out of bounds");
    let e = address("A2").with_row_offset(usize::MAX - 1).unwrap_err();
    assert_eq!(e.reason, "row offset out of bounds");
    let last = address("A2").with_row_offset(usize::MAX - 2).unwrap();
    assert_eq!(last.areas(), vec![Area::Cell(0, usize::MAX - 1)]);
}

#[test]
fn row_span_of_addresses_with_rows() {
    let span = address("S!A2:B4").row_span().unwrap();
    assert_eq!((span.sheet_name.as_str(), span.first_row, span.last_row), ("S", 1, 3));
    let span = address("S!C7").row_span().unwrap();
    assert_eq!((span.first_row, span.last_row), (6, 6));
    let span = address("S!3:5").row_span().unwrap();
    assert_eq!((span.first_row, span.last_row), (2, 4));
    let span = address("S!B4:A2").row_span().unwrap();
    assert_eq!((span.first_row, span.last_row), (1, 3));
}

#[test]
fn row_span_refuses_column_range() {
    let e = address("S!A:B").row_span().unwrap_err();
    assert_eq!(e.range, "A:B");
    assert_eq!(e.reason, "Range for deleting rows may not be a column range");
}

#[test]
fn row_span_refuses_set_of_regions() {
    let e = address("S!A1,B2").row_span().unwrap_err();
    assert_eq!(e.range, "A1, B2");
    assert_eq!(e.reason, "Range for deleting rows may not be non contiguous");
}

#[test]
fn row_span_refuses_address_without_sheet() {
    let e = address("A2:B2").row_span().unwrap_err();
    assert_eq!(e.range, "A2:B2");
    assert_eq!(e.reason, "Range must include a sheet name");
}

#[test]
fn parsed_answer_becomes_address() {
    let parsed = Ok((Some("S".to_string()), vec![Area::Rows(1, 4)]));
    let a = RangeAddress::from_parsed("S!2:5", parsed).unwrap();
    assert_eq!(a.sheet_name(), Some("S".to_string()));
    assert_eq!(a.areas(), vec![Area::Rows(1, 4)]);
}

#[test]
fn parsed_message_becomes_failure() {
    let e = RangeAddress::from_parsed("nonsense", Err("no such cell".to_string())).unwrap_err();
    assert_eq!(e.range, "nonsense");
    assert_eq!(e.reason, "no such cell");
}

#[test]
fn parsed_answer_out_of_bounds_becomes_failure() {
    let e = RangeAddress::from_parsed("x", Ok((None, vec![]))).unwrap_err();
    assert_eq!((e.range.as_str(), e.reason.as_str()), ("x", "address is out of bounds"));
    let e = RangeAddress::from_parsed("y", Ok((None, vec![Area::Cell(0, usize::MAX)]))).unwrap_err();
    assert_eq!((e.range.as_str(), e.reason.as_str()), ("y", "address is out of bounds"));
}

#[test]
fn parse_sheet_name_beyond_ascii() {
    let a = address("\u{dc}bersicht!A1:B3");
    assert_eq!(a.sheet_name(), Some("\u{dc}bersicht".to_string()));
    assert_eq!(a.areas(), vec![Area::Range(0, 0, 1, 2)]);
    assert_eq!(a.to_text(), "\u{dc}bersicht!A1:B3");
    let a = address("\u{30b7}\u{30fc}\u{30c8}1!C2");
    assert_eq!(a.sheet_name(), Some("\u{30b7}\u{30fc}\u{30c8}1".to_string()));
    assert_eq!(a.areas(), vec![Area::Cell(2, 1)]);
}

#[test]
fn parse_sheet_name_with_dollar() {
    let a = address("US$!B2");
    assert_eq!(a.sheet_name(), Some("US$".to_string()));
    assert_eq!(a.areas(), vec![Area::Cell(1, 1)]);
}

#[test]
fn every_short_text_is_answered() {
    let alphabet = ['A', 'z', '1', '0', ':', ',', '!', '\'', ' ', '$', '-', '+', '\u{e9}'];
    let mut texts: Vec<String> = vec![String::new()];
    let mut answered = 0;
    let mut read = 0;
    for _ in 0..5 {
        let mut longer = Vec::new();
        for text in &texts {
            for c in alphabet {
                let mut next = text.clone();
                next.push(c);
                longer.push(next);
            }
        }
        for text in &longer {
            match RangeAddress::parse(text) {
                Ok(address) => {
                    assert!(is_supported(text));
                    assert!(!address.areas().is_empty());
                    assert!(!address.to_text().is_empty());
                    read += 1;
                }
                Err(e) => assert_eq!(&e.range, text),
            }
            answered += 1;
        }
        texts = longer;
    }
    assert_eq!(answered, 13 + 169 + 2197 + 28561 + 371293);
    assert!(read > 0);
}

#[test]
fn texts_at_the_limits_are_answered() {
    assert_eq!(address("ZZZZZZ1").areas(), vec![Area::Cell(321272405, 0)]);
    assert_eq!(address("A999999999").areas(), vec![Area::Cell(0, 999999998)]);
    assert_eq!(address("zzzzzz:ZZZZZZ").areas(), vec![Area::Columns(321272405, 321272405)]);
    assert_eq!(address("999999999:1").areas(), vec![Area::Rows(999999998, 0)]);
    assert!(RangeAddress::parse("AAAAAAA1").is_err());
    assert!(RangeAddress::parse("A1000000000").is_err());
    assert!(RangeAddress::parse("S!AAAAAAAAAAAAAAAAAAAAAAAAAAAAAAAAAAAA!1").is_err());
    assert!(RangeAddress::parse("'\u{20ac}'!A1").is_err());
    assert!(RangeAddress::parse("\u{20ac}1").is_err());
    assert!(RangeAddress::parse("$1").is_err());
    assert!(RangeAddress::parse("A:$").is_err());
}

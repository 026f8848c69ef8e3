use sheetable::{CellNumber, CellValue, Item, Sheetable};

fn text(s: &str) -> CellValue {
    CellValue::Text(s.to_string())
}

fn item(first: &str, second: &str) -> Item {
    Item { first: first.to_string(), second: second.to_string() }
}

#[test]
fn item_row_holds_both_texts_in_order() {
    assert_eq!(item("Hello", "World").to_values(), vec![text("Hello"), text("World")]);
}

#[test]
fn item_key_is_first_text() {
    assert_eq!(item("Hello", "World").get_key(), vec![text("Hello")]);
}

#[test]
fn item_round_trip() {
    for (a, b) in [("Hello", "World"), ("", ""), ("k", ""), ("", "v"), ("a b", "\u{e9}")] {
        let written = item(a, b);
        let read = Item::from_values(written.to_values());
        assert_eq!(read.first, written.first);
        assert_eq!(read.second, written.second);
        assert_eq!(read.to_values(), written.to_values());
        assert_eq!(read.get_key(), written.get_key());
    }
}

#[test]
fn item_from_short_row_fills_with_empty_text() {
    let read = Item::from_values(vec![text("only")]);
    assert_eq!((read.first.as_str(), read.second.as_str()), ("only", ""));
    let read = Item::from_values(vec![]);
    assert_eq!((read.first.as_str(), read.second.as_str()), ("", ""));
}

#[test]
fn item_from_cells_of_other_kinds_fills_with_empty_text() {
    let read = Item::from_values(vec![CellValue::Number(CellNumber::Unsigned(7)), text("v")]);
    assert_eq!((read.first.as_str(), read.second.as_str()), ("", "v"));
    let read = Item::from_values(vec![text("k"), CellValue::Bool(true)]);
    assert_eq!((read.first.as_str(), read.second.as_str()), ("k", ""));
    let read = Item::from_values(vec![CellValue::Null, CellValue::Null]);
    assert_eq!((read.first.as_str(), read.second.as_str()), ("", ""));
}

#[test]
fn item_from_long_row_passes_over_the_rest() {
    let read = Item::from_values(vec![text("k"), text("v"), text("more")]);
    assert_eq!((read.first.as_str(), read.second.as_str()), ("k", "v"));
}

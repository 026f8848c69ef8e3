//! A record of two texts, keyed by the first.

use vstd::prelude::*;
use crate::cell::{CellValue, CellView};
use crate::cell_encoding::{DecodeCell, EncodeCell};
use crate::codec::Sheetable;

verus! {

/// Two texts in two columns. The first one is the key.
#[derive(Debug, Clone)]
pub struct Item {
    pub first: String,
    pub second: String,
}

/// The text in cell `i` of a row, and the empty text where the row has no such
/// cell or the cell holds no text.
pub open spec fn text_at(cells: Seq<CellView>, i: int) -> Seq<char> {
    if 0 <= i < cells.len() {
        match cells[i] {
            CellView::Text(text) => text,
            _ => Seq::empty(),
        }
    } else {
        Seq::empty()
    }
}

/// Reads the text in cell `i` of a row, leniently.
fn read_text(values: &Vec<CellValue>, i: usize) -> (text: String)
    ensures
        text@ == text_at(values.deep_view(), i as int),
{
    if i < values.len() {
        assert(values.deep_view()[i as int] == values@[i as int]@);
        match String::decode_cell(&values[i]) {
            Ok(text) => text,
            Err(_) => String::new(),
        }
    } else {
        String::new()
    }
}

impl Sheetable for Item {
    open spec fn row(&self) -> Seq<CellView> {
        seq![CellView::Text(self.first@), CellView::Text(self.second@)]
    }

    open spec fn decoded(cells: Seq<CellView>) -> Seq<CellView> {
        seq![CellView::Text(text_at(cells, 0)), CellView::Text(text_at(cells, 1))]
    }

    open spec fn key_of(row: Seq<CellView>) -> Seq<CellView> {
        row.take(1)
    }

    proof fn lemma_round_trip(&self) {
        assert(Self::decoded(self.row()) =~= self.row());
    }

    fn to_values(&self) -> (cells: Vec<CellValue>) {
        let first = self.first.encode_cell().unwrap();
        let second = self.second.encode_cell().unwrap();
        let mut cells: Vec<CellValue> = Vec::new();
        cells.push(first);
        cells.push(second);
        assert(cells.deep_view() =~= self.row());
        cells
    }

    fn from_values(values: Vec<CellValue>) -> (item: Item) {
        let first = read_text(&values, 0);
        let second = read_text(&values, 1);
        Item { first, second }
    }

    fn get_key(&self) -> (key: Vec<CellValue>) {
        let mut key: Vec<CellValue> = Vec::new();
        key.push(CellValue::Text(self.first.clone()));
        assert(key.deep_view() =~= Self::key_of(self.row()));
        key
    }
}

} // verus!

//! Texts as cells.

use vstd::prelude::*;
use std::convert::Infallible;
use crate::cell::{CellValue, CellView};
use crate::cell_encoding::{DecodeCell, EncodeCell};

verus! {

/// A cell that should hold a text holds something else.
#[derive(Debug)]
pub struct DecodeStringError;

impl DecodeStringError {
    /// What went wrong, in words.
    pub fn to_string(&self) -> (message: String)
        ensures
            message@ == "expected string"@,
    {
        "expected string".to_owned()
    }
}

impl EncodeCell for String {
    type Error = Infallible;

    /// A text is written as a text cell that holds it.
    fn encode_cell(&self) -> (res: Result<CellValue, Infallible>)
        ensures
            res matches Ok(cell) && cell@ == CellView::Text(self@),
    {
        Ok(CellValue::Text(self.clone()))
    }
}

impl DecodeCell for String {
    type Error = DecodeStringError;

    /// A text cell is read as the text it holds. Any other cell is refused.
    fn decode_cell(value: &CellValue) -> (res: Result<String, DecodeStringError>)
        ensures
            match value@ {
                CellView::Text(text) => res matches Ok(s) && s@ == text,
                _ => res is Err,
            },
    {
        match value {
            CellValue::Text(s) => Ok(s.clone()),
            _ => Err(DecodeStringError),
        }
    }
}

impl EncodeCell for &str {
    type Error = Infallible;

    /// A text is written as a text cell that holds it.
    fn encode_cell(&self) -> (res: Result<CellValue, Infallible>)
        ensures
            res matches Ok(cell) && cell@ == CellView::Text(self@),
    {
        Ok(CellValue::Text((*self).to_owned()))
    }
}

} // verus!

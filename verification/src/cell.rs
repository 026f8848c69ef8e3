//! The scalar value held by one cell of the grid.

use vstd::prelude::*;

verus! {

/// A number held by a cell. A real number is kept as the bit pattern of its
/// double-precision representation, so that two numbers are equal exactly when
/// they are written the same way.
#[derive(Clone, Copy, Debug, PartialEq, Eq, Structural)]
pub enum CellNumber {
    Unsigned(u64),
    Signed(i64),
    Real(u64),
}

/// One cell: nothing, a truth value, a number or a text.
#[derive(Clone, Debug)]
pub enum CellValue {
    Null,
    Bool(bool),
    Number(CellNumber),
    Text(String),
}

/// What a cell holds, with its text as a sequence of characters.
pub enum CellView {
    Null,
    Bool(bool),
    Number(CellNumber),
    Text(Seq<char>),
}

impl View for CellValue {
    type V = CellView;

    open spec fn view(&self) -> CellView {
        match self {
            CellValue::Null => CellView::Null,
            CellValue::Bool(b) => CellView::Bool(*b),
            CellValue::Number(n) => CellView::Number(*n),
            CellValue::Text(s) => CellView::Text(s@),
        }
    }
}

impl DeepView for CellValue {
    type V = CellView;

    open spec fn deep_view(&self) -> CellView {
        self@
    }
}

impl PartialEq for CellValue {
    /// Two cells are equal when they are of the same kind and hold the same
    /// value.
    fn eq(&self, other: &CellValue) -> (equal: bool) {
        match (self, other) {
            (CellValue::Null, CellValue::Null) => true,
            (CellValue::Bool(a), CellValue::Bool(b)) => *a == *b,
            (CellValue::Number(a), CellValue::Number(b)) => *a == *b,
            (CellValue::Text(a), CellValue::Text(b)) => *a == *b,
            _ => false,
        }
    }
}

impl vstd::std_specs::cmp::PartialEqSpecImpl for CellValue {
    open spec fn obeys_eq_spec() -> bool {
        true
    }

    open spec fn eq_spec(&self, other: &CellValue) -> bool {
        self@ == other@
    }
}

} // verus!

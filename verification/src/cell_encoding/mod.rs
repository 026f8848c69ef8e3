//! Conversions between scalar values and cells.

use vstd::prelude::*;
use crate::cell::CellValue;

pub mod string;

pub use string::DecodeStringError;

verus! {

/// A value that can be written into one cell. A conversion that cannot fail
/// has `std::convert::Infallible` as its error.
pub trait EncodeCell {
    type Error;

    fn encode_cell(&self) -> Result<CellValue, Self::Error>;
}

/// A value that can be read from one cell. The error says which shape of cell
/// was expected.
pub trait DecodeCell: Sized {
    type Error;

    fn decode_cell(value: &CellValue) -> Result<Self, Self::Error>;
}

} // verus!

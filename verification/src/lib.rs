//! A table layer over a range-addressed grid of cells.
//!
//! A grid store (a spreadsheet, for one) has no row identity of its own. This
//! crate reads and writes typed records as rows of cells, and finds the row of
//! a record by its logical key: it scans what a read of the table's range
//! returned and turns the matching position into a single-row address.

pub mod cell;
pub mod cell_encoding;
pub mod codec;
pub mod error;
pub mod item;
pub mod providers;
pub mod range;
pub mod store;
pub mod table;

pub use cell::{CellNumber, CellValue, CellView};
pub use codec::Sheetable;
pub use error::SheetError;
pub use item::Item;
pub use range::{AddressKind, Area, InvalidRange, RangeAddress, RangeView, RowSpan};
pub use table::Table;

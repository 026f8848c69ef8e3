//! The boundary to the store behind a table.

use vstd::prelude::*;
use crate::cell::{CellValue, CellView};
use crate::range::{RangeAddress, RangeView};

pub mod google_sheets;

verus! {

/// What a read of a range gives.
#[derive(Debug)]
pub struct RangeResult {
    /// The cells, row by row from the top.
    pub values: Vec<Vec<CellValue>>,
    /// The range that the store resolved the request to. It can differ from
    /// the range asked for: a range of whole columns comes back bounded. Row
    /// arithmetic goes by this range.
    pub range: RangeAddress,
}

/// The error that a store refused a request with, if it did.
pub open spec fn refusal<E>(answer: Result<(), E>) -> Option<E> {
    match answer {
        Ok(_) => None,
        Err(error) => Some(error),
    }
}

/// A store of cells that is read and written by ranges.
///
/// The store is shared: nothing read through this interface is known to
/// still hold when the next call is made.
pub trait SpreadsheetProvider {
    /// The store's own error.
    type Error;

    /// Whether a read of `range` may come back with these rows and this
    /// resolved range. A store that promises nothing of its reads leaves this
    /// as it is.
    open spec fn may_read(
        &self,
        range: RangeView,
        rows: Seq<Seq<CellView>>,
        effective: RangeView,
    ) -> bool {
        true
    }

    /// Reads the cells of a range. A range without data gives no rows, and no
    /// error.
    fn read_range(&self, range: &RangeAddress) -> (res: Result<RangeResult, Self::Error>)
        ensures
            res matches Ok(result) ==> self.may_read(
                range@,
                result.values.deep_view(),
                result.range@,
            ),
    ;

    /// Overwrites the cells of exactly this range.
    fn write_range(&self, range: &RangeAddress, values: Vec<Vec<CellValue>>) -> Result<
        (),
        Self::Error,
    >;

    /// Whether the store may answer a request to append these rows to the
    /// table that `range` names in this way: by taking them, or by refusing
    /// with this error. A store that promises nothing of its appends leaves
    /// this as it is.
    open spec fn may_append(
        &self,
        range: RangeView,
        rows: Seq<Seq<CellView>>,
        refusal: Option<Self::Error>,
    ) -> bool {
        true
    }

    /// Adds rows below the data of the table that `range` names. The store
    /// picks the place.
    fn append_rows(&self, range: &RangeAddress, values: Vec<Vec<CellValue>>) -> (res: Result<
        (),
        Self::Error,
    >)
        ensures
            self.may_append(range@, values.deep_view(), refusal(res)),
    ;

    /// Removes the rows that the range spans, whatever its columns. A range
    /// that spans no rows of its own, or names no sheet, is refused.
    fn delete_rows(&self, range: &RangeAddress) -> (res: Result<(), Self::Error>)
        ensures
            res is Ok ==> range@.span_outcome() is Ok,
    ;

    /// Empties the cells of a range. No row or column is removed.
    fn clear_range(&self, range: &RangeAddress) -> Result<(), Self::Error>;
}

} // verus!

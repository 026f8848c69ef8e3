//! What a table operation can fail with.

use vstd::prelude::*;
use crate::range::InvalidRange;

verus! {

/// The failures of the table layer. `E` is the error of the store behind it,
/// which is handed on as it came.
#[derive(Debug)]
pub enum SheetError<E> {
    /// The store failed.
    Provider(E),
    /// A range address is malformed, or of a shape that the operation has no
    /// use for.
    InvalidA1Range { range: String, reason: String },
    /// Data was needed and none was there.
    EmptyRange(String),
    /// No row holds the key that was looked for.
    KeyNotFound,
}

impl<E> SheetError<E> {
    /// The failure that a refused address stands for.
    pub fn invalid_range(refused: InvalidRange) -> (error: SheetError<E>)
        ensures
            error matches SheetError::InvalidA1Range { range, reason } && range@ == refused.range@
                && reason@ == refused.reason@,
    {
        SheetError::InvalidA1Range { range: refused.range, reason: refused.reason }
    }
}

} // verus!

//! The table: records in, records out, rows found by key.

use vstd::prelude::*;
use core::marker::PhantomData;
use crate::cell::{CellValue, CellView};
use crate::codec::{decode_rows, decoded_rows, find_key, first_match, Sheetable};
use crate::error::SheetError;
use crate::providers::{RangeResult, SpreadsheetProvider};
use crate::range::{InvalidRange, RangeAddress, RangeView};

verus! {

/// What looking for a key in the rows of a read gives: no row, the address of
/// the row, or the text of the range and the reason why the row has no
/// address in it.
pub open spec fn locate_outcome<T: Sheetable>(
    rows: Seq<Seq<CellView>>,
    effective: RangeView,
    key: Seq<CellView>,
) -> Result<Option<RangeView>, (Seq<char>, Seq<char>)> {
    match first_match::<T>(rows, key) {
        None => Ok(None),
        Some(i) => match effective.offset_outcome(i as usize) {
            Ok(address) => Ok(Some(address)),
            Err(reason) => Err((effective.text(), reason)),
        },
    }
}

/// Finds the row of the record with the key of `item` in what a read
/// returned.
///
/// The rows are scanned from the top and the first match wins. Its address is
/// the single row that lies as many rows below the first row of the range the
/// store resolved as the match lies below the first row read, within the
/// columns of that range. A key that no row holds gives no address and no
/// error; so does a read without rows.
pub fn locate<T: Sheetable>(result: &RangeResult, item: &T) -> (res: Result<
    Option<RangeAddress>,
    InvalidRange,
>)
    ensures
        match locate_outcome::<T>(result.values.deep_view(), result.range@, T::key_of(item.row())) {
            Ok(None) => res matches Ok(None),
            Ok(Some(address)) => res matches Ok(Some(a)) && a@ == address,
            Err(failure) => res matches Err(e) && e.range@ == failure.0 && e.reason@ == failure.1,
        },
{
    let key = item.get_key();
    match find_key::<T>(&result.values, &key) {
        None => Ok(None),
        Some(index) => match result.range.with_row_offset(index) {
            Ok(address) => Ok(Some(address)),
            Err(refused) => Err(refused),
        },
    }
}

/// The rows that writing one record hands to the store: its row, alone.
pub fn single_row<T: Sheetable>(item: &T) -> (rows: Vec<Vec<CellValue>>)
    ensures
        rows.deep_view() == seq![item.row()],
{
    let mut rows: Vec<Vec<CellValue>> = Vec::new();
    rows.push(item.to_values());
    assert(rows.deep_view() =~= seq![item.row()]);
    rows
}

/// The address to act on, or the failure that says that no row holds the key.
pub fn found_or_missing<E>(found: Option<RangeAddress>) -> (res: Result<RangeAddress, SheetError<E>>)
    ensures
        match found {
            Some(address) => res matches Ok(a) && a@ == address@,
            None => res matches Err(SheetError::KeyNotFound),
        },
{
    match found {
        Some(address) => Ok(address),
        None => Err(SheetError::KeyNotFound),
    }
}

/// An address that may be there, as a mathematical value.
pub open spec fn found_view(found: Option<RangeAddress>) -> Option<RangeView> {
    match found {
        Some(address) => Some(address@),
        None => None,
    }
}

/// Whether a read of `range` from `provider` may come back with rows that
/// hold these records.
pub open spec fn may_read_records<T: Sheetable, P: SpreadsheetProvider>(
    provider: P,
    range: RangeView,
    records: Seq<Seq<CellView>>,
) -> bool {
    exists|rows: Seq<Seq<CellView>>, effective: RangeView| #[trigger]
        provider.may_read(range, rows, effective) && records == decoded_rows::<T>(rows)
}

/// Whether a read of `range` from `provider` may come back with rows and a
/// resolved range in which looking for `key` gives `outcome`.
pub open spec fn may_locate<T: Sheetable, P: SpreadsheetProvider>(
    provider: P,
    range: RangeView,
    key: Seq<CellView>,
    outcome: Result<Option<RangeView>, (Seq<char>, Seq<char>)>,
) -> bool {
    exists|rows: Seq<Seq<CellView>>, effective: RangeView| #[trigger]
        provider.may_read(range, rows, effective) && locate_outcome::<T>(rows, effective, key)
            == outcome
}

/// The rows of records, in their order.
pub open spec fn rows_of<T: Sheetable>(items: Seq<T>) -> Seq<Seq<CellView>> {
    Seq::new(items.len(), |i: int| items[i].row())
}

/// Records of one type, kept in the rows of one range of a store.
///
/// A table keeps nothing of what it reads: every operation asks the store
/// anew. What an operation answers is therefore told by what the store may
/// return to its read.
pub struct Table<'a, T: Sheetable, P: SpreadsheetProvider> {
    provider: &'a P,
    range: RangeAddress,
    _marker: PhantomData<T>,
}

impl<'a, T: Sheetable, P: SpreadsheetProvider> Table<'a, T, P> {
    /// The range of the table.
    pub closed spec fn range(&self) -> RangeView {
        self.range@
    }

    /// The store of the table.
    pub closed spec fn provider(&self) -> P {
        *self.provider
    }

    /// The table of the records in `range` of the store `provider`.
    pub fn new(provider: &'a P, range: RangeAddress) -> (table: Self)
        ensures
            table.range() == range@,
            table.provider() == *provider,
    {
        Table { provider, range, _marker: PhantomData }
    }

    /// Reads the table's range and returns its records from the top: one for
    /// each row that came back, each as the record type reads its row. No
    /// rows give no records. Only the store can fail.
    pub fn read_all(&self) -> (res: Result<Vec<T>, SheetError<P::Error>>)
        ensures
            match res {
                Ok(items) => may_read_records::<T, P>(
                    self.provider(),
                    self.range(),
                    rows_of(items@),
                ),
                Err(e) => e is Provider,
            },
    {
        match self.provider.read_range(&self.range) {
            Ok(result) => {
                let items = decode_rows::<T>(&result.values);
                proof {
                    let rows = result.values.deep_view();
                    assert(self.provider().may_read(self.range(), rows, result.range@));
                    assert(rows_of(items@) =~= decoded_rows::<T>(rows));
                }
                Ok(items)
            },
            Err(e) => Err(SheetError::Provider(e)),
        }
    }

    /// Reads the table's range and looks for the key of `item` in what came
    /// back, as `locate` does: the address of the first row that holds the
    /// key, nothing where no row does, and `InvalidA1Range` where the row has
    /// no address in the range that the store resolved.
    pub fn range_for_key(&self, item: &T) -> (res: Result<
        Option<RangeAddress>,
        SheetError<P::Error>,
    >)
        ensures
            match res {
                Ok(found) => may_locate::<T, P>(
                    self.provider(),
                    self.range(),
                    T::key_of(item.row()),
                    Ok(found_view(found)),
                ),
                Err(SheetError::InvalidA1Range { range, reason }) => may_locate::<T, P>(
                    self.provider(),
                    self.range(),
                    T::key_of(item.row()),
                    Err((range@, reason@)),
                ),
                Err(e) => e is Provider,
            },
    {
        match self.provider.read_range(&self.range) {
            Ok(result) => {
                proof {
                    assert(self.provider().may_read(
                        self.range(),
                        result.values.deep_view(),
                        result.range@,
                    ));
                }
                match locate::<T>(&result, item) {
                    Ok(found) => Ok(found),
                    Err(refused) => Err(SheetError::invalid_range(refused)),
                }
            },
            Err(e) => Err(SheetError::Provider(e)),
        }
    }

    /// Appends the row of `item` to the table. Nothing is looked up first: a
    /// record whose key is already there is added all the same.
    ///
    /// The store is asked once, to append the row of `item`, alone, to the
    /// range of the table. Its answer is the answer of this call: success
    /// where the store took the row, and the store's own error, as it came,
    /// where it did not. Nothing else can fail.
    pub fn create(&self, item: &T) -> (res: Result<(), SheetError<P::Error>>)
        ensures
            match res {
                Ok(_) => self.provider().may_append(self.range(), seq![item.row()], None),
                Err(SheetError::Provider(e)) => self.provider().may_append(
                    self.range(),
                    seq![item.row()],
                    Some(e),
                ),
                Err(_) => false,
            },
    {
        match self.provider.append_rows(&self.range, single_row(item)) {
            Ok(()) => Ok(()),
            Err(e) => Err(SheetError::Provider(e)),
        }
    }

    /// Overwrites the row that holds the key of `item` with the row of `item`.
    /// The row is looked for as `range_for_key` does. Where no row holds the
    /// key, nothing is written and `KeyNotFound` comes back.
    pub fn edit(&self, item: &T) -> (res: Result<(), SheetError<P::Error>>)
        ensures
            match res {
                Ok(()) => exists|address: RangeView|
                    may_locate::<T, P>(
                        self.provider(),
                        self.range(),
                        T::key_of(item.row()),
                        Ok(Some(address)),
                    ),
                Err(SheetError::KeyNotFound) => may_locate::<T, P>(
                    self.provider(),
                    self.range(),
                    T::key_of(item.row()),
                    Ok(None),
                ),
                Err(SheetError::InvalidA1Range { range, reason }) => may_locate::<T, P>(
                    self.provider(),
                    self.range(),
                    T::key_of(item.row()),
                    Err((range@, reason@)),
                ),
                Err(e) => e is Provider,
            },
    {
        let found = match self.range_for_key(item) {
            Ok(found) => found,
            Err(e) => return Err(e),
        };
        let address = match found_or_missing(found) {
            Ok(address) => address,
            Err(e) => return Err(e),
        };
        match self.provider.write_range(&address, single_row(item)) {
            Ok(()) => Ok(()),
            Err(e) => Err(SheetError::Provider(e)),
        }
    }

    /// Removes the row that holds the key of `item`. The row is looked for as
    /// `range_for_key` does. Where no row holds the key, nothing is removed
    /// and `KeyNotFound` comes back.
    pub fn delete(&self, item: T) -> (res: Result<(), SheetError<P::Error>>)
        ensures
            match res {
                Ok(()) => exists|address: RangeView|
                    may_locate::<T, P>(
                        self.provider(),
                        self.range(),
                        T::key_of(item.row()),
                        Ok(Some(address)),
                    ) && address.span_outcome() is Ok,
                Err(SheetError::KeyNotFound) => may_locate::<T, P>(
                    self.provider(),
                    self.range(),
                    T::key_of(item.row()),
                    Ok(None),
                ),
                Err(SheetError::InvalidA1Range { range, reason }) => may_locate::<T, P>(
                    self.provider(),
                    self.range(),
                    T::key_of(item.row()),
                    Err((range@, reason@)),
                ),
                Err(e) => e is Provider,
            },
    {
        let found = match self.range_for_key(&item) {
            Ok(found) => found,
            Err(e) => return Err(e),
        };
        let address = match found_or_missing(found) {
            Ok(address) => address,
            Err(e) => return Err(e),
        };
        match self.provider.delete_rows(&address) {
            Ok(()) => Ok(()),
            Err(e) => Err(SheetError::Provider(e)),
        }
    }
}

} // verus!

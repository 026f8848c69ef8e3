//! What a table does to a store that keeps its rows in order.
//!
//! A table only talks to its store through ranges. This module tells what
//! that comes to when the store does as its interface says and nobody else
//! writes to it in between: a row that was appended is read back last, a row
//! that was written is read back in its place, and a row that was deleted is
//! gone, with the rows below it moved up. The store is a mathematical value
//! here; what is proved holds of every record type.

use vstd::prelude::*;
use crate::cell::CellView;
use crate::codec::{
    decoded_rows,
    first_match,
    lemma_first_match,
    lemma_first_match_is_first,
    stored_key,
    Sheetable,
};
use crate::range::{AddressKind, RangeView};
use crate::table::locate_outcome;

verus! {

/// The rows of a table as a store holds them, and the range that a read of
/// the table is resolved to. The first row of that range is the first row
/// held.
pub struct StoredTable {
    pub range: RangeView,
    pub rows: Seq<Seq<CellView>>,
}

impl StoredTable {
    /// The range says where the first row is, and every row held has an
    /// address.
    pub open spec fn wf(self) -> bool {
        &&& self.range.wf()
        &&& self.range.has_row_anchor()
        &&& self.range.row_anchor() + self.rows.len() < usize::MAX
    }

    /// The position among the rows held of the row that `address` begins at.
    pub open spec fn position(self, address: RangeView) -> int {
        address.row_anchor() - self.range.row_anchor()
    }

    /// The store after `row` was appended.
    pub open spec fn appended(self, row: Seq<CellView>) -> StoredTable {
        StoredTable { range: self.range, rows: self.rows.push(row) }
    }

    /// The store after the row at `address` was overwritten with `row`.
    pub open spec fn written(self, address: RangeView, row: Seq<CellView>) -> StoredTable {
        StoredTable { range: self.range, rows: self.rows.update(self.position(address), row) }
    }

    /// The store after the row at `address` was deleted.
    pub open spec fn deleted(self, address: RangeView) -> StoredTable {
        StoredTable { range: self.range, rows: self.rows.remove(self.position(address)) }
    }

    /// The store after the records `items` were created one after the other.
    pub open spec fn created<T: Sheetable>(self, items: Seq<T>) -> StoredTable
        decreases items.len(),
    {
        if items.len() == 0 {
            self
        } else {
            self.created(items.drop_last()).appended(items.last().row())
        }
    }
}

/// In a read without rows no key is found, and that is no error.
pub proof fn lemma_locate_in_empty<T: Sheetable>(effective: RangeView, key: Seq<CellView>)
    ensures
        locate_outcome::<T>(Seq::empty(), effective, key) == Ok::<Option<RangeView>, (Seq<char>, Seq<char>)>(
            None,
        ),
{
}

/// A key that no row holds is not found, and that is no error, whatever the
/// range is.
pub proof fn lemma_locate_absent<T: Sheetable>(
    rows: Seq<Seq<CellView>>,
    effective: RangeView,
    key: Seq<CellView>,
)
    requires
        forall|i: int| 0 <= i < rows.len() ==> stored_key::<T>(rows[i]) != key,
    ensures
        locate_outcome::<T>(rows, effective, key) == Ok::<Option<RangeView>, (Seq<char>, Seq<char>)>(None),
{
    lemma_first_match::<T>(rows, key, 0, rows.len() as int);
}

/// Looking for a key never fails but where a row holds it.
pub proof fn lemma_locate_fails_only_on_match<T: Sheetable>(
    rows: Seq<Seq<CellView>>,
    effective: RangeView,
    key: Seq<CellView>,
)
    requires
        locate_outcome::<T>(rows, effective, key) is Err,
    ensures
        exists|i: int| 0 <= i < rows.len() && stored_key::<T>(rows[i]) == key,
{
    lemma_first_match_is_first::<T>(rows, key, 0);
    let i = first_match::<T>(rows, key)->0;
    assert(0 <= i < rows.len() && stored_key::<T>(rows[i]) == key);
}

/// The address that is found for a key is the row of its first match: it
/// lies as many rows below the first row of the range as the match lies below
/// the first row read, it is a single row, and it keeps the sheet and the
/// columns of the range.
pub proof fn lemma_locate_address<T: Sheetable>(store: StoredTable, key: Seq<CellView>, i: int)
    requires
        store.wf(),
        0 <= i < store.rows.len(),
        stored_key::<T>(store.rows[i]) == key,
        forall|j: int| 0 <= j < i ==> stored_key::<T>(store.rows[j]) != key,
    ensures
        locate_outcome::<T>(store.rows, store.range, key) == Ok::<Option<RangeView>, (Seq<char>, Seq<char>)>(
            Some(store.range.with_row_offset(i as usize)),
        ),
        store.range.with_row_offset(i as usize).wf(),
        store.range.with_row_offset(i as usize).has_row_anchor(),
        store.range.with_row_offset(i as usize).row_anchor() == store.range.row_anchor() + i,
        store.range.with_row_offset(i as usize).row_end() == store.range.row_anchor() + i,
        store.range.with_row_offset(i as usize).sheet_name == store.range.sheet_name,
        store.range.with_row_offset(i as usize).kind() == store.range.kind(),
        store.position(store.range.with_row_offset(i as usize)) == i,
{
    lemma_first_match::<T>(store.rows, key, 0, i);
}

/// Creating records and reading all back gives as many records as were
/// created, in the order they were created in, each as it was written. Where
/// their keys differ from one another, each is found in its own row.
pub proof fn lemma_create_then_read<T: Sheetable>(range: RangeView, items: Seq<T>)
    ensures
        (StoredTable { range, rows: Seq::empty() }).created(items).range == range,
        (StoredTable { range, rows: Seq::empty() }).created(items).rows.len() == items.len(),
        forall|k: int|
            0 <= k < items.len() ==> #[trigger] decoded_rows::<T>(
                (StoredTable { range, rows: Seq::empty() }).created(items).rows,
            )[k] == items[k].row(),
        (forall|j: int, k: int|
            0 <= j < k < items.len() ==> T::key_of(items[j].row()) != T::key_of(items[k].row()))
            ==> forall|k: int|
            0 <= k < items.len() ==> #[trigger] first_match::<T>(
                (StoredTable { range, rows: Seq::empty() }).created(items).rows,
                T::key_of(items[k].row()),
            ) == Some(k),
{
    let empty = StoredTable { range, rows: Seq::empty() };
    let rows = empty.created(items).rows;
    lemma_created_rows::<T>(empty, items);
    assert forall|k: int| 0 <= k < items.len() implies #[trigger] decoded_rows::<T>(rows)[k]
        == items[k].row() by {
        items[k].lemma_round_trip();
    }
    if forall|j: int, k: int|
        0 <= j < k < items.len() ==> T::key_of(items[j].row()) != T::key_of(items[k].row()) {
        assert forall|k: int| 0 <= k < items.len() implies #[trigger] first_match::<T>(
            rows,
            T::key_of(items[k].row()),
        ) == Some(k) by {
            let key = T::key_of(items[k].row());
            assert forall|j: int| 0 <= j < k implies stored_key::<T>(rows[j]) != key by {
                items[j].lemma_round_trip();
            }
            items[k].lemma_round_trip();
            lemma_first_match::<T>(rows, key, 0, k);
        }
    }
}

/// Creating records adds their rows below the rows held, in their order.
pub proof fn lemma_created_rows<T: Sheetable>(store: StoredTable, items: Seq<T>)
    ensures
        store.created(items).range == store.range,
        store.created(items).rows.len() == store.rows.len() + items.len(),
        forall|k: int| 0 <= k < store.rows.len() ==> store.created(items).rows[k] == store.rows[k],
        forall|k: int|
            0 <= k < items.len() ==> store.created(items).rows[store.rows.len() + k]
                == #[trigger] items[k].row(),
    decreases items.len(),
{
    if items.len() > 0 {
        let before = items.drop_last();
        lemma_created_rows::<T>(store, before);
        assert forall|k: int| 0 <= k < items.len() implies store.created(items).rows[store.rows.len()
            + k] == #[trigger] items[k].row() by {
            if k < before.len() {
                assert(before[k] == items[k]);
                assert(store.created(before).rows[store.rows.len() + k] == before[k].row());
            }
        }
    }
}

/// Editing a record overwrites the whole row that its key is found in, and
/// no other: the number of rows stays, the rows around it stay, and a read
/// afterwards gives the record as it was written, found by its key in the
/// same row.
pub proof fn lemma_edit_then_read<T: Sheetable>(store: StoredTable, item: T, i: int)
    requires
        store.wf(),
        first_match::<T>(store.rows, T::key_of(item.row())) == Some(i),
    ensures
        locate_outcome::<T>(store.rows, store.range, T::key_of(item.row())) == Ok::<
            Option<RangeView>,
            (Seq<char>, Seq<char>),
        >(Some(store.range.with_row_offset(i as usize))),
        store.written(store.range.with_row_offset(i as usize), item.row()).rows.len()
            == store.rows.len(),
        store.written(store.range.with_row_offset(i as usize), item.row()).rows
            == store.rows.update(i, item.row()),
        forall|j: int|
            0 <= j < store.rows.len() && j != i ==> store.written(
                store.range.with_row_offset(i as usize),
                item.row(),
            ).rows[j] == store.rows[j],
        decoded_rows::<T>(
            store.written(store.range.with_row_offset(i as usize), item.row()).rows,
        )[i] == item.row(),
        first_match::<T>(
            store.written(store.range.with_row_offset(i as usize), item.row()).rows,
            T::key_of(item.row()),
        ) == Some(i),
{
    let key = T::key_of(item.row());
    lemma_first_match_is_first::<T>(store.rows, key, 0);
    lemma_locate_address::<T>(store, key, i);
    let after = store.written(store.range.with_row_offset(i as usize), item.row());
    item.lemma_round_trip();
    lemma_first_match::<T>(after.rows, key, 0, i);
}

/// Deleting a record removes the one row that its key is found in: there is
/// one row less, the rows above it stay, and each row below it moves up by
/// one.
pub proof fn lemma_delete_then_read<T: Sheetable>(store: StoredTable, item: T, i: int)
    requires
        store.wf(),
        first_match::<T>(store.rows, T::key_of(item.row())) == Some(i),
    ensures
        locate_outcome::<T>(store.rows, store.range, T::key_of(item.row())) == Ok::<
            Option<RangeView>,
            (Seq<char>, Seq<char>),
        >(Some(store.range.with_row_offset(i as usize))),
        store.deleted(store.range.with_row_offset(i as usize)).rows.len() == store.rows.len() - 1,
        forall|j: int|
            0 <= j < i ==> store.deleted(store.range.with_row_offset(i as usize)).rows[j]
                == store.rows[j],
        forall|j: int|
            i <= j < store.rows.len() - 1 ==> #[trigger] store.deleted(
                store.range.with_row_offset(i as usize),
            ).rows[j] == store.rows[j + 1],
{
    let key = T::key_of(item.row());
    lemma_first_match_is_first::<T>(store.rows, key, 0);
    lemma_locate_address::<T>(store, key, i);
}

/// An address that is a column range or a set of regions spans no rows that
/// could be deleted.
pub proof fn lemma_no_rows_without_anchor(range: RangeView)
    requires
        range.kind() == AddressKind::ColumnRange || range.kind() == AddressKind::NonContiguous,
    ensures
        range.span_outcome() is Err,
        !range.has_row_anchor(),
{
}

/// The row that is found for a key spans exactly itself, where its sheet is
/// named.
pub proof fn lemma_located_row_span(range: RangeView, offset: usize)
    requires
        range.wf(),
        range.offset_defined(offset),
        range.sheet_name is Some,
    ensures
        range.with_row_offset(offset).span_outcome() matches Ok(span) && span.first_row
            == range.row_anchor() + offset && span.last_row == span.first_row && span.sheet_name
            == range.sheet_name->0,
{
}

/// An address that was found before a row above it was deleted no longer
/// names the row of its record: the record has moved up by one, and the
/// address names the row that came after it. What is written to the address
/// then leaves the record as it was.
pub proof fn lemma_stale_address_after_delete(
    store: StoredTable,
    above: int,
    i: int,
    row: Seq<CellView>,
)
    requires
        store.wf(),
        0 <= above < i < store.rows.len(),
    ensures
        store.deleted(store.range.with_row_offset(above as usize)).rows[i - 1] == store.rows[i],
        i + 1 < store.rows.len() ==> store.deleted(
            store.range.with_row_offset(above as usize),
        ).rows[store.position(store.range.with_row_offset(i as usize))] == store.rows[i + 1],
        i + 1 < store.rows.len() ==> store.deleted(
            store.range.with_row_offset(above as usize),
        ).written(store.range.with_row_offset(i as usize), row).rows[i - 1] == store.rows[i],
{
}

} // verus!

//! Records as rows, and the scan that finds a record by its key.

use vstd::prelude::*;
use crate::cell::{CellValue, CellView};

verus! {

/// A record that is stored as one row of cells.
///
/// The row is the written form of a record: `to_values` gives it, and
/// `from_values` rebuilds a record from a row that was read. A record has no
/// identity but its key, which is a part of its row.
pub trait Sheetable: Sized {
    /// The row a record is written as.
    spec fn row(&self) -> Seq<CellView>;

    /// The row of the record that reading `cells` gives. Cells that do not
    /// hold what the record expects are replaced as the record type sees fit;
    /// a record type does so for all its cells alike.
    spec fn decoded(cells: Seq<CellView>) -> Seq<CellView>;

    /// The logical key held in a record's row.
    spec fn key_of(row: Seq<CellView>) -> Seq<CellView>;

    /// Reading back what was written gives the record that was written, as
    /// far as its row tells.
    proof fn lemma_round_trip(&self)
        ensures
            Self::decoded(self.row()) == self.row(),
    ;

    fn to_values(&self) -> (cells: Vec<CellValue>)
        ensures
            cells.deep_view() == self.row(),
    ;

    fn from_values(values: Vec<CellValue>) -> (item: Self)
        ensures
            item.row() == Self::decoded(values.deep_view()),
    ;

    fn get_key(&self) -> (key: Vec<CellValue>)
        ensures
            key.deep_view() == Self::key_of(self.row()),
    ;
}

/// The key of the record that a stored row holds.
pub open spec fn stored_key<T: Sheetable>(row: Seq<CellView>) -> Seq<CellView> {
    T::key_of(T::decoded(row))
}

/// The records that stored rows hold, each by its row, in the order of the
/// rows.
pub open spec fn decoded_rows<T: Sheetable>(rows: Seq<Seq<CellView>>) -> Seq<Seq<CellView>> {
    Seq::new(rows.len(), |i: int| T::decoded(rows[i]))
}

/// The position of the first row at or after `from` whose record has the key
/// `key`, if there is one.
pub open spec fn first_match_from<T: Sheetable>(
    rows: Seq<Seq<CellView>>,
    key: Seq<CellView>,
    from: int,
) -> Option<int>
    decreases rows.len() - from,
{
    if from < 0 || from >= rows.len() {
        None
    } else if stored_key::<T>(rows[from]) == key {
        Some(from)
    } else {
        first_match_from::<T>(rows, key, from + 1)
    }
}

/// The position of the first row whose record has the key `key`, if there is
/// one.
pub open spec fn first_match<T: Sheetable>(rows: Seq<Seq<CellView>>, key: Seq<CellView>) -> Option<
    int,
> {
    first_match_from::<T>(rows, key, 0)
}

/// A scan that met no match before `k` and stops at `k` has found the first
/// match, or none if `k` is the end.
pub proof fn lemma_first_match<T: Sheetable>(
    rows: Seq<Seq<CellView>>,
    key: Seq<CellView>,
    from: int,
    k: int,
)
    requires
        0 <= from <= k <= rows.len(),
        forall|j: int| from <= j < k ==> stored_key::<T>(rows[j]) != key,
        k == rows.len() || stored_key::<T>(rows[k]) == key,
    ensures
        first_match_from::<T>(rows, key, from) == (if k == rows.len() {
            None
        } else {
            Some(k)
        }),
    decreases k - from,
{
    if from < k {
        lemma_first_match::<T>(rows, key, from + 1, k);
    }
}

/// The first match is a match, and no row before it is one.
pub proof fn lemma_first_match_is_first<T: Sheetable>(
    rows: Seq<Seq<CellView>>,
    key: Seq<CellView>,
    from: int,
)
    requires
        0 <= from,
    ensures
        match first_match_from::<T>(rows, key, from) {
            Some(i) => from <= i < rows.len() && stored_key::<T>(rows[i]) == key && forall|j: int|
                from <= j < i ==> stored_key::<T>(rows[j]) != key,
            None => forall|j: int| from <= j < rows.len() ==> stored_key::<T>(rows[j]) != key,
        },
    decreases rows.len() - from,
{
    if from < rows.len() && stored_key::<T>(rows[from]) != key {
        lemma_first_match_is_first::<T>(rows, key, from + 1);
    }
}

/// A copy of a cell.
pub fn copy_cell(cell: &CellValue) -> (copy: CellValue)
    ensures
        copy@ == cell@,
{
    match cell {
        CellValue::Null => CellValue::Null,
        CellValue::Bool(b) => CellValue::Bool(*b),
        CellValue::Number(n) => CellValue::Number(*n),
        CellValue::Text(s) => CellValue::Text(s.clone()),
    }
}

/// A copy of a row.
pub fn copy_row(row: &Vec<CellValue>) -> (copy: Vec<CellValue>)
    ensures
        copy.deep_view() == row.deep_view(),
{
    let mut copy: Vec<CellValue> = Vec::new();
    let mut i: usize = 0;
    while i < row.len()
        invariant
            i <= row.len(),
            copy.len() == i,
            forall|j: int| 0 <= j < i ==> copy@[j]@ == row@[j]@,
        decreases row.len() - i,
    {
        copy.push(copy_cell(&row[i]));
        i += 1;
    }
    assert(copy.deep_view() =~= row.deep_view());
    copy
}

/// Whether two rows hold the same cells in the same order.
pub fn same_cells(a: &Vec<CellValue>, b: &Vec<CellValue>) -> (same: bool)
    ensures
        same == (a.deep_view() == b.deep_view()),
{
    if a.len() != b.len() {
        assert(a.deep_view().len() != b.deep_view().len());
        return false;
    }
    let mut i: usize = 0;
    while i < a.len()
        invariant
            i <= a.len(),
            a.len() == b.len(),
            forall|j: int| 0 <= j < i ==> a@[j]@ == b@[j]@,
        decreases a.len() - i,
    {
        if !(a[i] == b[i]) {
            assert(a.deep_view()[i as int] != b.deep_view()[i as int]);
            return false;
        }
        i += 1;
    }
    assert(a.deep_view() =~= b.deep_view());
    true
}

/// Reads every row as a record, in the order of the rows. No rows give no
/// records.
pub fn decode_rows<T: Sheetable>(rows: &Vec<Vec<CellValue>>) -> (items: Vec<T>)
    ensures
        items.len() == rows.len(),
        forall|i: int|
            0 <= i < items.len() ==> (#[trigger] items[i]).row() == decoded_rows::<T>(
                rows.deep_view(),
            )[i],
{
    let mut items: Vec<T> = Vec::new();
    let mut i: usize = 0;
    while i < rows.len()
        invariant
            i <= rows.len(),
            items.len() == i,
            forall|j: int|
                0 <= j < i ==> (#[trigger] items[j]).row() == T::decoded(rows.deep_view()[j]),
        decreases rows.len() - i,
    {
        assert(rows.deep_view()[i as int] == rows@[i as int].deep_view());
        let item = T::from_values(copy_row(&rows[i]));
        items.push(item);
        i += 1;
    }
    items
}

/// Scans the rows from the top and returns the position of the first one
/// whose record has the key `key`. Two keys are the same when they hold the
/// same cells in the same order.
pub fn find_key<T: Sheetable>(rows: &Vec<Vec<CellValue>>, key: &Vec<CellValue>) -> (found: Option<
    usize,
>)
    ensures
        match first_match::<T>(rows.deep_view(), key.deep_view()) {
            Some(i) => found == Some(i as usize) && i < rows.len(),
            None => found is None,
        },
{
    let mut i: usize = 0;
    while i < rows.len()
        invariant
            i <= rows.len(),
            forall|j: int|
                0 <= j < i ==> stored_key::<T>(rows.deep_view()[j]) != key.deep_view(),
        decreases rows.len() - i,
    {
        assert(rows.deep_view()[i as int] == rows@[i as int].deep_view());
        let candidate = T::from_values(copy_row(&rows[i])).get_key();
        if same_cells(&candidate, key) {
            proof {
                lemma_first_match::<T>(rows.deep_view(), key.deep_view(), 0, i as int);
            }
            return Some(i);
        }
        i += 1;
    }
    proof {
        lemma_first_match::<T>(rows.deep_view(), key.deep_view(), 0, rows.len() as int);
    }
    None
}

} // verus!

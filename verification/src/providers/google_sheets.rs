//! What is decided around the calls to Google Sheets.
//!
//! The calls themselves are made elsewhere. Here is what is computed before
//! a request goes out and after an answer has come in: which rows a request
//! to delete names, which sheet of the document it means, and what an answer
//! to a read amounts to.

use vstd::prelude::*;
use vstd::string::StringExecFns;
use crate::cell::{CellValue, CellView};
use crate::providers::RangeResult;
use crate::range::{parse_outcome, InvalidRange, RangeAddress, RangeView};

verus! {

/// The failures that are found without asking the service.
#[derive(Debug)]
pub enum GoogleSheetError {
    /// An answer lacks what is needed to go on: the range a read was resolved
    /// to, or the sheet a request names.
    MissingEffectiveRange(String),
    /// A range address is malformed, or of a shape that the request has no
    /// use for.
    InvalidA1Range { range: String, reason: String },
}

impl GoogleSheetError {
    /// The failure that a refused address stands for.
    pub fn invalid_range(refused: InvalidRange) -> (error: GoogleSheetError)
        ensures
            error matches GoogleSheetError::InvalidA1Range { range, reason } && range@
                == refused.range@ && reason@ == refused.reason@,
    {
        GoogleSheetError::InvalidA1Range { range: refused.range, reason: refused.reason }
    }
}

/// What a document says of one of its sheets, as far as it says it.
#[derive(Debug, Clone)]
pub struct SheetProperties {
    pub title: Option<String>,
    pub sheet_id: Option<i32>,
}

/// The rows to delete, as the service counts them: on the sheet of this name,
/// from `start_index` up to but not including `end_index`, counted from zero.
#[derive(Debug)]
pub struct DeleteRowsRequest {
    pub sheet_name: String,
    pub start_index: i32,
    pub end_index: i32,
}

/// The rows to delete, as a mathematical value.
pub struct DeleteRowsView {
    pub sheet_name: Seq<char>,
    pub start_index: int,
    pub end_index: int,
}

impl View for DeleteRowsRequest {
    type V = DeleteRowsView;

    open spec fn view(&self) -> DeleteRowsView {
        DeleteRowsView {
            sheet_name: self.sheet_name@,
            start_index: self.start_index as int,
            end_index: self.end_index as int,
        }
    }
}

/// What a request to delete the rows of an address amounts to: the rows, or
/// the address text and the reason why it names none. The rows are those the
/// address spans; the last of them must have a number that the service can
/// take.
pub open spec fn delete_outcome(range: RangeView) -> Result<DeleteRowsView, (Seq<char>, Seq<char>)> {
    match range.span_outcome() {
        Err(failure) => Err(failure),
        Ok(span) => if span.last_row < i32::MAX {
            Ok(
                DeleteRowsView {
                    sheet_name: span.sheet_name,
                    start_index: span.first_row as int,
                    end_index: span.last_row + 1,
                },
            )
        } else {
            Err((range.text(), "Row index out of bounds"@))
        },
    }
}

/// Works out which rows a request to delete `range` names. The columns of the
/// range are passed over. A column range, a set of regions and an address
/// without a sheet name are refused.
pub fn delete_rows_request(range: &RangeAddress) -> (res: Result<
    DeleteRowsRequest,
    GoogleSheetError,
>)
    ensures
        match delete_outcome(range@) {
            Ok(v) => res matches Ok(request) && request@ == v,
            Err(failure) => res matches Err(GoogleSheetError::InvalidA1Range { range: text, reason })
                && text@ == failure.0 && reason@ == failure.1,
        },
{
    match range.row_span() {
        Err(refused) => Err(GoogleSheetError::invalid_range(refused)),
        Ok(span) => {
            if span.last_row < 2147483647 {
                Ok(
                    DeleteRowsRequest {
                        sheet_name: span.sheet_name,
                        start_index: span.first_row as i32,
                        end_index: (span.last_row + 1) as i32,
                    },
                )
            } else {
                Err(
                    GoogleSheetError::InvalidA1Range {
                        range: range.to_text(),
                        reason: "Row index out of bounds".to_owned(),
                    },
                )
            }
        },
    }
}

/// Whether what a document says of a sheet gives it the title `name`.
pub open spec fn has_title(sheet: Option<SheetProperties>, name: Seq<char>) -> bool {
    match sheet {
        Some(properties) => match properties.title {
            Some(title) => title@ == name,
            None => false,
        },
        None => false,
    }
}

/// The position of the first sheet at or after `from` that has the title
/// `name`, if there is one.
pub open spec fn first_titled(sheets: Seq<Option<SheetProperties>>, name: Seq<char>, from: int) -> Option<
    int,
>
    decreases sheets.len() - from,
{
    if from < 0 || from >= sheets.len() {
        None
    } else if has_title(sheets[from], name) {
        Some(from)
    } else {
        first_titled(sheets, name, from + 1)
    }
}

/// The identifier of the sheet called `name`: that of the first sheet with
/// this title, if the document gives it.
pub open spec fn sheet_id_of(sheets: Option<Seq<Option<SheetProperties>>>, name: Seq<char>) -> Result<
    i32,
    Seq<char>,
> {
    match sheets {
        None => Err("No sheets were found in the document"@),
        Some(list) => match first_titled(list, name, 0) {
            Some(i) => match list[i]->0.sheet_id {
                Some(id) => Ok(id),
                None => Err("Unable to obtain sheet id for sheet '"@ + name + "'"@),
            },
            None => Err("Unable to obtain sheet id for sheet '"@ + name + "'"@),
        },
    }
}

/// The sheets of a document as a sequence.
pub open spec fn sheets_view(sheets: Option<Vec<Option<SheetProperties>>>) -> Option<
    Seq<Option<SheetProperties>>,
> {
    match sheets {
        Some(list) => Some(list@),
        None => None,
    }
}

proof fn lemma_first_titled(
    sheets: Seq<Option<SheetProperties>>,
    name: Seq<char>,
    from: int,
    k: int,
)
    requires
        0 <= from <= k <= sheets.len(),
        forall|j: int| from <= j < k ==> !has_title(sheets[j], name),
        k == sheets.len() || has_title(sheets[k], name),
    ensures
        first_titled(sheets, name, from) == (if k == sheets.len() {
            None
        } else {
            Some(k)
        }),
    decreases k - from,
{
    if from < k {
        lemma_first_titled(sheets, name, from + 1, k);
    }
}

fn no_sheet_id(sheet_name: &str) -> (error: GoogleSheetError)
    ensures
        error matches GoogleSheetError::MissingEffectiveRange(message) && message@
            == "Unable to obtain sheet id for sheet '"@ + sheet_name@ + "'"@,
{
    let message = "Unable to obtain sheet id for sheet '".to_owned().concat(sheet_name).concat("'");
    GoogleSheetError::MissingEffectiveRange(message)
}

/// Looks up the identifier of the sheet called `sheet_name` among the sheets
/// of a document. The first sheet with this title counts, whether or not the
/// document gives its identifier.
pub fn find_sheet_id(sheets: &Option<Vec<Option<SheetProperties>>>, sheet_name: &str) -> (res:
    Result<i32, GoogleSheetError>)
    ensures
        match sheet_id_of(sheets_view(*sheets), sheet_name@) {
            Ok(id) => res == Ok::<i32, GoogleSheetError>(id),
            Err(message) => res matches Err(GoogleSheetError::MissingEffectiveRange(m)) && m@
                == message,
        },
{
    let list = match sheets {
        Some(list) => list,
        None => {
            return Err(
                GoogleSheetError::MissingEffectiveRange(
                    "No sheets were found in the document".to_owned(),
                ),
            );
        },
    };
    let wanted = sheet_name.to_owned();
    let mut i: usize = 0;
    while i < list.len()
        invariant
            i <= list.len(),
            wanted@ == sheet_name@,
            sheets_view(*sheets) == Some(list@),
            forall|j: int| 0 <= j < i ==> !has_title(list@[j], sheet_name@),
        decreases list.len() - i,
    {
        let titled = match &list[i] {
            Some(properties) => match &properties.title {
                Some(title) => *title == wanted,
                None => false,
            },
            None => false,
        };
        if titled {
            proof {
                lemma_first_titled(list@, sheet_name@, 0, i as int);
            }
            return match &list[i] {
                Some(properties) => match properties.sheet_id {
                    Some(id) => Ok(id),
                    None => Err(no_sheet_id(sheet_name)),
                },
                None => Err(no_sheet_id(sheet_name)),
            };
        }
        i += 1;
    }
    proof {
        lemma_first_titled(list@, sheet_name@, 0, list.len() as int);
    }
    Err(no_sheet_id(sheet_name))
}

/// The rows of an answer: those it holds, and none if it holds none.
pub open spec fn rows_view(values: Option<Vec<Vec<CellValue>>>) -> Seq<Seq<CellView>> {
    match values {
        Some(rows) => rows.deep_view(),
        None => Seq::empty(),
    }
}

/// Turns the answer to a read of `requested` into its result.
///
/// An answer without rows stands for an empty range and gives no rows. The
/// range that the service resolved must be there and must be an address, for
/// the rows are numbered by it.
pub fn read_result(
    requested: &RangeAddress,
    values: Option<Vec<Vec<CellValue>>>,
    effective: Option<String>,
) -> (res: Result<RangeResult, GoogleSheetError>)
    ensures
        match effective {
            None => res matches Err(GoogleSheetError::MissingEffectiveRange(text)) && text@
                == requested@.text(),
            Some(text) => match parse_outcome(text@) {
                Ok(v) => res matches Ok(result) && result.range@ == v
                    && result.values.deep_view() == rows_view(values),
                Err(message) => res matches Err(
                    GoogleSheetError::InvalidA1Range { range, reason },
                ) && range@ == text@ && reason@ == message,
            },
        },
{
    let rows = match values {
        Some(rows) => rows,
        None => Vec::new(),
    };
    assert(rows.deep_view() =~= rows_view(values));
    match effective {
        None => Err(GoogleSheetError::MissingEffectiveRange(requested.to_text())),
        Some(text) => match RangeAddress::parse(text.as_str()) {
            Ok(range) => Ok(RangeResult { values: rows, range }),
            Err(refused) => Err(GoogleSheetError::invalid_range(refused)),
        },
    }
}

} // verus!

//! Addresses of regions of the grid.
//!
//! An address is written in A1 notation, with an optional sheet name in
//! front: `A1`, `A1:B2`, `A:B`, `2:5`, `Sheet1!A1:B3`. Reading and writing
//! that notation is the work of the `a1_notation` crate. This module holds an
//! address as plain numbers, which is what the row arithmetic of a table works
//! on.

use vstd::prelude::*;
use a1_notation::RangeOrCell::{Cell, ColumnRange, NonContiguous, Range, RowRange};
use a1_notation::{Address, RangeOrCell, A1};
use std::str::FromStr;

verus! {

/// One contiguous region. Columns and rows are counted from zero, so the cell
/// `B3` is `Cell(1, 2)`.
#[derive(Clone, Copy, Debug, PartialEq, Eq, Structural)]
pub enum Area {
    /// A single cell: column, row.
    Cell(usize, usize),
    /// A rectangle: column and row it starts at, column and row it ends at.
    Range(usize, usize, usize, usize),
    /// Whole columns: first, last.
    Columns(usize, usize),
    /// Whole rows: first, last.
    Rows(usize, usize),
}

/// The shape of an address.
#[derive(Clone, Copy, Debug, PartialEq, Eq, Structural)]
pub enum AddressKind {
    Cell,
    Range,
    RowRange,
    ColumnRange,
    NonContiguous,
}

impl Area {
    /// Whether the region says at which row it starts.
    pub open spec fn has_rows(self) -> bool {
        !(self is Columns)
    }

    /// The row the region starts at.
    pub open spec fn first_row(self) -> usize {
        match self {
            Area::Cell(_, row) => row,
            Area::Range(_, row, _, _) => row,
            Area::Rows(row, _) => row,
            Area::Columns(_, _) => 0,
        }
    }

    /// The row the region ends at.
    pub open spec fn last_row(self) -> usize {
        match self {
            Area::Cell(_, row) => row,
            Area::Range(_, _, _, row) => row,
            Area::Rows(_, row) => row,
            Area::Columns(_, _) => 0,
        }
    }

    /// Every row of the region has a one-based number that fits the machine.
    pub open spec fn rows_fit(self) -> bool {
        self.first_row() < usize::MAX && self.last_row() < usize::MAX
    }

    /// The same columns, on the single row `row`.
    pub open spec fn on_row(self, row: usize) -> Area {
        match self {
            Area::Cell(column, _) => Area::Cell(column, row),
            Area::Range(from, _, to, _) => Area::Range(from, row, to, row),
            Area::Rows(_, _) => Area::Rows(row, row),
            Area::Columns(from, to) => Area::Columns(from, to),
        }
    }

    /// The shape of the region.
    pub open spec fn kind(self) -> AddressKind {
        match self {
            Area::Cell(_, _) => AddressKind::Cell,
            Area::Range(_, _, _, _) => AddressKind::Range,
            Area::Rows(_, _) => AddressKind::RowRange,
            Area::Columns(_, _) => AddressKind::ColumnRange,
        }
    }
}

/// An address as a mathematical value.
pub struct RangeView {
    pub sheet_name: Option<Seq<char>>,
    pub areas: Seq<Area>,
}

impl RangeView {
    /// An address names at least one region, and all its rows can be written
    /// as one-based numbers.
    pub open spec fn wf(self) -> bool {
        &&& self.areas.len() >= 1
        &&& forall|i: int| 0 <= i < self.areas.len() ==> (#[trigger] self.areas[i]).rows_fit()
    }

    /// The shape of the address: that of its region, or a set where it has
    /// more than one.
    pub open spec fn kind(self) -> AddressKind {
        if self.areas.len() == 1 {
            self.areas[0].kind()
        } else {
            AddressKind::NonContiguous
        }
    }

    /// A cell, a rectangle and a row range say where their first row is. A
    /// column range and a set of regions do not.
    pub open spec fn has_row_anchor(self) -> bool {
        self.areas.len() == 1 && self.areas[0].has_rows()
    }

    /// The first row of an address that has one.
    pub open spec fn row_anchor(self) -> usize {
        self.areas[0].first_row()
    }

    /// The last row of an address that has a first one.
    pub open spec fn row_end(self) -> usize {
        self.areas[0].last_row()
    }

    /// Whether the row `offset` rows below the anchor can be addressed.
    pub open spec fn offset_defined(self, offset: usize) -> bool {
        self.has_row_anchor() && self.row_anchor() + offset < usize::MAX
    }

    /// The single row `offset` rows below the anchor, within the same columns
    /// and on the same sheet.
    pub open spec fn with_row_offset(self, offset: usize) -> RangeView {
        RangeView {
            sheet_name: self.sheet_name,
            areas: seq![self.areas[0].on_row((self.row_anchor() + offset) as usize)],
        }
    }

    /// What asking for the row `offset` rows below the anchor gives: its
    /// address, or the reason why there is none.
    pub open spec fn offset_outcome(self, offset: usize) -> Result<RangeView, Seq<char>> {
        if !self.has_row_anchor() {
            Err("address has no row anchor"@)
        } else if !self.offset_defined(offset) {
            Err("row offset out of bounds"@)
        } else {
            Ok(self.with_row_offset(offset))
        }
    }

    /// What asking for the rows that the address spans gives: the sheet and
    /// the rows, or the reason why there are none. A column range and a set of
    /// regions span no rows of their own, and rows can only be told apart on
    /// a named sheet.
    pub open spec fn span_outcome(self) -> Result<RowSpanView, (Seq<char>, Seq<char>)> {
        if self.kind() == AddressKind::ColumnRange {
            Err((self.reference_text(), "Range for deleting rows may not be a column range"@))
        } else if self.kind() == AddressKind::NonContiguous {
            Err((self.reference_text(), "Range for deleting rows may not be non contiguous"@))
        } else {
            match self.sheet_name {
                None => Err((self.text(), "Range must include a sheet name"@)),
                Some(name) => Ok(
                    RowSpanView {
                        sheet_name: name,
                        first_row: if self.row_anchor() <= self.row_end() {
                            self.row_anchor()
                        } else {
                            self.row_end()
                        },
                        last_row: if self.row_anchor() <= self.row_end() {
                            self.row_end()
                        } else {
                            self.row_anchor()
                        },
                    },
                ),
            }
        }
    }

    /// The text of the address.
    pub open spec fn text(self) -> Seq<char> {
        a1_format(self.sheet_name, self.areas)
    }

    /// The text of the address without its sheet name.
    pub open spec fn reference_text(self) -> Seq<char> {
        a1_format(None, self.areas)
    }
}

/// A text that is no address, or an address that an operation has no use for.
#[derive(Debug)]
pub struct InvalidRange {
    pub range: String,
    pub reason: String,
}

/// The rows that an address spans on a named sheet, both ends included.
#[derive(Debug)]
pub struct RowSpan {
    pub sheet_name: String,
    pub first_row: usize,
    pub last_row: usize,
}

/// The rows that an address spans, as a mathematical value.
pub struct RowSpanView {
    pub sheet_name: Seq<char>,
    pub first_row: usize,
    pub last_row: usize,
}

impl View for RowSpan {
    type V = RowSpanView;

    open spec fn view(&self) -> RowSpanView {
        RowSpanView {
            sheet_name: self.sheet_name@,
            first_row: self.first_row,
            last_row: self.last_row,
        }
    }
}

/// What `a1_notation` reads from a text: the sheet name and the regions, or
/// the message it rejects the text with.
pub uninterp spec fn a1_parse(text: Seq<char>) -> Result<RangeView, Seq<char>>;

/// The text that `a1_notation` writes for a sheet name and regions.
pub uninterp spec fn a1_format(sheet_name: Option<Seq<char>>, areas: Seq<Area>) -> Seq<char>;

/// Whether a character is one of the letters that name columns.
pub open spec fn is_letter(c: char) -> bool {
    ('a' <= c <= 'z') || ('A' <= c <= 'Z')
}

/// Whether a character is one of the digits that number rows.
pub open spec fn is_digit(c: char) -> bool {
    '0' <= c <= '9'
}

/// The position of the first `!` at or after `from`, or the length of the
/// text if there is none.
pub open spec fn first_bang(text: Seq<char>, from: int) -> int
    decreases text.len() - from,
{
    if from < 0 || from >= text.len() {
        text.len() as int
    } else if text[from] == '!' {
        from
    } else {
        first_bang(text, from + 1)
    }
}

/// Where the part of a text that can name regions begins: behind the first
/// `!`, or at the start if the text has none.
pub open spec fn reference_start(text: Seq<char>) -> int {
    if first_bang(text, 0) < text.len() {
        first_bang(text, 0) + 1
    } else {
        0
    }
}

/// How many letters stand in a row just before position `i`.
pub open spec fn letters_before(text: Seq<char>, i: int) -> nat
    decreases i,
{
    if i <= 0 || i > text.len() || !is_letter(text[i - 1]) {
        0
    } else {
        1 + letters_before(text, i - 1)
    }
}

/// How many digits stand in a row just before position `i`.
pub open spec fn digits_before(text: Seq<char>, i: int) -> nat
    decreases i,
{
    if i <= 0 || i > text.len() || !is_digit(text[i - 1]) {
        0
    } else {
        1 + digits_before(text, i - 1)
    }
}

/// Whether a text holds a quote, as a sheet name written in quotes does.
pub open spec fn has_quote(text: Seq<char>) -> bool {
    exists|i: int| 0 <= i < text.len() && #[trigger] text[i] == '\''
}

/// The texts that are handed to the parser.
///
/// Behind the first `!` (in the whole text, if it has none) the text is
/// plain ASCII without `$`, a column name has at most six letters, a row
/// number at most nine digits, and a `:` stands between letters or digits. A
/// text that holds a quote is plain ASCII throughout.
pub open spec fn parse_supported(text: Seq<char>) -> bool {
    &&& has_quote(text) ==> forall|i: int| 0 <= i < text.len() ==> #[trigger] text[i] <= '\u{7f}'
    &&& forall|i: int| reference_start(text) <= i < text.len() ==> #[trigger] text[i] <= '\u{7f}'
    &&& forall|i: int| reference_start(text) <= i < text.len() ==> #[trigger] text[i] != '$'
    &&& forall|i: int|
        reference_start(text) < i <= text.len() ==> #[trigger] letters_before(text, i) <= 6
    &&& forall|i: int|
        reference_start(text) < i <= text.len() ==> #[trigger] digits_before(text, i) <= 9
    &&& forall|i: int|
        reference_start(text) <= i < text.len() && #[trigger] text[i] == ':' ==> {
            &&& reference_start(text) < i
            &&& i + 1 < text.len()
            &&& is_letter(text[i - 1]) || is_digit(text[i - 1])
            &&& is_letter(text[i + 1]) || is_digit(text[i + 1])
        }
}

/// Calls `A1::from_str` of `a1_notation` and hands its result out as plain
/// values: the sheet name and the regions in their order, or the parser's
/// message. The result is named `a1_parse`: the contract claims that it
/// depends on the text alone, and nothing else. The texts admitted are those
/// on which the parser's indexing and arithmetic cannot fail: it slices the
/// part behind the sheet name, and a sheet name in quotes, by counting
/// characters, and it adds up column letters without a bound. A set nested in
/// a set, which the parser never builds, counts as a failure.
#[verifier::external_body]
fn parse_outside(text: &str) -> (res: Result<(Option<String>, Vec<Area>), String>)
    requires
        parse_supported(text@),
    ensures
        match a1_parse(text@) {
            Ok(v) => res matches Ok(p) && sheet_view(p.0) == v.sheet_name && p.1@ == v.areas,
            Err(m) => res matches Err(e) && e@ == m,
        },
{
    let a = A1::from_str(text).map_err(|e| e.to_string())?;
    let parts = match a.reference { NonContiguous(v) => v, r => vec![r] };
    let mut areas = Vec::new();
    for p in parts {
        areas.push(match p {
            Cell(c) => Area::Cell(c.column.x, c.row.y),
            Range { from, to } => Area::Range(from.column.x, from.row.y, to.column.x, to.row.y),
            ColumnRange { from, to } => Area::Columns(from.x, to.x),
            RowRange { from, to } => Area::Rows(from.y, to.y),
            _ => return Err(String::new()),
        });
    }
    Ok((a.sheet_name, areas))
}

/// Builds an `A1` of `a1_notation` from a sheet name and regions and returns
/// what its `to_string` writes. The result is named `a1_format`: the contract
/// claims that it depends on the arguments alone. Rows must have a one-based
/// number that fits the machine, which the crate computes.
#[verifier::external_body]
fn format_outside(sheet_name: &Option<String>, areas: &Vec<Area>) -> (text: String)
    requires
        forall|i: int| 0 <= i < areas@.len() ==> (#[trigger] areas@[i]).rows_fit(),
    ensures
        text@ == a1_format(sheet_view(*sheet_name), areas@),
{
    let parts = areas.iter().map(|p| match *p {
        Area::Cell(x, y) => RangeOrCell::Cell(Address::new(x, y)),
        Area::Range(a, b, c, d) => RangeOrCell::range((a, b), (c, d)),
        Area::Columns(a, b) => RangeOrCell::column_range(a, b),
        Area::Rows(a, b) => RangeOrCell::row_range(a, b),
    }).collect();
    A1 { sheet_name: sheet_name.clone(), reference: RangeOrCell::NonContiguous(parts) }.to_string()
}

/// A sheet name as a sequence of characters.
pub open spec fn sheet_view(sheet_name: Option<String>) -> Option<Seq<char>> {
    match sheet_name {
        Some(name) => Some(name@),
        None => None,
    }
}

/// The first `!` of a text stands where a scan from the left finds it.
proof fn lemma_first_bang(text: Seq<char>, from: int, k: int)
    requires
        0 <= from <= k <= text.len(),
        forall|j: int| from <= j < k ==> text[j] != '!',
        k == text.len() || text[k] == '!',
    ensures
        first_bang(text, from) == k,
    decreases k - from,
{
    if from < k {
        lemma_first_bang(text, from + 1, k);
    }
}

fn is_alphanumeric(c: char) -> (yes: bool)
    ensures
        yes == (is_letter(c) || is_digit(c)),
{
    (c >= 'a' && c <= 'z') || (c >= 'A' && c <= 'Z') || (c >= '0' && c <= '9')
}

/// Whether a text is one that the parser is asked about.
pub fn is_supported(text: &str) -> (ok: bool)
    ensures
        ok == parse_supported(text@),
{
    let n = text.unicode_len();
    let mut start: usize = 0;
    let mut found = false;
    let mut quoted = false;
    let mut plain = true;
    let mut i: usize = 0;
    while i < n
        invariant
            i <= n,
            n == text@.len(),
            quoted == (exists|j: int| 0 <= j < i && #[trigger] text@[j] == '\''),
            plain == (forall|j: int| 0 <= j < i ==> #[trigger] text@[j] <= '\u{7f}'),
            found ==> 0 < start <= i && text@[start - 1] == '!' && forall|j: int|
                0 <= j < start - 1 ==> text@[j] != '!',
            !found ==> start == 0 && forall|j: int| 0 <= j < i ==> text@[j] != '!',
        decreases n - i,
    {
        let c = text.get_char(i);
        if c == '\'' {
            quoted = true;
        }
        if c > '\u{7f}' {
            plain = false;
        }
        if c == '!' && !found {
            found = true;
            start = i + 1;
        }
        i += 1;
    }
    proof {
        if found {
            lemma_first_bang(text@, 0, start - 1);
        } else {
            lemma_first_bang(text@, 0, n as int);
        }
        assert(reference_start(text@) == start);
        assert(quoted == has_quote(text@));
    }
    if quoted && !plain {
        return false;
    }
    let mut letters: usize = 0;
    let mut digits: usize = 0;
    let mut i: usize = start;
    while i < n
        invariant
            start <= i <= n,
            n == text@.len(),
            reference_start(text@) == start,
            has_quote(text@) ==> forall|j: int| 0 <= j < n ==> #[trigger] text@[j] <= '\u{7f}',
            letters == letters_before(text@, i as int),
            digits == digits_before(text@, i as int),
            forall|j: int| start <= j < i ==> #[trigger] text@[j] <= '\u{7f}',
            forall|j: int| start <= j < i ==> #[trigger] text@[j] != '$',
            forall|j: int| start < j <= i ==> #[trigger] letters_before(text@, j) <= 6,
            forall|j: int| start < j <= i ==> #[trigger] digits_before(text@, j) <= 9,
            forall|j: int|
                start <= j < i && #[trigger] text@[j] == ':' ==> {
                    &&& start < j
                    &&& j + 1 < n
                    &&& is_letter(text@[j - 1]) || is_digit(text@[j - 1])
                    &&& is_letter(text@[j + 1]) || is_digit(text@[j + 1])
                },
        decreases n - i,
    {
        let c = text.get_char(i);
        if c > '\u{7f}' || c == '$' {
            return false;
        }
        if (c >= 'a' && c <= 'z') || (c >= 'A' && c <= 'Z') {
            if letters >= 6 {
                assert(letters_before(text@, i + 1) > 6);
                return false;
            }
            letters += 1;
            digits = 0;
        } else if c >= '0' && c <= '9' {
            if digits >= 9 {
                assert(digits_before(text@, i + 1) > 9);
                return false;
            }
            digits += 1;
            letters = 0;
        } else {
            letters = 0;
            digits = 0;
        }
        if c == ':' {
            if i == start || i + 1 >= n {
                return false;
            }
            if !is_alphanumeric(text.get_char(i - 1)) || !is_alphanumeric(text.get_char(i + 1)) {
                return false;
            }
        }
        i += 1;
    }
    true
}

/// A region of the grid, possibly on a named sheet.
#[derive(Debug)]
pub struct RangeAddress {
    sheet_name: Option<String>,
    areas: Vec<Area>,
}

impl View for RangeAddress {
    type V = RangeView;

    closed spec fn view(&self) -> RangeView {
        RangeView { sheet_name: sheet_view(self.sheet_name), areas: self.areas@ }
    }
}

/// What reading a text gives: the address, or the reason why there is none.
pub open spec fn parse_outcome(text: Seq<char>) -> Result<RangeView, Seq<char>> {
    if parse_supported(text) {
        parsed_outcome(a1_parse(text))
    } else {
        Err("text is outside the supported A1 notation"@)
    }
}

/// What the parser's answer gives: its address if that is well formed, its
/// message if it has none.
pub open spec fn parsed_outcome(parsed: Result<RangeView, Seq<char>>) -> Result<
    RangeView,
    Seq<char>,
> {
    match parsed {
        Ok(v) => if v.wf() {
            Ok(v)
        } else {
            Err("address is out of bounds"@)
        },
        Err(message) => Err(message),
    }
}

/// Whether regions make an address.
fn areas_well_formed(areas: &Vec<Area>) -> (ok: bool)
    ensures
        ok == (RangeView { sheet_name: None, areas: areas@ }).wf(),
{
    if areas.len() == 0 {
        return false;
    }
    let mut i: usize = 0;
    while i < areas.len()
        invariant
            i <= areas.len(),
            forall|j: int| 0 <= j < i ==> (#[trigger] areas@[j]).rows_fit(),
        decreases areas.len() - i,
    {
        let fits = match areas[i] {
            Area::Cell(_, row) => row < usize::MAX,
            Area::Range(_, from, _, to) => from < usize::MAX && to < usize::MAX,
            Area::Rows(from, to) => from < usize::MAX && to < usize::MAX,
            Area::Columns(_, _) => true,
        };
        if !fits {
            assert(!areas@[i as int].rows_fit());
            return false;
        }
        i += 1;
    }
    true
}

fn copy_sheet_name(sheet_name: &Option<String>) -> (copy: Option<String>)
    ensures
        sheet_view(copy) == sheet_view(*sheet_name),
{
    match sheet_name {
        Some(name) => Some(name.clone()),
        None => None,
    }
}

impl Clone for RangeAddress {
    fn clone(&self) -> (copy: RangeAddress)
        ensures
            copy@ == self@,
    {
        proof {
            use_type_invariant(self);
        }
        let mut areas: Vec<Area> = Vec::new();
        let mut i: usize = 0;
        while i < self.areas.len()
            invariant
                i <= self.areas.len(),
                areas@ == self.areas@.subrange(0, i as int),
            decreases self.areas.len() - i,
        {
            areas.push(self.areas[i]);
            assert(areas@ == self.areas@.subrange(0, i + 1));
            i += 1;
        }
        assert(areas@ == self.areas@);
        RangeAddress { sheet_name: copy_sheet_name(&self.sheet_name), areas }
    }
}

impl RangeAddress {
    #[verifier::type_invariant]
    spec fn well_formed(self) -> bool {
        self@.wf()
    }

    /// The address of the given regions on the given sheet, if they make one.
    pub fn from_parts(sheet_name: Option<String>, areas: Vec<Area>) -> (res: Option<RangeAddress>)
        ensures
            match res {
                Some(a) => a@ == (RangeView { sheet_name: sheet_view(sheet_name), areas: areas@ })
                    && a@.wf(),
                None => !(RangeView { sheet_name: sheet_view(sheet_name), areas: areas@ }).wf(),
            },
    {
        if areas_well_formed(&areas) {
            Some(RangeAddress { sheet_name, areas })
        } else {
            None
        }
    }

    /// Reads an address from its text.
    pub fn parse(text: &str) -> (res: Result<RangeAddress, InvalidRange>)
        ensures
            match parse_outcome(text@) {
                Ok(v) => res matches Ok(a) && a@ == v,
                Err(reason) => res matches Err(e) && e.range@ == text@ && e.reason@ == reason,
            },
    {
        if is_supported(text) {
            RangeAddress::from_parsed(text, parse_outside(text))
        } else {
            Err(
                InvalidRange {
                    range: text.to_owned(),
                    reason: "text is outside the supported A1 notation".to_owned(),
                },
            )
        }
    }

    /// Turns the parser's answer for `text` into an address, or into the
    /// failure that names the text.
    pub fn from_parsed(text: &str, parsed: Result<(Option<String>, Vec<Area>), String>) -> (res:
        Result<RangeAddress, InvalidRange>)
        ensures
            match parsed {
                Ok(p) => match parsed_outcome(
                    Ok(RangeView { sheet_name: sheet_view(p.0), areas: p.1@ }),
                ) {
                    Ok(v) => res matches Ok(a) && a@ == v,
                    Err(reason) => res matches Err(e) && e.range@ == text@ && e.reason@ == reason,
                },
                Err(message) => res matches Err(e) && e.range@ == text@ && e.reason@ == message@,
            },
    {
        match parsed {
            Ok((sheet_name, areas)) => {
                match RangeAddress::from_parts(sheet_name, areas) {
                    Some(address) => Ok(address),
                    None => Err(
                        InvalidRange {
                            range: text.to_owned(),
                            reason: "address is out of bounds".to_owned(),
                        },
                    ),
                }
            },
            Err(message) => Err(InvalidRange { range: text.to_owned(), reason: message }),
        }
    }

    /// The text of the address.
    pub fn to_text(&self) -> (text: String)
        ensures
            text@ == self@.text(),
    {
        proof {
            use_type_invariant(self);
        }
        format_outside(&self.sheet_name, &self.areas)
    }

    /// The text of the address without its sheet name.
    pub fn reference_to_text(&self) -> (text: String)
        ensures
            text@ == self@.reference_text(),
    {
        proof {
            use_type_invariant(self);
        }
        format_outside(&None, &self.areas)
    }

    /// The name of the sheet the address is on, if it names one.
    pub fn sheet_name(&self) -> (name: Option<String>)
        ensures
            sheet_view(name) == self@.sheet_name,
    {
        copy_sheet_name(&self.sheet_name)
    }

    /// The regions of the address, in their order.
    pub fn areas(&self) -> (areas: Vec<Area>)
        ensures
            areas@ == self@.areas,
    {
        self.clone().areas
    }

    /// The shape of the address.
    pub fn kind(&self) -> (kind: AddressKind)
        ensures
            kind == self@.kind(),
    {
        if self.areas.len() == 1 {
            match self.areas[0] {
                Area::Cell(_, _) => AddressKind::Cell,
                Area::Range(_, _, _, _) => AddressKind::Range,
                Area::Rows(_, _) => AddressKind::RowRange,
                Area::Columns(_, _) => AddressKind::ColumnRange,
            }
        } else {
            AddressKind::NonContiguous
        }
    }

    /// The first and the last row of the address, if it says where its rows
    /// are.
    pub fn rows(&self) -> (rows: Option<(usize, usize)>)
        ensures
            match rows {
                Some((first, last)) => self@.has_row_anchor() && first == self@.row_anchor()
                    && last == self@.row_end(),
                None => !self@.has_row_anchor(),
            },
    {
        if self.areas.len() != 1 {
            return None;
        }
        match self.areas[0] {
            Area::Cell(_, row) => Some((row, row)),
            Area::Range(_, from, _, to) => Some((from, to)),
            Area::Rows(from, to) => Some((from, to)),
            Area::Columns(_, _) => None,
        }
    }

    /// The address of the single row that lies `offset` rows below the first
    /// row of this address, within the same columns and on the same sheet. An
    /// address without a first row (a column range, a set of regions) is
    /// refused, and so is an offset that leads past the last row a machine can
    /// number.
    pub fn with_row_offset(&self, offset: usize) -> (res: Result<RangeAddress, InvalidRange>)
        ensures
            match self@.offset_outcome(offset) {
                Ok(v) => res matches Ok(a) && a@ == v,
                Err(reason) => res matches Err(e) && e.range@ == self@.text() && e.reason@
                    == reason,
            },
    {
        proof {
            use_type_invariant(self);
        }
        match self.rows() {
            None => Err(
                InvalidRange {
                    range: self.to_text(),
                    reason: "address has no row anchor".to_owned(),
                },
            ),
            Some((first, _)) => {
                if offset >= usize::MAX - first {
                    return Err(
                        InvalidRange {
                            range: self.to_text(),
                            reason: "row offset out of bounds".to_owned(),
                        },
                    );
                }
                let row = first + offset;
                let area = match self.areas[0] {
                    Area::Cell(column, _) => Area::Cell(column, row),
                    Area::Range(from, _, to, _) => Area::Range(from, row, to, row),
                    Area::Rows(_, _) => Area::Rows(row, row),
                    Area::Columns(from, to) => Area::Columns(from, to),
                };
                let mut areas: Vec<Area> = Vec::new();
                areas.push(area);
                assert(areas@ == seq![area]);
                Ok(RangeAddress { sheet_name: copy_sheet_name(&self.sheet_name), areas })
            },
        }
    }
}

impl RangeAddress {
    /// The rows that the address spans, and the sheet they are on. Only the
    /// rows of the address count: its columns are passed over.
    pub fn row_span(&self) -> (res: Result<RowSpan, InvalidRange>)
        ensures
            match self@.span_outcome() {
                Ok(v) => res matches Ok(span) && span@ == v,
                Err(failure) => res matches Err(e) && e.range@ == failure.0 && e.reason@
                    == failure.1,
            },
    {
        proof {
            use_type_invariant(self);
        }
        let (first, last) = match self.rows() {
            Some(rows) => rows,
            None => {
                let reason = if self.areas.len() == 1 {
                    "Range for deleting rows may not be a column range".to_owned()
                } else {
                    "Range for deleting rows may not be non contiguous".to_owned()
                };
                return Err(InvalidRange { range: self.reference_to_text(), reason });
            },
        };
        match &self.sheet_name {
            None => Err(
                InvalidRange {
                    range: self.to_text(),
                    reason: "Range must include a sheet name".to_owned(),
                },
            ),
            Some(name) => {
                if first <= last {
                    Ok(RowSpan { sheet_name: name.clone(), first_row: first, last_row: last })
                } else {
                    Ok(RowSpan { sheet_name: name.clone(), first_row: last, last_row: first })
                }
            },
        }
    }
}

} // verus!

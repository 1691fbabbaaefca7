//! The export workbook: the export sheet written into an `rust_xlsxwriter` worksheet and
//! saved as xlsx bytes.

use vstd::prelude::*;
use vstd::string::StringExecFns;
use rust_xlsxwriter::{Workbook, Worksheet};
use crate::domain::headers_of;
use crate::error::{AppError, ErrorKind};
use crate::export::{ExportRow, SheetCell, export_sheet, schema_columns, sheet_of, sheet_view};
use crate::json::JsonValue;

verus! {

/// An `rust_xlsxwriter` worksheet.
#[verifier::external_type_specification]
#[verifier::external_body]
pub struct ExWorksheet(Worksheet);

/// An `rust_xlsxwriter` workbook.
#[verifier::external_type_specification]
#[verifier::external_body]
pub struct ExWorkbook(Workbook);

/// The first row Excel does not have.
pub const ROW_LIMIT: u32 = 1_048_576;

/// The first column Excel does not have.
pub const COL_LIMIT: u16 = 16_384;

/// The longest text a cell holds, in UTF-16 code units.
pub const TEXT_LIMIT: usize = 32_767;

/// The text cells of a worksheet, by `(row, column)`.
pub uninterp spec fn sheet_texts(sheet: Worksheet) -> Map<(int, int), Seq<char>>;

/// The number cells of a worksheet, by `(row, column)` (the numbers written are whole).
pub uninterp spec fn sheet_numbers(sheet: Worksheet) -> Map<(int, int), int>;

/// The worksheets of a workbook, in order, each as its text cells and number cells.
pub uninterp spec fn workbook_sheets(book: Workbook) -> Seq<(Map<(int, int), Seq<char>>, Map<(int, int), int>)>;

/// The length of `s` in UTF-16 code units: two for a character beyond U+FFFF.
pub open spec fn utf16_len(s: Seq<char>) -> nat
    decreases s.len(),
{
    if s.len() == 0 {
        0
    } else {
        utf16_len(s.drop_last()) + if (s.last() as u32) >= 0x10000 {
            2nat
        } else {
            1nat
        }
    }
}

/// No text cells.
pub open spec fn no_texts() -> Map<(int, int), Seq<char>> {
    Map::empty()
}

/// No number cells.
pub open spec fn no_numbers() -> Map<(int, int), int> {
    Map::empty()
}

/// `Worksheet::new`: a worksheet with no cells.
#[verifier::external_body]
fn new_sheet() -> (res: Worksheet)
    ensures
        sheet_texts(res) == no_texts(),
        sheet_numbers(res) == no_numbers(),
{
    Worksheet::new()
}

/// `Worksheet::write_string`: an empty text is ignored; otherwise the text replaces the
/// cell when the row and column are within Excel's limits and the text is at most 32 767
/// UTF-16 units long, and the worksheet is left as it was on an error.
#[verifier::external_body]
fn write_text(sheet: &mut Worksheet, row: u32, col: u16, text: &str) -> (res: Result<(), String>)
    ensures
        text@.len() == 0 ==> res is Ok,
        text@.len() > 0 ==> (res is Ok <==> (row < ROW_LIMIT && col < COL_LIMIT && utf16_len(text@)
            <= TEXT_LIMIT)),
        text@.len() > 0 && res is Ok ==> sheet_texts(*final(sheet)) == sheet_texts(*old(sheet)).insert(
            (row as int, col as int),
            text@,
        ) && sheet_numbers(*final(sheet)) == sheet_numbers(*old(sheet)).remove((row as int, col as int)),
        text@.len() == 0 || res is Err ==> sheet_texts(*final(sheet)) == sheet_texts(*old(sheet))
            && sheet_numbers(*final(sheet)) == sheet_numbers(*old(sheet)),
{
    match sheet.write_string(row, col, text) {
        Ok(_) => Ok(()),
        Err(e) => Err(e.to_string()),
    }
}

/// `Worksheet::write_number` with a whole number: it replaces the cell when the row and
/// column are within Excel's limits, and the worksheet is left as it was on an error.
#[verifier::external_body]
fn write_number(sheet: &mut Worksheet, row: u32, col: u16, number: u32) -> (res: Result<(), String>)
    ensures
        res is Ok <==> (row < ROW_LIMIT && col < COL_LIMIT),
        res is Ok ==> sheet_numbers(*final(sheet)) == sheet_numbers(*old(sheet)).insert(
            (row as int, col as int),
            number as int,
        ) && sheet_texts(*final(sheet)) == sheet_texts(*old(sheet)).remove((row as int, col as int)),
        res is Err ==> sheet_texts(*final(sheet)) == sheet_texts(*old(sheet)) && sheet_numbers(*final(sheet))
            == sheet_numbers(*old(sheet)),
{
    match sheet.write_number(row, col, number) {
        Ok(_) => Ok(()),
        Err(e) => Err(e.to_string()),
    }
}

/// No worksheets.
pub open spec fn no_sheets() -> Seq<(Map<(int, int), Seq<char>>, Map<(int, int), int>)> {
    Seq::empty()
}

/// `Workbook::new`: a workbook without worksheets.
#[verifier::external_body]
fn new_workbook() -> (res: Workbook)
    ensures
        workbook_sheets(res) == no_sheets(),
{
    Workbook::new()
}

/// `Workbook::push_worksheet`: appends the worksheet, cells unchanged (an unnamed one is
/// named `Sheet1`, `Sheet2`, ... by its place).
#[verifier::external_body]
fn push_sheet(book: &mut Workbook, sheet: Worksheet)
    ensures
        workbook_sheets(*final(book)) == workbook_sheets(*old(book)).push(
            (sheet_texts(sheet), sheet_numbers(sheet)),
        ),
{
    book.push_worksheet(sheet)
}

/// `Workbook::save_to_buffer`: the workbook as xlsx bytes. The bytes hold the time of
/// saving, so nothing is stated of them.
#[verifier::external_body]
fn save_workbook(book: &mut Workbook) -> Result<Vec<u8>, String> {
    match book.save_to_buffer() {
        Ok(bytes) => Ok(bytes),
        Err(e) => Err(e.to_string()),
    }
}

/// Row numbers `1..=n` in column 0.
pub open spec fn numbered_cells(n: int) -> Map<(int, int), int> {
    Map::new(|k: (int, int)| 1 <= k.0 <= n && k.1 == 0, |k: (int, int)| k.0)
}

/// The text cells after writing `cells` in order onto a worksheet without text cells;
/// an empty text writes nothing.
pub open spec fn texts_after(cells: Seq<(int, int, Seq<char>)>) -> Map<(int, int), Seq<char>>
    decreases cells.len(),
{
    if cells.len() == 0 {
        Map::empty()
    } else {
        let c = cells.last();
        if c.2.len() == 0 {
            texts_after(cells.drop_last())
        } else {
            texts_after(cells.drop_last()).insert((c.0, c.1), c.2)
        }
    }
}

/// The number cells after writing `cells` in order onto a worksheet numbered `1..=n`: a
/// text replaces the number of its cell.
pub open spec fn numbers_after(cells: Seq<(int, int, Seq<char>)>, n: int) -> Map<(int, int), int>
    decreases cells.len(),
{
    if cells.len() == 0 {
        numbered_cells(n)
    } else {
        let c = cells.last();
        if c.2.len() == 0 {
            numbers_after(cells.drop_last(), n)
        } else {
            numbers_after(cells.drop_last(), n).remove((c.0, c.1))
        }
    }
}

/// A text cell Excel can hold: empty (it writes nothing), or within the limits.
pub open spec fn cell_fits(c: (int, int, Seq<char>)) -> bool {
    c.2.len() == 0 || (c.0 < ROW_LIMIT && c.1 < COL_LIMIT && utf16_len(c.2) <= TEXT_LIMIT)
}

/// A sheet numbered `1..=n` with the text cells `cells` that Excel can hold.
pub open spec fn sheet_fits(cells: Seq<(int, int, Seq<char>)>, n: int) -> bool {
    n < ROW_LIMIT && forall|i: int| 0 <= i < cells.len() ==> cell_fits(#[trigger] cells[i])
}

/// Writes a sheet: the numbers `1..=numbered` down column 0, then the text cells in order.
/// It fails, with the worksheet's error, exactly when Excel cannot hold the sheet.
pub fn fill_sheet(cells: &Vec<SheetCell>, numbered: u32) -> (res: Result<Worksheet, String>)
    ensures
        res is Ok <==> sheet_fits(sheet_view(cells@), numbered as int),
        res matches Ok(s) ==> sheet_texts(s) == texts_after(sheet_view(cells@)) && sheet_numbers(s)
            == numbers_after(sheet_view(cells@), numbered as int),
{
    let mut sheet = new_sheet();
    let mut line: u32 = 0;
    while line < numbered
        invariant
            line <= numbered,
            line > 0 ==> line < ROW_LIMIT,
            sheet_texts(sheet) == no_texts(),
            sheet_numbers(sheet) == numbered_cells(line as int),
        decreases numbered - line,
    {
        line = line + 1;
        match write_number(&mut sheet, line, 0, line) {
            Ok(()) => {},
            Err(e) => {
                return Err(e);
            },
        }
        assert(sheet_numbers(sheet) =~= numbered_cells(line as int));
        assert(sheet_texts(sheet) =~= no_texts());
    }
    let ghost view = sheet_view(cells@);
    assert(numbers_after(view.take(0), numbered as int) == numbered_cells(numbered as int));
    let n = cells.len();
    let mut i: usize = 0;
    while i < n
        invariant
            i <= n,
            n == cells@.len(),
            view == sheet_view(cells@),
            numbered < ROW_LIMIT,
            forall|j: int| 0 <= j < i ==> cell_fits(#[trigger] view[j]),
            sheet_texts(sheet) == texts_after(view.take(i as int)),
            sheet_numbers(sheet) == numbers_after(view.take(i as int), numbered as int),
        decreases n - i,
    {
        let cell = &cells[i];
        let ghost prefix = view.take(i + 1);
        assert(prefix.drop_last() =~= view.take(i as int));
        assert(prefix.last() == view[i as int]);
        assert(view[i as int] == (cell.row as int, cell.col as int, cell.text@));
        match write_text(&mut sheet, cell.row, cell.col, cell.text.as_str()) {
            Ok(()) => {},
            Err(e) => {
                assert(!cell_fits(view[i as int]));
                return Err(e);
            },
        }
        i = i + 1;
    }
    assert(view.take(n as int) =~= view);
    Ok(sheet)
}

/// The error Excel's writer gives for a cell beyond its rows.
fn row_limit_error() -> (res: String) {
    let mut scratch = new_sheet();
    match write_number(&mut scratch, ROW_LIMIT, 0, 0) {
        Ok(()) => String::new(),
        Err(e) => e,
    }
}

/// The cells a workbook built from `schema` and `rows` holds in its one worksheet.
pub open spec fn export_sheets(schema: JsonValue, rows: Seq<ExportRow>) -> Seq<
    (Map<(int, int), Seq<char>>, Map<(int, int), int>),
> {
    seq![
        (
            texts_after(sheet_of(schema, rows)),
            numbers_after(sheet_of(schema, rows), rows.len() as int),
        ),
    ]
}

/// The registration export as a workbook: one worksheet with the header row, the
/// numbered registrations and their cells, as `export_sheet` lays them out. It fails
/// with an internal error exactly when Excel cannot hold that sheet; with more
/// registrations than Excel has rows, it fails with the row-limit error.
pub fn build_workbook(schema: &JsonValue, rows: &Vec<ExportRow>) -> (res: Result<Workbook, AppError>)
    requires
        headers_of(*schema).len() <= 65536,
        schema_columns(*schema).len() + 6 <= 65535,
    ensures
        res is Ok <==> sheet_fits(sheet_of(*schema, rows@), rows@.len() as int),
        res matches Ok(b) ==> workbook_sheets(b) == export_sheets(*schema, rows@),
        res matches Err(e) ==> e@.kind == ErrorKind::Internal,
{
    if rows.len() >= ROW_LIMIT as usize {
        let m = row_limit_error();
        return Err(AppError::simple(ErrorKind::Internal, "INTERNAL", m.as_str()));
    }
    let cells = export_sheet(schema, rows);
    let sheet = match fill_sheet(&cells, rows.len() as u32) {
        Ok(s) => s,
        Err(m) => {
            return Err(AppError::simple(ErrorKind::Internal, "INTERNAL", m.as_str()));
        },
    };
    let mut book = new_workbook();
    push_sheet(&mut book, sheet);
    assert(workbook_sheets(book) =~= export_sheets(*schema, rows@));
    Ok(book)
}

/// The registration export as xlsx bytes: the workbook `build_workbook` makes, saved. It
/// fails with `build_workbook`'s error when Excel cannot hold the sheet, and with an
/// internal error when saving fails.
pub fn export_workbook(schema: &JsonValue, rows: &Vec<ExportRow>) -> (res: Result<Vec<u8>, AppError>)
    requires
        headers_of(*schema).len() <= 65536,
        schema_columns(*schema).len() + 6 <= 65535,
    ensures
        !sheet_fits(sheet_of(*schema, rows@), rows@.len() as int) ==> res is Err,
        res matches Err(e) ==> e@.kind == ErrorKind::Internal,
{
    let mut book = match build_workbook(schema, rows) {
        Ok(b) => b,
        Err(e) => {
            return Err(e);
        },
    };
    match save_workbook(&mut book) {
        Ok(bytes) => Ok(bytes),
        Err(m) => Err(AppError::simple(ErrorKind::Internal, "INTERNAL", m.as_str())),
    }
}

} // verus!

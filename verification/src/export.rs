//! The registration export: its columns, the cells of a row, and the file name header.

use vstd::prelude::*;
use vstd::string::StringExecFns;
use vstd::utf8::encode_utf8;
use crate::domain::{
    contact_key, export_headers, headers_of, is_contact_key, status_label, status_label_of,
    string_views, text_or_empty,
};
use crate::json::{JsonValue, json_text, member, member_array, member_str, to_json_text};
use crate::text::push_char;

verus! {

// ---------------------------------------------------------------------------------------
// Columns and cells
// ---------------------------------------------------------------------------------------

/// `(key, label)` of each field with a string key and a string label, other than the
/// built-in contact fields, in order.
pub open spec fn columns_of(fields: Seq<JsonValue>) -> Seq<(Seq<char>, Seq<char>)>
    decreases fields.len(),
{
    if fields.len() == 0 {
        Seq::empty()
    } else {
        let f = fields.last();
        columns_of(fields.drop_last()) + match (member_str(f, "key"@), member_str(f, "label"@)) {
            (Some(k), Some(l)) => if is_contact_key(k) {
                Seq::empty()
            } else {
                seq![(k, l)]
            },
            _ => Seq::empty(),
        }
    }
}

/// The custom columns of a schema (none without a `fields` array).
pub open spec fn schema_columns(schema: JsonValue) -> Seq<(Seq<char>, Seq<char>)> {
    match member_array(schema, "fields"@) {
        Some(fs) => columns_of(fs),
        None => Seq::empty(),
    }
}

/// The pairs of `v` as sequences.
pub open spec fn pair_views(v: Seq<(String, String)>) -> Seq<(Seq<char>, Seq<char>)> {
    v.map_values(|p: (String, String)| (p.0@, p.1@))
}

/// The custom columns of the export: `(key, label)` of each field that has a string key
/// and a string label, skipping `name`, `email` and `phone`.
pub fn export_columns(schema: &JsonValue) -> (res: Vec<(String, String)>)
    ensures
        pair_views(res@) == schema_columns(*schema),
{
    let mut out: Vec<(String, String)> = Vec::new();
    match schema.get_array("fields") {
        Some(fields) => {
            let n = fields.len();
            let mut i: usize = 0;
            while i < n
                invariant
                    i <= n,
                    n == fields@.len(),
                    pair_views(out@) == columns_of(fields@.take(i as int)),
                decreases n - i,
            {
                let ghost prefix = fields@.take(i + 1);
                assert(prefix.drop_last() =~= fields@.take(i as int));
                assert(prefix.last() == fields@[i as int]);
                let field = &fields[i];
                let ghost before = out@;
                match (field.get_str("key"), field.get_str("label")) {
                    (Some(k), Some(l)) => {
                        if !contact_key(k.as_str()) {
                            out.push((k.clone(), l.clone()));
                            assert(pair_views(out@) =~= pair_views(before).push((k@, l@)));
                        } else {
                            assert(columns_of(prefix) =~= columns_of(fields@.take(i as int)));
                        }
                    },
                    _ => {
                        assert(columns_of(prefix) =~= columns_of(fields@.take(i as int)));
                    },
                }
                i = i + 1;
            }
            assert(fields@.take(n as int) =~= fields@);
        },
        None => {
            assert(pair_views(out@) =~= Seq::<(Seq<char>, Seq<char>)>::empty());
        },
    }
    out
}

/// The text of a cell, or a JSON object to be written out as JSON text.
#[derive(Debug)]
pub enum CellText<'a> {
    /// Plain text.
    Text(String),
    /// An object answer, written as its JSON text.
    Json(&'a JsonValue),
}

/// A cell as plain values.
pub enum CellView {
    /// Plain text.
    Text(Seq<char>),
    /// An object answer.
    Json(JsonValue),
}

/// The view of a cell.
pub open spec fn cell_view(c: CellText) -> CellView {
    match c {
        CellText::Text(t) => CellView::Text(t@),
        CellText::Json(v) => CellView::Json(*v),
    }
}

/// The texts of `items` (`""` for a non-string) joined with `", "`.
pub open spec fn joined(items: Seq<JsonValue>) -> Seq<char>
    decreases items.len(),
{
    if items.len() == 0 {
        Seq::empty()
    } else if items.len() == 1 {
        text_or_empty(items[0])
    } else {
        joined(items.drop_last()) + ", "@ + text_or_empty(items.last())
    }
}

/// The cell of an answer: its text; the texts of an array joined with `", "`; nothing for
/// `null` or no answer; `true`/`false`; a number as written; an object as JSON.
pub open spec fn answer_cell(value: Option<JsonValue>) -> CellView {
    match value {
        None => CellView::Text(Seq::empty()),
        Some(JsonValue::Null) => CellView::Text(Seq::empty()),
        Some(JsonValue::Str(t)) => CellView::Text(t@),
        Some(JsonValue::Array(items)) => CellView::Text(joined(items@)),
        Some(JsonValue::Bool(b)) => CellView::Text(
            if b {
                "true"@
            } else {
                "false"@
            },
        ),
        Some(JsonValue::Number(t)) => CellView::Text(t@),
        Some(JsonValue::Object(es)) => CellView::Json(JsonValue::Object(es)),
    }
}

/// The texts of `items` joined with `", "`.
fn join_texts(items: &Vec<JsonValue>) -> (res: String)
    ensures
        res@ == joined(items@),
{
    let mut out = String::new();
    let n = items.len();
    let mut i: usize = 0;
    while i < n
        invariant
            i <= n,
            n == items@.len(),
            out@ == joined(items@.take(i as int)),
        decreases n - i,
    {
        let ghost prefix = items@.take(i + 1);
        assert(prefix.drop_last() =~= items@.take(i as int));
        assert(prefix.last() == items@[i as int]);
        if i > 0 {
            out.append(", ");
        }
        let text: &str = match &items[i] {
            JsonValue::Str(s) => s.as_str(),
            _ => "",
        };
        proof {
            reveal_strlit("");
        }
        out.append(text);
        proof {
            if i == 0 {
                assert(prefix.len() == 1);
                assert(prefix[0] == items@[0]);
                assert(out@ =~= text_or_empty(items@[0]));
            }
        }
        i = i + 1;
    }
    assert(items@.take(n as int) =~= items@);
    out
}

/// The cell of the answer `key`.
pub fn cell_text<'a>(answers: &'a JsonValue, key: &str) -> (res: CellText<'a>)
    ensures
        cell_view(res) == answer_cell(member(*answers, key@)),
{
    match answers.get(key) {
        None => CellText::Text(String::new()),
        Some(JsonValue::Null) => CellText::Text(String::new()),
        Some(JsonValue::Str(t)) => CellText::Text(t.clone()),
        Some(JsonValue::Array(items)) => CellText::Text(join_texts(items)),
        Some(JsonValue::Bool(b)) => CellText::Text(
            String::from_str(
                if *b {
                    "true"
                } else {
                    "false"
                },
            ),
        ),
        Some(JsonValue::Number(t)) => CellText::Text(t.clone()),
        Some(v) => CellText::Json(v),
    }
}

/// What a row of the export shows of a registration.
#[derive(Debug)]
pub struct ExportRow {
    /// The name, if any.
    pub name: Option<String>,
    /// The e-mail address.
    pub email: String,
    /// The phone number, if any.
    pub phone: Option<String>,
    /// The status.
    pub status: String,
    /// Whether it has checked in.
    pub checked_in: bool,
    /// When it was made, as RFC 3339 text.
    pub created_at: String,
    /// The answers.
    pub answers: JsonValue,
}

/// The text of an optional string (`""` when absent).
pub open spec fn or_empty(o: Option<String>) -> Seq<char> {
    match o {
        Some(s) => s@,
        None => Seq::empty(),
    }
}

/// The cells of a row after its number: name, e-mail, phone, status label, checked in
/// (`是`/`否`), time of registration, then the answer of each custom column.
pub open spec fn row_cells(row: ExportRow, columns: Seq<(Seq<char>, Seq<char>)>) -> Seq<CellView> {
    seq![
        CellView::Text(or_empty(row.name)),
        CellView::Text(row.email@),
        CellView::Text(or_empty(row.phone)),
        CellView::Text(status_label_of(row.status@)),
        CellView::Text(
            if row.checked_in {
                "是"@
            } else {
                "否"@
            },
        ),
        CellView::Text(row.created_at@),
    ] + columns.map_values(|c: (Seq<char>, Seq<char>)| answer_cell(member(row.answers, c.0)))
}

/// The cells of one export row after its number.
pub fn export_row<'a>(row: &'a ExportRow, columns: &Vec<(String, String)>) -> (res: Vec<CellText<'a>>)
    ensures
        res@.map_values(|c: CellText<'a>| cell_view(c)) == row_cells(*row, pair_views(columns@)),
        res@.len() == 6 + columns@.len(),
        cell_view(res@[0]) == CellView::Text(
            match row.name {
                Some(n) => n@,
                None => Seq::empty(),
            },
        ),
        cell_view(res@[1]) == CellView::Text(row.email@),
        cell_view(res@[2]) == CellView::Text(
            match row.phone {
                Some(p) => p@,
                None => Seq::empty(),
            },
        ),
        cell_view(res@[3]) == CellView::Text(status_label_of(row.status@)),
        cell_view(res@[4]) == CellView::Text(
            if row.checked_in {
                "是"@
            } else {
                "否"@
            },
        ),
        cell_view(res@[5]) == CellView::Text(row.created_at@),
        forall|k: int|
            0 <= k < columns@.len() ==> cell_view(#[trigger] res@[6 + k]) == answer_cell(
                member(row.answers, columns@[k].0@),
            ),
{
    let mut out: Vec<CellText<'a>> = Vec::new();
    out.push(CellText::Text(
        match &row.name {
            Some(n) => n.clone(),
            None => String::new(),
        },
    ));
    out.push(CellText::Text(row.email.clone()));
    out.push(CellText::Text(
        match &row.phone {
            Some(p) => p.clone(),
            None => String::new(),
        },
    ));
    out.push(CellText::Text(String::from_str(status_label(row.status.as_str()))));
    out.push(CellText::Text(
        String::from_str(
            if row.checked_in {
                "是"
            } else {
                "否"
            },
        ),
    ));
    out.push(CellText::Text(row.created_at.clone()));
    let ghost head = out@.map_values(|c: CellText<'a>| cell_view(c));
    let ghost cols = pair_views(columns@);
    assert(head =~= row_cells(*row, cols).take(6));
    let n = columns.len();
    let mut i: usize = 0;
    while i < n
        invariant
            i <= n,
            n == columns@.len(),
            cols == pair_views(columns@),
            head == row_cells(*row, cols).take(6),
            out@.len() == 6 + i,
            out@.map_values(|c: CellText<'a>| cell_view(c)) == head + cols.take(i as int).map_values(
                |c: (Seq<char>, Seq<char>)| answer_cell(member(row.answers, c.0)),
            ),
        decreases n - i,
    {
        let cell = cell_text(&row.answers, columns[i].0.as_str());
        let ghost before = out@;
        out.push(cell);
        assert(cols[i as int] == (columns@[i as int].0@, columns@[i as int].1@));
        assert(cols.take(i + 1) =~= cols.take(i as int).push(cols[i as int]));
        assert(out@.map_values(|c: CellText<'a>| cell_view(c)) =~= before.map_values(
            |c: CellText<'a>| cell_view(c),
        ).push(cell_view(cell)));
        assert(cols.take(i + 1).map_values(|c: (Seq<char>, Seq<char>)| answer_cell(member(row.answers, c.0)))
            =~= cols.take(i as int).map_values(
            |c: (Seq<char>, Seq<char>)| answer_cell(member(row.answers, c.0)),
        ).push(answer_cell(member(row.answers, cols[i as int].0))));
        i = i + 1;
    }
    assert(cols.take(n as int) =~= cols);
    assert(row_cells(*row, cols) =~= head + cols.map_values(
        |c: (Seq<char>, Seq<char>)| answer_cell(member(row.answers, c.0)),
    ));
    proof {
        let views = out@.map_values(|c: CellText<'a>| cell_view(c));
        assert forall|j: int| 0 <= j < 6 + n implies cell_view(#[trigger] out@[j]) == row_cells(*row, cols)[j] by {
            assert(views[j] == cell_view(out@[j]));
        }
        assert forall|k: int| 0 <= k < n implies cell_view(#[trigger] out@[6 + k]) == answer_cell(
            member(row.answers, columns@[k].0@),
        ) by {
            assert(cell_view(out@[6 + k]) == row_cells(*row, cols)[6 + k]);
            assert(cols[k] == (columns@[k].0@, columns@[k].1@));
        }
        assert(cell_view(out@[0]) == row_cells(*row, cols)[0]);
        assert(cell_view(out@[1]) == row_cells(*row, cols)[1]);
        assert(cell_view(out@[2]) == row_cells(*row, cols)[2]);
        assert(cell_view(out@[3]) == row_cells(*row, cols)[3]);
        assert(cell_view(out@[4]) == row_cells(*row, cols)[4]);
        assert(cell_view(out@[5]) == row_cells(*row, cols)[5]);
    }
    out
}

// ---------------------------------------------------------------------------------------
// The sheet
// ---------------------------------------------------------------------------------------

/// One text cell of the export sheet.
#[derive(Debug)]
pub struct SheetCell {
    /// The row (0 is the header row).
    pub row: u32,
    /// The column.
    pub col: u16,
    /// The text.
    pub text: String,
}

/// `(row, column, text)` of each cell.
pub open spec fn sheet_view(cells: Seq<SheetCell>) -> Seq<(int, int, Seq<char>)> {
    cells.map_values(|c: SheetCell| (c.row as int, c.col as int, c.text@))
}

/// The text a cell is written with: its text, or the compact JSON text of an object.
pub open spec fn cell_text_of(c: CellView) -> Seq<char> {
    match c {
        CellView::Text(t) => t,
        CellView::Json(v) => json_text(v),
    }
}

/// The header row: header `c` in column `c` of row 0.
pub open spec fn header_cells(headers: Seq<Seq<char>>) -> Seq<(int, int, Seq<char>)> {
    Seq::new(headers.len(), |c: int| (0int, c, headers[c]))
}

/// The cells of the registration on line `line`, from column 1 on (column 0 holds its
/// number).
pub open spec fn row_block(line: int, cells: Seq<CellView>) -> Seq<(int, int, Seq<char>)> {
    Seq::new(cells.len(), |k: int| (line, k + 1, cell_text_of(cells[k])))
}

/// The cells of `rows`, the registration at index `i` on line `i + 1`.
pub open spec fn body_cells(rows: Seq<ExportRow>, columns: Seq<(Seq<char>, Seq<char>)>) -> Seq<
    (int, int, Seq<char>),
>
    decreases rows.len(),
{
    if rows.len() == 0 {
        Seq::empty()
    } else {
        body_cells(rows.drop_last(), columns) + row_block(rows.len() as int, row_cells(rows.last(), columns))
    }
}

/// The text cells of the export sheet: the header row, then one line per registration,
/// in order.
pub open spec fn sheet_of(schema: JsonValue, rows: Seq<ExportRow>) -> Seq<(int, int, Seq<char>)> {
    header_cells(headers_of(schema)) + body_cells(rows, schema_columns(schema))
}

/// The text to write for a cell.
fn cell_string(c: &CellText) -> (res: String)
    ensures
        res@ == cell_text_of(cell_view(*c)),
{
    match c {
        CellText::Text(t) => t.clone(),
        CellText::Json(v) => to_json_text(v),
    }
}

/// The text cells of the export sheet: the header row in row 0, and the cells of the
/// registration at index `i` in row `i + 1` from column 1 on. Column 0 of those rows
/// holds their numbers.
pub fn export_sheet(schema: &JsonValue, rows: &Vec<ExportRow>) -> (res: Vec<SheetCell>)
    requires
        rows@.len() < u32::MAX,
        headers_of(*schema).len() <= 65536,
        schema_columns(*schema).len() + 6 <= 65535,
    ensures
        sheet_view(res@) == sheet_of(*schema, rows@),
{
    let headers = export_headers(schema);
    let columns = export_columns(schema);
    let ghost h = headers_of(*schema);
    let ghost cols = schema_columns(*schema);
    assert(string_views(headers@) == h);
    let mut out: Vec<SheetCell> = Vec::new();
    let hn = headers.len();
    let mut c: usize = 0;
    while c < hn
        invariant
            c <= hn,
            hn == headers@.len(),
            hn <= 65536,
            string_views(headers@) == h,
            sheet_view(out@) == header_cells(h).take(c as int),
        decreases hn - c,
    {
        let ghost before = out@;
        out.push(SheetCell { row: 0, col: c as u16, text: headers[c].clone() });
        assert(h[c as int] == headers@[c as int]@);
        assert(sheet_view(out@) =~= sheet_view(before).push((0int, c as int, h[c as int])));
        assert(header_cells(h).take(c + 1) =~= header_cells(h).take(c as int).push((0int, c as int, h[c as int])));
        c = c + 1;
    }
    assert(header_cells(h).take(hn as int) =~= header_cells(h));
    assert(body_cells(rows@.take(0), cols) =~= Seq::<(int, int, Seq<char>)>::empty());
    let n = rows.len();
    let mut i: usize = 0;
    while i < n
        invariant
            i <= n,
            n == rows@.len(),
            n < u32::MAX,
            pair_views(columns@) == cols,
            cols.len() + 6 <= 65535,
            sheet_view(out@) == header_cells(h) + body_cells(rows@.take(i as int), cols),
        decreases n - i,
    {
        let cells = export_row(&rows[i], &columns);
        let ghost rc = row_cells(rows@[i as int], cols);
        assert(cells@.map_values(|x: CellText| cell_view(x)) == rc);
        assert(rc.len() == 6 + cols.len());
        let ghost start = sheet_view(out@);
        let m = cells.len();
        let mut k: usize = 0;
        while k < m
            invariant
                k <= m,
                m == cells@.len(),
                m <= 65535,
                i < n,
                n < u32::MAX,
                cells@.map_values(|x: CellText| cell_view(x)) == rc,
                sheet_view(out@) == start + row_block(i + 1, rc).take(k as int),
            decreases m - k,
        {
            let text = cell_string(&cells[k]);
            let ghost before = out@;
            out.push(SheetCell { row: (i + 1) as u32, col: (k + 1) as u16, text });
            assert(rc[k as int] == cell_view(cells@[k as int]));
            assert(sheet_view(out@) =~= sheet_view(before).push((i + 1, k + 1, cell_text_of(rc[k as int]))));
            assert(row_block(i + 1, rc).take(k + 1) =~= row_block(i + 1, rc).take(k as int).push(
                (i + 1, k + 1, cell_text_of(rc[k as int])),
            ));
            k = k + 1;
        }
        assert(row_block(i + 1, rc).take(m as int) =~= row_block(i + 1, rc));
        let ghost next = rows@.take(i + 1);
        assert(next.drop_last() =~= rows@.take(i as int));
        assert(next.last() == rows@[i as int]);
        assert(body_cells(next, cols) == body_cells(rows@.take(i as int), cols) + row_block(i + 1, rc));
        assert(sheet_view(out@) =~= header_cells(h) + body_cells(next, cols));
        i = i + 1;
    }
    assert(rows@.take(n as int) =~= rows@);
    out
}

// ---------------------------------------------------------------------------------------
// The file name header
// ---------------------------------------------------------------------------------------

/// A byte that stays as it is in a percent-encoded header value: an ASCII letter or digit,
/// `.`, `-`, `_` or `~`.
pub open spec fn is_unreserved(b: u8) -> bool {
    ||| 48 <= b <= 57
    ||| 65 <= b <= 90
    ||| 97 <= b <= 122
    ||| b == 46
    ||| b == 45
    ||| b == 95
    ||| b == 126
}

/// The upper-case hexadecimal digit of `n` (`0 <= n < 16`).
pub open spec fn hex_digit_upper(n: int) -> char {
    seq!['0', '1', '2', '3', '4', '5', '6', '7', '8', '9', 'A', 'B', 'C', 'D', 'E', 'F'][n]
}

/// One byte percent-encoded: itself when unreserved, otherwise `%` and two upper-case
/// hexadecimal digits.
pub open spec fn pct_byte(b: u8) -> Seq<char> {
    if is_unreserved(b) {
        seq![b as char]
    } else {
        seq!['%', hex_digit_upper(b as int / 16), hex_digit_upper(b as int % 16)]
    }
}

/// `bytes` percent-encoded (RFC 5987), byte by byte.
pub open spec fn pct_encode(bytes: Seq<u8>) -> Seq<char>
    decreases bytes.len(),
{
    if bytes.len() == 0 {
        Seq::empty()
    } else {
        pct_encode(bytes.drop_last()) + pct_byte(bytes.last())
    }
}

/// A character that may appear in a percent-encoded value: an unreserved ASCII
/// character, `%`, or an upper-case hexadecimal digit.
pub open spec fn is_header_safe(c: char) -> bool {
    ||| ('0' <= c <= '9')
    ||| ('A' <= c <= 'Z')
    ||| ('a' <= c <= 'z')
    ||| c == '.'
    ||| c == '-'
    ||| c == '_'
    ||| c == '~'
    ||| c == '%'
}

/// The upper-case hexadecimal digit of `n`.
fn hex_upper_of(n: u8) -> (c: char)
    requires
        n < 16,
    ensures
        c == hex_digit_upper(n as int),
{
    let digits = ['0', '1', '2', '3', '4', '5', '6', '7', '8', '9', 'A', 'B', 'C', 'D', 'E', 'F'];
    assert(digits@ == seq!['0', '1', '2', '3', '4', '5', '6', '7', '8', '9', 'A', 'B', 'C', 'D', 'E', 'F']);
    digits[n as usize]
}

/// Percent-encodes the UTF-8 bytes of `name` for a header value (RFC 5987): ASCII
/// letters, digits, `.`, `-`, `_` and `~` stay; every other byte becomes `%XX`.
pub fn percent_encode_header(name: &str) -> (res: String)
    ensures
        res@ == pct_encode(encode_utf8(name@)),
        forall|i: int| 0 <= i < res@.len() ==> is_header_safe(#[trigger] res@[i]),
{
    let bytes = name.as_bytes();
    let n = bytes.len();
    let mut out = String::new();
    let mut i: usize = 0;
    while i < n
        invariant
            i <= n,
            n == bytes@.len(),
            bytes@ == encode_utf8(name@),
            out@ == pct_encode(bytes@.take(i as int)),
        decreases n - i,
    {
        let b = bytes[i];
        let ghost prefix = bytes@.take(i + 1);
        assert(prefix.drop_last() =~= bytes@.take(i as int));
        assert(prefix.last() == b);
        let ghost before = out@;
        if (48 <= b && b <= 57) || (65 <= b && b <= 90) || (97 <= b && b <= 122) || b == 46 || b == 45
            || b == 95 || b == 126 {
            push_char(&mut out, b as char);
            assert(out@ =~= before + pct_byte(b));
        } else {
            push_char(&mut out, '%');
            push_char(&mut out, hex_upper_of(b / 16));
            push_char(&mut out, hex_upper_of(b % 16));
            assert(out@ =~= before + pct_byte(b));
        }
        i = i + 1;
    }
    assert(bytes@.take(n as int) =~= bytes@);
    proof {
        lemma_pct_encode_safe(bytes@);
    }
    out
}

/// A percent-encoded value holds only header-safe characters.
pub proof fn lemma_pct_encode_safe(bytes: Seq<u8>)
    ensures
        forall|i: int| 0 <= i < pct_encode(bytes).len() ==> is_header_safe(#[trigger] pct_encode(bytes)[i]),
    decreases bytes.len(),
{
    if bytes.len() > 0 {
        lemma_pct_encode_safe(bytes.drop_last());
        let prev = pct_encode(bytes.drop_last());
        let b = bytes.last();
        let tail = pct_byte(b);
        let digits = seq!['0', '1', '2', '3', '4', '5', '6', '7', '8', '9', 'A', 'B', 'C', 'D', 'E', 'F'];
        assert forall|k: int| 0 <= k < 16 implies is_header_safe(#[trigger] digits[k]) by {}
        assert(is_header_safe(hex_digit_upper(b as int / 16)));
        assert(is_header_safe(hex_digit_upper(b as int % 16)));
        if is_unreserved(b) {
            assert(is_header_safe(b as char)) by {
                assert(48 <= b <= 57 ==> '0' <= (b as char) <= '9');
            }
        }
        assert forall|k: int| 0 <= k < tail.len() implies is_header_safe(#[trigger] tail[k]) by {}
        assert forall|i: int| 0 <= i < pct_encode(bytes).len() implies is_header_safe(
            #[trigger] pct_encode(bytes)[i],
        ) by {
            if i < prev.len() {
                assert(pct_encode(bytes)[i] == prev[i]);
            } else {
                assert(pct_encode(bytes)[i] == tail[i - prev.len()]);
            }
        }
    }
}

/// The name of the export file of an event: its title followed by `_报名表.xlsx`.
pub open spec fn export_file_name(title: Seq<char>) -> Seq<char> {
    title + "_报名表.xlsx"@
}

/// The `Content-Disposition` value of an event's export: an attachment whose UTF-8 file
/// name is the percent-encoded `export_file_name`.
pub open spec fn disposition_of(title: Seq<char>) -> Seq<char> {
    "attachment; filename*=UTF-8''"@ + pct_encode(encode_utf8(export_file_name(title)))
}

/// The `Content-Disposition` header value of an event's export.
pub fn content_disposition(title: &str) -> (res: String)
    ensures
        res@ == disposition_of(title@),
{
    let mut name = String::from_str(title);
    name.append("_报名表.xlsx");
    let encoded = percent_encode_header(name.as_str());
    let mut out = String::from_str("attachment; filename*=UTF-8''");
    out.append(encoded.as_str());
    out
}

/// A row's cells hold, in order: the name (or nothing), the e-mail address, the phone
/// number (or nothing), the status label, `是`/`否` for checked in, the time of
/// registration, then the answer of each custom column.
pub proof fn lemma_row_cells_fields(row: ExportRow, columns: Seq<(Seq<char>, Seq<char>)>)
    ensures
        row_cells(row, columns).len() == 6 + columns.len(),
        row_cells(row, columns)[0] == CellView::Text(
            match row.name {
                Some(n) => n@,
                None => Seq::empty(),
            },
        ),
        row_cells(row, columns)[1] == CellView::Text(row.email@),
        row_cells(row, columns)[2] == CellView::Text(
            match row.phone {
                Some(p) => p@,
                None => Seq::empty(),
            },
        ),
        row_cells(row, columns)[4] == CellView::Text(
            if row.checked_in {
                "是"@
            } else {
                "否"@
            },
        ),
        row_cells(row, columns)[5] == CellView::Text(row.created_at@),
        forall|k: int|
            0 <= k < columns.len() ==> #[trigger] row_cells(row, columns)[6 + k] == answer_cell(
                member(row.answers, columns[k].0),
            ),
{
}

} // verus!

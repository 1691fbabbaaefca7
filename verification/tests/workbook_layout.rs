use event_service::codes::checkin_code_from_bytes;
use event_service::domain::default_schema;
use event_service::export::{export_sheet, ExportRow, SheetCell};
use event_service::json::{to_json_text, JsonValue};
use event_service::workbook::{build_workbook, export_workbook, fill_sheet};

fn s(text: &str) -> JsonValue {
    JsonValue::Str(text.to_string())
}

fn obj(entries: Vec<(&str, JsonValue)>) -> JsonValue {
    JsonValue::Object(entries.into_iter().map(|(k, v)| (k.to_string(), v)).collect())
}

fn row(name: &str, note: JsonValue) -> ExportRow {
    ExportRow {
        name: Some(name.to_string()),
        email: format!("{name}@club.example.com"),
        phone: None,
        status: "approved".to_string(),
        checked_in: true,
        created_at: "2026-01-01T00:00:00+00:00".to_string(),
        answers: obj(vec![("note", note)]),
    }
}

fn cells_of(cells: &[SheetCell]) -> Vec<(u32, u16, String)> {
    cells.iter().map(|c| (c.row, c.col, c.text.clone())).collect()
}

#[test]
fn json_texts() {
    assert_eq!(to_json_text(&JsonValue::Null), "null");
    assert_eq!(to_json_text(&JsonValue::Bool(true)), "true");
    assert_eq!(to_json_text(&JsonValue::Number("1.5".to_string())), "1.5");
    assert_eq!(to_json_text(&s("a\"b\\c\n")), "\"a\\\"b\\\\c\\n\"");
    let v = obj(vec![
        ("k", JsonValue::Array(vec![s("x"), JsonValue::Null, obj(vec![])])),
        ("n", JsonValue::Number("2".to_string())),
    ]);
    assert_eq!(to_json_text(&v), "{\"k\":[\"x\",null,{}],\"n\":2}");
    assert_eq!(to_json_text(&JsonValue::Array(vec![])), "[]");
    assert_eq!(to_json_text(&s("\u{1}\u{8}\t\u{c}\r\u{1f}\u{7f}é")), "\"\\u0001\\b\\t\\f\\r\\u001f\u{7f}é\"");
}

#[test]
fn sheet_layout() {
    let rows = vec![row("a", s("素食")), row("b", obj(vec![("x", JsonValue::Bool(false))]))];
    let cells = cells_of(&export_sheet(&default_schema(), &rows));
    assert_eq!(cells.len(), 8 + 2 * 7);
    assert_eq!(cells[0], (0, 0, "序号".to_string()));
    assert_eq!(cells[7], (0, 7, "备注".to_string()));
    assert_eq!(cells[8], (1, 1, "a".to_string()));
    assert_eq!(cells[9], (1, 2, "a@club.example.com".to_string()));
    assert_eq!(cells[10], (1, 3, String::new()));
    assert_eq!(cells[11], (1, 4, "已通过".to_string()));
    assert_eq!(cells[12], (1, 5, "是".to_string()));
    assert_eq!(cells[14], (1, 7, "素食".to_string()));
    assert_eq!(cells[15], (2, 1, "b".to_string()));
    assert_eq!(cells[21], (2, 7, "{\"x\":false}".to_string()));
}

#[test]
fn workbook_bytes() {
    let rows = vec![row("a", s("素食"))];
    let bytes = export_workbook(&default_schema(), &rows).unwrap();
    assert_eq!(&bytes[..2], b"PK", "xlsx 应为 zip 容器");
    assert!(export_workbook(&default_schema(), &vec![]).is_ok());
}

#[test]
fn sheets_excel_cannot_hold() {
    let ok = vec![SheetCell { row: 0, col: 0, text: "x".to_string() }];
    assert!(fill_sheet(&ok, 3).is_ok());
    assert!(fill_sheet(&ok, 1_048_576).is_err());
    let far = vec![SheetCell { row: 0, col: 16_384, text: "x".to_string() }];
    assert!(fill_sheet(&far, 0).is_err());
    let far_but_empty = vec![SheetCell { row: 0, col: 16_384, text: String::new() }];
    assert!(fill_sheet(&far_but_empty, 0).is_ok());
    let long = vec![SheetCell { row: 1, col: 1, text: "x".repeat(32_768) }];
    assert!(fill_sheet(&long, 0).is_err());
    let just = vec![SheetCell { row: 1, col: 1, text: "x".repeat(32_767) }];
    assert!(fill_sheet(&just, 0).is_ok());
    let wide = vec![SheetCell { row: 1, col: 1, text: "😀".repeat(16_384) }];
    assert!(fill_sheet(&wide, 0).is_err());
    let mut long_note = row("a", s(&"y".repeat(40_000)));
    long_note.name = None;
    let err = export_workbook(&default_schema(), &vec![long_note]).unwrap_err();
    assert_eq!(err.kind, event_service::error::ErrorKind::Internal);
}

#[test]
fn checkin_codes_from_bytes() {
    assert_eq!(
        checkin_code_from_bytes(&[0x00, 0x0f, 0xa0, 0xff, 1, 2, 3, 4, 5, 6, 7, 8]),
        "000fa0ff0102030405060708"
    );
}

#[test]
fn workbooks_before_saving() {
    let rows = vec![row("a", s("素食"))];
    assert!(build_workbook(&default_schema(), &rows).is_ok());
    let mut long_note = row("a", s(&"y".repeat(40_000)));
    long_note.name = None;
    match build_workbook(&default_schema(), &vec![long_note]) {
        Ok(_) => panic!("a 40 000-character cell does not fit"),
        Err(err) => {
            assert_eq!(err.kind, event_service::error::ErrorKind::Internal);
            assert!(!err.message.is_empty());
        }
    }
}

use event_service::domain::default_schema;
use event_service::export::{
    cell_text, content_disposition, export_columns, export_row, percent_encode_header, CellText,
    ExportRow,
};
use event_service::json::JsonValue;

fn s(text: &str) -> JsonValue {
    JsonValue::Str(text.to_string())
}

fn obj(entries: Vec<(&str, JsonValue)>) -> JsonValue {
    JsonValue::Object(entries.into_iter().map(|(k, v)| (k.to_string(), v)).collect())
}

fn text(c: &CellText) -> String {
    match c {
        CellText::Text(t) => t.clone(),
        CellText::Json(_) => panic!("expected text"),
    }
}

#[test]
fn percent_encoding() {
    assert_eq!(percent_encode_header("abc-XYZ_0.9~"), "abc-XYZ_0.9~");
    assert_eq!(percent_encode_header("a b"), "a%20b");
    assert_eq!(percent_encode_header("报名"), "%E6%8A%A5%E5%90%8D");
    assert_eq!(percent_encode_header("a/b?c=%"), "a%2Fb%3Fc%3D%25");
    assert_eq!(percent_encode_header(""), "");
}

#[test]
fn disposition_header() {
    assert_eq!(
        content_disposition("Party"),
        "attachment; filename*=UTF-8''Party_%E6%8A%A5%E5%90%8D%E8%A1%A8.xlsx"
    );
}

#[test]
fn columns_skip_contacts_and_unlabelled() {
    let cols = export_columns(&default_schema());
    assert_eq!(cols, vec![("note".to_string(), "备注".to_string())]);
    let schema = obj(vec![(
        "fields",
        JsonValue::Array(vec![
            obj(vec![("key", s("size")), ("label", s("尺码"))]),
            obj(vec![("key", s("nolabel"))]),
            obj(vec![("label", s("nokey"))]),
            obj(vec![("key", s("phone")), ("label", s("手机号"))]),
        ]),
    )]);
    assert_eq!(export_columns(&schema), vec![("size".to_string(), "尺码".to_string())]);
    assert!(export_columns(&obj(vec![])).is_empty());
}

#[test]
fn cells_of_answers() {
    let answers = obj(vec![
        ("t", s("hello")),
        ("a", JsonValue::Array(vec![s("x"), JsonValue::Bool(true), s("y")])),
        ("n", JsonValue::Null),
        ("b", JsonValue::Bool(false)),
        ("num", JsonValue::Number("3.5".to_string())),
        ("o", obj(vec![("k", s("v"))])),
    ]);
    assert_eq!(text(&cell_text(&answers, "t")), "hello");
    assert_eq!(text(&cell_text(&answers, "a")), "x, , y");
    assert_eq!(text(&cell_text(&answers, "n")), "");
    assert_eq!(text(&cell_text(&answers, "b")), "false");
    assert_eq!(text(&cell_text(&answers, "num")), "3.5");
    assert_eq!(text(&cell_text(&answers, "missing")), "");
    assert!(matches!(cell_text(&answers, "o"), CellText::Json(JsonValue::Object(_))));
}

#[test]
fn row_cells() {
    let row = ExportRow {
        name: Some("张三".to_string()),
        email: "a@club.example.com".to_string(),
        phone: None,
        status: "waitlist".to_string(),
        checked_in: false,
        created_at: "2026-01-01T00:00:00+00:00".to_string(),
        answers: obj(vec![("note", s("素食"))]),
    };
    let cols = vec![("note".to_string(), "备注".to_string()), ("size".to_string(), "尺码".to_string())];
    let cells = export_row(&row, &cols);
    let texts: Vec<String> = cells.iter().map(text).collect();
    assert_eq!(
        texts,
        vec![
            "张三",
            "a@club.example.com",
            "",
            "候补中",
            "否",
            "2026-01-01T00:00:00+00:00",
            "素食",
            ""
        ]
    );
}

#[test]
fn encoded_names_are_header_safe() {
    let encoded = percent_encode_header("迎新 活动/2026:报名表?.xlsx");
    assert!(encoded
        .chars()
        .all(|c| c.is_ascii_alphanumeric() || ".-_~%".contains(c)));
    let input = "迎新 活动/2026:报名表?.xlsx";
    let escaped = input
        .bytes()
        .filter(|b| !(b.is_ascii_alphanumeric() || b".-_~".contains(b)))
        .count();
    assert_eq!(encoded.matches('%').count(), escaped);
    assert_eq!(encoded.len(), input.len() + 2 * escaped);
}

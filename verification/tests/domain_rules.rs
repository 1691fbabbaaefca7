use event_service::codes::{code_from_random, generate_checkin_code, generate_code, hash_code};
use event_service::domain::{
    answer_texts, default_schema, export_headers, extract_contact, registration_decision,
    status_label, validate_answers, validate_form_schema, Decision,
};
use event_service::error::ErrorKind;
use event_service::json::JsonValue;

fn s(text: &str) -> JsonValue {
    JsonValue::Str(text.to_string())
}

fn obj(entries: Vec<(&str, JsonValue)>) -> JsonValue {
    JsonValue::Object(entries.into_iter().map(|(k, v)| (k.to_string(), v)).collect())
}

fn arr(items: Vec<JsonValue>) -> JsonValue {
    JsonValue::Array(items)
}

fn field(key: &str, kind: &str, label: &str) -> JsonValue {
    obj(vec![("key", s(key)), ("type", s(kind)), ("label", s(label))])
}

fn diet_schema() -> JsonValue {
    obj(vec![(
        "fields",
        arr(vec![
            obj(vec![
                ("key", s("name")),
                ("type", s("text")),
                ("label", s("姓名")),
                ("required", JsonValue::Bool(true)),
            ]),
            obj(vec![
                ("key", s("email")),
                ("type", s("email")),
                ("label", s("邮箱")),
                ("required", JsonValue::Bool(true)),
            ]),
            obj(vec![
                ("key", s("diet")),
                ("type", s("select")),
                ("label", s("饮食")),
                ("required", JsonValue::Bool(false)),
                (
                    "options",
                    arr(vec![
                        obj(vec![("label", s("无")), ("value", s("none"))]),
                        obj(vec![("label", s("素食")), ("value", s("veg"))]),
                    ]),
                ),
            ]),
        ]),
    )])
}

fn accepted() -> Vec<String> {
    vec!["a@b.cn".to_string()]
}

#[test]
fn form_schema_validation() {
    assert!(validate_form_schema(&default_schema()).is_ok());
    // 缺 fields
    assert!(validate_form_schema(&obj(vec![])).is_err());
    // 重复 key
    let dup = obj(vec![("fields", arr(vec![field("a", "text", "A"), field("a", "text", "B")]))]);
    assert!(validate_form_schema(&dup).is_err());
    // 选项字段无选项
    let no_options = obj(vec![("fields", arr(vec![field("x", "select", "X")]))]);
    assert!(validate_form_schema(&no_options).is_err());
    // 未知类型
    let bad_type = obj(vec![("fields", arr(vec![field("x", "sheet", "X")]))]);
    assert!(validate_form_schema(&bad_type).is_err());
}

#[test]
fn answers_validation() {
    let schema = diet_schema();
    assert!(validate_answers(
        &schema,
        &obj(vec![("name", s("张三")), ("email", s("a@b.cn")), ("diet", s("veg"))]),
        &accepted()
    )
    .is_ok());
    assert!(
        validate_answers(&schema, &obj(vec![("email", s("a@b.cn"))]), &accepted()).is_err(),
        "姓名必填"
    );
    assert!(validate_answers(&schema, &obj(vec![("name", s("张三")), ("email", s("bad"))]), &accepted()).is_err());
    assert!(validate_answers(
        &schema,
        &obj(vec![("name", s("张三")), ("email", s("a@b.cn")), ("diet", s("meat"))]),
        &accepted()
    )
    .is_err());
}

#[test]
fn decisions_cover_capacity_and_review() {
    assert_eq!(registration_decision(0, 10, false, false), Decision::Approved);
    assert_eq!(registration_decision(0, 10, false, true), Decision::Pending);
    assert_eq!(registration_decision(10, 10, true, false), Decision::Waitlist);
    assert_eq!(
        registration_decision(0, 0, false, false),
        Decision::Approved,
        "capacity=0 不限"
    );
}

#[test]
fn codes_and_contact_extraction() {
    let code = generate_code();
    assert_eq!(code.len(), 6);
    assert!(code.chars().all(|c| c.is_ascii_digit()));
    assert_eq!(hash_code("123456"), hash_code("123456"));
    assert_ne!(hash_code("123456"), hash_code("123457"));
    assert_eq!(generate_checkin_code().len(), 24);
    let (name, phone) = extract_contact(&obj(vec![("name", s(" 李四 ")), ("phone", s("13800000000"))]));
    assert_eq!(name.as_deref(), Some("李四"));
    assert_eq!(phone.as_deref(), Some("13800000000"));
}

#[test]
fn export_headers_skip_contact_fields() {
    let headers = export_headers(&default_schema());
    assert_eq!(headers[0], "序号");
    assert!(headers.contains(&"备注".to_string()));
    assert!(
        !headers.contains(&"姓名".to_string())
            || headers.iter().filter(|h| *h == "姓名").count() == 1
    );
}

#[test]
fn schema_errors_name_the_problem() {
    let missing = validate_form_schema(&obj(vec![])).unwrap_err();
    assert_eq!(missing.kind, ErrorKind::Unprocessable);
    assert_eq!(missing.code, "EVENT_VALIDATION");
    assert_eq!(missing.message, "表单缺少 fields 数组");
    assert_eq!(missing.details.len(), 1);
    assert_eq!(missing.details[0].field, "fields");
    assert_eq!(missing.details[0].message, "缺少");

    let bad_key = obj(vec![("fields", arr(vec![field("a-b", "text", "A")]))]);
    assert_eq!(validate_form_schema(&bad_key).unwrap_err().message, "字段 key 需为字母/数字/下划线");
    let empty_key = obj(vec![("fields", arr(vec![field("", "text", "A")]))]);
    assert_eq!(validate_form_schema(&empty_key).unwrap_err().details[0].message, "key 非法");
    let dup = obj(vec![("fields", arr(vec![field("a", "text", "A"), field("a", "text", "B")]))]);
    assert_eq!(validate_form_schema(&dup).unwrap_err().message, "字段 key 重复");
    let bad_type = obj(vec![("fields", arr(vec![field("x", "sheet", "X")]))]);
    assert_eq!(validate_form_schema(&bad_type).unwrap_err().message, "字段类型不支持");
    let blank = obj(vec![("fields", arr(vec![field("x", "text", " \t ")]))]);
    assert_eq!(validate_form_schema(&blank).unwrap_err().message, "字段 label 不能为空");
    let no_options = obj(vec![("fields", arr(vec![field("x", "radio", "X")]))]);
    assert_eq!(validate_form_schema(&no_options).unwrap_err().message, "选项字段必须提供 options");
    let empty_options = obj(vec![(
        "fields",
        arr(vec![obj(vec![
            ("key", s("x")),
            ("type", s("multiselect")),
            ("label", s("X")),
            ("options", arr(vec![])),
        ])]),
    )]);
    assert_eq!(validate_form_schema(&empty_options).unwrap_err().details[0].message, "缺少选项");
    // The first bad field decides, even when a later one is bad too.
    let two = obj(vec![("fields", arr(vec![field("x", "sheet", "X"), field("", "text", "Y")]))]);
    assert_eq!(validate_form_schema(&two).unwrap_err().message, "字段类型不支持");
}

#[test]
fn default_schema_has_four_fields() {
    let schema = default_schema();
    let fields = schema.get_array("fields").unwrap();
    assert_eq!(fields.len(), 4);
    let keys: Vec<&str> = fields.iter().map(|f| f.get_str("key").unwrap().as_str()).collect();
    assert_eq!(keys, vec!["name", "email", "phone", "note"]);
    assert_eq!(fields[0].get_bool("required"), Some(true));
    assert_eq!(fields[2].get_bool("required"), Some(false));
    assert!(matches!(fields[0].get("maxLength"), Some(JsonValue::Number(t)) if t == "50"));
    assert!(matches!(schema.get("version"), Some(JsonValue::Number(t)) if t == "1"));
}

#[test]
fn answers_report_every_problem_in_order() {
    let schema = obj(vec![(
        "fields",
        arr(vec![
            obj(vec![("key", s("name")), ("type", s("text")), ("label", s("N")), ("required", JsonValue::Bool(true))]),
            obj(vec![("key", s("age")), ("type", s("number")), ("label", s("A"))]),
            obj(vec![("key", s("tel")), ("type", s("phone")), ("label", s("T"))]),
            obj(vec![
                ("key", s("tags")),
                ("type", s("multiselect")),
                ("label", s("G")),
                ("options", arr(vec![obj(vec![("value", s("x"))]), obj(vec![("value", s("y"))])])),
            ]),
        ]),
    )]);
    let answers = obj(vec![
        ("name", s("   ")),
        ("age", s("12abc")),
        ("tel", s("12-34")),
        ("tags", arr(vec![s("x"), s("z")])),
    ]);
    let err = validate_answers(&schema, &answers, &vec![]).unwrap_err();
    assert_eq!(err.code, "EVENT_VALIDATION");
    assert_eq!(err.message, "报名信息校验失败");
    let details: Vec<(String, String)> =
        err.details.iter().map(|d| (d.field.clone(), d.message.clone())).collect();
    assert_eq!(
        details,
        vec![
            ("name".to_string(), "必填".to_string()),
            ("age".to_string(), "数字格式错误".to_string()),
            ("tel".to_string(), "手机号格式错误".to_string()),
            ("tags".to_string(), "选项不在允许范围".to_string()),
        ]
    );
    let good = obj(vec![
        ("name", s("王五")),
        ("age", s("1.5e3")),
        ("tel", s("138-0000-0000")),
        ("tags", arr(vec![s("y"), s("x")])),
    ]);
    assert!(validate_answers(&schema, &good, &vec![]).is_ok());
    // Numbers as JSON numbers, and the float forms `str::parse::<f64>` takes.
    for text in ["7", "-0.5", ".5", "5.", "+1E-3", "inf", "-Infinity", "NaN"] {
        let a = obj(vec![("name", s("x")), ("age", s(text))]);
        assert!(validate_answers(&schema, &a, &vec![]).is_ok(), "{text}");
    }
    for text in ["", "1e", "e5", "1.2.3", "0x10", "--1", "in"] {
        let a = obj(vec![("name", s("x")), ("age", s(text))]);
        let empty = text.is_empty();
        assert_eq!(validate_answers(&schema, &a, &vec![]).is_ok(), empty, "{text}");
    }
    let numeric = obj(vec![("name", s("x")), ("age", JsonValue::Number("42".to_string()))]);
    assert!(validate_answers(&schema, &numeric, &vec![]).is_ok());
    let wrong_shape = obj(vec![("name", s("x")), ("tags", s("x"))]);
    assert_eq!(validate_answers(&schema, &wrong_shape, &vec![]).unwrap_err().details[0].message, "多选格式错误");
}

#[test]
fn select_answers_must_be_listed_strings() {
    let schema = diet_schema();
    let not_text = obj(vec![("name", s("a")), ("email", s("a@b.cn")), ("diet", JsonValue::Bool(true))]);
    let err = validate_answers(&schema, &not_text, &accepted()).unwrap_err();
    assert_eq!(err.details.len(), 1);
    assert_eq!(err.details[0].field, "diet");
    assert_eq!(err.details[0].message, "选项格式错误");
    let bad_email = obj(vec![("name", s("a")), ("email", s("bad"))]);
    assert_eq!(validate_answers(&schema, &bad_email, &accepted()).unwrap_err().details[0].message, "邮箱格式错误");
    // An optional answer left empty is not checked.
    let empty_diet = obj(vec![("name", s("a")), ("email", s("a@b.cn")), ("diet", JsonValue::Null)]);
    assert!(validate_answers(&schema, &empty_diet, &accepted()).is_ok());
    // No fields: nothing to check.
    assert!(validate_answers(&obj(vec![]), &obj(vec![]), &vec![]).is_ok());
}

#[test]
fn answer_texts_lists_string_answers() {
    let answers = obj(vec![("a", s("x")), ("b", JsonValue::Number("1".to_string())), ("c", s("y"))]);
    assert_eq!(answer_texts(&answers), vec!["x".to_string(), "y".to_string()]);
    assert!(answer_texts(&s("x")).is_empty());
}

#[test]
fn contact_extraction_skips_blank_and_non_strings() {
    let (name, phone) = extract_contact(&obj(vec![("name", s("   ")), ("phone", JsonValue::Number("138".to_string()))]));
    assert_eq!(name, None);
    assert_eq!(phone, None);
    let (name, phone) = extract_contact(&obj(vec![]));
    assert_eq!((name, phone), (None, None));
}

#[test]
fn decisions_when_full() {
    assert_eq!(registration_decision(10, 10, false, true), Decision::Approved);
    assert_eq!(registration_decision(11, 10, true, true), Decision::Waitlist);
    assert_eq!(registration_decision(9, 10, true, true), Decision::Pending);
    assert_eq!(registration_decision(100, 0, true, false), Decision::Approved);
}

#[test]
fn status_labels() {
    assert_eq!(status_label("approved"), "已通过");
    assert_eq!(status_label("pending"), "待审核");
    assert_eq!(status_label("rejected"), "已拒绝");
    assert_eq!(status_label("waitlist"), "候补中");
    assert_eq!(status_label("cancelled"), "已取消");
    assert_eq!(status_label("draft"), "未知");
}

#[test]
fn code_hash_is_sha256_hex() {
    assert_eq!(
        hash_code("123456"),
        "8d969eef6ecad3c29a3a629280e686cf0c3f5d5a86aff3ca12020c923adc6c92"
    );
    assert_eq!(
        hash_code(""),
        "e3b0c44298fc1c149afbf4c8996fb92427ae41e4649b934ca495991b7852b855"
    );
}

#[test]
fn codes_from_random_numbers() {
    assert_eq!(code_from_random(42), "000042");
    assert_eq!(code_from_random(1_234_567), "234567");
    assert_eq!(code_from_random(u32::MAX), "967295");
    let checkin = generate_checkin_code();
    assert!(checkin.chars().all(|c| c.is_ascii_digit() || ('a'..='f').contains(&c)));
}

#[test]
fn export_headers_use_label_or_key() {
    let schema = obj(vec![(
        "fields",
        arr(vec![
            field("email", "email", "邮箱"),
            obj(vec![("key", s("size")), ("type", s("text"))]),
            field("note", "textarea", "备注"),
        ]),
    )]);
    let headers = export_headers(&schema);
    assert_eq!(headers.len(), 9);
    assert_eq!(headers[7], "size");
    assert_eq!(headers[8], "备注");
    assert_eq!(export_headers(&obj(vec![])).len(), 7);
}

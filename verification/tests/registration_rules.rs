use event_service::access::{
    form_found, optional_user_id, registration_for_email, registration_in_event, user_id_of,
};
use event_service::codes::hash_code;
use event_service::domain::Decision;
use event_service::error::ErrorKind;
use event_service::events::{prepare_event, CreateEventRequest, EventInfo};
use event_service::json::JsonValue;
use event_service::registration::{
    admission, check_code, checkin, judge_code, settle_registration, issue_code, next_schema_version, register,
    registration_window, remaining_seats, review, status_counts, CodeEffect, CodeRecord,
    CodeVerdict, RegisterFacts, RowState, CODE_TTL_NANOS,
};

const NOW: i64 = 1_767_225_600_000_000_000;

fn s(text: &str) -> JsonValue {
    JsonValue::Str(text.to_string())
}

fn obj(entries: Vec<(&str, JsonValue)>) -> JsonValue {
    JsonValue::Object(entries.into_iter().map(|(k, v)| (k.to_string(), v)).collect())
}

fn event(capacity: i64, need_review: bool, email_verify: bool) -> EventInfo {
    let mut e = prepare_event(
        CreateEventRequest {
            slug: "welcome-2026".to_string(),
            title: "迎新活动".to_string(),
            description_md: None,
            capacity: Some(capacity),
            waitlist_enabled: Some(true),
            need_review: Some(need_review),
            email_verify: Some(email_verify),
        },
        false,
    )
    .unwrap();
    e.status = "open".to_string();
    e
}

fn form() -> JsonValue {
    obj(vec![(
        "fields",
        JsonValue::Array(vec![
            obj(vec![("key", s("name")), ("type", s("text")), ("label", s("姓名")), ("required", JsonValue::Bool(true))]),
            obj(vec![("key", s("email")), ("type", s("email")), ("label", s("邮箱")), ("required", JsonValue::Bool(true))]),
        ]),
    )])
}

fn answers(email: &str) -> JsonValue {
    obj(vec![("name", s("张三")), ("email", s(email))])
}

fn record(code: &str) -> CodeRecord {
    CodeRecord { code_hash: hash_code(code), expires_at: NOW + 1, attempts: 0 }
}

fn facts(approved: i64) -> RegisterFacts {
    RegisterFacts {
        now: NOW,
        form: Some(form()),
        email_valid: true,
        domain_allowed: true,
        already_registered: false,
        code_record: Some(record("123456")),
        approved_count: approved,
    }
}

fn valid() -> Vec<String> {
    vec!["a@club.example.com".to_string()]
}

#[test]
fn window() {
    assert!(registration_window(NOW, None, None).is_ok());
    assert!(registration_window(NOW, Some(NOW), Some(NOW)).is_ok());
    let err = registration_window(NOW, Some(NOW + 1), None).unwrap_err();
    assert_eq!(err.kind, ErrorKind::Forbidden);
    assert_eq!(err.code, "EVENT_REG_NOT_STARTED");
    let err = registration_window(NOW, None, Some(NOW - 1)).unwrap_err();
    assert_eq!(err.code, "EVENT_REG_CLOSED");
    assert_eq!(err.message, "报名已截止");
}

#[test]
fn code_verdicts() {
    let r = record("123456");
    assert_eq!(check_code("123456", Some(&r), NOW), CodeVerdict::Accepted);
    assert_eq!(check_code(" 123456 ", Some(&r), NOW), CodeVerdict::Accepted);
    assert_eq!(check_code("000000", Some(&r), NOW), CodeVerdict::Wrong);
    assert_eq!(check_code("123456", None, NOW), CodeVerdict::Missing);
    assert_eq!(check_code("123456", Some(&r), NOW + 2), CodeVerdict::Expired);
    let locked = CodeRecord { code_hash: hash_code("123456"), expires_at: NOW, attempts: 5 };
    assert_eq!(check_code("123456", Some(&locked), NOW), CodeVerdict::Locked);
    let four = CodeRecord { code_hash: hash_code("123456"), expires_at: NOW, attempts: 4 };
    assert_eq!(check_code("123456", Some(&four), NOW), CodeVerdict::Accepted);
}

#[test]
fn issuing_codes() {
    let issued = issue_code(&event(2, false, true), true, true, NOW).unwrap();
    assert_eq!(issued.code.len(), 6);
    assert!(issued.code.chars().all(|c| c.is_ascii_digit()));
    assert_eq!(issued.code_hash, hash_code(&issued.code));
    assert_eq!(issued.expires_at, NOW + CODE_TTL_NANOS);
    assert_eq!(CODE_TTL_NANOS, 300_000_000_000);
    let err = issue_code(&event(2, false, false), true, true, NOW).unwrap_err();
    assert_eq!(err.kind, ErrorKind::BadRequest);
    assert_eq!(err.code, "EVENT_VERIFY_DISABLED");
    let err = issue_code(&event(2, false, true), false, true, NOW).unwrap_err();
    assert_eq!(err.message, "邮箱格式错误");
    let err = issue_code(&event(2, false, true), true, false, NOW).unwrap_err();
    assert_eq!(err.code, "EVENT_EMAIL_DOMAIN_NOT_ALLOWED");
    assert_eq!(err.details[0].message, "域名不在白名单");
}

#[test]
fn admissions() {
    assert_eq!(admission(1, 2, true, false).unwrap(), Decision::Approved);
    assert_eq!(admission(2, 2, true, false).unwrap(), Decision::Waitlist);
    let err = admission(2, 2, false, true).unwrap_err();
    assert_eq!(err.kind, ErrorKind::Conflict);
    assert_eq!(err.code, "EVENT_FULL");
    assert_eq!(admission(1, 2, false, true).unwrap(), Decision::Pending);
    assert_eq!(admission(50, 0, false, false).unwrap(), Decision::Approved);
}

#[test]
fn registering() {
    let e = event(2, false, true);
    let out = register(&e, &answers("a@club.example.com"), Some("123456"), &valid(), &facts(0));
    assert_eq!(out.result.unwrap(), Decision::Approved);
    assert_eq!(out.code_effect, CodeEffect::Used);

    let out = register(&e, &answers("a@club.example.com"), Some("123456"), &valid(), &facts(2));
    assert_eq!(out.result.unwrap(), Decision::Waitlist);

    let out = register(&e, &answers("a@club.example.com"), Some("000000"), &valid(), &facts(0));
    let err = out.result.unwrap_err();
    assert_eq!(err.code, "EVENT_CODE_INVALID");
    assert_eq!(err.message, "验证码错误");
    assert_eq!(out.code_effect, CodeEffect::AttemptCounted);

    let out = register(&e, &answers("a@club.example.com"), None, &valid(), &facts(0));
    assert_eq!(out.result.unwrap_err().code, "EVENT_CODE_INVALID");

    let mut f = facts(0);
    f.code_record = None;
    let out = register(&e, &answers("a@club.example.com"), Some("123456"), &valid(), &f);
    assert_eq!(out.result.unwrap_err().message, "请先获取验证码");
    assert_eq!(out.code_effect, CodeEffect::Untouched);

    let mut f = facts(0);
    f.code_record = Some(CodeRecord { code_hash: hash_code("123456"), expires_at: NOW, attempts: 5 });
    let out = register(&e, &answers("a@club.example.com"), Some("123456"), &valid(), &f);
    let err = out.result.unwrap_err();
    assert_eq!(err.kind, ErrorKind::TooManyRequests);
    assert_eq!(err.code, "EVENT_CODE_LOCKED");

    let mut f = facts(0);
    f.already_registered = true;
    let err = register(&e, &answers("a@club.example.com"), Some("123456"), &valid(), &f).result.unwrap_err();
    assert_eq!(err.code, "EVENT_ALREADY_REGISTERED");

    let mut f = facts(0);
    f.domain_allowed = false;
    let err = register(&e, &answers("a@club.example.com"), Some("123456"), &valid(), &f).result.unwrap_err();
    assert_eq!(err.code, "EVENT_EMAIL_DOMAIN_NOT_ALLOWED");

    let mut f = facts(0);
    f.email_valid = false;
    let err = register(&e, &answers("a@club.example.com"), Some("123456"), &valid(), &f).result.unwrap_err();
    assert_eq!(err.message, "邮箱格式错误");

    let mut f = facts(0);
    f.form = None;
    let err = register(&e, &answers("a@club.example.com"), Some("123456"), &valid(), &f).result.unwrap_err();
    assert_eq!(err.kind, ErrorKind::Internal);

    let err = register(&e, &obj(vec![("name", s("张三"))]), Some("123456"), &valid(), &facts(0)).result.unwrap_err();
    assert_eq!(err.message, "报名信息校验失败");

    let no_email_field = RegisterFacts { form: Some(obj(vec![("fields", JsonValue::Array(vec![]))])), ..facts(0) };
    let err = register(&e, &obj(vec![("name", s("张三"))]), Some("123456"), &valid(), &no_email_field)
        .result
        .unwrap_err();
    assert_eq!(err.message, "缺少邮箱");
    assert_eq!(err.details[0].field, "email");
    assert_eq!(err.details[0].message, "必填");

    let mut late = event(2, false, true);
    late.reg_end_at = Some(NOW - 1);
    let err = register(&late, &answers("a@club.example.com"), Some("123456"), &valid(), &facts(0)).result.unwrap_err();
    assert_eq!(err.code, "EVENT_REG_CLOSED");
}

#[test]
fn registering_without_codes_or_with_review() {
    let e = event(2, true, false);
    let out = register(&e, &answers("a@club.example.com"), None, &valid(), &facts(0));
    assert_eq!(out.result.unwrap(), Decision::Pending);
    assert_eq!(out.code_effect, CodeEffect::Untouched);

    let mut full = event(2, false, false);
    full.waitlist_enabled = false;
    let out = register(&full, &answers("a@club.example.com"), None, &valid(), &facts(2));
    assert_eq!(out.result.unwrap_err().code, "EVENT_FULL");

    let mut full_verified = event(2, false, true);
    full_verified.waitlist_enabled = false;
    let out = register(&full_verified, &answers("a@club.example.com"), Some("123456"), &valid(), &facts(2));
    assert_eq!(out.result.unwrap_err().code, "EVENT_FULL");
    assert_eq!(out.code_effect, CodeEffect::Used);
}

#[test]
fn reviews() {
    let p = review("approve", 2, 1, "pending").unwrap();
    assert_eq!(p.status, "approved");
    assert!(!p.promote_waitlist);
    let err = review("approve", 2, 2, "pending").unwrap_err();
    assert_eq!(err.code, "EVENT_FULL");
    assert!(review("approve", 0, 100, "pending").is_ok());
    let p = review("cancel", 2, 2, "approved").unwrap();
    assert_eq!(p.status, "cancelled");
    assert!(p.promote_waitlist);
    let p = review("reject", 2, 2, "pending").unwrap();
    assert_eq!(p.status, "rejected");
    assert!(!p.promote_waitlist);
    let err = review("delete", 2, 0, "pending").unwrap_err();
    assert_eq!(err.message, "action 不合法");
    assert_eq!(err.details[0].field, "action");
    assert_eq!(err.details[0].message, "仅支持 approve/reject/cancel");
}

#[test]
fn checkins() {
    assert_eq!(checkin("approved", false).unwrap(), true);
    assert_eq!(checkin("approved", true).unwrap(), false);
    let err = checkin("pending", false).unwrap_err();
    assert_eq!(err.kind, ErrorKind::Conflict);
    assert_eq!(err.code, "EVENT_NOT_APPROVED");
    assert_eq!(err.message, "仅已通过的报名可签到");
}

#[test]
fn seats_left() {
    assert_eq!(remaining_seats(2, 0), Some(2));
    assert_eq!(remaining_seats(2, 1), Some(1));
    assert_eq!(remaining_seats(2, 5), Some(0));
    assert_eq!(remaining_seats(0, 5), None);
}

#[test]
fn counting() {
    let rows: Vec<RowState> = [
        ("approved", true),
        ("approved", false),
        ("pending", false),
        ("waitlist", false),
        ("cancelled", true),
    ]
    .iter()
    .map(|(s, c)| RowState { status: s.to_string(), checked_in: *c })
    .collect();
    let c = status_counts(&rows);
    assert_eq!(c.approved, 2);
    assert_eq!(c.waitlist, 1);
    assert_eq!(c.pending, 2);
    assert_eq!(c.checked_in, 2);
    assert_eq!(c.total, 5);
    let empty = status_counts(&vec![]);
    assert_eq!((empty.approved, empty.pending, empty.waitlist, empty.checked_in, empty.total), (0, 0, 0, 0, 0));
}

#[test]
fn schema_versions() {
    assert_eq!(next_schema_version(None), 1);
    assert_eq!(next_schema_version(Some(3)), 4);
}

#[test]
fn user_ids() {
    let id = "0192f5e4-7c3a-7b10-8000-000000000001";
    assert_eq!(user_id_of(id).unwrap(), 0x0192f5e47c3a7b108000000000000001u128);
    assert_eq!(user_id_of("0192f5e47c3a7b108000000000000001").unwrap(), 0x0192f5e47c3a7b108000000000000001u128);
    let err = user_id_of("not-a-uuid").unwrap_err();
    assert_eq!(err.kind, ErrorKind::Unauthorized);
    assert_eq!(err.code, "AUTH_INVALID_TOKEN");
    assert_eq!(optional_user_id(Some(id)), Some(0x0192f5e47c3a7b108000000000000001u128));
    assert_eq!(optional_user_id(Some("x")), None);
    assert_eq!(optional_user_id(None), None);
}

#[test]
fn record_lookups() {
    assert!(registration_in_event(Some(7), 7).is_ok());
    let err = registration_in_event(Some(8), 7).unwrap_err();
    assert_eq!(err.kind, ErrorKind::NotFound);
    assert_eq!(err.code, "EVENT_REGISTRATION_NOT_FOUND");
    assert!(registration_in_event(None, 7).is_err());
    assert!(registration_for_email(Some("a@club.example.com"), "a@club.example.com").is_ok());
    assert!(registration_for_email(Some("a@club.example.com"), "x@club.example.com").is_err());
    assert!(registration_for_email(None, "a@club.example.com").is_err());
    assert!(form_found(true).is_ok());
    assert_eq!(form_found(false).unwrap_err().code, "EVENT_FORM_NOT_FOUND");
}

#[test]
fn expired_or_locked_codes_refuse_even_the_right_code() {
    let e = event(2, false, true);
    let mut f = facts(0);
    f.code_record = Some(CodeRecord { code_hash: hash_code("123456"), expires_at: NOW - 1, attempts: 0 });
    let out = register(&e, &answers("a@club.example.com"), Some("123456"), &valid(), &f);
    assert_eq!(out.result.unwrap_err().code, "EVENT_CODE_EXPIRED");
    assert_eq!(out.code_effect, CodeEffect::Untouched);
}

#[test]
fn unlimited_events_never_waitlist() {
    assert_eq!(admission(1_000, 0, true, false).unwrap(), Decision::Approved);
    assert_eq!(admission(1_000, 0, true, true).unwrap(), Decision::Pending);
}

#[test]
fn judging_by_hash() {
    let r = CodeRecord { code_hash: "abc".to_string(), expires_at: NOW, attempts: 0 };
    assert_eq!(judge_code("abc", Some(&r), NOW), CodeVerdict::Accepted);
    assert_eq!(judge_code("abd", Some(&r), NOW), CodeVerdict::Wrong);
    assert_eq!(judge_code("abc", Some(&r), NOW + 1), CodeVerdict::Expired);
    assert_eq!(judge_code("abc", None, NOW), CodeVerdict::Missing);
}

#[test]
fn settling_by_verdict() {
    let e = event(2, false, true);
    let out = settle_registration(&e, &answers("a@club.example.com"), CodeVerdict::Accepted, &valid(), &facts(1));
    assert_eq!(out.result.unwrap(), Decision::Approved);
    assert_eq!(out.code_effect, CodeEffect::Used);
    let out = settle_registration(&e, &answers("a@club.example.com"), CodeVerdict::Wrong, &valid(), &facts(1));
    assert_eq!(out.result.unwrap_err().message, "验证码错误");
    assert_eq!(out.code_effect, CodeEffect::AttemptCounted);
    let out = settle_registration(&e, &answers("a@club.example.com"), CodeVerdict::Expired, &valid(), &facts(1));
    assert_eq!(out.result.unwrap_err().code, "EVENT_CODE_EXPIRED");
    let relaxed = event(2, false, false);
    let out = settle_registration(&relaxed, &answers("a@club.example.com"), CodeVerdict::Missing, &valid(), &facts(1));
    assert_eq!(out.result.unwrap(), Decision::Approved);
    assert_eq!(out.code_effect, CodeEffect::Untouched);
}

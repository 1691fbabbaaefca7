use event_service::error::ErrorKind;
use event_service::events::{
    admin_event, apply_event_update, check_event_update, domains_of, open_event, prepare_event,
    validate_slug, CreateEventRequest, EventInfo, UpdateEventRequest,
};
use event_service::json::JsonValue;

fn create(slug: &str, title: &str) -> CreateEventRequest {
    CreateEventRequest {
        slug: slug.to_string(),
        title: title.to_string(),
        description_md: None,
        capacity: None,
        waitlist_enabled: None,
        need_review: None,
        email_verify: None,
    }
}

fn no_update() -> UpdateEventRequest {
    UpdateEventRequest {
        title: None,
        description_md: None,
        location: None,
        capacity: None,
        waitlist_enabled: None,
        need_review: None,
        email_verify: None,
        email_domains: None,
        status: None,
    }
}

fn sample_event() -> EventInfo {
    prepare_event(create("welcome-2026", "迎新活动"), false).unwrap()
}

#[test]
fn slugs() {
    assert!(validate_slug("welcome-2026").is_ok());
    assert!(validate_slug("a").is_ok());
    assert!(validate_slug(&"a".repeat(64)).is_ok());
    assert!(validate_slug(&"a".repeat(65)).is_err());
    assert!(validate_slug("").is_err());
    let err = validate_slug("Bad Slug").unwrap_err();
    assert_eq!(err.kind, ErrorKind::Unprocessable);
    assert_eq!(err.code, "EVENT_VALIDATION");
    assert_eq!(err.message, "slug 仅支持小写字母/数字/连字符");
    assert_eq!(err.details[0].field, "slug");
    assert_eq!(err.details[0].message, "非法");
    assert!(validate_slug("活动").is_err());
    assert!(validate_slug("a_b").is_err());
}

#[test]
fn creation_defaults() {
    let e = prepare_event(create("welcome-2026", "  迎新活动 "), false).unwrap();
    assert_eq!(e.slug, "welcome-2026");
    assert_eq!(e.title, "迎新活动");
    assert_eq!(e.description_md, "");
    assert_eq!(e.location, None);
    assert_eq!(e.capacity, 0);
    assert!(e.waitlist_enabled);
    assert!(!e.need_review);
    assert!(e.email_verify);
    assert!(e.email_domains.is_empty());
    assert_eq!(e.status, "draft");
    assert_eq!(e.reg_start_at, None);
    assert_eq!(e.reg_end_at, None);

    let mut req = create("x", "T");
    req.capacity = Some(2);
    req.need_review = Some(true);
    req.waitlist_enabled = Some(false);
    req.email_verify = Some(false);
    req.description_md = Some("**hi**".to_string());
    let e = prepare_event(req, false).unwrap();
    assert_eq!(e.capacity, 2);
    assert!(e.need_review && !e.waitlist_enabled && !e.email_verify);
    assert_eq!(e.description_md, "**hi**");
}

#[test]
fn creation_refusals_in_order() {
    let err = prepare_event(create("Bad Slug", ""), true).unwrap_err();
    assert_eq!(err.message, "slug 仅支持小写字母/数字/连字符");
    let err = prepare_event(create("ok", "   "), true).unwrap_err();
    assert_eq!(err.message, "标题需为 1 ~ 200 字符");
    assert_eq!(err.details[0].field, "title");
    assert!(prepare_event(create("ok", &"题".repeat(200)), false).is_ok());
    assert!(prepare_event(create("ok", &"题".repeat(201)), false).is_err());
    let err = prepare_event(create("ok", "T"), true).unwrap_err();
    assert_eq!(err.kind, ErrorKind::Conflict);
    assert_eq!(err.code, "EVENT_SLUG_TAKEN");
    assert!(err.details.is_empty());
    let mut req = create("ok", "T");
    req.capacity = Some(-1);
    let err = prepare_event(req, false).unwrap_err();
    assert_eq!(err.message, "名额不能为负");
    assert_eq!(err.details[0].field, "capacity");
}

#[test]
fn update_checks() {
    assert!(check_event_update(&no_update()).is_ok());
    let mut u = no_update();
    u.status = Some("closed-forever".to_string());
    let err = check_event_update(&u).unwrap_err();
    assert_eq!(err.message, "状态不合法");
    assert_eq!(err.details[0].field, "status");
    assert_eq!(err.details[0].message, "仅支持 draft/open/closed");
    for status in ["draft", "open", "closed"] {
        let mut u = no_update();
        u.status = Some(status.to_string());
        assert!(check_event_update(&u).is_ok());
    }
    let mut u = no_update();
    u.capacity = Some(-5);
    assert_eq!(check_event_update(&u).unwrap_err().message, "名额不能为负");
    u.capacity = Some(0);
    assert!(check_event_update(&u).is_ok());
}

#[test]
fn updates_replace_given_settings_only() {
    let e = sample_event();
    let same = apply_event_update(sample_event(), no_update());
    assert_eq!(same.title, e.title);
    assert_eq!(same.capacity, e.capacity);
    assert_eq!(same.status, e.status);

    let mut u = no_update();
    u.status = Some("open".to_string());
    u.capacity = Some(2);
    u.location = Some(Some("礼堂".to_string()));
    u.email_domains = Some(vec!["club.example.com".to_string()]);
    u.need_review = Some(true);
    let e2 = apply_event_update(sample_event(), u);
    assert_eq!(e2.status, "open");
    assert_eq!(e2.capacity, 2);
    assert_eq!(e2.location.as_deref(), Some("礼堂"));
    assert_eq!(e2.email_domains, vec!["club.example.com".to_string()]);
    assert!(e2.need_review);
    assert_eq!(e2.title, "迎新活动");
    assert_eq!(e2.slug, "welcome-2026");

    let mut clear = no_update();
    clear.location = Some(None);
    let e3 = apply_event_update(e2, clear);
    assert_eq!(e3.location, None);
    assert_eq!(e3.capacity, 2);
}

#[test]
fn domain_lists() {
    let v = JsonValue::Array(vec![
        JsonValue::Str("a.com".to_string()),
        JsonValue::Number("1".to_string()),
        JsonValue::Str("b.org".to_string()),
    ]);
    assert_eq!(domains_of(&v), vec!["a.com".to_string(), "b.org".to_string()]);
    assert!(domains_of(&JsonValue::Null).is_empty());
    assert!(domains_of(&JsonValue::Str("a.com".to_string())).is_empty());
}

#[test]
fn public_and_admin_lookups() {
    let err = open_event(Some(sample_event())).unwrap_err();
    assert_eq!(err.kind, ErrorKind::NotFound);
    assert_eq!(err.code, "EVENT_NOT_FOUND");
    assert_eq!(err.message, "活动不存在或未开放");
    assert!(open_event(None).is_err());
    let mut open = no_update();
    open.status = Some("open".to_string());
    let e = apply_event_update(sample_event(), open);
    assert_eq!(open_event(Some(e)).unwrap().slug, "welcome-2026");

    assert_eq!(admin_event(None, true).unwrap_err().message, "活动不存在");
    let err = admin_event(Some(sample_event()), false).unwrap_err();
    assert_eq!(err.kind, ErrorKind::Forbidden);
    assert_eq!(err.code, "EVENT_NOT_ADMIN");
    assert!(admin_event(Some(sample_event()), true).is_ok());
}

#[test]
fn same_update_twice_is_once() {
    let make = || {
        let mut u = no_update();
        u.title = Some("新标题".to_string());
        u.capacity = Some(8);
        u
    };
    let once = apply_event_update(sample_event(), make());
    let twice = apply_event_update(apply_event_update(sample_event(), make()), make());
    assert_eq!(once.title, twice.title);
    assert_eq!(once.capacity, twice.capacity);
    assert_eq!(once.status, twice.status);
    assert_eq!(once.location, twice.location);
}

//! Event settings: the slug rule, what a creation request becomes, and how an update
//! request changes an event.

use vstd::prelude::*;
use vstd::string::StringExecFns;
use crate::error::{AppError, ErrorKind, ErrorView, validation_error, error_view};
use crate::domain::{result_view, string_views};
use crate::json::JsonValue;
use crate::text::{chars_of, str_eq, trim, trimmed};

verus! {

/// Event status: being prepared, not visible to the public.
pub const EVENT_DRAFT: &'static str = "draft";

/// Event status: open for registration.
pub const EVENT_OPEN: &'static str = "open";

/// Event status: closed.
pub const EVENT_CLOSED: &'static str = "closed";

/// The longest slug, in characters.
pub const SLUG_MAX: usize = 64;

/// The longest title, in characters.
pub const TITLE_MAX: usize = 200;

/// A request to create an event.
#[derive(Debug)]
pub struct CreateEventRequest {
    /// The slug: lower-case letters, digits and `-`.
    pub slug: String,
    /// The title.
    pub title: String,
    /// The description (Markdown).
    pub description_md: Option<String>,
    /// The number of seats (0 = unlimited).
    pub capacity: Option<i64>,
    /// Whether a full event takes registrations onto a waiting list.
    pub waitlist_enabled: Option<bool>,
    /// Whether registrations wait for review.
    pub need_review: Option<bool>,
    /// Whether registering asks for an e-mailed code.
    pub email_verify: Option<bool>,
}

/// A request to change an event; `None` leaves a setting as it is.
#[derive(Debug)]
pub struct UpdateEventRequest {
    /// The title.
    pub title: Option<String>,
    /// The description.
    pub description_md: Option<String>,
    /// The location: `Some(None)` clears it.
    pub location: Option<Option<String>>,
    /// The number of seats.
    pub capacity: Option<i64>,
    /// The waiting-list switch.
    pub waitlist_enabled: Option<bool>,
    /// The review switch.
    pub need_review: Option<bool>,
    /// The e-mail code switch.
    pub email_verify: Option<bool>,
    /// The e-mail domains allowed to register (empty = any).
    pub email_domains: Option<Vec<String>>,
    /// `draft`, `open` or `closed`.
    pub status: Option<String>,
}

/// The settings of an event that its rules read and its requests change. Instants are
/// nanoseconds since the Unix epoch.
#[derive(Debug)]
pub struct EventInfo {
    /// The slug.
    pub slug: String,
    /// The title.
    pub title: String,
    /// The description.
    pub description_md: String,
    /// The location.
    pub location: Option<String>,
    /// The number of seats (0 = unlimited).
    pub capacity: i64,
    /// The waiting-list switch.
    pub waitlist_enabled: bool,
    /// The review switch.
    pub need_review: bool,
    /// The e-mail code switch.
    pub email_verify: bool,
    /// The e-mail domains allowed to register (empty = any).
    pub email_domains: Vec<String>,
    /// `draft`, `open` or `closed`.
    pub status: String,
    /// When registration opens, if it is limited.
    pub reg_start_at: Option<i64>,
    /// When registration closes, if it is limited.
    pub reg_end_at: Option<i64>,
}

/// An event's settings as plain values.
pub struct EventView {
    /// The slug.
    pub slug: Seq<char>,
    /// The title.
    pub title: Seq<char>,
    /// The description.
    pub description_md: Seq<char>,
    /// The location.
    pub location: Option<Seq<char>>,
    /// The number of seats.
    pub capacity: i64,
    /// The waiting-list switch.
    pub waitlist_enabled: bool,
    /// The review switch.
    pub need_review: bool,
    /// The e-mail code switch.
    pub email_verify: bool,
    /// The allowed domains.
    pub email_domains: Seq<Seq<char>>,
    /// The status.
    pub status: Seq<char>,
    /// When registration opens.
    pub reg_start_at: Option<i64>,
    /// When registration closes.
    pub reg_end_at: Option<i64>,
}

/// An update request as plain values.
pub struct UpdateView {
    /// The title.
    pub title: Option<Seq<char>>,
    /// The description.
    pub description_md: Option<Seq<char>>,
    /// The location.
    pub location: Option<Option<Seq<char>>>,
    /// The number of seats.
    pub capacity: Option<i64>,
    /// The waiting-list switch.
    pub waitlist_enabled: Option<bool>,
    /// The review switch.
    pub need_review: Option<bool>,
    /// The e-mail code switch.
    pub email_verify: Option<bool>,
    /// The allowed domains.
    pub email_domains: Option<Seq<Seq<char>>>,
    /// The status.
    pub status: Option<Seq<char>>,
}

/// The view of an optional string.
pub open spec fn opt_str(o: Option<String>) -> Option<Seq<char>> {
    match o {
        Some(s) => Some(s@),
        None => None,
    }
}

impl View for EventInfo {
    type V = EventView;

    open spec fn view(&self) -> EventView {
        EventView {
            slug: self.slug@,
            title: self.title@,
            description_md: self.description_md@,
            location: opt_str(self.location),
            capacity: self.capacity,
            waitlist_enabled: self.waitlist_enabled,
            need_review: self.need_review,
            email_verify: self.email_verify,
            email_domains: string_views(self.email_domains@),
            status: self.status@,
            reg_start_at: self.reg_start_at,
            reg_end_at: self.reg_end_at,
        }
    }
}

impl View for UpdateEventRequest {
    type V = UpdateView;

    open spec fn view(&self) -> UpdateView {
        UpdateView {
            title: opt_str(self.title),
            description_md: opt_str(self.description_md),
            location: match self.location {
                Some(l) => Some(opt_str(l)),
                None => None,
            },
            capacity: self.capacity,
            waitlist_enabled: self.waitlist_enabled,
            need_review: self.need_review,
            email_verify: self.email_verify,
            email_domains: match self.email_domains {
                Some(d) => Some(string_views(d@)),
                None => None,
            },
            status: opt_str(self.status),
        }
    }
}

/// A character allowed in a slug.
pub open spec fn is_slug_char(c: char) -> bool {
    ('a' <= c <= 'z') || ('0' <= c <= '9') || c == '-'
}

/// A slug: 1 to 64 lower-case letters, digits and `-`.
pub open spec fn valid_slug(s: Seq<char>) -> bool {
    &&& 0 < s.len() <= SLUG_MAX
    &&& forall|i: int| 0 <= i < s.len() ==> is_slug_char(#[trigger] s[i])
}

/// The error a bad slug is answered with.
pub open spec fn slug_error() -> ErrorView {
    validation_error("slug 仅支持小写字母/数字/连字符"@, seq![("slug"@, "非法"@)])
}

/// What `validate_slug` answers.
pub open spec fn slug_check(s: Seq<char>) -> Result<(), ErrorView> {
    if valid_slug(s) {
        Ok(())
    } else {
        Err(slug_error())
    }
}

/// Checks a slug: 1 to 64 characters, each a lower-case ASCII letter, a digit or `-`.
pub fn validate_slug(slug: &str) -> (res: Result<(), AppError>)
    ensures
        result_view(res) == slug_check(slug@),
{
    let c = chars_of(slug);
    let n = c.len();
    let mut ok = 0 < n && n <= SLUG_MAX;
    let mut i: usize = 0;
    while ok && i < n
        invariant
            i <= n,
            n == c@.len(),
            c@ == slug@,
            ok ==> 0 < n <= SLUG_MAX,
            ok ==> forall|j: int| 0 <= j < i ==> is_slug_char(#[trigger] c@[j]),
            !ok ==> !valid_slug(slug@),
        decreases n - i,
    {
        let ch = c[i];
        if !(('a' <= ch && ch <= 'z') || ('0' <= ch && ch <= '9') || ch == '-') {
            ok = false;
        }
        i = i + 1;
    }
    if ok {
        Ok(())
    } else {
        Err(AppError::unprocessable("EVENT_VALIDATION", "slug 仅支持小写字母/数字/连字符", "slug", "非法"))
    }
}

/// The event a creation request makes, or the error it is refused with. `slug_taken`
/// says whether another event already has the slug.
pub open spec fn creation_outcome(input: CreateEventRequest, slug_taken: bool) -> Result<EventView, ErrorView> {
    let title = trim(input.title@);
    let capacity = match input.capacity {
        Some(c) => c,
        None => 0,
    };
    if !valid_slug(input.slug@) {
        Err(slug_error())
    } else if title.len() == 0 || title.len() > TITLE_MAX {
        Err(validation_error("标题需为 1 ~ 200 字符"@, seq![("title"@, "非法"@)]))
    } else if slug_taken {
        Err(error_view(ErrorKind::Conflict, "EVENT_SLUG_TAKEN"@, "slug 已被使用"@, Seq::empty()))
    } else if capacity < 0 {
        Err(validation_error("名额不能为负"@, seq![("capacity"@, "非法"@)]))
    } else {
        Ok(
            EventView {
                slug: input.slug@,
                title,
                description_md: match input.description_md {
                    Some(d) => d@,
                    None => Seq::empty(),
                },
                location: None,
                capacity,
                waitlist_enabled: match input.waitlist_enabled {
                    Some(b) => b,
                    None => true,
                },
                need_review: match input.need_review {
                    Some(b) => b,
                    None => false,
                },
                email_verify: match input.email_verify {
                    Some(b) => b,
                    None => true,
                },
                email_domains: Seq::empty(),
                status: "draft"@,
                reg_start_at: None,
                reg_end_at: None,
            },
        )
    }
}

/// `Ok` by the view of the value, an error by its view.
pub open spec fn event_result_view(r: Result<EventInfo, AppError>) -> Result<EventView, ErrorView> {
    match r {
        Ok(e) => Ok(e@),
        Err(e) => Err(e@),
    }
}

/// The new event a creation request makes: the slug checked, the title trimmed to 1 to
/// 200 characters, the slug not yet taken, a capacity that is not negative; then a draft
/// with no location and no domain limit, the waiting list and e-mail codes on and review
/// off unless the request says otherwise.
pub fn prepare_event(input: CreateEventRequest, slug_taken: bool) -> (res: Result<EventInfo, AppError>)
    ensures
        event_result_view(res) == creation_outcome(input, slug_taken),
{
    let ghost spec_input = input;
    match validate_slug(input.slug.as_str()) {
        Ok(()) => {},
        Err(e) => {
            return Err(e);
        },
    }
    let title = trimmed(input.title.as_str());
    let title_len = title.as_str().unicode_len();
    if title_len == 0 || title_len > TITLE_MAX {
        return Err(AppError::unprocessable("EVENT_VALIDATION", "标题需为 1 ~ 200 字符", "title", "非法"));
    }
    if slug_taken {
        return Err(AppError::simple(ErrorKind::Conflict, "EVENT_SLUG_TAKEN", "slug 已被使用"));
    }
    let capacity = match input.capacity {
        Some(c) => c,
        None => 0,
    };
    if capacity < 0 {
        return Err(AppError::unprocessable("EVENT_VALIDATION", "名额不能为负", "capacity", "非法"));
    }
    let description_md = match input.description_md {
        Some(d) => d,
        None => String::new(),
    };
    let res = EventInfo {
        slug: input.slug,
        title,
        description_md,
        location: None,
        capacity,
        waitlist_enabled: match input.waitlist_enabled {
            Some(b) => b,
            None => true,
        },
        need_review: match input.need_review {
            Some(b) => b,
            None => false,
        },
        email_verify: match input.email_verify {
            Some(b) => b,
            None => true,
        },
        email_domains: Vec::new(),
        status: String::from_str(EVENT_DRAFT),
        reg_start_at: None,
        reg_end_at: None,
    };
    proof {
        reveal_strlit("draft");
        assert(string_views(res.email_domains@) =~= Seq::<Seq<char>>::empty());
    }
    Ok(res)
}

/// An event status that an update may set.
pub open spec fn is_event_status(s: Seq<char>) -> bool {
    s == "draft"@ || s == "open"@ || s == "closed"@
}

/// What `check_event_update` answers: a known status, a capacity that is not negative.
pub open spec fn update_check(u: UpdateView) -> Result<(), ErrorView> {
    if u.status matches Some(s) && !is_event_status(s) {
        Err(validation_error("状态不合法"@, seq![("status"@, "仅支持 draft/open/closed"@)]))
    } else if u.capacity matches Some(c) && c < 0 {
        Err(validation_error("名额不能为负"@, seq![("capacity"@, "非法"@)]))
    } else {
        Ok(())
    }
}

/// Checks an update request: the status, when given, is `draft`, `open` or `closed`, and
/// the capacity, when given, is not negative.
pub fn check_event_update(input: &UpdateEventRequest) -> (res: Result<(), AppError>)
    ensures
        result_view(res) == update_check(input@),
{
    match &input.status {
        Some(s) => {
            if !(str_eq(s.as_str(), EVENT_DRAFT) || str_eq(s.as_str(), EVENT_OPEN) || str_eq(
                s.as_str(),
                EVENT_CLOSED,
            )) {
                return Err(
                    AppError::unprocessable("EVENT_VALIDATION", "状态不合法", "status", "仅支持 draft/open/closed"),
                );
            }
        },
        None => {},
    }
    match input.capacity {
        Some(c) => {
            if c < 0 {
                return Err(AppError::unprocessable("EVENT_VALIDATION", "名额不能为负", "capacity", "非法"));
            }
        },
        None => {},
    }
    Ok(())
}

/// `new` when given, `old` otherwise.
pub open spec fn or_keep<T>(new: Option<T>, old: T) -> T {
    match new {
        Some(v) => v,
        None => old,
    }
}

/// The event after an update: each given setting replaces the old one.
pub open spec fn updated(e: EventView, u: UpdateView) -> EventView {
    EventView {
        slug: e.slug,
        title: or_keep(u.title, e.title),
        description_md: or_keep(u.description_md, e.description_md),
        location: or_keep(u.location, e.location),
        capacity: or_keep(u.capacity, e.capacity),
        waitlist_enabled: or_keep(u.waitlist_enabled, e.waitlist_enabled),
        need_review: or_keep(u.need_review, e.need_review),
        email_verify: or_keep(u.email_verify, e.email_verify),
        email_domains: or_keep(u.email_domains, e.email_domains),
        status: or_keep(u.status, e.status),
        reg_start_at: e.reg_start_at,
        reg_end_at: e.reg_end_at,
    }
}

/// Applies an update: each setting the request gives replaces the old one; the others,
/// the slug and the registration window stay.
pub fn apply_event_update(current: EventInfo, input: UpdateEventRequest) -> (res: EventInfo)
    ensures
        res@ == updated(current@, input@),
{
    let mut e = current;
    if let Some(title) = input.title {
        e.title = title;
    }
    if let Some(description_md) = input.description_md {
        e.description_md = description_md;
    }
    if let Some(location) = input.location {
        e.location = location;
    }
    if let Some(capacity) = input.capacity {
        e.capacity = capacity;
    }
    if let Some(waitlist_enabled) = input.waitlist_enabled {
        e.waitlist_enabled = waitlist_enabled;
    }
    if let Some(need_review) = input.need_review {
        e.need_review = need_review;
    }
    if let Some(email_verify) = input.email_verify {
        e.email_verify = email_verify;
    }
    if let Some(domains) = input.email_domains {
        e.email_domains = domains;
    }
    if let Some(status) = input.status {
        e.status = status;
    }
    e
}

/// An update that gives nothing leaves the event as it was.
pub proof fn lemma_empty_update_keeps_event(e: EventView, u: UpdateView)
    requires
        u.title is None,
        u.description_md is None,
        u.location is None,
        u.capacity is None,
        u.waitlist_enabled is None,
        u.need_review is None,
        u.email_verify is None,
        u.email_domains is None,
        u.status is None,
    ensures
        updated(e, u) == e,
{
}

/// Applying the same update twice is applying it once.
pub proof fn lemma_update_idempotent(e: EventView, u: UpdateView)
    ensures
        updated(updated(e, u), u) == updated(e, u),
{
}

/// A later update of a setting overrides an earlier one; settings only the earlier one
/// gives survive the later.
pub proof fn lemma_later_update_wins(e: EventView, u1: UpdateView, u2: UpdateView)
    ensures
        u2.capacity is Some ==> updated(updated(e, u1), u2).capacity == u2.capacity->0,
        u2.capacity is None ==> updated(updated(e, u1), u2).capacity == updated(e, u1).capacity,
        u2.status is Some ==> updated(updated(e, u1), u2).status == u2.status->0,
        u2.status is None ==> updated(updated(e, u1), u2).status == updated(e, u1).status,
{
}

/// The strings of a JSON array, in order (nothing for any other value).
pub open spec fn strings_of(v: JsonValue) -> Seq<Seq<char>> {
    match v {
        JsonValue::Array(items) => array_strings(items@),
        _ => Seq::empty(),
    }
}

/// The strings among `items`, in order.
pub open spec fn array_strings(items: Seq<JsonValue>) -> Seq<Seq<char>>
    decreases items.len(),
{
    if items.len() == 0 {
        Seq::empty()
    } else {
        array_strings(items.drop_last()) + match items.last() {
            JsonValue::Str(s) => seq![s@],
            _ => Seq::empty(),
        }
    }
}

/// The domain list stored with an event: the strings of a JSON array, in order; nothing
/// when the stored value is not an array.
pub fn domains_of(value: &JsonValue) -> (res: Vec<String>)
    ensures
        string_views(res@) == strings_of(*value),
{
    let mut out: Vec<String> = Vec::new();
    match value {
        JsonValue::Array(items) => {
            let n = items.len();
            let mut i: usize = 0;
            while i < n
                invariant
                    i <= n,
                    n == items@.len(),
                    string_views(out@) == array_strings(items@.take(i as int)),
                decreases n - i,
            {
                let ghost prefix = items@.take(i + 1);
                assert(prefix.drop_last() =~= items@.take(i as int));
                assert(prefix.last() == items@[i as int]);
                let ghost before = out@;
                match &items[i] {
                    JsonValue::Str(s) => {
                        out.push(s.clone());
                        assert(string_views(out@) =~= string_views(before).push(s@));
                    },
                    _ => {},
                }
                i = i + 1;
            }
            assert(items@.take(n as int) =~= items@);
        },
        _ => {
            assert(string_views(out@) =~= Seq::<Seq<char>>::empty());
        },
    }
    out
}

/// What a public request for an event by slug is answered with: the event when it exists
/// and is open; otherwise a 404.
pub open spec fn public_lookup(event: Option<EventInfo>) -> Result<EventInfo, ErrorView> {
    match event {
        Some(e) => if e.status@ == "open"@ {
            Ok(e)
        } else {
            Err(not_open_error())
        },
        None => Err(not_open_error()),
    }
}

/// The 404 of an event that does not exist or is not open.
pub open spec fn not_open_error() -> ErrorView {
    error_view(ErrorKind::NotFound, "EVENT_NOT_FOUND"@, "活动不存在或未开放"@, Seq::empty())
}

/// An event answer with the event as it is and an error by its view.
pub open spec fn found_view(r: Result<EventInfo, AppError>) -> Result<EventInfo, ErrorView> {
    match r {
        Ok(e) => Ok(e),
        Err(e) => Err(e@),
    }
}

/// The event a public request may see: only an open one.
pub fn open_event(event: Option<EventInfo>) -> (res: Result<EventInfo, AppError>)
    ensures
        found_view(res) == public_lookup(event),
{
    match event {
        Some(e) => {
            if str_eq(e.status.as_str(), EVENT_OPEN) {
                Ok(e)
            } else {
                Err(AppError::simple(ErrorKind::NotFound, "EVENT_NOT_FOUND", "活动不存在或未开放"))
            }
        },
        None => Err(AppError::simple(ErrorKind::NotFound, "EVENT_NOT_FOUND", "活动不存在或未开放")),
    }
}

/// What an organiser's request for an event is answered with: a 404 when it does not
/// exist, a 403 when the user is not one of its organisers.
pub open spec fn admin_lookup(event: Option<EventInfo>, is_admin: bool) -> Result<EventInfo, ErrorView> {
    match event {
        None => Err(error_view(ErrorKind::NotFound, "EVENT_NOT_FOUND"@, "活动不存在"@, Seq::empty())),
        Some(e) => if is_admin {
            Ok(e)
        } else {
            Err(error_view(ErrorKind::Forbidden, "EVENT_NOT_ADMIN"@, "无权管理该活动"@, Seq::empty()))
        },
    }
}

/// The event an organiser's request may manage: it must exist, and the user must be one
/// of its organisers.
pub fn admin_event(event: Option<EventInfo>, is_admin: bool) -> (res: Result<EventInfo, AppError>)
    ensures
        found_view(res) == admin_lookup(event, is_admin),
{
    match event {
        None => Err(AppError::simple(ErrorKind::NotFound, "EVENT_NOT_FOUND", "活动不存在")),
        Some(e) => {
            if is_admin {
                Ok(e)
            } else {
                Err(AppError::simple(ErrorKind::Forbidden, "EVENT_NOT_ADMIN", "无权管理该活动"))
            }
        },
    }
}

} // verus!

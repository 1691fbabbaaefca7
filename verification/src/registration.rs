//! Registration rules: the registration window, the e-mailed code, seat admission,
//! reviews with waiting-list promotion, check-in, and the counts of an event's
//! registrations.

use vstd::prelude::*;
use vstd::string::StringExecFns;
use crate::codes::{code_hash, generate_code, hash_code, six_digits};
use crate::domain::{
    Decision, answers_check, decision_of, is_full, registration_decision, result_view,
    string_views, validate_answers,
};
use crate::error::{AppError, ErrorKind, ErrorView, error_view, validation_error};
use crate::events::EventInfo;
use crate::json::{JsonValue, member_str};
use crate::text::{str_eq, trim, trimmed};

verus! {

/// A request for a verification code.
#[derive(Debug)]
pub struct SendCodeRequest {
    /// The e-mail address.
    pub email: String,
}

/// A registration: the code (when the event asks for one) and the form answers.
#[derive(Debug)]
pub struct RegisterRequest {
    /// The e-mailed code.
    pub code: Option<String>,
    /// The answers, one member per field key.
    pub answers: JsonValue,
}

/// A query of one's own registration, by check-in code and e-mail address.
#[derive(Debug)]
pub struct StatusQuery {
    /// The e-mail address it was made with.
    pub email: String,
}

/// A query of an event's registrations.
#[derive(Debug)]
pub struct RegistrationQuery {
    /// Only those with this status.
    pub status: Option<String>,
}

/// A review of a registration.
#[derive(Debug)]
pub struct ReviewRequest {
    /// `approve`, `reject` or `cancel`.
    pub action: String,
}

/// How long an issued code stays valid: 300 seconds, in nanoseconds.
pub const CODE_TTL_NANOS: i64 = 300_000_000_000;

/// Wrong tries after which a code is locked.
pub const MAX_CODE_ATTEMPTS: i32 = 5;

// ---------------------------------------------------------------------------------------
// The registration window
// ---------------------------------------------------------------------------------------

/// What the registration window answers at `now` (instants in nanoseconds).
pub open spec fn window_check(now: i64, start: Option<i64>, end: Option<i64>) -> Result<(), ErrorView> {
    if start matches Some(s) && now < s {
        Err(error_view(ErrorKind::Forbidden, "EVENT_REG_NOT_STARTED"@, "报名尚未开始"@, Seq::empty()))
    } else if end matches Some(e) && now > e {
        Err(error_view(ErrorKind::Forbidden, "EVENT_REG_CLOSED"@, "报名已截止"@, Seq::empty()))
    } else {
        Ok(())
    }
}

/// Checks that registration is open at `now`: not before the start, not after the end.
pub fn registration_window(now: i64, start: Option<i64>, end: Option<i64>) -> (res: Result<(), AppError>)
    ensures
        result_view(res) == window_check(now, start, end),
        res is Ok <==> (start matches Some(s) ==> now >= s) && (end matches Some(e) ==> now <= e),
{
    if let Some(s) = start {
        if now < s {
            return Err(AppError::simple(ErrorKind::Forbidden, "EVENT_REG_NOT_STARTED", "报名尚未开始"));
        }
    }
    if let Some(e) = end {
        if now > e {
            return Err(AppError::simple(ErrorKind::Forbidden, "EVENT_REG_CLOSED", "报名已截止"));
        }
    }
    Ok(())
}

// ---------------------------------------------------------------------------------------
// Verification codes
// ---------------------------------------------------------------------------------------

/// The latest unused code stored for an address: its hash, when it expires and how many
/// wrong tries it has seen.
#[derive(Debug)]
pub struct CodeRecord {
    /// `hash_code` of the code.
    pub code_hash: String,
    /// When it expires (nanoseconds since the Unix epoch).
    pub expires_at: i64,
    /// Wrong tries so far.
    pub attempts: i32,
}

/// How a submitted code compares with the stored one.
#[derive(Clone, Copy, Debug, PartialEq, Eq, Structural)]
pub enum CodeVerdict {
    /// It matches a live record.
    Accepted,
    /// No code was issued.
    Missing,
    /// The record has expired.
    Expired,
    /// The record has seen too many wrong tries.
    Locked,
    /// It does not match.
    Wrong,
}

/// The verdict on a submitted code whose hash is `submitted_hash`, against `record` at
/// `now`: a missing record, then expiry, then the lock, then the hash decide.
pub open spec fn verdict_for_hash(submitted_hash: Seq<char>, record: Option<CodeRecord>, now: i64) -> CodeVerdict {
    match record {
        None => CodeVerdict::Missing,
        Some(r) => if r.expires_at < now {
            CodeVerdict::Expired
        } else if r.attempts >= MAX_CODE_ATTEMPTS {
            CodeVerdict::Locked
        } else if submitted_hash != r.code_hash@ {
            CodeVerdict::Wrong
        } else {
            CodeVerdict::Accepted
        },
    }
}

/// The verdict on `submitted` (trimmed) against `record` at `now`.
pub open spec fn code_verdict(submitted: Seq<char>, record: Option<CodeRecord>, now: i64) -> CodeVerdict {
    verdict_for_hash(code_hash(trim(submitted)), record, now)
}

/// Judges a submitted code, given its hash, against the stored record at `now`.
pub fn judge_code(submitted_hash: &str, record: Option<&CodeRecord>, now: i64) -> (res: CodeVerdict)
    ensures
        res == verdict_for_hash(
            submitted_hash@,
            match record {
                Some(r) => Some(*r),
                None => None,
            },
            now,
        ),
{
    match record {
        None => CodeVerdict::Missing,
        Some(r) => {
            if r.expires_at < now {
                CodeVerdict::Expired
            } else if r.attempts >= MAX_CODE_ATTEMPTS {
                CodeVerdict::Locked
            } else if !str_eq(submitted_hash, r.code_hash.as_str()) {
                CodeVerdict::Wrong
            } else {
                CodeVerdict::Accepted
            }
        },
    }
}

/// Compares a submitted code (trimmed) with the stored record at `now`.
pub fn check_code(submitted: &str, record: Option<&CodeRecord>, now: i64) -> (res: CodeVerdict)
    ensures
        res == code_verdict(
            submitted@,
            match record {
                Some(r) => Some(*r),
                None => None,
            },
            now,
        ),
{
    let code = trimmed(submitted);
    let hash = hash_code(code.as_str());
    judge_code(hash.as_str(), record, now)
}

/// The error a refused code is answered with.
pub open spec fn code_error(v: CodeVerdict) -> ErrorView {
    match v {
        CodeVerdict::Missing => error_view(ErrorKind::BadRequest, "EVENT_CODE_INVALID"@, "请先获取验证码"@, Seq::empty()),
        CodeVerdict::Expired => error_view(ErrorKind::BadRequest, "EVENT_CODE_EXPIRED"@, "验证码已过期"@, Seq::empty()),
        CodeVerdict::Locked => error_view(
            ErrorKind::TooManyRequests,
            "EVENT_CODE_LOCKED"@,
            "验证码尝试次数过多，请重新获取"@,
            Seq::empty(),
        ),
        _ => error_view(ErrorKind::BadRequest, "EVENT_CODE_INVALID"@, "验证码错误"@, Seq::empty()),
    }
}

/// The error a refused code is answered with.
fn code_error_of(v: CodeVerdict) -> (res: AppError)
    ensures
        res@ == code_error(v),
{
    match v {
        CodeVerdict::Missing => AppError::simple(ErrorKind::BadRequest, "EVENT_CODE_INVALID", "请先获取验证码"),
        CodeVerdict::Expired => AppError::simple(ErrorKind::BadRequest, "EVENT_CODE_EXPIRED", "验证码已过期"),
        CodeVerdict::Locked => AppError::simple(
            ErrorKind::TooManyRequests,
            "EVENT_CODE_LOCKED",
            "验证码尝试次数过多，请重新获取",
        ),
        _ => AppError::simple(ErrorKind::BadRequest, "EVENT_CODE_INVALID", "验证码错误"),
    }
}

/// A freshly issued code: the code to send, the hash to store and when it expires.
#[derive(Debug)]
pub struct IssuedCode {
    /// The six-digit code.
    pub code: String,
    /// `hash_code` of the code.
    pub code_hash: String,
    /// When it expires (nanoseconds since the Unix epoch).
    pub expires_at: i64,
}

/// What a code request is refused with, if anything: the event must ask for codes, and
/// the (normalised) address must be well formed and in an allowed domain.
pub open spec fn send_code_check(email_verify: bool, email_valid: bool, domain_allowed: bool) -> Result<(), ErrorView> {
    if !email_verify {
        Err(error_view(ErrorKind::BadRequest, "EVENT_VERIFY_DISABLED"@, "该活动无需邮箱验证"@, Seq::empty()))
    } else if !email_valid {
        Err(validation_error("邮箱格式错误"@, seq![("email"@, "格式错误"@)]))
    } else if !domain_allowed {
        Err(
            error_view(
                ErrorKind::Unprocessable,
                "EVENT_EMAIL_DOMAIN_NOT_ALLOWED"@,
                "该邮箱域名不允许报名"@,
                seq![("email"@, "域名不在白名单"@)],
            ),
        )
    } else {
        Ok(())
    }
}

/// Answers a request for a verification code at `now`: refused as `send_code_check` says,
/// or a fresh six-digit code with its hash, valid for 300 seconds.
pub fn issue_code(event: &EventInfo, email_valid: bool, domain_allowed: bool, now: i64) -> (res: Result<
    IssuedCode,
    AppError,
>)
    requires
        now <= i64::MAX - CODE_TTL_NANOS,
    ensures
        match res {
            Ok(c) => {
                &&& send_code_check(event.email_verify, email_valid, domain_allowed) is Ok
                &&& exists|n: int| 0 <= n < 1000000 && c.code@ == six_digits(n)
                &&& c.code_hash@ == code_hash(c.code@)
                &&& c.expires_at == now + CODE_TTL_NANOS
            },
            Err(e) => send_code_check(event.email_verify, email_valid, domain_allowed) == Err::<(), ErrorView>(e@),
        },
{
    if !event.email_verify {
        return Err(AppError::simple(ErrorKind::BadRequest, "EVENT_VERIFY_DISABLED", "该活动无需邮箱验证"));
    }
    if !email_valid {
        return Err(AppError::unprocessable("EVENT_VALIDATION", "邮箱格式错误", "email", "格式错误"));
    }
    if !domain_allowed {
        return Err(
            AppError::unprocessable(
                "EVENT_EMAIL_DOMAIN_NOT_ALLOWED",
                "该邮箱域名不允许报名",
                "email",
                "域名不在白名单",
            ),
        );
    }
    let code = generate_code();
    let code_hash = hash_code(code.as_str());
    Ok(IssuedCode { code, code_hash, expires_at: now + CODE_TTL_NANOS })
}

// ---------------------------------------------------------------------------------------
// Admission
// ---------------------------------------------------------------------------------------

/// The error a full event refuses a seat with.
pub open spec fn full_error() -> ErrorView {
    error_view(ErrorKind::Conflict, "EVENT_FULL"@, "名额已满"@, Seq::empty())
}

/// The status a new registration gets, or the refusal of a full event without a
/// waiting list.
pub open spec fn admission_of(approved: int, capacity: int, waitlist_enabled: bool, need_review: bool) -> Result<
    Decision,
    ErrorView,
> {
    let d = decision_of(approved, capacity, waitlist_enabled, need_review);
    if is_full(approved, capacity) && d == Decision::Approved {
        Err(full_error())
    } else {
        Ok(d)
    }
}

/// `Ok` as it is, an error by its view.
pub open spec fn decision_result_view(r: Result<Decision, AppError>) -> Result<Decision, ErrorView> {
    match r {
        Ok(d) => Ok(d),
        Err(e) => Err(e@),
    }
}

/// The status a new registration gets given the seats already approved; a full event
/// without a waiting list refuses it.
pub fn admission(approved: i64, capacity: i64, waitlist_enabled: bool, need_review: bool) -> (res: Result<
    Decision,
    AppError,
>)
    ensures
        decision_result_view(res) == admission_of(approved as int, capacity as int, waitlist_enabled, need_review),
        res matches Ok(Decision::Approved) ==> capacity == 0 || capacity < 0 || approved < capacity,
{
    let d = registration_decision(approved, capacity, waitlist_enabled, need_review);
    if capacity > 0 && approved >= capacity && d == Decision::Approved {
        return Err(AppError::simple(ErrorKind::Conflict, "EVENT_FULL", "名额已满"));
    }
    Ok(d)
}

// ---------------------------------------------------------------------------------------
// Registering
// ---------------------------------------------------------------------------------------

/// What the store knows when a registration arrives.
#[derive(Debug)]
pub struct RegisterFacts {
    /// The instant of the request (nanoseconds since the Unix epoch).
    pub now: i64,
    /// The event's latest form schema.
    pub form: Option<JsonValue>,
    /// The normalised `email` answer is a well-formed address.
    pub email_valid: bool,
    /// Its domain is allowed by the event.
    pub domain_allowed: bool,
    /// An approved, pending or waiting registration already has it.
    pub already_registered: bool,
    /// The latest unused code issued to it.
    pub code_record: Option<CodeRecord>,
    /// The seats already approved.
    pub approved_count: i64,
}

/// What a registration does to the stored code.
#[derive(Clone, Copy, Debug, PartialEq, Eq, Structural)]
pub enum CodeEffect {
    /// Nothing.
    Untouched,
    /// One more wrong try is counted.
    AttemptCounted,
    /// The code is used up.
    Used,
}

/// The answer to a registration and what it does to the stored code.
#[derive(Debug)]
pub struct RegisterOutcome {
    /// The new registration's status, or the refusal.
    pub result: Result<Decision, AppError>,
    /// What happens to the stored code.
    pub code_effect: CodeEffect,
}

/// The error an unexpected store state is answered with.
pub open spec fn internal_error(message: Seq<char>) -> ErrorView {
    error_view(ErrorKind::Internal, "INTERNAL"@, message, Seq::empty())
}

/// The answer to a registration whose code got `verdict`, checked in this order: the
/// window, the form, the answers, the e-mail answer and its domain, an earlier
/// registration, the code (when the event asks for one), and the seats.
pub open spec fn settled_outcome(
    event: EventInfo,
    answers: JsonValue,
    verdict: CodeVerdict,
    valid_emails: Seq<Seq<char>>,
    facts: RegisterFacts,
) -> (Result<Decision, ErrorView>, CodeEffect) {
    let window = window_check(facts.now, event.reg_start_at, event.reg_end_at);
    if window is Err {
        (Err(window->Err_0), CodeEffect::Untouched)
    } else if facts.form is None {
        (Err(internal_error("活动缺少表单"@)), CodeEffect::Untouched)
    } else if answers_check(facts.form->0, answers, valid_emails) is Err {
        (Err(answers_check(facts.form->0, answers, valid_emails)->Err_0), CodeEffect::Untouched)
    } else if member_str(answers, "email"@) is None {
        (Err(validation_error("缺少邮箱"@, seq![("email"@, "必填"@)])), CodeEffect::Untouched)
    } else if !facts.email_valid {
        (Err(validation_error("邮箱格式错误"@, seq![("email"@, "格式错误"@)])), CodeEffect::Untouched)
    } else if !facts.domain_allowed {
        (
            Err(
                error_view(
                    ErrorKind::Unprocessable,
                    "EVENT_EMAIL_DOMAIN_NOT_ALLOWED"@,
                    "该邮箱域名不允许报名"@,
                    seq![("email"@, "域名不在白名单"@)],
                ),
            ),
            CodeEffect::Untouched,
        )
    } else if facts.already_registered {
        (
            Err(error_view(ErrorKind::Conflict, "EVENT_ALREADY_REGISTERED"@, "该邮箱已报名"@, Seq::empty())),
            CodeEffect::Untouched,
        )
    } else {
        if event.email_verify && verdict != CodeVerdict::Accepted {
            (
                Err(code_error(verdict)),
                if verdict == CodeVerdict::Wrong {
                    CodeEffect::AttemptCounted
                } else {
                    CodeEffect::Untouched
                },
            )
        } else {
            (
                admission_of(
                    facts.approved_count as int,
                    event.capacity as int,
                    event.waitlist_enabled,
                    event.need_review,
                ),
                if event.email_verify {
                    CodeEffect::Used
                } else {
                    CodeEffect::Untouched
                },
            )
        }
    }
}

/// The answer to a registration with the code `code` (none counts as empty).
pub open spec fn register_outcome(
    event: EventInfo,
    answers: JsonValue,
    code: Option<Seq<char>>,
    valid_emails: Seq<Seq<char>>,
    facts: RegisterFacts,
) -> (Result<Decision, ErrorView>, CodeEffect) {
    let verdict = code_verdict(
        match code {
            Some(c) => c,
            None => Seq::empty(),
        },
        facts.code_record,
        facts.now,
    );
    settled_outcome(event, answers, verdict, valid_emails, facts)
}

/// A registration answer by its views.
pub open spec fn outcome_view(o: RegisterOutcome) -> (Result<Decision, ErrorView>, CodeEffect) {
    (decision_result_view(o.result), o.code_effect)
}

/// Settles a registration whose code got `verdict`: refused as `settled_outcome` says,
/// or admitted with the status the seats and the review switch give. `valid_emails` are
/// the answer texts that the e-mail address rules accept.
pub fn settle_registration(
    event: &EventInfo,
    answers: &JsonValue,
    verdict: CodeVerdict,
    valid_emails: &Vec<String>,
    facts: &RegisterFacts,
) -> (res: RegisterOutcome)
    ensures
        outcome_view(res) == settled_outcome(*event, *answers, verdict, string_views(valid_emails@), *facts),
        res.result matches Ok(Decision::Approved) ==> event.capacity <= 0 || facts.approved_count < event.capacity,
        res.result is Ok ==> !facts.already_registered,
        res.result is Ok && event.email_verify ==> res.code_effect == CodeEffect::Used,
        res.result is Ok && event.email_verify ==> verdict == CodeVerdict::Accepted,
        res.result is Ok ==> facts.domain_allowed,
        res.result is Ok ==> facts.email_valid,
        res.result is Ok ==> member_str(*answers, "email"@) is Some,
        res.result is Ok ==> facts.form is Some,
        res.result is Ok ==> (event.reg_start_at matches Some(start) ==> facts.now >= start),
        res.result is Ok ==> (event.reg_end_at matches Some(end) ==> facts.now <= end),

{
    let untouched = CodeEffect::Untouched;
    match registration_window(facts.now, event.reg_start_at, event.reg_end_at) {
        Ok(()) => {},
        Err(e) => {
            return RegisterOutcome { result: Err(e), code_effect: untouched };
        },
    }
    let form = match &facts.form {
        Some(f) => f,
        None => {
            return RegisterOutcome {
                result: Err(AppError::simple(ErrorKind::Internal, "INTERNAL", "活动缺少表单")),
                code_effect: untouched,
            };
        },
    };
    match validate_answers(form, answers, valid_emails) {
        Ok(()) => {},
        Err(e) => {
            return RegisterOutcome { result: Err(e), code_effect: untouched };
        },
    }
    if answers.get_str("email").is_none() {
        return RegisterOutcome {
            result: Err(AppError::unprocessable("EVENT_VALIDATION", "缺少邮箱", "email", "必填")),
            code_effect: untouched,
        };
    }
    if !facts.email_valid {
        return RegisterOutcome {
            result: Err(AppError::unprocessable("EVENT_VALIDATION", "邮箱格式错误", "email", "格式错误")),
            code_effect: untouched,
        };
    }
    if !facts.domain_allowed {
        return RegisterOutcome {
            result: Err(
                AppError::unprocessable(
                    "EVENT_EMAIL_DOMAIN_NOT_ALLOWED",
                    "该邮箱域名不允许报名",
                    "email",
                    "域名不在白名单",
                ),
            ),
            code_effect: untouched,
        };
    }
    if facts.already_registered {
        return RegisterOutcome {
            result: Err(AppError::simple(ErrorKind::Conflict, "EVENT_ALREADY_REGISTERED", "该邮箱已报名")),
            code_effect: untouched,
        };
    }
    let mut effect = untouched;
    if event.email_verify {
        if verdict != CodeVerdict::Accepted {
            let counted = if verdict == CodeVerdict::Wrong {
                CodeEffect::AttemptCounted
            } else {
                untouched
            };
            return RegisterOutcome { result: Err(code_error_of(verdict)), code_effect: counted };
        }
        effect = CodeEffect::Used;
    }
    let result = admission(facts.approved_count, event.capacity, event.waitlist_enabled, event.need_review);
    RegisterOutcome { result, code_effect: effect }
}

/// Decides a registration: refused as `register_outcome` says, or admitted with the
/// status the seats and the review switch give. `valid_emails` are the answer texts that
/// the e-mail address rules accept.
pub fn register(
    event: &EventInfo,
    answers: &JsonValue,
    code: Option<&str>,
    valid_emails: &Vec<String>,
    facts: &RegisterFacts,
) -> (res: RegisterOutcome)
    ensures
        outcome_view(res) == register_outcome(
            *event,
            *answers,
            match code {
                Some(c) => Some(c@),
                None => None,
            },
            string_views(valid_emails@),
            *facts,
        ),
        res.result matches Ok(Decision::Approved) ==> event.capacity <= 0 || facts.approved_count < event.capacity,
        res.result is Ok ==> !facts.already_registered,
        res.result is Ok && event.email_verify ==> res.code_effect == CodeEffect::Used,
        res.result is Ok ==> facts.domain_allowed,
        res.result is Ok ==> facts.email_valid,
        res.result is Ok ==> member_str(*answers, "email"@) is Some,
        res.result is Ok ==> facts.form is Some,
        res.result is Ok ==> (event.reg_start_at matches Some(start) ==> facts.now >= start),
        res.result is Ok ==> (event.reg_end_at matches Some(end) ==> facts.now <= end),
{
    proof {
        reveal_strlit("");
    }
    let submitted: &str = match code {
        Some(c) => c,
        None => "",
    };
    let verdict = check_code(
        submitted,
        match &facts.code_record {
            Some(r) => Some(r),
            None => None,
        },
        facts.now,
    );
    settle_registration(event, answers, verdict, valid_emails, facts)
}

/// A wrong code never admits anyone and is counted against the record; a locked or
/// expired record refuses every code.
pub proof fn lemma_bad_codes_refused(
    event: EventInfo,
    answers: JsonValue,
    code: Option<Seq<char>>,
    valid_emails: Seq<Seq<char>>,
    facts: RegisterFacts,
)
    requires
        event.email_verify,
        facts.code_record is Some,
        facts.code_record->0.attempts >= MAX_CODE_ATTEMPTS || facts.code_record->0.expires_at < facts.now,
    ensures
        register_outcome(event, answers, code, valid_emails, facts).0 is Err,
        register_outcome(event, answers, code, valid_emails, facts).1 == CodeEffect::Untouched,
{
}

// ---------------------------------------------------------------------------------------
// Reviews and check-in
// ---------------------------------------------------------------------------------------

/// What a review does: the registration's new status, and whether the earliest waiting
/// registration is promoted into the seat it frees.
#[derive(Debug)]
pub struct ReviewPlan {
    /// The new status.
    pub status: String,
    /// Promote the earliest waiting registration.
    pub promote_waitlist: bool,
}

/// The answer to a review action on a registration whose status was `previous`, with
/// `approved` seats taken: approval needs a free seat; rejection and cancellation free
/// the seat of an approved registration for the waiting list.
pub open spec fn review_outcome(action: Seq<char>, capacity: i64, approved: i64, previous: Seq<char>) -> Result<
    (Seq<char>, bool),
    ErrorView,
> {
    if action == "approve"@ {
        if capacity > 0 && approved >= capacity {
            Err(full_error())
        } else {
            Ok(("approved"@, false))
        }
    } else if action == "reject"@ {
        Ok(("rejected"@, previous == "approved"@))
    } else if action == "cancel"@ {
        Ok(("cancelled"@, previous == "approved"@))
    } else {
        Err(validation_error("action 不合法"@, seq![("action"@, "仅支持 approve/reject/cancel"@)]))
    }
}

/// A review answer by its views.
pub open spec fn review_view(r: Result<ReviewPlan, AppError>) -> Result<(Seq<char>, bool), ErrorView> {
    match r {
        Ok(p) => Ok((p.status@, p.promote_waitlist)),
        Err(e) => Err(e@),
    }
}

/// Decides a review action (`approve`, `reject` or `cancel`) on a registration whose
/// status was `previous`, with `approved` seats taken out of `capacity` (0 = unlimited).
pub fn review(action: &str, capacity: i64, approved: i64, previous: &str) -> (res: Result<ReviewPlan, AppError>)
    ensures
        review_view(res) == review_outcome(action@, capacity, approved, previous@),
        action@ == "approve"@ ==> (res is Err <==> capacity > 0 && approved >= capacity),
        action@ == "approve"@ && res is Ok ==> res->Ok_0.status@ == "approved"@ && !res->Ok_0.promote_waitlist,
        action@ == "reject"@ ==> res is Ok && res->Ok_0.status@ == "rejected"@,
        action@ == "cancel"@ ==> res is Ok && res->Ok_0.status@ == "cancelled"@,
        action@ == "reject"@ || action@ == "cancel"@ ==> res is Ok && res->Ok_0.promote_waitlist == (
        previous@ == "approved"@),
        !(action@ == "approve"@ || action@ == "reject"@ || action@ == "cancel"@) ==> res is Err,
{
    proof {
        reveal_strlit("reject");
        reveal_strlit("cancel");
        reveal_strlit("approve");
        assert("reject"@[0] != "cancel"@[0] && "reject"@[0] != "approve"@[0] && "cancel"@[0] != "approve"@[0]);
    }
    if str_eq(action, "approve") {
        if capacity > 0 && approved >= capacity {
            return Err(AppError::simple(ErrorKind::Conflict, "EVENT_FULL", "名额已满"));
        }
        Ok(ReviewPlan { status: String::from_str(crate::domain::STATUS_APPROVED), promote_waitlist: false })
    } else if str_eq(action, "reject") || str_eq(action, "cancel") {
        let status = if str_eq(action, "reject") {
            crate::domain::STATUS_REJECTED
        } else {
            crate::domain::STATUS_CANCELLED
        };
        proof {
            reveal_strlit("reject");
            reveal_strlit("cancel");
            assert("reject"@.len() != "cancel"@.len() || "reject"@[0] != "cancel"@[0]);
        }
        Ok(
            ReviewPlan {
                status: String::from_str(status),
                promote_waitlist: str_eq(previous, crate::domain::STATUS_APPROVED),
            },
        )
    } else {
        Err(AppError::unprocessable("EVENT_VALIDATION", "action 不合法", "action", "仅支持 approve/reject/cancel"))
    }
}

/// The answer to a check-in: only approved registrations check in; one already checked
/// in stays as it is (`Ok(false)`), any other is checked in now (`Ok(true)`).
pub open spec fn checkin_outcome(status: Seq<char>, checked_in: bool) -> Result<bool, ErrorView> {
    if status != "approved"@ {
        Err(error_view(ErrorKind::Conflict, "EVENT_NOT_APPROVED"@, "仅已通过的报名可签到"@, Seq::empty()))
    } else {
        Ok(!checked_in)
    }
}

/// `Ok` as it is, an error by its view.
pub open spec fn bool_result_view(r: Result<bool, AppError>) -> Result<bool, ErrorView> {
    match r {
        Ok(b) => Ok(b),
        Err(e) => Err(e@),
    }
}

/// Decides a check-in: refused unless approved; `Ok(true)` when the check-in time is to be
/// recorded, `Ok(false)` when it already was.
pub fn checkin(status: &str, checked_in: bool) -> (res: Result<bool, AppError>)
    ensures
        bool_result_view(res) == checkin_outcome(status@, checked_in),
        res is Ok <==> status@ == "approved"@,
        res is Ok ==> res->Ok_0 == !checked_in,
{
    if !str_eq(status, crate::domain::STATUS_APPROVED) {
        return Err(AppError::simple(ErrorKind::Conflict, "EVENT_NOT_APPROVED", "仅已通过的报名可签到"));
    }
    Ok(!checked_in)
}

/// Checking in twice records one check-in: after the first, the second changes nothing.
pub proof fn lemma_checkin_once(status: Seq<char>)
    requires
        checkin_outcome(status, false) == Ok::<bool, ErrorView>(true),
    ensures
        checkin_outcome(status, true) == Ok::<bool, ErrorView>(false),
{
}

/// The seats left, when the capacity is limited: never below zero.
pub open spec fn remaining_of(capacity: i64, approved: i64) -> Option<int> {
    if capacity > 0 {
        Some(if capacity - approved > 0 {
            capacity - approved
        } else {
            0
        })
    } else {
        None
    }
}

/// The seats left of a limited capacity (never below zero); `None` when unlimited.
pub fn remaining_seats(capacity: i64, approved: i64) -> (res: Option<i64>)
    requires
        capacity > 0 ==> capacity - approved <= i64::MAX,
    ensures
        match res {
            Some(r) => remaining_of(capacity, approved) == Some(r as int),
            None => remaining_of(capacity, approved) is None,
        },
        res matches Some(r) ==> 0 <= r <= capacity || approved < 0,
{
    if capacity > 0 {
        let left = capacity - approved;
        Some(if left > 0 {
            left
        } else {
            0
        })
    } else {
        None
    }
}

// ---------------------------------------------------------------------------------------
// Counting registrations
// ---------------------------------------------------------------------------------------

/// What the counts read of a registration: its status and whether it checked in.
#[derive(Debug)]
pub struct RowState {
    /// The status.
    pub status: String,
    /// Whether it has checked in.
    pub checked_in: bool,
}

/// The registrations of an event, counted.
#[derive(Clone, Copy, Debug, Default)]
pub struct StatusCounts {
    /// Approved.
    pub approved: i64,
    /// Waiting: pending review, and on the waiting list.
    pub pending: i64,
    /// On the waiting list.
    pub waitlist: i64,
    /// Checked in.
    pub checked_in: i64,
    /// All.
    pub total: i64,
}

/// The statuses of `rows`, in order.
pub open spec fn statuses(rows: Seq<RowState>) -> Seq<Seq<char>> {
    rows.map_values(|r: RowState| r.status@)
}

/// How many of `s` equal `x`.
pub open spec fn count_of(s: Seq<Seq<char>>, x: Seq<char>) -> nat
    decreases s.len(),
{
    if s.len() == 0 {
        0
    } else {
        count_of(s.drop_last(), x) + if s.last() == x {
            1nat
        } else {
            0nat
        }
    }
}

/// How many of `rows` have checked in.
pub open spec fn checked_in_count(rows: Seq<RowState>) -> nat
    decreases rows.len(),
{
    if rows.len() == 0 {
        0
    } else {
        checked_in_count(rows.drop_last()) + if rows.last().checked_in {
            1nat
        } else {
            0nat
        }
    }
}

/// Counts of `rows`: approved; pending review together with the waiting list; the waiting
/// list; checked in; all.
pub open spec fn counts_of(rows: Seq<RowState>) -> (int, int, int, int, int) {
    let s = statuses(rows);
    (
        count_of(s, "approved"@) as int,
        (count_of(s, "pending"@) + count_of(s, "waitlist"@)) as int,
        count_of(s, "waitlist"@) as int,
        checked_in_count(rows) as int,
        rows.len() as int,
    )
}

/// The counts of an event's registrations, each row counted once.
pub fn status_counts(rows: &Vec<RowState>) -> (res: StatusCounts)
    requires
        rows@.len() <= i64::MAX,
    ensures
        (res.approved as int, res.pending as int, res.waitlist as int, res.checked_in as int, res.total as int)
            == counts_of(rows@),
{
    let n = rows.len();
    let mut approved: i64 = 0;
    let mut pending: i64 = 0;
    let mut waitlist: i64 = 0;
    let mut checked_in: i64 = 0;
    let mut i: usize = 0;
    while i < n
        invariant
            i <= n,
            n == rows@.len(),
            n <= i64::MAX,
            approved == count_of(statuses(rows@.take(i as int)), "approved"@),
            pending == count_of(statuses(rows@.take(i as int)), "pending"@),
            waitlist == count_of(statuses(rows@.take(i as int)), "waitlist"@),
            checked_in == checked_in_count(rows@.take(i as int)),
            approved + pending + waitlist <= i,
            checked_in <= i,
        decreases n - i,
    {
        let ghost prefix = rows@.take(i + 1);
        assert(prefix.drop_last() =~= rows@.take(i as int));
        assert(statuses(prefix).drop_last() =~= statuses(rows@.take(i as int)));
        assert(statuses(prefix).last() == rows@[i as int].status@);
        proof {
            reveal_strlit("approved");
            reveal_strlit("pending");
            reveal_strlit("waitlist");
            assert("approved"@[0] != "pending"@[0] && "approved"@[0] != "waitlist"@[0]);
            assert("pending"@[0] != "waitlist"@[0]);
        }
        let row = &rows[i];
        if str_eq(row.status.as_str(), crate::domain::STATUS_APPROVED) {
            approved = approved + 1;
        } else if str_eq(row.status.as_str(), crate::domain::STATUS_PENDING) {
            pending = pending + 1;
        } else if str_eq(row.status.as_str(), crate::domain::STATUS_WAITLIST) {
            waitlist = waitlist + 1;
        }
        if row.checked_in {
            checked_in = checked_in + 1;
        }
        i = i + 1;
    }
    assert(rows@.take(n as int) =~= rows@);
    StatusCounts {
        approved,
        pending: pending + waitlist,
        waitlist,
        checked_in,
        total: n as i64,
    }
}

/// Counting three different statuses never counts a row twice.
pub proof fn lemma_three_counts_bounded(s: Seq<Seq<char>>, a: Seq<char>, b: Seq<char>, c: Seq<char>)
    requires
        a != b,
        a != c,
        b != c,
    ensures
        count_of(s, a) + count_of(s, b) + count_of(s, c) <= s.len(),
    decreases s.len(),
{
    if s.len() > 0 {
        lemma_three_counts_bounded(s.drop_last(), a, b, c);
    }
}

/// Checked-in rows are among all rows.
pub proof fn lemma_checked_in_bounded(rows: Seq<RowState>)
    ensures
        checked_in_count(rows) <= rows.len(),
    decreases rows.len(),
{
    if rows.len() > 0 {
        lemma_checked_in_bounded(rows.drop_last());
    }
}

/// The counts add up: approved and waiting rows are among all rows, the waiting list is
/// part of the waiting rows, and checked-in rows are among all rows.
pub proof fn lemma_counts_consistent(rows: Seq<RowState>)
    ensures
        counts_of(rows).0 + counts_of(rows).1 <= counts_of(rows).4,
        counts_of(rows).2 <= counts_of(rows).1,
        counts_of(rows).3 <= counts_of(rows).4,
        0 <= counts_of(rows).0,
{
    reveal_strlit("approved");
    reveal_strlit("pending");
    reveal_strlit("waitlist");
    assert("approved"@[0] != "pending"@[0] && "approved"@[0] != "waitlist"@[0]);
    assert("pending"@[0] != "waitlist"@[0]);
    lemma_three_counts_bounded(statuses(rows), "approved"@, "pending"@, "waitlist"@);
    lemma_checked_in_bounded(rows);
}

/// Appending `x` adds one to its count and leaves the others.
pub proof fn lemma_count_push(s: Seq<Seq<char>>, x: Seq<char>, v: Seq<char>)
    ensures
        count_of(s.push(x), v) == count_of(s, v) + if x == v {
            1nat
        } else {
            0nat
        },
{
    assert(s.push(x).drop_last() =~= s);
}

/// Replacing the entry at `i` by `x` moves one count from the old entry to `x`.
pub proof fn lemma_count_update(s: Seq<Seq<char>>, i: int, x: Seq<char>, v: Seq<char>)
    requires
        0 <= i < s.len(),
    ensures
        count_of(s.update(i, x), v) + (if s[i] == v {
            1int
        } else {
            0int
        }) == count_of(s, v) + if x == v {
            1int
        } else {
            0int
        },
    decreases s.len(),
{
    let t = s.update(i, x);
    if i == s.len() - 1 {
        assert(t.drop_last() =~= s.drop_last());
    } else {
        assert(t.drop_last() =~= s.drop_last().update(i, x));
        lemma_count_update(s.drop_last(), i, x, v);
    }
}

/// The approved registrations among `s`.
pub open spec fn approved_in(s: Seq<Seq<char>>) -> nat {
    count_of(s, "approved"@)
}

/// A registration admitted with the seats counted from the roster `s` keeps the
/// approved registrations within a limited capacity.
pub proof fn lemma_admission_keeps_seats(
    s: Seq<Seq<char>>,
    capacity: i64,
    waitlist_enabled: bool,
    need_review: bool,
    d: Decision,
)
    requires
        capacity > 0,
        approved_in(s) <= capacity,
        admission_of(approved_in(s) as int, capacity as int, waitlist_enabled, need_review) == Ok::<
            Decision,
            ErrorView,
        >(d),
    ensures
        approved_in(s.push(crate::domain::decision_status(d))) <= capacity,
{
    reveal_strlit("approved");
    reveal_strlit("pending");
    reveal_strlit("waitlist");
    lemma_count_push(s, crate::domain::decision_status(d), "approved"@);
    if d != Decision::Approved {
        assert("approved"@[0] != "pending"@[0] && "approved"@[0] != "waitlist"@[0]);
        assert(crate::domain::decision_status(d) != "approved"@);
    }
}

/// The roster after a review of entry `i` that sets `status`, promoting the waiting entry
/// `waiter` (if there is one) when the plan says so.
pub open spec fn after_review(
    s: Seq<Seq<char>>,
    i: int,
    status: Seq<char>,
    promote: bool,
    waiter: Option<int>,
) -> Seq<Seq<char>> {
    let t = s.update(i, status);
    if promote && waiter is Some {
        t.update(waiter->0, "approved"@)
    } else {
        t
    }
}

/// A review decided with the seats counted from the roster `s` keeps the approved
/// registrations within a limited capacity, promotion included; rejecting or cancelling
/// an approved registration while someone waits leaves the number of approved seats as
/// it was.
pub proof fn lemma_review_keeps_seats(
    s: Seq<Seq<char>>,
    i: int,
    action: Seq<char>,
    capacity: i64,
    waiter: Option<int>,
)
    requires
        capacity > 0,
        approved_in(s) <= capacity,
        0 <= i < s.len(),
        review_outcome(action, capacity, approved_in(s) as i64, s[i]) is Ok,
        waiter matches Some(j) ==> 0 <= j < s.len() && s.update(
            i,
            review_outcome(action, capacity, approved_in(s) as i64, s[i])->Ok_0.0,
        )[j] == "waitlist"@,
    ensures
        ({
            let plan = review_outcome(action, capacity, approved_in(s) as i64, s[i])->Ok_0;
            &&& approved_in(after_review(s, i, plan.0, plan.1, waiter)) <= capacity
            &&& (plan.1 && waiter is Some) ==> approved_in(after_review(s, i, plan.0, plan.1, waiter))
                == approved_in(s)
        }),
{
    reveal_strlit("approved");
    reveal_strlit("rejected");
    reveal_strlit("cancelled");
    reveal_strlit("waitlist");
    reveal_strlit("approve");
    reveal_strlit("reject");
    reveal_strlit("cancel");
    let plan = review_outcome(action, capacity, approved_in(s) as i64, s[i])->Ok_0;
    let t = s.update(i, plan.0);
    assert("approved"@[0] != "rejected"@[0] && "approved"@[0] != "cancelled"@[0]);
    assert("approved"@[0] != "waitlist"@[0]);
    lemma_count_update(s, i, plan.0, "approved"@);
    if plan.1 && waiter is Some {
        let j = waiter->0;
        lemma_count_update(t, j, "approved"@, "approved"@);
    }
}

/// The version a newly saved form schema gets: one past the latest, 1 for the first.
pub fn next_schema_version(latest: Option<i64>) -> (res: i64)
    requires
        latest matches Some(v) ==> v < i64::MAX,
    ensures
        res == match latest {
            Some(v) => v + 1,
            None => 1,
        },
{
    match latest {
        Some(v) => v + 1,
        None => 1,
    }
}

/// A status that holds a place: approved, pending or on the waiting list.
pub open spec fn is_active_status(status: Seq<char>) -> bool {
    status == "approved"@ || status == "pending"@ || status == "waitlist"@
}

/// How many of `rows` (address, status) are active registrations of `email`.
pub open spec fn active_count(rows: Seq<(Seq<char>, Seq<char>)>, email: Seq<char>) -> nat
    decreases rows.len(),
{
    if rows.len() == 0 {
        0
    } else {
        active_count(rows.drop_last(), email) + if rows.last().0 == email && is_active_status(
            rows.last().1,
        ) {
            1nat
        } else {
            0nat
        }
    }
}

/// Every status a registration starts in holds a place.
pub proof fn lemma_decisions_are_active(d: Decision)
    ensures
        is_active_status(crate::domain::decision_status(d)),
{
}

/// Registering keeps every address to at most one active registration: a registration is
/// admitted only when its address has none, and it is then the only one.
pub proof fn lemma_register_keeps_one_active(
    rows: Seq<(Seq<char>, Seq<char>)>,
    email: Seq<char>,
    d: Decision,
)
    requires
        forall|x: Seq<char>| #[trigger] active_count(rows, x) <= 1,
        active_count(rows, email) == 0,
    ensures
        active_count(rows.push((email, crate::domain::decision_status(d))), email) == 1,
        forall|x: Seq<char>| #[trigger] active_count(rows.push((email, crate::domain::decision_status(d))), x) <= 1,
{
    let after = rows.push((email, crate::domain::decision_status(d)));
    assert(after.drop_last() =~= rows);
    lemma_decisions_are_active(d);
    assert forall|x: Seq<char>| #[trigger] active_count(after, x) <= 1 by {
        assert(active_count(rows, x) <= 1);
        if x != email {
            assert(active_count(after, x) == active_count(rows, x));
        }
    }
}

/// A registration whose e-mail domain is not allowed is refused, whether or not the event
/// asks for a code, and whatever the code's verdict.
pub proof fn lemma_disallowed_domain_refused(
    event: EventInfo,
    answers: JsonValue,
    verdict: CodeVerdict,
    valid_emails: Seq<Seq<char>>,
    facts: RegisterFacts,
)
    requires
        !facts.domain_allowed,
    ensures
        settled_outcome(event, answers, verdict, valid_emails, facts).0 is Err,
        settled_outcome(event, answers, verdict, valid_emails, facts).1 == CodeEffect::Untouched,
{
}

/// An admitted registration passed every check before the seats: the window, a form,
/// accepted answers with an e-mail answer, a well-formed address in an allowed domain, no
/// earlier registration, and, when the event asks for one, an accepted code.
pub proof fn lemma_admitted_passed_checks(
    event: EventInfo,
    answers: JsonValue,
    verdict: CodeVerdict,
    valid_emails: Seq<Seq<char>>,
    facts: RegisterFacts,
)
    requires
        settled_outcome(event, answers, verdict, valid_emails, facts).0 is Ok,
    ensures
        event.reg_start_at matches Some(start) ==> facts.now >= start,
        event.reg_end_at matches Some(end) ==> facts.now <= end,
        facts.form is Some,
        answers_check(facts.form->0, answers, valid_emails) is Ok,
        member_str(answers, "email"@) is Some,
        facts.email_valid,
        facts.domain_allowed,
        !facts.already_registered,
        event.email_verify ==> verdict == CodeVerdict::Accepted,
{
}

/// Rejecting or cancelling a registration frees its seat for the earliest waiting one
/// exactly when it was approved; approving never promotes anyone.
pub proof fn lemma_freed_seat_promotes(action: Seq<char>, capacity: i64, approved: i64, previous: Seq<char>)
    ensures
        action == "reject"@ || action == "cancel"@ ==> review_outcome(action, capacity, approved, previous) is Ok
            && review_outcome(action, capacity, approved, previous)->Ok_0.1 == (previous == "approved"@),
        review_outcome(action, capacity, approved, previous) matches Ok(plan) && plan.1 ==> previous
            == "approved"@ && action != "approve"@,
        action == "reject"@ ==> review_outcome(action, capacity, approved, previous)->Ok_0.0 == "rejected"@,
        action == "cancel"@ ==> review_outcome(action, capacity, approved, previous)->Ok_0.0 == "cancelled"@,
{
    reveal_strlit("reject");
    reveal_strlit("cancel");
    reveal_strlit("approve");
    assert("reject"@[0] != "cancel"@[0] && "reject"@[0] != "approve"@[0] && "cancel"@[0] != "approve"@[0]);
}

} // verus!

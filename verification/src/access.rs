//! Who is asking and what they may see: the user behind a token, and the lookups that
//! answer 404 when a record is missing or belongs elsewhere.

use vstd::prelude::*;
use crate::error::{AppError, ErrorKind, ErrorView, error_view};
use crate::text::str_eq;

verus! {

/// The 128-bit value of the UUID that `uuid::Uuid::parse_str` reads from `text`, if it
/// reads one.
pub uninterp spec fn uuid_parse(text: Seq<char>) -> Option<u128>;

/// `uuid::Uuid::parse_str`: the UUID written in `text` (simple, hyphenated, braced or URN
/// form), as its 128-bit value.
#[verifier::external_body]
fn parse_uuid(text: &str) -> (res: Option<u128>)
    ensures
        res == uuid_parse(text@),
{
    match uuid::Uuid::parse_str(text) {
        Ok(u) => Some(u.as_u128()),
        Err(_) => None,
    }
}

/// The 401 of a token whose subject is not a user id.
pub open spec fn invalid_token_error() -> ErrorView {
    error_view(ErrorKind::Unauthorized, "AUTH_INVALID_TOKEN"@, "访问令牌无效"@, Seq::empty())
}

/// A user-id answer by its views.
pub open spec fn id_result_view(r: Result<u128, AppError>) -> Result<u128, ErrorView> {
    match r {
        Ok(v) => Ok(v),
        Err(e) => Err(e@),
    }
}

/// The user id a token names, given what its subject parses to.
pub fn user_id_from(parsed: Option<u128>) -> (res: Result<u128, AppError>)
    ensures
        id_result_view(res) == match parsed {
            Some(v) => Ok(v),
            None => Err(invalid_token_error()),
        },
{
    match parsed {
        Some(v) => Ok(v),
        None => Err(AppError::simple(ErrorKind::Unauthorized, "AUTH_INVALID_TOKEN", "访问令牌无效")),
    }
}

/// The user id of a signed-in request: the UUID its token's subject names; a 401 when
/// the subject is not a UUID.
pub fn user_id_of(subject: &str) -> (res: Result<u128, AppError>)
    ensures
        id_result_view(res) == match uuid_parse(subject@) {
            Some(v) => Ok(v),
            None => Err(invalid_token_error()),
        },
{
    user_id_from(parse_uuid(subject))
}

/// The user id of a request that may be anonymous: the UUID its token's subject names,
/// if there is a token and its subject is a UUID.
pub fn optional_user_id(subject: Option<&str>) -> (res: Option<u128>)
    ensures
        res == match subject {
            Some(s) => uuid_parse(s@),
            None => None,
        },
{
    match subject {
        Some(s) => parse_uuid(s),
        None => None,
    }
}

/// The 404 of a registration that is missing or belongs to another event.
pub open spec fn registration_missing() -> ErrorView {
    error_view(ErrorKind::NotFound, "EVENT_REGISTRATION_NOT_FOUND"@, "报名不存在"@, Seq::empty())
}

/// `Ok` as it is, an error by its view.
pub open spec fn unit_view(r: Result<(), AppError>) -> Result<(), ErrorView> {
    match r {
        Ok(()) => Ok(()),
        Err(e) => Err(e@),
    }
}

/// A registration named in an organiser's request: it must exist (`found_event` is the
/// event it belongs to) and belong to `event_id`.
pub fn registration_in_event(found_event: Option<u128>, event_id: u128) -> (res: Result<(), AppError>)
    ensures
        unit_view(res) == if found_event == Some(event_id) {
            Ok(())
        } else {
            Err(registration_missing())
        },
{
    match found_event {
        Some(e) => {
            if e == event_id {
                Ok(())
            } else {
                Err(AppError::simple(ErrorKind::NotFound, "EVENT_REGISTRATION_NOT_FOUND", "报名不存在"))
            }
        },
        None => Err(AppError::simple(ErrorKind::NotFound, "EVENT_REGISTRATION_NOT_FOUND", "报名不存在")),
    }
}

/// A public status query: the registration with the check-in code must exist
/// (`found_email` is its address) and have been made with the (normalised) address
/// `email`.
pub fn registration_for_email(found_email: Option<&str>, email: &str) -> (res: Result<(), AppError>)
    ensures
        unit_view(res) == match found_email {
            Some(f) => if f@ == email@ {
                Ok(())
            } else {
                Err(registration_missing())
            },
            None => Err(registration_missing()),
        },
{
    match found_email {
        Some(f) => {
            if str_eq(f, email) {
                Ok(())
            } else {
                Err(AppError::simple(ErrorKind::NotFound, "EVENT_REGISTRATION_NOT_FOUND", "报名不存在"))
            }
        },
        None => Err(AppError::simple(ErrorKind::NotFound, "EVENT_REGISTRATION_NOT_FOUND", "报名不存在")),
    }
}

/// An organiser's request for the form: an event without a saved form is a 404.
pub fn form_found(found: bool) -> (res: Result<(), AppError>)
    ensures
        unit_view(res) == if found {
            Ok(())
        } else {
            Err(error_view(ErrorKind::NotFound, "EVENT_FORM_NOT_FOUND"@, "表单不存在"@, Seq::empty()))
        },
{
    if found {
        Ok(())
    } else {
        Err(AppError::simple(ErrorKind::NotFound, "EVENT_FORM_NOT_FOUND", "表单不存在"))
    }
}

} // verus!

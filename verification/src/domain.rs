//! Domain rules: form schema checks, answer checks, verification codes, seat decisions
//! and export layout.

use vstd::prelude::*;
use vstd::string::StringExecFns;
use crate::error::{AppError, ErrorKind, ErrorView, validation_error, error_view, FieldError};
use crate::json::{JsonValue, entries_get, object_keys, lemma_entries_get_at, lemma_entries_get_none, member, member_str, member_str_or, member_array, member_bool, as_str};
use crate::text::{
    str_eq, chars_of, is_ascii_alnum, is_ascii_alphanumeric, is_blank, blank, trim, trimmed,
    digit_count, count_digits, float_literal, is_float_literal,
};

verus! {

/// Registration status: waiting for review.
pub const STATUS_PENDING: &'static str = "pending";

/// Registration status: approved.
pub const STATUS_APPROVED: &'static str = "approved";

/// Registration status: rejected.
pub const STATUS_REJECTED: &'static str = "rejected";

/// Registration status: on the waiting list.
pub const STATUS_WAITLIST: &'static str = "waitlist";

/// Registration status: cancelled.
pub const STATUS_CANCELLED: &'static str = "cancelled";

/// The strings of `v`, as sequences.
pub open spec fn string_views(v: Seq<String>) -> Seq<Seq<char>> {
    v.map_values(|s: String| s@)
}

/// Whether `s` is one of the strings of `v`.
pub fn contains_str(v: &Vec<String>, s: &str) -> (res: bool)
    ensures
        res == string_views(v@).contains(s@),
{
    let n = v.len();
    let mut i: usize = 0;
    while i < n
        invariant
            i <= n,
            n == v@.len(),
            forall|k: int| 0 <= k < i ==> v@[k]@ != s@,
        decreases n - i,
    {
        if str_eq(v[i].as_str(), s) {
            assert(string_views(v@)[i as int] == s@);
            return true;
        }
        i = i + 1;
    }
    proof {
        if string_views(v@).contains(s@) {
            let k = choose|k: int| 0 <= k < string_views(v@).len() && string_views(v@)[k] == s@;
            assert(v@[k]@ == s@);
        }
    }
    false
}

/// `Ok` as it is, an error by its view.
pub open spec fn result_view(r: Result<(), AppError>) -> Result<(), ErrorView> {
    match r {
        Ok(()) => Ok(()),
        Err(e) => Err(e@),
    }
}

// ---------------------------------------------------------------------------------------
// Form schemas
// ---------------------------------------------------------------------------------------

/// What is wrong with a schema field, in the order the checks run.
#[derive(Clone, Copy, Debug, PartialEq, Eq, Structural)]
pub enum SchemaIssue {
    /// The key is empty or holds a character other than a letter, digit or `_`.
    KeyInvalid,
    /// An earlier field has the same key.
    KeyDuplicate,
    /// The type is not a field type.
    TypeUnsupported,
    /// The label is blank.
    LabelBlank,
    /// A choice field without options.
    OptionsMissing,
}

/// A character allowed in a field key.
pub open spec fn is_key_char(c: char) -> bool {
    is_ascii_alnum(c) || c == '_'
}

/// A non-empty key of letters, digits and `_`.
pub open spec fn valid_key(k: Seq<char>) -> bool {
    k.len() > 0 && forall|i: int| 0 <= i < k.len() ==> is_key_char(#[trigger] k[i])
}

/// The field types a form may use.
pub open spec fn is_field_type(k: Seq<char>) -> bool {
    ||| k == "text"@
    ||| k == "textarea"@
    ||| k == "number"@
    ||| k == "email"@
    ||| k == "phone"@
    ||| k == "select"@
    ||| k == "radio"@
    ||| k == "multiselect"@
    ||| k == "checkbox"@
    ||| k == "date"@
    ||| k == "file"@
}

/// The field types that need options.
pub open spec fn is_option_type(k: Seq<char>) -> bool {
    k == "select"@ || k == "radio"@ || k == "multiselect"@
}

/// The key of a schema field (empty when missing).
pub open spec fn field_key(f: JsonValue) -> Seq<char> {
    member_str_or(f, "key"@, Seq::empty())
}

/// The first problem of field `f`, given the keys of the fields before it.
pub open spec fn field_issue(f: JsonValue, seen: Seq<Seq<char>>) -> Option<SchemaIssue> {
    let key = field_key(f);
    let kind = member_str_or(f, "type"@, Seq::empty());
    let label = member_str_or(f, "label"@, Seq::empty());
    if !valid_key(key) {
        Some(SchemaIssue::KeyInvalid)
    } else if seen.contains(key) {
        Some(SchemaIssue::KeyDuplicate)
    } else if !is_field_type(kind) {
        Some(SchemaIssue::TypeUnsupported)
    } else if is_blank(label) {
        Some(SchemaIssue::LabelBlank)
    } else if is_option_type(kind) && match member_array(f, "options"@) {
        None => true,
        Some(items) => items.len() == 0,
    } {
        Some(SchemaIssue::OptionsMissing)
    } else {
        None
    }
}

/// The keys of the fields `fs`.
pub open spec fn keys_of(fs: Seq<JsonValue>) -> Seq<Seq<char>> {
    fs.map_values(|f: JsonValue| field_key(f))
}

/// The problem of the first field of `fs` that has one.
pub open spec fn first_schema_issue(fs: Seq<JsonValue>) -> Option<SchemaIssue>
    decreases fs.len(),
{
    if fs.len() == 0 {
        None
    } else {
        match first_schema_issue(fs.drop_last()) {
            Some(issue) => Some(issue),
            None => field_issue(fs.last(), keys_of(fs.drop_last())),
        }
    }
}

/// A problem found in a prefix of the fields is the problem of all of them.
pub proof fn lemma_first_issue_extends(fs: Seq<JsonValue>, j: int)
    requires
        0 <= j <= fs.len(),
        first_schema_issue(fs.take(j)) is Some,
    ensures
        first_schema_issue(fs) == first_schema_issue(fs.take(j)),
    decreases fs.len() - j,
{
    if j < fs.len() {
        let next = fs.take(j + 1);
        assert(next.drop_last() =~= fs.take(j));
        lemma_first_issue_extends(fs, j + 1);
    } else {
        assert(fs.take(j) =~= fs);
    }
}

/// In a schema that passes, every field has a valid key, no two fields share a key,
/// every field has a supported type and a label, and every choice field has options.
pub proof fn lemma_accepted_fields_well_formed(fs: Seq<JsonValue>)
    requires
        first_schema_issue(fs) is None,
    ensures
        forall|i: int| 0 <= i < fs.len() ==> valid_key(#[trigger] field_key(fs[i])),
        forall|i: int, j: int| 0 <= i < j < fs.len() ==> field_key(#[trigger] fs[i]) != field_key(#[trigger] fs[j]),
        forall|i: int| 0 <= i < fs.len() ==> #[trigger] field_issue(fs[i], keys_of(fs.take(i))) is None,
    decreases fs.len(),
{
    if fs.len() > 0 {
        let init = fs.drop_last();
        let n = fs.len() - 1;
        lemma_accepted_fields_well_formed(init);
        assert(fs.take(n) =~= init);
        assert forall|i: int| 0 <= i < fs.len() implies #[trigger] field_issue(fs[i], keys_of(fs.take(i))) is None by {
            if i < n {
                assert(fs[i] == init[i]);
                assert(fs.take(i) =~= init.take(i));
            }
        }
        assert forall|i: int| 0 <= i < fs.len() implies valid_key(#[trigger] field_key(fs[i])) by {
            assert(field_issue(fs[i], keys_of(fs.take(i))) is None);
        }
        assert forall|i: int, j: int| 0 <= i < j < fs.len() implies field_key(#[trigger] fs[i]) != field_key(
            #[trigger] fs[j],
        ) by {
            if j < n {
                assert(fs[i] == init[i] && fs[j] == init[j]);
            } else {
                assert(field_issue(fs[j], keys_of(fs.take(j))) is None);
                assert(keys_of(fs.take(j))[i] == field_key(fs[i]));
            }
        }
    }
}

/// The error a schema problem is answered with.
pub open spec fn schema_issue_error(issue: SchemaIssue) -> ErrorView {
    match issue {
        SchemaIssue::KeyInvalid => validation_error(
            "字段 key 需为字母/数字/下划线"@,
            seq![("fields"@, "key 非法"@)],
        ),
        SchemaIssue::KeyDuplicate => validation_error("字段 key 重复"@, seq![("fields"@, "key 重复"@)]),
        SchemaIssue::TypeUnsupported => validation_error(
            "字段类型不支持"@,
            seq![("fields"@, "type 非法"@)],
        ),
        SchemaIssue::LabelBlank => validation_error(
            "字段 label 不能为空"@,
            seq![("fields"@, "label 为空"@)],
        ),
        SchemaIssue::OptionsMissing => validation_error(
            "选项字段必须提供 options"@,
            seq![("fields"@, "缺少选项"@)],
        ),
    }
}

/// A schema that `validate_form_schema` accepts has a `fields` array whose keys are all
/// valid and pairwise different.
pub proof fn lemma_accepted_schema_keys(schema: JsonValue)
    requires
        schema_check(schema) is Ok,
    ensures
        member_array(schema, "fields"@) is Some,
        forall|i: int|
            0 <= i < member_array(schema, "fields"@)->0.len() ==> valid_key(
                #[trigger] field_key(member_array(schema, "fields"@)->0[i]),
            ),
        forall|i: int, j: int|
            0 <= i < j < member_array(schema, "fields"@)->0.len() ==> field_key(
                #[trigger] member_array(schema, "fields"@)->0[i],
            ) != field_key(#[trigger] member_array(schema, "fields"@)->0[j]),
{
    let fs = member_array(schema, "fields"@)->0;
    lemma_accepted_fields_well_formed(fs);
}

/// What `validate_form_schema` answers: a `fields` array whose fields each have a valid,
/// unique key, a supported type, a label and, for choice fields, options.
pub open spec fn schema_check(schema: JsonValue) -> Result<(), ErrorView> {
    match member_array(schema, "fields"@) {
        None => Err(validation_error("表单缺少 fields 数组"@, seq![("fields"@, "缺少"@)])),
        Some(fs) => match first_schema_issue(fs) {
            None => Ok(()),
            Some(issue) => Err(schema_issue_error(issue)),
        },
    }
}

/// Whether `k` is a valid field key.
pub fn is_valid_key(k: &str) -> (res: bool)
    ensures
        res == valid_key(k@),
{
    let c = chars_of(k);
    let n = c.len();
    if n == 0 {
        return false;
    }
    let mut i: usize = 0;
    while i < n
        invariant
            i <= n,
            n == c@.len(),
            c@ == k@,
            forall|j: int| 0 <= j < i ==> is_key_char(#[trigger] c@[j]),
        decreases n - i,
    {
        if !(is_ascii_alphanumeric(c[i]) || c[i] == '_') {
            return false;
        }
        i = i + 1;
    }
    true
}

/// Whether `k` is a field type.
pub fn field_type_supported(k: &str) -> (res: bool)
    ensures
        res == is_field_type(k@),
        res <==> (k@ == "text"@ || k@ == "textarea"@ || k@ == "number"@ || k@ == "email"@ || k@ == "phone"@
            || k@ == "select"@ || k@ == "radio"@ || k@ == "multiselect"@ || k@ == "checkbox"@ || k@ == "date"@
            || k@ == "file"@),
{
    str_eq(k, "text") || str_eq(k, "textarea") || str_eq(k, "number") || str_eq(k, "email")
        || str_eq(k, "phone") || str_eq(k, "select") || str_eq(k, "radio") || str_eq(
        k,
        "multiselect",
    ) || str_eq(k, "checkbox") || str_eq(k, "date") || str_eq(k, "file")
}

/// Whether fields of type `k` need options.
pub fn needs_options(k: &str) -> (res: bool)
    ensures
        res == is_option_type(k@),
{
    str_eq(k, "select") || str_eq(k, "radio") || str_eq(k, "multiselect")
}

/// Every field type of the form builder is accepted: a field with a valid new key, a
/// label, and one of `text`, `textarea`, `number`, `email`, `phone`, `select`, `radio`,
/// `multiselect`, `checkbox`, `date` or `file` as its type (with options for the
/// choice types) has no problem.
pub proof fn lemma_listed_types_accepted(f: JsonValue, seen: Seq<Seq<char>>)
    requires
        valid_key(field_key(f)),
        !seen.contains(field_key(f)),
        !is_blank(member_str_or(f, "label"@, Seq::empty())),
        ({
            let k = member_str_or(f, "type"@, Seq::empty());
            k == "text"@ || k == "textarea"@ || k == "number"@ || k == "email"@ || k == "phone"@ || k == "select"@
                || k == "radio"@ || k == "multiselect"@ || k == "checkbox"@ || k == "date"@ || k == "file"@
        }),
        member_array(f, "options"@) matches Some(o) && o.len() > 0 || !(member_str_or(f, "type"@, Seq::empty())
            == "select"@ || member_str_or(f, "type"@, Seq::empty()) == "radio"@ || member_str_or(
            f,
            "type"@,
            Seq::empty(),
        ) == "multiselect"@),
    ensures
        field_issue(f, seen) is None,
{
}

/// The first problem of `field`, given the keys of the fields before it.
fn check_field(field: &JsonValue, seen: &Vec<String>) -> (res: Option<SchemaIssue>)
    ensures
        res == field_issue(*field, string_views(seen@)),
{
    let key: &str = match field.get_str("key") {
        Some(k) => k.as_str(),
        None => "",
    };
    proof {
        reveal_strlit("");
    }
    if !is_valid_key(key) {
        return Some(SchemaIssue::KeyInvalid);
    }
    if contains_str(seen, key) {
        return Some(SchemaIssue::KeyDuplicate);
    }
    let kind: &str = match field.get_str("type") {
        Some(k) => k.as_str(),
        None => "",
    };
    proof {
        reveal_strlit("");
    }
    assert(kind@ == member_str_or(*field, "type"@, Seq::empty()));
    if !field_type_supported(kind) {
        return Some(SchemaIssue::TypeUnsupported);
    }
    let label: &str = match field.get_str("label") {
        Some(l) => l.as_str(),
        None => "",
    };
    proof {
        reveal_strlit("");
    }
    assert(label@ == member_str_or(*field, "label"@, Seq::empty()));
    if blank(label) {
        return Some(SchemaIssue::LabelBlank);
    }
    if needs_options(kind) {
        let missing = match field.get_array("options") {
            None => true,
            Some(items) => items.len() == 0,
        };
        if missing {
            return Some(SchemaIssue::OptionsMissing);
        }
    }
    None
}

/// The error a schema problem is answered with.
fn schema_issue_error_of(issue: SchemaIssue) -> (res: AppError)
    ensures
        res@ == schema_issue_error(issue),
{
    match issue {
        SchemaIssue::KeyInvalid => AppError::unprocessable(
            "EVENT_VALIDATION",
            "字段 key 需为字母/数字/下划线",
            "fields",
            "key 非法",
        ),
        SchemaIssue::KeyDuplicate => AppError::unprocessable(
            "EVENT_VALIDATION",
            "字段 key 重复",
            "fields",
            "key 重复",
        ),
        SchemaIssue::TypeUnsupported => AppError::unprocessable(
            "EVENT_VALIDATION",
            "字段类型不支持",
            "fields",
            "type 非法",
        ),
        SchemaIssue::LabelBlank => AppError::unprocessable(
            "EVENT_VALIDATION",
            "字段 label 不能为空",
            "fields",
            "label 为空",
        ),
        SchemaIssue::OptionsMissing => AppError::unprocessable(
            "EVENT_VALIDATION",
            "选项字段必须提供 options",
            "fields",
            "缺少选项",
        ),
    }
}

/// Checks a form schema: a `fields` array, each field with a unique key of letters,
/// digits and `_`, a supported type, a non-blank label, and options for choice fields.
pub fn validate_form_schema(schema: &JsonValue) -> (res: Result<(), AppError>)
    ensures
        result_view(res) == schema_check(*schema),
{
    let fields = match schema.get_array("fields") {
        Some(fields) => fields,
        None => {
            return Err(
                AppError::unprocessable("EVENT_VALIDATION", "表单缺少 fields 数组", "fields", "缺少"),
            );
        },
    };
    let n = fields.len();
    let mut seen: Vec<String> = Vec::new();
    let mut i: usize = 0;
    while i < n
        invariant
            i <= n,
            n == fields@.len(),
            member_array(*schema, "fields"@) == Some(fields@),
            first_schema_issue(fields@.take(i as int)) is None,
            string_views(seen@) == keys_of(fields@.take(i as int)),
        decreases n - i,
    {
        let field = &fields[i];
        let ghost prefix = fields@.take(i + 1);
        assert(prefix.drop_last() =~= fields@.take(i as int));
        assert(prefix.last() == fields@[i as int]);
        match check_field(field, &seen) {
            Some(issue) => {
                proof {
                    lemma_first_issue_extends(fields@, i + 1);
                    assert(fields@.take(n as int) =~= fields@);
                }
                return Err(schema_issue_error_of(issue));
            },
            None => {},
        }
        let key: &str = match field.get_str("key") {
            Some(k) => k.as_str(),
            None => "",
        };
        proof {
            reveal_strlit("");
        }
        assert(key@ == field_key(fields@[i as int]));
        let ghost old_seen = seen@;
        seen.push(String::from_str(key));
        assert(seen@ == old_seen.push(seen@[i as int]));
        assert(keys_of(prefix) =~= keys_of(fields@.take(i as int)).push(field_key(fields@[i as int])));
        assert(string_views(seen@) =~= string_views(old_seen).push(key@));
        i = i + 1;
    }
    assert(fields@.take(n as int) =~= fields@);
    Ok(())
}


// ---------------------------------------------------------------------------------------
// Answers
// ---------------------------------------------------------------------------------------

/// An answer counts as not given: missing, `null`, a blank string or an empty array.
pub open spec fn answer_is_empty(value: Option<JsonValue>) -> bool {
    match value {
        None => true,
        Some(JsonValue::Null) => true,
        Some(JsonValue::Str(t)) => is_blank(t@),
        Some(JsonValue::Array(items)) => items@.len() == 0,
        _ => false,
    }
}

/// `v.as_str().unwrap_or("")`.
pub open spec fn text_or_empty(v: JsonValue) -> Seq<char> {
    match as_str(v) {
        Some(s) => s,
        None => Seq::empty(),
    }
}

/// Some option of `options` has the value `text`.
pub open spec fn option_listed(options: Seq<JsonValue>, text: Seq<char>) -> bool {
    exists|i: int| 0 <= i < options.len() && #[trigger] member_str(options[i], "value"@) == Some(text)
}

/// The options of a choice field (none when missing).
pub open spec fn field_options(field: JsonValue) -> Seq<JsonValue> {
    match member_array(field, "options"@) {
        Some(o) => o,
        None => Seq::empty(),
    }
}

/// Whether a schema field is required (not when unstated).
pub open spec fn field_required(field: JsonValue) -> bool {
    match member_bool(field, "required"@) {
        Some(b) => b,
        None => false,
    }
}

/// What is wrong with the non-empty answer `v` to a field of type `kind`, if anything.
/// `valid_emails` are the texts that the e-mail address rules accept.
pub open spec fn value_problem(
    kind: Seq<char>,
    options: Seq<JsonValue>,
    v: JsonValue,
    valid_emails: Seq<Seq<char>>,
) -> Option<Seq<char>> {
    if kind == "email"@ {
        if valid_emails.contains(text_or_empty(v)) {
            None
        } else {
            Some("邮箱格式错误"@)
        }
    } else if kind == "number"@ {
        let numeric = match v {
            JsonValue::Number(_) => true,
            JsonValue::Str(s) => float_literal(s@),
            _ => false,
        };
        if numeric {
            None
        } else {
            Some("数字格式错误"@)
        }
    } else if kind == "phone"@ {
        if digit_count(text_or_empty(v)) < 7 {
            Some("手机号格式错误"@)
        } else {
            None
        }
    } else if kind == "select"@ || kind == "radio"@ {
        match as_str(v) {
            None => Some("选项格式错误"@),
            Some(t) => if option_listed(options, t) {
                None
            } else {
                Some("选项不在允许范围"@)
            },
        }
    } else if kind == "multiselect"@ {
        match v {
            JsonValue::Array(items) => if exists|i: int|
                0 <= i < items@.len() && !option_listed(options, text_or_empty(#[trigger] items@[i])) {
                Some("选项不在允许范围"@)
            } else {
                None
            },
            _ => Some("多选格式错误"@),
        }
    } else {
        None
    }
}

/// What is wrong with the answer to `field`, if anything.
pub open spec fn answer_problem(field: JsonValue, answers: JsonValue, valid_emails: Seq<Seq<char>>) -> Option<
    Seq<char>,
> {
    let value = member(answers, field_key(field));
    let empty = answer_is_empty(value);
    if field_required(field) && empty {
        Some("必填"@)
    } else if empty {
        None
    } else {
        value_problem(
            member_str_or(field, "type"@, "text"@),
            field_options(field),
            value->0,
            valid_emails,
        )
    }
}

/// `(key, problem)` of each field of `fields` whose answer has a problem, in order.
pub open spec fn answer_errors(fields: Seq<JsonValue>, answers: JsonValue, valid_emails: Seq<Seq<char>>) -> Seq<
    (Seq<char>, Seq<char>),
>
    decreases fields.len(),
{
    if fields.len() == 0 {
        Seq::empty()
    } else {
        answer_errors(fields.drop_last(), answers, valid_emails) + match answer_problem(
            fields.last(),
            answers,
            valid_emails,
        ) {
            Some(m) => seq![(field_key(fields.last()), m)],
            None => Seq::empty(),
        }
    }
}

/// No problem is reported for `fields` exactly when each field's answer has none.
pub proof fn lemma_no_errors_means_each_answer_ok(fields: Seq<JsonValue>, answers: JsonValue, valid_emails: Seq<Seq<char>>)
    requires
        answer_errors(fields, answers, valid_emails).len() == 0,
    ensures
        forall|i: int| 0 <= i < fields.len() ==> #[trigger] answer_problem(fields[i], answers, valid_emails) is None,
    decreases fields.len(),
{
    if fields.len() > 0 {
        let init = fields.drop_last();
        lemma_no_errors_means_each_answer_ok(init, answers, valid_emails);
        assert forall|i: int| 0 <= i < fields.len() implies #[trigger] answer_problem(fields[i], answers, valid_emails)
            is None by {
            if i < fields.len() - 1 {
                assert(fields[i] == init[i]);
            }
        }
    }
}

/// Accepted answers give every required field a non-empty answer, and every non-empty
/// answer is well formed for its field.
pub proof fn lemma_accepted_answers_complete(schema: JsonValue, answers: JsonValue, valid_emails: Seq<Seq<char>>)
    requires
        answers_check(schema, answers, valid_emails) is Ok,
    ensures
        member_array(schema, "fields"@) matches Some(fs) ==> forall|i: int|
            0 <= i < fs.len() && field_required(#[trigger] fs[i]) ==> !answer_is_empty(
                member(answers, field_key(fs[i])),
            ),
        member_array(schema, "fields"@) matches Some(fs) ==> forall|i: int|
            0 <= i < fs.len() && !answer_is_empty(member(answers, field_key(#[trigger] fs[i]))) ==> value_problem(
                member_str_or(fs[i], "type"@, "text"@),
                field_options(fs[i]),
                member(answers, field_key(fs[i]))->0,
                valid_emails,
            ) is None,
{
    if let Some(fs) = member_array(schema, "fields"@) {
        lemma_no_errors_means_each_answer_ok(fs, answers, valid_emails);
        assert forall|i: int| 0 <= i < fs.len() && field_required(#[trigger] fs[i]) implies !answer_is_empty(
            member(answers, field_key(fs[i])),
        ) by {
            assert(answer_problem(fs[i], answers, valid_emails) is None);
        }
        assert forall|i: int|
            0 <= i < fs.len() && !answer_is_empty(member(answers, field_key(#[trigger] fs[i]))) implies value_problem(
            member_str_or(fs[i], "type"@, "text"@),
            field_options(fs[i]),
            member(answers, field_key(fs[i]))->0,
            valid_emails,
        ) is None by {
            assert(answer_problem(fs[i], answers, valid_emails) is None);
        }
    }
}

/// A field whose answer has a problem is reported with it.
pub proof fn lemma_problem_reported(fields: Seq<JsonValue>, answers: JsonValue, valid_emails: Seq<Seq<char>>, i: int)
    requires
        0 <= i < fields.len(),
        answer_problem(fields[i], answers, valid_emails) is Some,
    ensures
        answer_errors(fields, answers, valid_emails).contains(
            (field_key(fields[i]), answer_problem(fields[i], answers, valid_emails)->0),
        ),
    decreases fields.len(),
{
    let init = fields.drop_last();
    let tail = match answer_problem(fields.last(), answers, valid_emails) {
        Some(m) => seq![(field_key(fields.last()), m)],
        None => Seq::<(Seq<char>, Seq<char>)>::empty(),
    };
    let all = answer_errors(fields, answers, valid_emails);
    assert(all == answer_errors(init, answers, valid_emails) + tail);
    if i == fields.len() - 1 {
        assert(all[answer_errors(init, answers, valid_emails).len() as int] == tail[0]);
    } else {
        assert(fields[i] == init[i]);
        lemma_problem_reported(init, answers, valid_emails, i);
        let e = answer_errors(init, answers, valid_emails);
        let k = choose|k: int| 0 <= k < e.len() && e[k] == (field_key(fields[i]), answer_problem(fields[i], answers, valid_emails)->0);
        assert(all[k] == e[k]);
    }
}

/// A non-blank string answer to a `select` or `radio` field is accepted exactly when
/// some option of the field has that value; otherwise the field is reported with
/// `选项不在允许范围`.
pub proof fn lemma_choice_answers_listed(fields: Seq<JsonValue>, answers: JsonValue, valid_emails: Seq<Seq<char>>, i: int)
    requires
        0 <= i < fields.len(),
        member_str_or(fields[i], "type"@, "text"@) == "select"@ || member_str_or(fields[i], "type"@, "text"@)
            == "radio"@,
        member(answers, field_key(fields[i])) matches Some(JsonValue::Str(t)) && !is_blank(t@),
    ensures
        ({
            let t = member(answers, field_key(fields[i]))->0->Str_0@;
            let listed = exists|j: int|
                0 <= j < field_options(fields[i]).len() && member_str(#[trigger] field_options(fields[i])[j], "value"@)
                    == Some(t);
            &&& listed ==> answer_problem(fields[i], answers, valid_emails) is None
            &&& !listed ==> answer_errors(fields, answers, valid_emails).contains(
                (field_key(fields[i]), "选项不在允许范围"@),
            )
        }),
{
    reveal_strlit("select");
    reveal_strlit("radio");
    reveal_strlit("email");
    reveal_strlit("number");
    reveal_strlit("phone");
    assert("select"@.len() == 6 && "radio"@.len() == 5 && "email"@.len() == 5);
    assert("number"@.len() == 6 && "phone"@.len() == 5);
    assert("select"@[0] != "number"@[0] && "radio"@[0] != "email"@[0] && "radio"@[0] != "phone"@[0]);
    let f = fields[i];
    if answer_problem(f, answers, valid_emails) is Some {
        lemma_problem_reported(fields, answers, valid_emails, i);
    }
}

/// What `validate_answers` answers: every problem of every field, or `Ok`.
pub open spec fn answers_check(schema: JsonValue, answers: JsonValue, valid_emails: Seq<Seq<char>>) -> Result<
    (),
    ErrorView,
> {
    let fields = match member_array(schema, "fields"@) {
        Some(f) => f,
        None => Seq::empty(),
    };
    let errors = answer_errors(fields, answers, valid_emails);
    if errors.len() == 0 {
        Ok(())
    } else {
        Err(validation_error("报名信息校验失败"@, errors))
    }
}

/// Whether some option of `options` has the value `text`.
fn option_listed_in(options: &Vec<JsonValue>, text: &str) -> (res: bool)
    ensures
        res == option_listed(options@, text@),
{
    let n = options.len();
    let mut i: usize = 0;
    while i < n
        invariant
            i <= n,
            n == options@.len(),
            forall|k: int| 0 <= k < i ==> #[trigger] member_str(options@[k], "value"@) != Some(text@),
        decreases n - i,
    {
        match options[i].get_str("value") {
            Some(v) => {
                if str_eq(v.as_str(), text) {
                    return true;
                }
            },
            None => {},
        }
        i = i + 1;
    }
    false
}

/// Whether the answer `value` counts as not given.
fn is_empty_answer(value: Option<&JsonValue>) -> (res: bool)
    ensures
        res == answer_is_empty(
            match value {
                Some(v) => Some(*v),
                None => None,
            },
        ),
{
    match value {
        None => true,
        Some(JsonValue::Null) => true,
        Some(JsonValue::Str(t)) => blank(t.as_str()),
        Some(JsonValue::Array(items)) => items.len() == 0,
        _ => false,
    }
}

/// `v.as_str().unwrap_or("")`.
fn text_of(v: &JsonValue) -> (res: &str)
    ensures
        res@ == text_or_empty(*v),
{
    proof {
        reveal_strlit("");
    }
    match v {
        JsonValue::Str(s) => s.as_str(),
        _ => "",
    }
}

/// What is wrong with the non-empty answer `v` to a field of type `kind`, if anything.
fn value_problem_of(kind: &str, options: &Vec<JsonValue>, v: &JsonValue, valid_emails: &Vec<String>) -> (res:
    Option<&'static str>)
    ensures
        match res {
            Some(m) => value_problem(kind@, options@, *v, string_views(valid_emails@)) == Some(m@),
            None => value_problem(kind@, options@, *v, string_views(valid_emails@)) is None,
        },
        (kind@ == "select"@ || kind@ == "radio"@) && v is Str ==> (res is None <==> exists|i: int|
            0 <= i < options@.len() && member_str(#[trigger] options@[i], "value"@) == Some(v->Str_0@)),
        (kind@ == "select"@ || kind@ == "radio"@) && v is Str && res is Some ==> res->0@ == "选项不在允许范围"@,
        (kind@ == "select"@ || kind@ == "radio"@) && !(v is Str) ==> res is Some && res->0@ == "选项格式错误"@,
        kind@ == "email"@ && v is Str ==> (res is None <==> string_views(valid_emails@).contains(v->Str_0@)),
        kind@ == "phone"@ && v is Str ==> (res is None <==> digit_count(v->Str_0@) >= 7),
        kind@ == "multiselect"@ && v is Array ==> (res is None <==> forall|i: int|
            0 <= i < v->Array_0@.len() ==> option_listed(options@, text_or_empty(#[trigger] v->Array_0@[i]))),
        kind@ == "multiselect"@ && !(v is Array) ==> res is Some && res->0@ == "多选格式错误"@,
        !(kind@ == "email"@ || kind@ == "number"@ || kind@ == "phone"@ || kind@ == "select"@ || kind@
            == "radio"@ || kind@ == "multiselect"@) ==> res is None,
{
    proof {
        reveal_strlit("select");
        reveal_strlit("radio");
        reveal_strlit("email");
        reveal_strlit("number");
        reveal_strlit("phone");
        assert("select"@.len() == 6 && "radio"@.len() == 5 && "email"@.len() == 5);
        assert("number"@.len() == 6 && "phone"@.len() == 5);
        assert("select"@[0] != "number"@[0] && "radio"@[0] != "email"@[0] && "radio"@[0] != "phone"@[0]);
        reveal_strlit("multiselect");
        assert("multiselect"@.len() == 11);
        assert("email"@[0] != "phone"@[0] && "select"@[0] != "radio"@[0]);
    }
    if str_eq(kind, "email") {
        if contains_str(valid_emails, text_of(v)) {
            None
        } else {
            Some("邮箱格式错误")
        }
    } else if str_eq(kind, "number") {
        let numeric = match v {
            JsonValue::Number(_) => true,
            JsonValue::Str(s) => is_float_literal(s.as_str()),
            _ => false,
        };
        if numeric {
            None
        } else {
            Some("数字格式错误")
        }
    } else if str_eq(kind, "phone") {
        if count_digits(text_of(v)) < 7 {
            Some("手机号格式错误")
        } else {
            None
        }
    } else if str_eq(kind, "select") || str_eq(kind, "radio") {
        match v.as_text() {
            None => Some("选项格式错误"),
            Some(t) => if option_listed_in(options, t.as_str()) {
                None
            } else {
                Some("选项不在允许范围")
            },
        }
    } else if str_eq(kind, "multiselect") {
        match v {
            JsonValue::Array(items) => {
                let n = items.len();
                let mut i: usize = 0;
                #[verifier::loop_isolation(false)]
                while i < n
                    invariant
                        i <= n,
                        n == items@.len(),
                        forall|k: int|
                            0 <= k < i ==> option_listed(options@, text_or_empty(#[trigger] items@[k])),
                    decreases n - i,
                {
                    if !option_listed_in(options, text_of(&items[i])) {
                        assert(!option_listed(options@, text_or_empty(items@[i as int])));
                        assert(exists|j: int|
                            0 <= j < items@.len() && !option_listed(
                                options@,
                                text_or_empty(#[trigger] items@[j]),
                            ));
                        return Some("选项不在允许范围");
                    }
                    i = i + 1;
                }
                None
            },
            _ => Some("多选格式错误"),
        }
    } else {
        None
    }
}

/// What is wrong with the answer to `field`, if anything.
fn answer_problem_of(field: &JsonValue, answers: &JsonValue, valid_emails: &Vec<String>) -> (res: Option<
    &'static str,
>)
    ensures
        match res {
            Some(m) => answer_problem(*field, *answers, string_views(valid_emails@)) == Some(m@),
            None => answer_problem(*field, *answers, string_views(valid_emails@)) is None,
        },
{
    proof {
        reveal_strlit("");
    }
    let key: &str = match field.get_str("key") {
        Some(k) => k.as_str(),
        None => "",
    };
    let kind: &str = match field.get_str("type") {
        Some(k) => k.as_str(),
        None => "text",
    };
    let required = match field.get_bool("required") {
        Some(b) => b,
        None => false,
    };
    assert(key@ == field_key(*field));
    assert(kind@ == member_str_or(*field, "type"@, "text"@));
    let value = answers.get(key);
    let ghost mv = member(*answers, field_key(*field));
    assert(mv == match value {
        Some(v) => Some(*v),
        None => None::<JsonValue>,
    });
    let empty = is_empty_answer(value);
    if required && empty {
        return Some("必填");
    }
    if empty {
        return None;
    }
    let v = value.unwrap();
    let no_options: Vec<JsonValue> = Vec::new();
    let options: &Vec<JsonValue> = match field.get_array("options") {
        Some(o) => o,
        None => &no_options,
    };
    assert(options@ == field_options(*field));
    value_problem_of(kind, options, v, valid_emails)
}

/// Checks registration answers against the form schema: required fields are given,
/// e-mail, number and phone answers are well formed, and choices are among the options.
/// `valid_emails` are the answer texts that the e-mail address rules accept. Every
/// problem is reported, one per field, in the order of the fields.
pub fn validate_answers(schema: &JsonValue, answers: &JsonValue, valid_emails: &Vec<String>) -> (res:
    Result<(), AppError>)
    ensures
        result_view(res) == answers_check(*schema, *answers, string_views(valid_emails@)),
{
    let no_fields: Vec<JsonValue> = Vec::new();
    let fields: &Vec<JsonValue> = match schema.get_array("fields") {
        Some(f) => f,
        None => &no_fields,
    };
    let ghost ve = string_views(valid_emails@);
    let n = fields.len();
    let mut errors: Vec<FieldError> = Vec::new();
    let mut i: usize = 0;
    while i < n
        invariant
            i <= n,
            n == fields@.len(),
            ve == string_views(valid_emails@),
            errors@.map_values(|f: FieldError| crate::error::field_view(f)) == answer_errors(
                fields@.take(i as int),
                *answers,
                ve,
            ),
        decreases n - i,
    {
        let field = &fields[i];
        let ghost prefix = fields@.take(i + 1);
        assert(prefix.drop_last() =~= fields@.take(i as int));
        assert(prefix.last() == fields@[i as int]);
        let ghost before = errors@;
        match answer_problem_of(field, answers, valid_emails) {
            Some(m) => {
                proof {
                    reveal_strlit("");
                }
                let key: &str = match field.get_str("key") {
                    Some(k) => k.as_str(),
                    None => "",
                };
                assert(key@ == field_key(*field));
                let fe = FieldError::new(key, m);
                errors.push(fe);
                assert(errors@ == before.push(fe));
                assert(errors@.map_values(|f: FieldError| crate::error::field_view(f)) =~= before.map_values(
                    |f: FieldError| crate::error::field_view(f),
                ) + seq![(field_key(*field), m@)]);
            },
            None => {
                assert(answer_errors(prefix, *answers, ve) =~= answer_errors(
                    fields@.take(i as int),
                    *answers,
                    ve,
                ));
            },
        }
        i = i + 1;
    }
    assert(fields@.take(n as int) =~= fields@);
    assert(fields@ == match member_array(*schema, "fields"@) {
        Some(f) => f,
        None => Seq::<JsonValue>::empty(),
    });
    if errors.len() == 0 {
        Ok(())
    } else {
        let res = AppError {
            kind: ErrorKind::Unprocessable,
            code: String::from_str("EVENT_VALIDATION"),
            message: String::from_str("报名信息校验失败"),
            details: errors,
        };
        Err(res)
    }
}


// ---------------------------------------------------------------------------------------
// Contacts
// ---------------------------------------------------------------------------------------

/// The trimmed text of the answer `key`, when it is a string that is not blank.
pub open spec fn contact_value(answers: JsonValue, key: Seq<char>) -> Option<Seq<char>> {
    match member_str(answers, key) {
        Some(s) => if trim(s).len() > 0 {
            Some(trim(s))
        } else {
            None
        },
        None => None,
    }
}

/// The view of an optional string.
pub open spec fn opt_view(o: Option<String>) -> Option<Seq<char>> {
    match o {
        Some(s) => Some(s@),
        None => None,
    }
}

/// The trimmed answer `key`, when it is a non-blank string.
fn contact_of(answers: &JsonValue, key: &str) -> (res: Option<String>)
    ensures
        opt_view(res) == contact_value(*answers, key@),
{
    match answers.get_str(key) {
        Some(s) => {
            let t = trimmed(s.as_str());
            if t.as_str().unicode_len() > 0 {
                Some(t)
            } else {
                None
            }
        },
        None => None,
    }
}

/// The contact details that registrations copy out of the answers: the trimmed `name`
/// and `phone` answers, each when it is a non-blank string.
pub fn extract_contact(answers: &JsonValue) -> (res: (Option<String>, Option<String>))
    ensures
        opt_view(res.0) == contact_value(*answers, "name"@),
        opt_view(res.1) == contact_value(*answers, "phone"@),
{
    (contact_of(answers, "name"), contact_of(answers, "phone"))
}

/// The texts of the top-level string answers, in order: the texts whose e-mail
/// validity `validate_answers` may ask about.
pub open spec fn answer_text_seq(entries: Seq<(String, JsonValue)>) -> Seq<Seq<char>>
    decreases entries.len(),
{
    if entries.len() == 0 {
        Seq::empty()
    } else {
        answer_text_seq(entries.drop_last()) + match entries.last().1 {
            JsonValue::Str(s) => seq![s@],
            _ => Seq::empty(),
        }
    }
}

/// The texts of the top-level string answers (none when `answers` is not an object).
pub open spec fn answer_texts_of(answers: JsonValue) -> Seq<Seq<char>> {
    match answers {
        JsonValue::Object(es) => answer_text_seq(es@),
        _ => Seq::empty(),
    }
}

/// The texts of the top-level string answers, in order.
pub fn answer_texts(answers: &JsonValue) -> (res: Vec<String>)
    ensures
        string_views(res@) == answer_texts_of(*answers),
{
    let mut out: Vec<String> = Vec::new();
    match answers {
        JsonValue::Object(entries) => {
            let n = entries.len();
            let mut i: usize = 0;
            while i < n
                invariant
                    i <= n,
                    n == entries@.len(),
                    string_views(out@) == answer_text_seq(entries@.take(i as int)),
                decreases n - i,
            {
                let ghost prefix = entries@.take(i + 1);
                assert(prefix.drop_last() =~= entries@.take(i as int));
                assert(prefix.last() == entries@[i as int]);
                let ghost before = out@;
                match &entries[i].1 {
                    JsonValue::Str(s) => {
                        out.push(s.clone());
                        assert(string_views(out@) =~= string_views(before).push(s@));
                    },
                    _ => {
                        assert(answer_text_seq(prefix) =~= answer_text_seq(entries@.take(i as int)));
                    },
                }
                i = i + 1;
            }
            assert(entries@.take(n as int) =~= entries@);
        },
        _ => {
            assert(string_views(out@) =~= Seq::<Seq<char>>::empty());
        },
    }
    out
}

// ---------------------------------------------------------------------------------------
// Seats
// ---------------------------------------------------------------------------------------

/// The status a new registration starts in.
#[derive(Clone, Copy, Debug, PartialEq, Eq, Structural)]
pub enum Decision {
    /// Approved at once.
    Approved,
    /// Waiting for review.
    Pending,
    /// On the waiting list.
    Waitlist,
}

/// All seats taken: a capacity is set (0 means unlimited) and reached.
pub open spec fn is_full(approved_count: int, capacity: int) -> bool {
    capacity > 0 && approved_count >= capacity
}

/// The initial status of a registration: the waiting list when full and enabled,
/// review when required, approval otherwise.
pub open spec fn decision_of(approved_count: int, capacity: int, waitlist_enabled: bool, need_review: bool) -> Decision {
    if is_full(approved_count, capacity) && waitlist_enabled {
        Decision::Waitlist
    } else if is_full(approved_count, capacity) {
        Decision::Approved
    } else if need_review {
        Decision::Pending
    } else {
        Decision::Approved
    }
}

/// Decides the initial status of a registration from the seats taken, the capacity
/// (0 = unlimited), the waiting-list switch and the review switch.
pub fn registration_decision(approved_count: i64, capacity: i64, waitlist_enabled: bool, need_review: bool) -> (res:
    Decision)
    ensures
        res == decision_of(approved_count as int, capacity as int, waitlist_enabled, need_review),
        capacity > 0 && approved_count >= capacity && waitlist_enabled ==> res == Decision::Waitlist,
        capacity > 0 && approved_count >= capacity && !waitlist_enabled ==> res == Decision::Approved,
        !(capacity > 0 && approved_count >= capacity) ==> res == (if need_review {
            Decision::Pending
        } else {
            Decision::Approved
        }),
{
    let full = capacity > 0 && approved_count >= capacity;
    if full && waitlist_enabled {
        return Decision::Waitlist;
    }
    if full {
        return Decision::Approved;
    }
    if need_review {
        Decision::Pending
    } else {
        Decision::Approved
    }
}

/// With unlimited seats (capacity 0) nobody is put on the waiting list: registrations are
/// approved, or pending when review is required.
pub proof fn lemma_unlimited_never_waitlists(approved_count: int, waitlist_enabled: bool, need_review: bool)
    ensures
        decision_of(approved_count, 0, waitlist_enabled, need_review) == if need_review {
            Decision::Pending
        } else {
            Decision::Approved
        },
{
}

/// Whenever a seat is free, the decision depends on the review switch alone.
pub proof fn lemma_free_seat_ignores_waitlist(
    approved_count: int,
    capacity: int,
    waitlist_enabled: bool,
    need_review: bool,
)
    requires
        !is_full(approved_count, capacity),
    ensures
        decision_of(approved_count, capacity, waitlist_enabled, need_review) != Decision::Waitlist,
        decision_of(approved_count, capacity, waitlist_enabled, need_review) == Decision::Pending
            <==> need_review,
{
}

/// The status string a decision is stored as.
pub open spec fn decision_status(d: Decision) -> Seq<char> {
    match d {
        Decision::Approved => "approved"@,
        Decision::Pending => "pending"@,
        Decision::Waitlist => "waitlist"@,
    }
}

/// The status string a decision is stored as.
pub fn decision_status_str(d: Decision) -> (res: &'static str)
    ensures
        res@ == decision_status(d),
{
    match d {
        Decision::Approved => STATUS_APPROVED,
        Decision::Pending => STATUS_PENDING,
        Decision::Waitlist => STATUS_WAITLIST,
    }
}

// ---------------------------------------------------------------------------------------
// Export
// ---------------------------------------------------------------------------------------

/// The built-in contact keys, which have columns of their own.
pub open spec fn is_contact_key(k: Seq<char>) -> bool {
    k == "name"@ || k == "email"@ || k == "phone"@
}

/// Whether `k` is a built-in contact key.
pub fn contact_key(k: &str) -> (res: bool)
    ensures
        res == is_contact_key(k@),
{
    str_eq(k, "name") || str_eq(k, "email") || str_eq(k, "phone")
}

/// The built-in columns of the export.
pub open spec fn builtin_headers() -> Seq<Seq<char>> {
    seq!["序号"@, "姓名"@, "邮箱"@, "手机"@, "状态"@, "已签到"@, "报名时间"@]
}

/// The header of each custom field: its label, or its key when it has none.
pub open spec fn custom_headers(fields: Seq<JsonValue>) -> Seq<Seq<char>>
    decreases fields.len(),
{
    if fields.len() == 0 {
        Seq::empty()
    } else {
        let f = fields.last();
        let key = field_key(f);
        custom_headers(fields.drop_last()) + if is_contact_key(key) {
            Seq::empty()
        } else {
            seq![member_str_or(f, "label"@, key)]
        }
    }
}

/// The export header row: the built-in columns, then one per non-contact field.
pub open spec fn headers_of(schema: JsonValue) -> Seq<Seq<char>> {
    builtin_headers() + match member_array(schema, "fields"@) {
        Some(fs) => custom_headers(fs),
        None => Seq::empty(),
    }
}

/// The header row of the registration export: the built-in columns, then the label
/// (or, without one, the key) of each field other than `name`, `email` and `phone`.
pub fn export_headers(schema: &JsonValue) -> (res: Vec<String>)
    ensures
        string_views(res@) == headers_of(*schema),
{
    let mut headers: Vec<String> = Vec::new();
    headers.push(String::from_str("序号"));
    headers.push(String::from_str("姓名"));
    headers.push(String::from_str("邮箱"));
    headers.push(String::from_str("手机"));
    headers.push(String::from_str("状态"));
    headers.push(String::from_str("已签到"));
    headers.push(String::from_str("报名时间"));
    assert(string_views(headers@) =~= builtin_headers());
    match schema.get_array("fields") {
        Some(fields) => {
            let n = fields.len();
            let mut i: usize = 0;
            while i < n
                invariant
                    i <= n,
                    n == fields@.len(),
                    string_views(headers@) == builtin_headers() + custom_headers(fields@.take(i as int)),
                decreases n - i,
            {
                let field = &fields[i];
                let ghost prefix = fields@.take(i + 1);
                assert(prefix.drop_last() =~= fields@.take(i as int));
                assert(prefix.last() == fields@[i as int]);
                proof {
                    reveal_strlit("");
                }
                let key: &str = match field.get_str("key") {
                    Some(k) => k.as_str(),
                    None => "",
                };
                assert(key@ == field_key(*field));
                let ghost before = headers@;
                if contact_key(key) {
                    assert(custom_headers(prefix) =~= custom_headers(fields@.take(i as int)));
                    assert(builtin_headers() + custom_headers(prefix) =~= builtin_headers()
                        + custom_headers(fields@.take(i as int)));
                } else {
                    let label: &str = match field.get_str("label") {
                        Some(l) => l.as_str(),
                        None => key,
                    };
                    headers.push(String::from_str(label));
                    assert(string_views(headers@) =~= string_views(before).push(label@));
                    assert(builtin_headers() + custom_headers(prefix) =~= builtin_headers()
                        + custom_headers(fields@.take(i as int)) + seq![label@]);
                }
                i = i + 1;
            }
            assert(fields@.take(n as int) =~= fields@);
        },
        None => {
            assert(builtin_headers() + Seq::<Seq<char>>::empty() =~= builtin_headers());
        },
    }
    headers
}

/// The label a status is shown with in the export.
pub open spec fn status_label_of(status: Seq<char>) -> Seq<char> {
    if status == "approved"@ {
        "已通过"@
    } else if status == "pending"@ {
        "待审核"@
    } else if status == "rejected"@ {
        "已拒绝"@
    } else if status == "waitlist"@ {
        "候补中"@
    } else if status == "cancelled"@ {
        "已取消"@
    } else {
        "未知"@
    }
}

/// The label a status is shown with in the export (`未知` for an unknown status).
pub fn status_label(status: &str) -> (res: &'static str)
    ensures
        res@ == status_label_of(status@),
{
    if str_eq(status, STATUS_APPROVED) {
        "已通过"
    } else if str_eq(status, STATUS_PENDING) {
        "待审核"
    } else if str_eq(status, STATUS_REJECTED) {
        "已拒绝"
    } else if str_eq(status, STATUS_WAITLIST) {
        "候补中"
    } else if str_eq(status, STATUS_CANCELLED) {
        "已取消"
    } else {
        "未知"
    }
}


// ---------------------------------------------------------------------------------------
// The default form
// ---------------------------------------------------------------------------------------

/// `(key, type, label, required)` of each field of the default form, in order.
pub open spec fn default_field_rows() -> Seq<(Seq<char>, Seq<char>, Seq<char>, bool)> {
    seq![
        ("name"@, "text"@, "姓名"@, true),
        ("email"@, "email"@, "邮箱"@, true),
        ("phone"@, "phone"@, "手机号"@, false),
        ("note"@, "textarea"@, "备注"@, false),
    ]
}

/// A schema field `f` has the key, type, label and required flag of `row`, and no options.
pub open spec fn field_matches(f: JsonValue, row: (Seq<char>, Seq<char>, Seq<char>, bool)) -> bool {
    &&& member_str(f, "key"@) == Some(row.0)
    &&& member_str(f, "type"@) == Some(row.1)
    &&& member_str(f, "label"@) == Some(row.2)
    &&& member_bool(f, "required"@) == Some(row.3)
    &&& member(f, "options"@) is None
}

/// A schema field object.
fn field_object(key: &str, kind: &str, label: &str, required: bool, max_length: Option<&str>) -> (res: JsonValue)
    ensures
        field_matches(res, (key@, kind@, label@, required)),
        object_keys(res) == match max_length {
            Some(_) => seq!["key"@, "type"@, "label"@, "required"@, "maxLength"@],
            None => seq!["key"@, "type"@, "label"@, "required"@],
        },
        match max_length {
            Some(m) => member(res, "maxLength"@) matches Some(JsonValue::Number(t)) && t@ == m@,
            None => member(res, "maxLength"@) is None,
        },
{
    let mut entries: Vec<(String, JsonValue)> = Vec::new();
    entries.push((String::from_str("key"), JsonValue::Str(String::from_str(key))));
    entries.push((String::from_str("type"), JsonValue::Str(String::from_str(kind))));
    entries.push((String::from_str("label"), JsonValue::Str(String::from_str(label))));
    entries.push((String::from_str("required"), JsonValue::Bool(required)));
    match max_length {
        Some(m) => {
            entries.push((String::from_str("maxLength"), JsonValue::Number(String::from_str(m))));
        },
        None => {},
    }
    proof {
        reveal_strlit("key");
        reveal_strlit("type");
        reveal_strlit("label");
        reveal_strlit("required");
        reveal_strlit("maxLength");
        let es = entries@;
        assert(es[0].0@ == "key"@);
        assert(es[1].0@ == "type"@);
        assert(es[2].0@ == "label"@);
        assert(es[3].0@ == "required"@);
        assert("key"@.len() == 3 && "type"@.len() == 4 && "label"@.len() == 5);
        assert("required"@.len() == 8 && "maxLength"@.len() == 9);
        lemma_entries_get_at(es, "key"@, 0);
        lemma_entries_get_at(es, "type"@, 1);
        lemma_entries_get_at(es, "label"@, 2);
        lemma_entries_get_at(es, "required"@, 3);
        reveal_strlit("options");
        assert("options"@.len() == 7);
        lemma_entries_get_none(es, "options"@);
        assert(object_keys(JsonValue::Object(entries)) =~= match max_length {
            Some(_) => seq!["key"@, "type"@, "label"@, "required"@, "maxLength"@],
            None => seq!["key"@, "type"@, "label"@, "required"@],
        });
        if max_length is Some {
            assert(es[4].0@ == "maxLength"@);
            lemma_entries_get_at(es, "maxLength"@, 4);
        } else {
            lemma_entries_get_none(es, "maxLength"@);
        }
    }
    JsonValue::Object(entries)
}

/// `s` is not blank when its first and last characters are not white space.
proof fn lemma_not_blank(s: Seq<char>)
    requires
        s.len() > 0,
        !crate::text::is_ws(s[0]),
        !crate::text::is_ws(s.last()),
    ensures
        !is_blank(s),
{
}

/// A field shaped like `row` has no problem when `row` is a plain, well-formed field
/// whose key is new.
proof fn lemma_plain_field_ok(f: JsonValue, row: (Seq<char>, Seq<char>, Seq<char>, bool), seen: Seq<Seq<char>>)
    requires
        field_matches(f, row),
        valid_key(row.0),
        !seen.contains(row.0),
        is_field_type(row.1),
        !is_option_type(row.1),
        !is_blank(row.2),
    ensures
        field_issue(f, seen) is None,
{
}

/// A non-empty key of ASCII lower-case letters is valid.
proof fn lemma_lower_key(k: Seq<char>)
    requires
        k.len() > 0,
        forall|i: int| 0 <= i < k.len() ==> 'a' <= #[trigger] k[i] <= 'z',
    ensures
        valid_key(k),
{
}

/// The default form (name, e-mail, phone, note), for organisers to start from.
pub fn default_schema() -> (res: JsonValue)
    ensures
        object_keys(res) == seq!["version"@, "fields"@],
        member(res, "version"@) matches Some(JsonValue::Number(t)) && t@ == "1"@,
        member_array(res, "fields"@) matches Some(fs) && fs.len() == 4 && forall|i: int|
            0 <= i < 4 ==> field_matches(#[trigger] fs[i], default_field_rows()[i]),
        member_array(res, "fields"@) matches Some(fs) && object_keys(fs[0]) == seq![
            "key"@,
            "type"@,
            "label"@,
            "required"@,
            "maxLength"@,
        ] && forall|i: int| 1 <= i < 4 ==> object_keys(#[trigger] fs[i]) == seq!["key"@, "type"@, "label"@, "required"@],
        member_array(res, "fields"@) matches Some(fs) && member(fs[0], "maxLength"@) matches Some(
            JsonValue::Number(t),
        ) && t@ == "50"@,
        schema_check(res) == Ok::<(), ErrorView>(()),
{
    let mut fields: Vec<JsonValue> = Vec::new();
    fields.push(field_object("name", "text", "姓名", true, Some("50")));
    fields.push(field_object("email", "email", "邮箱", true, None));
    fields.push(field_object("phone", "phone", "手机号", false, None));
    fields.push(field_object("note", "textarea", "备注", false, None));
    let ghost fs = fields@;
    let mut entries: Vec<(String, JsonValue)> = Vec::new();
    entries.push((String::from_str("version"), JsonValue::Number(String::from_str("1"))));
    entries.push((String::from_str("fields"), JsonValue::Array(fields)));
    proof {
        reveal_strlit("version");
        reveal_strlit("fields");
        let es = entries@;
        assert(es[0].0@ == "version"@ && es[1].0@ == "fields"@);
        assert("version"@.len() == 7 && "fields"@.len() == 6);
        lemma_entries_get_at(es, "version"@, 0);
        lemma_entries_get_at(es, "fields"@, 1);
        assert(member_array(JsonValue::Object(entries), "fields"@) == Some(fs));
        assert(object_keys(JsonValue::Object(entries)) =~= seq!["version"@, "fields"@]);
        assert(object_keys(fs[1]) == seq!["key"@, "type"@, "label"@, "required"@]);
        assert(object_keys(fs[2]) == seq!["key"@, "type"@, "label"@, "required"@]);
        assert(object_keys(fs[3]) == seq!["key"@, "type"@, "label"@, "required"@]);
        assert(forall|i: int| 0 <= i < 4 ==> field_matches(#[trigger] fs[i], default_field_rows()[i]));
        lemma_default_fields_pass(fs);
    }
    JsonValue::Object(entries)
}

/// Fields shaped like the default form have no problem.
proof fn lemma_default_fields_pass(fs: Seq<JsonValue>)
    requires
        fs.len() == 4,
        forall|i: int| 0 <= i < 4 ==> field_matches(#[trigger] fs[i], default_field_rows()[i]),
    ensures
        first_schema_issue(fs) is None,
{
    let rows = default_field_rows();
    assert(field_matches(fs[0], rows[0]));
    assert(field_matches(fs[1], rows[1]));
    assert(field_matches(fs[2], rows[2]));
    assert(field_matches(fs[3], rows[3]));
    reveal_strlit("name");
    reveal_strlit("email");
    reveal_strlit("phone");
    reveal_strlit("note");
    reveal_strlit("text");
    reveal_strlit("textarea");
    reveal_strlit("select");
    reveal_strlit("radio");
    reveal_strlit("multiselect");
    reveal_strlit("姓名");
    reveal_strlit("邮箱");
    reveal_strlit("手机号");
    reveal_strlit("备注");
    lemma_not_blank("姓名"@);
    lemma_not_blank("邮箱"@);
    lemma_not_blank("手机号"@);
    lemma_not_blank("备注"@);
    lemma_lower_key("name"@);
    lemma_lower_key("email"@);
    lemma_lower_key("phone"@);
    lemma_lower_key("note"@);
    assert("text"@.len() == 4 && "textarea"@.len() == 8 && "select"@.len() == 6);
    assert("radio"@.len() == 5 && "multiselect"@.len() == 11);
    assert("email"@[0] != "radio"@[0] && "phone"@[0] != "radio"@[0]);
    assert(!is_option_type("text"@) && !is_option_type("textarea"@));
    assert(!is_option_type("email"@) && !is_option_type("phone"@));
    assert("note"@[1] != "name"@[1]);
    assert("phone"@[0] != "email"@[0]);
    let k0 = keys_of(fs.take(0));
    let k1 = keys_of(fs.take(1));
    let k2 = keys_of(fs.take(2));
    let k3 = keys_of(fs.take(3));
    assert(k0 =~= Seq::<Seq<char>>::empty());
    assert(k1 =~= seq!["name"@]);
    assert(k2 =~= seq!["name"@, "email"@]);
    assert(k3 =~= seq!["name"@, "email"@, "phone"@]);
    assert(!k1.contains("email"@));
    assert(!k2.contains("phone"@));
    assert(!k3.contains("note"@));
    lemma_plain_field_ok(fs[0], rows[0], k0);
    lemma_plain_field_ok(fs[1], rows[1], k1);
    lemma_plain_field_ok(fs[2], rows[2], k2);
    lemma_plain_field_ok(fs[3], rows[3], k3);
    assert(fs.take(1).drop_last() =~= fs.take(0));
    assert(fs.take(2).drop_last() =~= fs.take(1));
    assert(fs.take(3).drop_last() =~= fs.take(2));
    assert(fs.take(4).drop_last() =~= fs.take(3));
    assert(fs.take(4) =~= fs);
    assert(first_schema_issue(fs.take(0)) is None);
    assert(first_schema_issue(fs.take(1)) is None);
    assert(first_schema_issue(fs.take(2)) is None);
    assert(first_schema_issue(fs.take(3)) is None);
    assert(first_schema_issue(fs.take(4)) is None);
}

} // verus!

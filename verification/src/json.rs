//! A JSON document as plain values: the shape of form schemas and answers.

use vstd::prelude::*;
use vstd::string::StringExecFns;
use crate::codes::hex_digit_lower;
use crate::text::str_eq;

verus! {

/// A JSON value. Numbers keep the text they were written with; an object keeps its
/// entries in order, each key once.
#[derive(Debug)]
pub enum JsonValue {
    /// `null`.
    Null,
    /// `true` or `false`.
    Bool(bool),
    /// A number, as written.
    Number(String),
    /// A string.
    Str(String),
    /// An array.
    Array(Vec<JsonValue>),
    /// An object.
    Object(Vec<(String, JsonValue)>),
}

/// The value of the first entry named `key`.
pub open spec fn entries_get(es: Seq<(String, JsonValue)>, key: Seq<char>) -> Option<JsonValue>
    decreases es.len(),
{
    if es.len() == 0 {
        None
    } else if es[0].0@ == key {
        Some(es[0].1)
    } else {
        entries_get(es.drop_first(), key)
    }
}

/// The entry at `j` is the first one named `key`, so its value is the member `key`.
pub proof fn lemma_entries_get_at(es: Seq<(String, JsonValue)>, key: Seq<char>, j: int)
    requires
        0 <= j < es.len(),
        es[j].0@ == key,
        forall|i: int| 0 <= i < j ==> (#[trigger] es[i]).0@ != key,
    ensures
        entries_get(es, key) == Some(es[j].1),
    decreases j,
{
    if j > 0 {
        let t = es.drop_first();
        assert forall|i: int| 0 <= i < j - 1 implies (#[trigger] t[i]).0@ != key by {
            assert(t[i] == es[i + 1]);
        }
        assert(t[j - 1] == es[j]);
        lemma_entries_get_at(t, key, j - 1);
    }
}

/// No entry is named `key`, so there is no member `key`.
pub proof fn lemma_entries_get_none(es: Seq<(String, JsonValue)>, key: Seq<char>)
    requires
        forall|i: int| 0 <= i < es.len() ==> (#[trigger] es[i]).0@ != key,
    ensures
        entries_get(es, key) is None,
    decreases es.len(),
{
    if es.len() > 0 {
        let t = es.drop_first();
        assert forall|i: int| 0 <= i < t.len() implies (#[trigger] t[i]).0@ != key by {
            assert(t[i] == es[i + 1]);
        }
        lemma_entries_get_none(t, key);
    }
}

/// `v.get(key)`: the member `key` of an object; nothing for any other value.
pub open spec fn member(v: JsonValue, key: Seq<char>) -> Option<JsonValue> {
    match v {
        JsonValue::Object(es) => entries_get(es@, key),
        _ => None,
    }
}

/// `v.get(key).and_then(Value::as_str)`.
pub open spec fn member_str(v: JsonValue, key: Seq<char>) -> Option<Seq<char>> {
    match member(v, key) {
        Some(JsonValue::Str(s)) => Some(s@),
        _ => None,
    }
}

/// `v.get(key).and_then(Value::as_str).unwrap_or(default)`.
pub open spec fn member_str_or(v: JsonValue, key: Seq<char>, default: Seq<char>) -> Seq<char> {
    match member_str(v, key) {
        Some(s) => s,
        None => default,
    }
}

/// `v.get(key).and_then(Value::as_array)`.
pub open spec fn member_array(v: JsonValue, key: Seq<char>) -> Option<Seq<JsonValue>> {
    match member(v, key) {
        Some(JsonValue::Array(items)) => Some(items@),
        _ => None,
    }
}

/// `v.get(key).and_then(Value::as_bool)`.
pub open spec fn member_bool(v: JsonValue, key: Seq<char>) -> Option<bool> {
    match member(v, key) {
        Some(JsonValue::Bool(b)) => Some(b),
        _ => None,
    }
}

/// The keys of an object's entries, in order (none for any other value).
pub open spec fn object_keys(v: JsonValue) -> Seq<Seq<char>> {
    match v {
        JsonValue::Object(es) => es@.map_values(|e: (String, JsonValue)| e.0@),
        _ => Seq::empty(),
    }
}

/// `v.as_str()`.
pub open spec fn as_str(v: JsonValue) -> Option<Seq<char>> {
    match v {
        JsonValue::Str(s) => Some(s@),
        _ => None,
    }
}

impl JsonValue {
    /// The member `key` of an object (the first entry of that name).
    pub fn get(&self, key: &str) -> (res: Option<&JsonValue>)
        ensures
            match res {
                Some(r) => member(*self, key@) == Some(*r),
                None => member(*self, key@) is None,
            },
    {
        match self {
            JsonValue::Object(entries) => {
                let n = entries.len();
                let mut i: usize = 0;
                assert(entries@.subrange(0, n as int) =~= entries@);
                while i < n
                    invariant
                        i <= n,
                        n == entries@.len(),
                        *self == JsonValue::Object(*entries),
                        entries_get(entries@, key@) == entries_get(
                            entries@.subrange(i as int, n as int),
                            key@,
                        ),
                    decreases n - i,
                {
                    let ghost t = entries@.subrange(i as int, n as int);
                    assert(t[0] == entries@[i as int]);
                    assert(t.drop_first() =~= entries@.subrange(i + 1, n as int));
                    if str_eq(entries[i].0.as_str(), key) {
                        return Some(&entries[i].1);
                    }
                    i = i + 1;
                }
                None
            },
            _ => None,
        }
    }

    /// `self.get(key).and_then(Value::as_str)`.
    pub fn get_str(&self, key: &str) -> (res: Option<&String>)
        ensures
            match res {
                Some(s) => member_str(*self, key@) == Some(s@),
                None => member_str(*self, key@) is None,
            },
    {
        match self.get(key) {
            Some(JsonValue::Str(s)) => Some(s),
            _ => None,
        }
    }

    /// `self.get(key).and_then(Value::as_array)`.
    pub fn get_array(&self, key: &str) -> (res: Option<&Vec<JsonValue>>)
        ensures
            match res {
                Some(items) => member_array(*self, key@) == Some(items@),
                None => member_array(*self, key@) is None,
            },
    {
        match self.get(key) {
            Some(JsonValue::Array(items)) => Some(items),
            _ => None,
        }
    }

    /// `self.get(key).and_then(Value::as_bool)`.
    pub fn get_bool(&self, key: &str) -> (res: Option<bool>)
        ensures
            res == member_bool(*self, key@),
    {
        match self.get(key) {
            Some(JsonValue::Bool(b)) => Some(*b),
            _ => None,
        }
    }

    /// `self.as_str()`.
    pub fn as_text(&self) -> (res: Option<&String>)
        ensures
            match res {
                Some(s) => as_str(*self) == Some(s@),
                None => as_str(*self) is None,
            },
    {
        match self {
            JsonValue::Str(s) => Some(s),
            _ => None,
        }
    }
}

/// One character inside a JSON string literal: `"` and `\` behind a backslash, the
/// control characters that have short escapes as those (`\b`, `\t`, `\n`, `\f`, `\r`), the other
/// characters below U+0020 as `\u00xx` with lower-case hexadecimal digits, and every
/// other character as itself.
pub open spec fn escape_char(c: char) -> Seq<char> {
    let u = c as u32;
    if c == '"' {
        seq!['\\', '"']
    } else if c == '\\' {
        seq!['\\', '\\']
    } else if u == 8 {
        seq!['\\', 'b']
    } else if u == 9 {
        seq!['\\', 't']
    } else if u == 10 {
        seq!['\\', 'n']
    } else if u == 12 {
        seq!['\\', 'f']
    } else if u == 13 {
        seq!['\\', 'r']
    } else if u < 0x20 {
        seq!['\\', 'u', '0', '0', hex_digit_lower(u as int / 16), hex_digit_lower(u as int % 16)]
    } else {
        seq![c]
    }
}

/// The characters of `s`, each escaped.
pub open spec fn escaped(s: Seq<char>) -> Seq<char>
    decreases s.len(),
{
    if s.len() == 0 {
        Seq::empty()
    } else {
        escaped(s.drop_last()) + escape_char(s.last())
    }
}

/// The JSON string literal of `s`: its characters escaped, between double quotes.
pub open spec fn json_string(s: Seq<char>) -> Seq<char> {
    seq!['"'] + escaped(s) + seq!['"']
}

/// `serde_json::to_string` on a string: its JSON literal, escaped as `json_string`
/// says. Serialising a string into memory cannot fail, so the error arm is never taken.
#[verifier::external_body]
fn quote_json(s: &str) -> (res: String)
    ensures
        res@ == json_string(s@),
{
    match serde_json::to_string(s) {
        Ok(t) => t,
        Err(_) => String::new(),
    }
}

/// The compact JSON text of `v`: `null`, `true`/`false`, a number as written, a quoted
/// string, `[..]` with the items separated by `,`, `{..}` with `"key":value` entries in
/// their order separated by `,`.
pub open spec fn json_text(v: JsonValue) -> Seq<char>
    decreases v,
{
    match v {
        JsonValue::Null => "null"@,
        JsonValue::Bool(b) => if b {
            "true"@
        } else {
            "false"@
        },
        JsonValue::Number(t) => t@,
        JsonValue::Str(s) => json_string(s@),
        JsonValue::Array(items) => "["@ + items_text(items@) + "]"@,
        JsonValue::Object(es) => "{"@ + entries_text(es@) + "}"@,
    }
}

/// The texts of `items`, separated by `,`.
pub open spec fn items_text(items: Seq<JsonValue>) -> Seq<char>
    decreases items,
{
    if items.len() == 0 {
        Seq::empty()
    } else if items.len() == 1 {
        json_text(items[0])
    } else {
        items_text(items.drop_last()) + ","@ + json_text(items.last())
    }
}

/// The `"key":value` texts of `es`, separated by `,`.
pub open spec fn entries_text(es: Seq<(String, JsonValue)>) -> Seq<char>
    decreases es,
{
    if es.len() == 0 {
        Seq::empty()
    } else if es.len() == 1 {
        json_string(es[0].0@) + ":"@ + json_text(es[0].1)
    } else {
        entries_text(es.drop_last()) + ","@ + json_string(es.last().0@) + ":"@ + json_text(es.last().1)
    }
}

/// The compact JSON text of `v`.
pub fn to_json_text(v: &JsonValue) -> (res: String)
    ensures
        res@ == json_text(*v),
    decreases v,
{
    match v {
        JsonValue::Null => String::from_str("null"),
        JsonValue::Bool(b) => String::from_str(
            if *b {
                "true"
            } else {
                "false"
            },
        ),
        JsonValue::Number(t) => t.clone(),
        JsonValue::Str(s) => quote_json(s.as_str()),
        JsonValue::Array(items) => {
            let mut out = String::from_str("[");
            let n = items.len();
            let mut i: usize = 0;
            while i < n
                invariant
                    i <= n,
                    n == items@.len(),
                    *v == JsonValue::Array(*items),
                    out@ == "["@ + items_text(items@.take(i as int)),
                decreases n - i,
            {
                let ghost prefix = items@.take(i + 1);
                assert(prefix.drop_last() =~= items@.take(i as int));
                assert(prefix.last() == items@[i as int]);
                if i > 0 {
                    out.append(",");
                }
                assert(decreases_to!(*v => (*v)->Array_0));
                assert(decreases_to!(*items => items@));
                assert(decreases_to!(items@ => items@[i as int]));
                assert(decreases_to!(*v => items@[i as int]));
                let t = to_json_text(&items[i]);
                out.append(t.as_str());
                proof {
                    if i == 0 {
                        assert(prefix[0] == items@[0]);
                        assert(items@.take(0) =~= Seq::<JsonValue>::empty());
                    }
                }
                assert(out@ =~= "["@ + items_text(prefix));
                i = i + 1;
            }
            assert(items@.take(n as int) =~= items@);
            out.append("]");
            out
        },
        JsonValue::Object(es) => {
            let mut out = String::from_str("{");
            let n = es.len();
            let mut i: usize = 0;
            while i < n
                invariant
                    i <= n,
                    n == es@.len(),
                    *v == JsonValue::Object(*es),
                    out@ == "{"@ + entries_text(es@.take(i as int)),
                decreases n - i,
            {
                let ghost prefix = es@.take(i + 1);
                assert(prefix.drop_last() =~= es@.take(i as int));
                assert(prefix.last() == es@[i as int]);
                if i > 0 {
                    out.append(",");
                }
                let k = quote_json(es[i].0.as_str());
                out.append(k.as_str());
                out.append(":");
                assert(decreases_to!(*v => (*v)->Object_0));
                assert(decreases_to!(*es => es@));
                assert(decreases_to!(es@ => es@[i as int]));
                assert(decreases_to!(es@[i as int] => es@[i as int].1));
                assert(decreases_to!(*v => es@[i as int].1));
                let t = to_json_text(&es[i].1);
                out.append(t.as_str());
                proof {
                    if i == 0 {
                        assert(prefix[0] == es@[0]);
                        assert(es@.take(0) =~= Seq::<(String, JsonValue)>::empty());
                    }
                }
                assert(out@ =~= "{"@ + entries_text(prefix));
                i = i + 1;
            }
            assert(es@.take(n as int) =~= es@);
            out.append("}");
            out
        },
    }
}

} // verus!

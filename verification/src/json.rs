//! JSON values as plain data (parsed by serde_json) and the lookups the
//! library makes in them.

use vstd::prelude::*;

use crate::text::{owned, str_eq};

verus! {

/// serde_json's dynamically typed value.
#[verifier::external_type_specification]
#[verifier::external_body]
pub struct ExJsonValue(serde_json::Value);

/// A JSON value; a number is kept as its text.
pub enum JsonValue {
    Null,
    Bool(bool),
    Number(String),
    Str(String),
    Array(Vec<JsonValue>),
    Object(Vec<(String, JsonValue)>),
}

/// A JSON value with its texts as characters.
pub enum JsonView {
    Null,
    Bool(bool),
    Number(Seq<char>),
    Str(Seq<char>),
    Array(Seq<JsonView>),
    Object(Seq<(Seq<char>, JsonView)>),
}

pub open spec fn json_view(v: JsonValue) -> JsonView
    decreases v,
{
    match v {
        JsonValue::Null => JsonView::Null,
        JsonValue::Bool(b) => JsonView::Bool(b),
        JsonValue::Number(n) => JsonView::Number(n@),
        JsonValue::Str(s) => JsonView::Str(s@),
        JsonValue::Array(items) => JsonView::Array(
            Seq::new(
                items@.len(),
                |i: int|
                    if 0 <= i < items@.len() {
                        json_view(items@[i])
                    } else {
                        JsonView::Null
                    },
            ),
        ),
        JsonValue::Object(pairs) => JsonView::Object(
            Seq::new(
                pairs@.len(),
                |i: int|
                    if 0 <= i < pairs@.len() {
                        (pairs@[i].0@, json_view(pairs@[i].1))
                    } else {
                        (Seq::empty(), JsonView::Null)
                    },
            ),
        ),
    }
}

/// serde_json's parse of `body` into a `Value`, as a [`JsonView`] (object
/// members in the order serde_json's map keeps them), or `None` when `body`
/// is not JSON.
pub uninterp spec fn json_parse(body: Seq<char>) -> Option<JsonView>;

/// `serde_json::from_str::<serde_json::Value>`, the value converted one for
/// one into a [`JsonValue`]: the parse named [`json_parse`].
#[verifier::external_body]
pub fn parse_json(body: &str) -> (r: Option<JsonValue>)
    ensures
        json_parse(body@) == match r {
            Some(v) => Some(json_view(v)),
            None => None,
        },
{
    match serde_json::from_str::<serde_json::Value>(body) {
        Ok(v) => Some(from_serde(v)),
        Err(_) => None,
    }
}

/// The conversion of [`parse_json`]: each serde_json variant to the same
/// variant, numbers by their `Display` text.
#[verifier::external_body]
fn from_serde(v: serde_json::Value) -> JsonValue {
    match v {
        serde_json::Value::Null => JsonValue::Null,
        serde_json::Value::Bool(b) => JsonValue::Bool(b),
        serde_json::Value::Number(n) => JsonValue::Number(n.to_string()),
        serde_json::Value::String(s) => JsonValue::Str(s),
        serde_json::Value::Array(a) => JsonValue::Array(a.into_iter().map(from_serde).collect()),
        serde_json::Value::Object(m) => JsonValue::Object(m.into_iter().map(|(k, x)| (k, from_serde(x))).collect()),
    }
}

/// The member `key` of an object (the first with that name); `None` for a
/// value that is not an object or has no such member.
pub open spec fn field_of(v: JsonView, key: Seq<char>) -> Option<JsonView> {
    match v {
        JsonView::Object(pairs) => first_field(pairs, key),
        _ => None,
    }
}

pub open spec fn first_field(pairs: Seq<(Seq<char>, JsonView)>, key: Seq<char>) -> Option<JsonView>
    decreases pairs.len(),
{
    if pairs.len() == 0 {
        None
    } else if pairs[0].0 == key {
        Some(pairs[0].1)
    } else {
        first_field(pairs.drop_first(), key)
    }
}

/// The text of a string value.
pub open spec fn str_of(o: Option<JsonView>) -> Option<Seq<char>> {
    match o {
        Some(JsonView::Str(s)) => Some(s),
        _ => None,
    }
}

/// The member `key` of an object value (see [`field_of`]).
pub fn get_field<'a>(v: &'a JsonValue, key: &str) -> (r: Option<&'a JsonValue>)
    ensures
        match r {
            Some(x) => field_of(json_view(*v), key@) == Some(json_view(*x)),
            None => field_of(json_view(*v), key@) is None,
        },
{
    match v {
        JsonValue::Object(pairs) => {
            let ghost ps = match json_view(*v) {
                JsonView::Object(p) => p,
                _ => Seq::empty(),
            };
            assert forall|j: int| 0 <= j < pairs@.len() implies #[trigger] ps[j] == (
            pairs@[j].0@, json_view(pairs@[j].1)) by {}
            assert(ps.skip(0) =~= ps);
            let mut i: usize = 0;
            while i < pairs.len()
                invariant
                    i <= pairs@.len(),
                    ps.len() == pairs@.len(),
                    forall|j: int| 0 <= j < pairs@.len() ==> #[trigger] ps[j] == (pairs@[j].0@, json_view(pairs@[j].1)),
                    first_field(ps, key@) == first_field(ps.skip(i as int), key@),
                field_of(json_view(*v), key@) == first_field(ps, key@),
                decreases pairs.len() - i,
            {
                let ghost rest = ps.skip(i as int);
                assert(rest[0] == ps[i as int]);
                if str_eq(pairs[i].0.as_str(), key) {
                    assert(rest.len() > 0 && rest[0].0 == key@);
                    assert(first_field(rest, key@) == Some(rest[0].1));
                    return Some(&pairs[i].1);
                }
                assert(rest.drop_first() =~= ps.skip(i + 1));
                i += 1;
            }
            None
        },
        _ => None,
    }
}

/// The text of a string value.
pub fn as_str_value(v: &JsonValue) -> (r: Option<String>)
    ensures
        match r {
            Some(s) => str_of(Some(json_view(*v))) == Some(s@),
            None => str_of(Some(json_view(*v))) is None,
        },
{
    match v {
        JsonValue::Str(s) => Some(owned(s.as_str())),
        _ => None,
    }
}

} // verus!

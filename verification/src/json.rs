//! JSON, as far as the handlers need it: reading the members of a request
//! body and writing strings into a response body. The reading and the
//! quoting are `serde_json`'s; the responses are put together here.

use vstd::prelude::*;

verus! {

#[verifier::external_type_specification]
#[verifier::external_body]
pub struct ExJsonValue(serde_json::Value);

#[verifier::external_type_specification]
#[verifier::external_body]
pub struct ExJsonError(serde_json::Error);

/// A member of a JSON object, as far as the handlers tell members apart.
pub enum Member {
    /// A string.
    Text(String),
    /// A number that is an integer of 64 bits with a sign.
    Integer(i64),
    /// `true` or `false`.
    Flag(bool),
    /// Anything else: `null`, another number, an array, an object.
    Other,
}

/// The mathematical content of a [`Member`].
pub enum MemberView {
    Text(Seq<char>),
    Integer(i64),
    Flag(bool),
    Other,
}

impl View for Member {
    type V = MemberView;

    open spec fn view(&self) -> MemberView {
        match self {
            Member::Text(s) => MemberView::Text(s@),
            Member::Integer(i) => MemberView::Integer(*i),
            Member::Flag(b) => MemberView::Flag(*b),
            Member::Other => MemberView::Other,
        }
    }
}

/// The value that `serde_json::from_str` reads from `text`, or `None` where
/// `text` is no JSON document.
pub uninterp spec fn json_document(text: Seq<char>) -> Option<serde_json::Value>;

/// The members of `value`, by name, if it is an object; of any other value,
/// the empty map.
pub uninterp spec fn json_members(value: serde_json::Value) -> Map<Seq<char>, MemberView>;

/// Whether `value` is an object.
pub uninterp spec fn json_is_object(value: serde_json::Value) -> bool;

/// What `serde_json::to_string` writes for the string `text`: the string in
/// double quotes, with escapes where JSON asks for them.
pub uninterp spec fn json_quoted(text: Seq<char>) -> Seq<char>;

/// Calls `serde_json::from_str` for a `Value`. What it reads depends on
/// `text` alone: it is the value that [`json_document`] names.
#[verifier::external_body]
pub(crate) fn parse(text: &str) -> (r: Result<serde_json::Value, serde_json::Error>)
    ensures
        match r {
            Ok(value) => json_document(text@) == Some(value),
            Err(_) => json_document(text@) is None,
        },
{
    serde_json::from_str::<serde_json::Value>(text)
}

/// Calls `Value::is_object`.
#[verifier::external_body]
pub(crate) fn is_object(value: &serde_json::Value) -> (r: bool)
    ensures
        r == json_is_object(*value),
{
    value.is_object()
}

/// Calls `Value::get` with a name, which finds the member of that name in an
/// object and nothing in any other value, and tells the kinds of member
/// apart; `Number::as_i64` says whether a number is an integer of 64 bits.
#[verifier::external_body]
pub(crate) fn member(value: &serde_json::Value, name: &str) -> (r: Option<Member>)
    ensures
        match r {
            Some(m) => json_members(*value).contains_key(name@) && json_members(*value)[name@]
                == m@,
            None => !json_members(*value).contains_key(name@),
        },
{
    match value.get(name)? {
        serde_json::Value::String(s) => Some(Member::Text(s.clone())),
        serde_json::Value::Bool(b) => Some(Member::Flag(*b)),
        serde_json::Value::Number(n) => match n.as_i64() {
            Some(i) => Some(Member::Integer(i)),
            None => Some(Member::Other),
        },
        _ => Some(Member::Other),
    }
}

/// Calls `serde_json::to_string` on a string. What it writes depends on
/// `text` alone: it is the text that [`json_quoted`] names. Writing a
/// string cannot fail: the only errors on that path are those of the
/// writer, and the writer is a vector in memory, which takes every byte.
#[verifier::external_body]
pub(crate) fn quote(text: &str) -> (r: Result<String, serde_json::Error>)
    ensures
        r is Ok,
        r matches Ok(quoted) ==> quoted@ == json_quoted(text@),
{
    serde_json::to_string(text)
}

} // verus!

//! Single fields of JSON replies.
use crate::numeral::{fixed_value, parse_fixed};
use vstd::prelude::*;

verus! {

/// A field of an object.
#[derive(Clone, Debug)]
pub enum Field {
    Text(String),
    /// A whole number that is not negative.
    Count(u64),
    Flag(bool),
    /// Anything else, or no such field.
    Other,
}

/// The content of a [`Field`].
pub enum FieldView {
    Text(Seq<char>),
    Count(u64),
    Flag(bool),
    Other,
}

impl View for Field {
    type V = FieldView;

    open spec fn view(&self) -> FieldView {
        match self {
            Field::Text(s) => FieldView::Text(s@),
            Field::Count(n) => FieldView::Count(*n),
            Field::Flag(b) => FieldView::Flag(*b),
            Field::Other => FieldView::Other,
        }
    }
}

/// The field of that name in the object that `serde_json` reads from a text. `None` is a
/// text that is no JSON.
pub uninterp spec fn json_field(text: Seq<char>, key: Seq<char>) -> Option<FieldView>;

/// `serde_json::from_str` on a text, and the field of that name in it. The result is
/// named by [`json_field`]; the error carries the parser's message, of which nothing is
/// claimed.
#[verifier::external_body]
fn read_field(text: &str, key: &str) -> (r: Result<Field, String>)
    ensures
        match r {
            Ok(f) => json_field(text@, key@) == Some(f@),
            Err(_) => json_field(text@, key@) is None,
        },
{
    let field = |v: serde_json::Value| match v.get(key) {
        Some(serde_json::Value::String(s)) => Field::Text(s.clone()),
        Some(serde_json::Value::Number(n)) => n.as_u64().map_or(Field::Other, Field::Count),
        Some(serde_json::Value::Bool(b)) => Field::Flag(*b),
        _ => Field::Other,
    };
    serde_json::from_str::<serde_json::Value>(text).map(field).map_err(|e| e.to_string())
}

/// Why a reply could not be read.
#[derive(Clone, Debug)]
pub enum ReplyError {
    /// The text is no JSON.
    NotJson { detail: String },
    /// The field is missing, or of another kind.
    Missing { key: &'static str },
    /// The field is no number.
    BadNumber { key: &'static str, text: String },
}

impl ReplyError {
    /// The error in words.
    pub fn message(&self) -> (s: String)
        ensures
            s@ == (match self {
                ReplyError::NotJson { detail } => detail@,
                ReplyError::Missing { key } => key@ + " is missing"@,
                ReplyError::BadNumber { key, text } => "Bad number for "@ + key@ + ": "@ + text@,
            }),
    {
        match self {
            ReplyError::NotJson { detail } => {
                let mut s: String = String::new();
                s.append(detail.as_str());
                assert(s@ =~= detail@);
                s
            },
            ReplyError::Missing { key } => {
                let mut s: String = String::from_str(key);
                s.append(" is missing");
                s
            },
            ReplyError::BadNumber { key, text } => {
                let mut s: String = String::from_str("Bad number for ");
                s.append(key);
                s.append(": ");
                s.append(text.as_str());
                s
            },
        }
    }
}

/// The text of a field, if it is one.
pub fn text_in(field: Field) -> (r: Option<String>)
    ensures
        match field@ {
            FieldView::Text(t) => r is Some && r->0@ == t,
            _ => r is None,
        },
{
    match field {
        Field::Text(s) => Some(s),
        _ => None,
    }
}

/// The number that the text of a field stands for.
pub fn number_in(field: Field, key: &'static str) -> (r: Result<i128, ReplyError>)
    ensures
        match field@ {
            FieldView::Text(t) => match fixed_value(t) {
                Some(v) => r == Ok::<i128, ReplyError>(v),
                None => r is Err && r->Err_0 is BadNumber && r->Err_0->BadNumber_key == key
                    && r->Err_0->text@ == t,
            },
            _ => r == Err::<i128, ReplyError>(ReplyError::Missing { key }),
        },
{
    match field {
        Field::Text(text) => match parse_fixed(text.as_str()) {
            Some(v) => Ok(v),
            None => Err(ReplyError::BadNumber { key, text }),
        },
        _ => Err(ReplyError::Missing { key }),
    }
}

/// The count in a field.
pub fn count_in(field: Field, key: &'static str) -> (r: Result<u64, ReplyError>)
    ensures
        match field@ {
            FieldView::Count(n) => r == Ok::<u64, ReplyError>(n),
            _ => r == Err::<u64, ReplyError>(ReplyError::Missing { key }),
        },
{
    match field {
        Field::Count(n) => Ok(n),
        _ => Err(ReplyError::Missing { key }),
    }
}

/// The yes or no in a field.
pub fn flag_in(field: Field, key: &'static str) -> (r: Result<bool, ReplyError>)
    ensures
        match field@ {
            FieldView::Flag(b) => r == Ok::<bool, ReplyError>(b),
            _ => r == Err::<bool, ReplyError>(ReplyError::Missing { key }),
        },
{
    match field {
        Field::Flag(b) => Ok(b),
        _ => Err(ReplyError::Missing { key }),
    }
}

/// The text in a field of a reply, if the reply has it.
pub fn reply_text(text: &str, key: &str) -> (r: Option<String>)
    ensures
        match json_field(text@, key@) {
            Some(FieldView::Text(t)) => r is Some && r->0@ == t,
            _ => r is None,
        },
{
    match read_field(text, key) {
        Ok(f) => text_in(f),
        Err(_) => None,
    }
}

/// The number that the text in a field of a reply stands for. See [`number_in`].
pub fn reply_number(text: &str, key: &'static str) -> (r: Result<i128, ReplyError>)
    ensures
        match json_field(text@, key@) {
            None => r is Err && r->Err_0 is NotJson,
            Some(FieldView::Text(t)) => match fixed_value(t) {
                Some(v) => r == Ok::<i128, ReplyError>(v),
                None => r is Err && r->Err_0 is BadNumber && r->Err_0->BadNumber_key == key
                    && r->Err_0->text@ == t,
            },
            Some(_) => r == Err::<i128, ReplyError>(ReplyError::Missing { key }),
        },
{
    match read_field(text, key) {
        Ok(f) => number_in(f, key),
        Err(detail) => Err(ReplyError::NotJson { detail }),
    }
}

/// The count in a field of a reply. See [`count_in`].
pub fn reply_count(text: &str, key: &'static str) -> (r: Result<u64, ReplyError>)
    ensures
        match json_field(text@, key@) {
            None => r is Err && r->Err_0 is NotJson,
            Some(FieldView::Count(n)) => r == Ok::<u64, ReplyError>(n),
            Some(_) => r == Err::<u64, ReplyError>(ReplyError::Missing { key }),
        },
{
    match read_field(text, key) {
        Ok(f) => count_in(f, key),
        Err(detail) => Err(ReplyError::NotJson { detail }),
    }
}

/// The yes or no in a field of a reply. See [`flag_in`].
pub fn reply_flag(text: &str, key: &'static str) -> (r: Result<bool, ReplyError>)
    ensures
        match json_field(text@, key@) {
            None => r is Err && r->Err_0 is NotJson,
            Some(FieldView::Flag(b)) => r == Ok::<bool, ReplyError>(b),
            Some(_) => r == Err::<bool, ReplyError>(ReplyError::Missing { key }),
        },
{
    match read_field(text, key) {
        Ok(f) => flag_in(f, key),
        Err(detail) => Err(ReplyError::NotJson { detail }),
    }
}

} // verus!

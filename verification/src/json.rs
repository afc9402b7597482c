//! The JSON values that the launcher's commands receive, as plain data.
use vstd::prelude::*;

verus! {

/// A JSON value. Object members keep their order and have distinct keys (as
/// in a parsed document's map).
#[derive(Debug)]
pub enum JsonValue {
    Null,
    Bool(bool),
    /// A number, with its value where it is an integer that fits in a `u64`
    /// (`as_u64`), and where it fits in an `i64` (`as_i64`).
    Number(Option<u64>, Option<i64>),
    Str(String),
    Array(Vec<JsonValue>),
    Object(Vec<(String, JsonValue)>),
}

impl JsonValue {
    pub open spec fn str_view(&self) -> Option<Seq<char>> {
        match self {
            JsonValue::Str(s) => Some(s@),
            _ => None,
        }
    }

    pub open spec fn bool_view(&self) -> Option<bool> {
        match self {
            JsonValue::Bool(b) => Some(*b),
            _ => None,
        }
    }

    pub open spec fn u64_view(&self) -> Option<u64> {
        match self {
            JsonValue::Number(n, _) => *n,
            _ => None,
        }
    }

    /// `Value::as_u64`.
    pub fn as_u64(&self) -> (r: Option<u64>)
        ensures
            r == self.u64_view(),
    {
        match self {
            JsonValue::Number(n, _) => *n,
            _ => None,
        }
    }

    /// `Value::as_str`.
    pub fn as_str(&self) -> (r: Option<&str>)
        ensures
            match r {
                Some(s) => self.str_view() == Some(s@),
                None => self.str_view() is None,
            },
    {
        match self {
            JsonValue::Str(s) => Some(s.as_str()),
            _ => None,
        }
    }
}

/// The value of the first member named `key` of an object's members.
pub open spec fn member(members: Seq<(String, JsonValue)>, key: Seq<char>) -> Option<JsonValue>
    decreases members.len(),
{
    if members.len() == 0 {
        None
    } else if members[0].0@ == key {
        Some(members[0].1)
    } else {
        member(members.drop_first(), key)
    }
}

} // verus!

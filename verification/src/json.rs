//! The JSON tree as this library models it.
//!
//! Webhook bodies and notifier config files reach the library as plain
//! values of this type; the edge that speaks to the outside world parses
//! text into it.  Strings, objects and their order are kept exactly;
//! a number outside the 64-bit integers is noted but not valued, since
//! none of this system's grammars reads one.

use vstd::prelude::*;
use crate::strutil::str_eq;

verus! {

/// One JSON value.  Object entries keep their document order; lookups
/// take the first entry with a key.
pub enum JsonValue {
    Null,
    Bool(bool),
    Int(i64),
    /// A number that does not fit the 64-bit integers; its value is not
    /// modeled.
    OtherNum,
    Str(String),
    Arr(Vec<JsonValue>),
    Obj(Vec<(String, JsonValue)>),
}

/// The value of the first entry carrying this key.
pub open spec fn obj_lookup(entries: Seq<(String, JsonValue)>, key: Seq<char>) -> Option<JsonValue>
    decreases entries.len(),
{
    if entries.len() == 0 {
        None
    } else if entries[0].0@ == key {
        Some(entries[0].1)
    } else {
        obj_lookup(entries.skip(1), key)
    }
}

/// The string content behind a key of an object, if the value is there
/// and is a string.
pub open spec fn spec_get_str(v: JsonValue, key: Seq<char>) -> Option<String> {
    match v {
        JsonValue::Obj(entries) => match obj_lookup(entries@, key) {
            Some(JsonValue::Str(s)) => Some(s),
            _ => None,
        },
        _ => None,
    }
}

impl JsonValue {
    /// Whether this value is an object.
    pub fn is_object(&self) -> (r: bool)
        ensures
            r == (*self is Obj),
    {
        matches!(self, JsonValue::Obj(_))
    }

    /// The value of the first entry with this key, when this is an
    /// object that has one.
    pub fn get<'a>(&'a self, key: &str) -> (r: Option<&'a JsonValue>)
        ensures
            match *self {
                JsonValue::Obj(entries) => match r {
                    Some(v) => obj_lookup(entries@, key@) == Some(*v),
                    None => obj_lookup(entries@, key@) is None,
                },
                _ => r is None,
            },
    {
        let entries = match self {
            JsonValue::Obj(entries) => entries,
            _ => {
                return None;
            },
        };
        let n = entries.len();
        proof {
            assert(entries@.skip(0) =~= entries@);
        }
        let mut i: usize = 0;
        while i < n
            invariant
                *self == JsonValue::Obj(*entries),
                n == entries@.len(),
                i <= n,
                obj_lookup(entries@, key@) == obj_lookup(entries@.skip(i as int), key@),
            decreases n - i,
        {
            proof {
                assert(entries@.skip(i as int)[0] == entries@[i as int]);
            }
            if str_eq(entries[i].0.as_str(), key) {
                proof {
                    assert(obj_lookup(entries@.skip(i as int), key@) == Some(
                        entries@[i as int].1,
                    ));
                }
                return Some(&entries[i].1);
            }
            proof {
                assert(entries@.skip(i as int).skip(1) =~= entries@.skip(i + 1));
            }
            i = i + 1;
        }
        proof {
            assert(entries@.skip(n as int) =~= Seq::<(String, JsonValue)>::empty());
        }
        None
    }

    /// A copy of the string behind a key, when this is an object and the
    /// entry is a string.
    pub fn get_str(&self, key: &str) -> (r: Option<String>)
        ensures
            r == spec_get_str(*self, key@),
    {
        match self.get(key) {
            Some(JsonValue::Str(s)) => Some(s.clone()),
            _ => None,
        }
    }
}

} // verus!

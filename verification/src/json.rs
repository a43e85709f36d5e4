//! JSON values as the protocols exchange them.
use vstd::prelude::*;

use crate::text::text_is;

verus! {

/// A JSON value. Numbers keep their text; an object keeps its members in
/// the order of the text, a key as often as the text gives it.
pub enum Json {
    Null,
    Bool(bool),
    Number(String),
    Str(String),
    Array(Vec<Json>),
    Object(Vec<(String, Json)>),
}

/// The value of the first member named `key`.
pub open spec fn member(fields: Seq<(String, Json)>, key: Seq<char>) -> Option<Json>
    decreases fields.len(),
{
    if fields.len() == 0 {
        None
    } else if fields[0].0@ == key {
        Some(fields[0].1)
    } else {
        member(fields.drop_first(), key)
    }
}

/// How many members are named `key`.
pub open spec fn member_count(fields: Seq<(String, Json)>, key: Seq<char>) -> nat
    decreases fields.len(),
{
    if fields.len() == 0 {
        0
    } else {
        (if fields[0].0@ == key {
            1nat
        } else {
            0nat
        }) + member_count(fields.drop_first(), key)
    }
}

/// The member `key` of an object; nothing for any other value.
pub open spec fn field(value: Json, key: Seq<char>) -> Option<Json> {
    match value {
        Json::Object(fields) => member(fields@, key),
        _ => None,
    }
}

/// Whether a value is the string `text`.
pub open spec fn is_text(value: Option<Json>, text: Seq<char>) -> bool {
    match value {
        Some(Json::Str(s)) => s@ == text,
        _ => false,
    }
}

impl Json {
    /// The member `key` when this is an object that has it.
    pub fn get(&self, key: &str) -> (r: Option<&Json>)
        ensures
            match (r, field(*self, key@)) {
                (Some(v), Some(w)) => *v == w,
                (None, None) => true,
                _ => false,
            },
    {
        match self {
            Json::Object(fields) => {
                let mut i: usize = 0;
                assert(fields@.skip(0) =~= fields@);
                while i < fields.len()
                    invariant
                        i <= fields@.len(),
                        field(*self, key@) == member(fields@, key@),
                        member(fields@, key@) == member(fields@.skip(i as int), key@),
                    decreases fields@.len() - i,
                {
                    assert(fields@.skip(i as int).drop_first() =~= fields@.skip(i + 1));
                    assert(fields@.skip(i as int)[0] == fields@[i as int]);
                    if text_is(fields[i].0.as_str(), key) {
                        return Some(&fields[i].1);
                    }
                    i = i + 1;
                }
                None
            },
            _ => None,
        }
    }

    /// Whether this is the string `text`.
    pub fn is_str(&self, text: &str) -> (r: bool)
        ensures
            r == is_text(Some(*self), text@),
    {
        match self {
            Json::Str(s) => text_is(s.as_str(), text),
            _ => false,
        }
    }
}

/// Whether the member `key` of `value` is the string `text`.
pub fn field_is(value: &Json, key: &str, text: &str) -> (r: bool)
    ensures
        r == is_text(field(*value, key@), text@),
{
    match value.get(key) {
        Some(v) => v.is_str(text),
        None => false,
    }
}

} // verus!

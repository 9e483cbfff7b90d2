//! JSON text, and the values in it that the library reads.

use vstd::prelude::*;

use crate::text::{same_text, texts};

verus! {

/// The error that a JSON text gives when it is not what was asked for.
#[verifier::external_type_specification]
#[verifier::external_body]
pub struct ExJsonError(serde_json::Error);

/// The strings in a JSON text that is an array of strings; `None` for any other
/// text.
pub uninterp spec fn json_string_array(text: Seq<char>) -> Option<Seq<Seq<char>>>;

/// `serde_json::from_str` at the type `Vec<String>`: reads a JSON array of
/// strings. Whether the text is one, and which strings are in it, is a function
/// of the text.
#[verifier::external_body]
pub(crate) fn strings_from_json(text: &str) -> (r: Result<Vec<String>, serde_json::Error>)
    ensures
        match r {
            Ok(v) => json_string_array(text@) == Some(texts(v@)),
            Err(_) => json_string_array(text@) is None,
        },
{
    serde_json::from_str::<Vec<String>>(text)
}

/// The JSON text that holds an array of strings.
pub uninterp spec fn json_encoded(strings: Seq<Seq<char>>) -> Seq<char>;

/// `serde_json::to_string` on a slice of strings: writes a JSON array of those
/// strings, a function of them, which reads back as the same strings. Writing
/// strings to memory does not fail.
#[verifier::external_body]
pub(crate) fn strings_to_json(strings: &[String]) -> (r: Result<String, serde_json::Error>)
    ensures
        r is Ok,
        r->Ok_0@ == json_encoded(texts(strings@)),
        json_string_array(r->Ok_0@) == Some(texts(strings@)),
{
    serde_json::to_string(strings)
}

// ── JSON values ───────────────────────────────────────────────────────────────

/// A JSON value. A number is kept as its text, an object as its members in
/// order.
pub enum Json {
    Null,
    Bool(bool),
    Number(String),
    Str(String),
    Array(Vec<Json>),
    Object(Vec<(String, Json)>),
}

/// The first member of an object with this key.
pub open spec fn member(fields: Seq<(String, Json)>, key: Seq<char>) -> Option<Json>
    decreases fields.len(),
{
    if fields.len() == 0 {
        None
    } else if fields[0].0@ == key {
        Some(fields[0].1)
    } else {
        member(fields.skip(1), key)
    }
}

impl Json {
    /// The member of this value with this key, where it is an object that has
    /// one.
    pub open spec fn at(self, key: Seq<char>) -> Option<Json> {
        match self {
            Json::Object(fields) => member(fields@, key),
            _ => None,
        }
    }

    /// The member of this value with this key, where it is an object that has
    /// one.
    pub fn get(&self, key: &str) -> (r: Option<&Json>)
        ensures
            match r {
                Some(v) => self.at(key@) == Some(*v),
                None => self.at(key@) is None,
            },
    {
        match self {
            Json::Object(fields) => find_member(fields, key),
            _ => None,
        }
    }
}

/// The first of some members with this key.
pub fn find_member<'a>(fields: &'a Vec<(String, Json)>, key: &str) -> (r: Option<&'a Json>)
    ensures
        match r {
            Some(v) => member(fields@, key@) == Some(*v),
            None => member(fields@, key@) is None,
        },
{
    let n: usize = fields.len();
    assert(fields@.skip(0) == fields@);
    for i in 0..n
        invariant
            n == fields@.len(),
            member(fields@.skip(i as int), key@) == member(fields@, key@),
    {
        assert(fields@.skip(i as int)[0] == fields@[i as int]);
        if same_text(fields[i].0.as_str(), key) {
            return Some(&fields[i].1);
        }
        assert(fields@.skip(i as int).skip(1) == fields@.skip(i as int + 1));
    }
    None
}

/// The member found for a key is the first that has it; none is found only where no
/// member has it.
pub proof fn law_first_member(fields: Seq<(String, Json)>, key: Seq<char>)
    ensures
        member(fields, key) matches Some(found) ==> exists|i: int|
            0 <= i < fields.len() && (#[trigger] fields[i]).0@ == key && fields[i].1 == found
                && forall|j: int| 0 <= j < i ==> (#[trigger] fields[j]).0@ != key,
        member(fields, key) is None ==> forall|j: int|
            0 <= j < fields.len() ==> (#[trigger] fields[j]).0@ != key,
    decreases fields.len(),
{
    if fields.len() > 0 && fields[0].0@ != key {
        let rest = fields.skip(1);
        law_first_member(rest, key);
        assert forall|j: int| 1 <= j < fields.len() implies #[trigger] fields[j] == rest[j - 1] by {}
        if member(fields, key) is Some {
            let found = member(fields, key)->0;
            let i = choose|i: int|
                0 <= i < rest.len() && (#[trigger] rest[i]).0@ == key && rest[i].1 == found
                    && forall|j: int| 0 <= j < i ==> (#[trigger] rest[j]).0@ != key;
            assert(fields[i + 1] == rest[i]);
            assert forall|j: int| 0 <= j < i + 1 implies (#[trigger] fields[j]).0@ != key by {
                if j > 0 {
                    assert(rest[j - 1].0@ != key);
                }
            }
        }
    }
}

} // verus!

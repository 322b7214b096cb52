//! JSON documents, as far as search replies are read.

use vstd::prelude::*;

verus! {

/// A JSON document. Null, booleans and numbers are never read, so they are not told apart.
pub enum Json {
    Text(String),
    Array(Vec<Json>),
    Object(Vec<(String, Json)>),
    Other,
}

/// The value of the first entry with the given key.
pub open spec fn entry(entries: Seq<(String, Json)>, key: Seq<char>) -> Option<Json>
    decreases entries.len(),
{
    if entries.len() == 0 {
        None
    } else if entries[0].0@ == key {
        Some(entries[0].1)
    } else {
        entry(entries.skip(1), key)
    }
}

/// The member of an object with the given key. A document that is not an object has no members.
pub open spec fn member(json: Json, key: Seq<char>) -> Option<Json> {
    match json {
        Json::Object(entries) => entry(entries@, key),
        _ => None,
    }
}

/// The text of the member with the given key, if there is one and it is a text.
pub open spec fn text_member(json: Json, key: Seq<char>) -> Option<Seq<char>> {
    match member(json, key) {
        Some(Json::Text(text)) => Some(text@),
        _ => None,
    }
}

/// The text of the member with the given key; the empty text where there is none.
pub open spec fn text_member_or_empty(json: Json, key: Seq<char>) -> Seq<char> {
    match text_member(json, key) {
        Some(text) => text,
        None => Seq::empty(),
    }
}

/// The items of the member with the given key, if there is one and it is an array.
pub open spec fn array_member(json: Json, key: Seq<char>) -> Option<Seq<Json>> {
    match member(json, key) {
        Some(Json::Array(items)) => Some(items@),
        _ => None,
    }
}

impl Json {
    /// The member of an object with the given key.
    pub fn get(&self, key: &str) -> (found: Option<&Json>)
        ensures
            found is Some <==> member(*self, key@) is Some,
            found matches Some(value) ==> member(*self, key@) == Some(*value),
    {
        match self {
            Json::Object(entries) => {
                let mut i: usize = 0;
                assert(entries@.skip(0) =~= entries@);
                while i < entries.len()
                    invariant
                        i <= entries.len(),
                        member(*self, key@) == entry(entries@.skip(i as int), key@),
                    decreases entries.len() - i,
                {
                    assert(entries@.skip(i as int).skip(1) =~= entries@.skip(i + 1));
                    if *entries[i].0.as_str() == *key {
                        return Some(&entries[i].1);
                    }
                    i = i + 1;
                }
                None
            },
            _ => None,
        }
    }

    /// The text of the member with the given key.
    pub fn get_text(&self, key: &str) -> (found: Option<&str>)
        ensures
            found is Some <==> text_member(*self, key@) is Some,
            found matches Some(text) ==> text_member(*self, key@) == Some(text@),
    {
        match self.get(key) {
            Some(Json::Text(text)) => Some(text.as_str()),
            _ => None,
        }
    }

    /// The text of the member with the given key, or the empty text.
    pub fn get_text_or_empty(&self, key: &str) -> (text: &str)
        ensures
            text@ == text_member_or_empty(*self, key@),
    {
        match self.get_text(key) {
            Some(text) => text,
            None => {
                proof {
                    reveal_strlit("");
                }
                assert(""@ =~= Seq::<char>::empty());
                ""
            },
        }
    }

    /// The items of the member with the given key.
    pub fn get_array(&self, key: &str) -> (found: Option<&Vec<Json>>)
        ensures
            found is Some <==> array_member(*self, key@) is Some,
            found matches Some(items) ==> array_member(*self, key@) == Some(items@),
    {
        match self.get(key) {
            Some(Json::Array(items)) => Some(items),
            _ => None,
        }
    }
}

} // verus!

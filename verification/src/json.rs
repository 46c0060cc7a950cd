//! JSON documents: manifests and the answers of registries.
//!
//! The text is read by `serde_json`. What it read is kept as a tree of plain
//! values, and the lookups that the parsers need are made on that tree.

use crate::text::same_text;
use crate::version::texts_of;
use vstd::prelude::*;
use vstd::string::*;

verus! {

/// A JSON value. The members of an object are in the order in which the
/// reader handed them over.
#[derive(Debug)]
pub enum Json {
    Null,
    Bool(bool),
    /// A number, as its text.
    Number(String),
    Text(String),
    Array(Vec<Json>),
    Object(Vec<(String, Json)>),
}

/// `serde_json::Value`, the tree as `serde_json` holds it. Nothing is read
/// of it here; it is handed over as a [`Json`] value.
#[verifier::external_type_specification]
#[verifier::external_body]
pub struct ExJsonValue(serde_json::Value);

/// The document that `serde_json::from_str` reads from `text`, or the
/// message of the error with which it rejects the text.
pub uninterp spec fn json_document(text: Seq<char>) -> Result<Json, Seq<char>>;

/// Hands a `serde_json::Value` over as a [`Json`], variant by variant and
/// member by member. A number is kept as the text that `serde_json` prints
/// for it.
#[verifier::external_body]
fn json_from_value(value: &serde_json::Value) -> Json {
    match value {
        serde_json::Value::Null => Json::Null,
        serde_json::Value::Bool(b) => Json::Bool(*b),
        serde_json::Value::Number(n) => Json::Number(n.to_string()),
        serde_json::Value::String(s) => Json::Text(s.clone()),
        serde_json::Value::Array(items) => Json::Array(items.iter().map(json_from_value).collect()),
        serde_json::Value::Object(members) => Json::Object(
            members.iter().map(|(k, v)| (k.clone(), json_from_value(v))).collect(),
        ),
    }
}

/// `serde_json::from_str`, for a `serde_json::Value`: the document that it
/// reads from `text`, or the message of its error. An object of
/// `serde_json` is a map, so none of the document holds a name twice.
#[verifier::external_body]
fn json_from_str(text: &str) -> (r: Result<Json, String>)
    ensures
        match json_document(text@) {
            Ok(document) => r == Ok::<Json, String>(document),
            Err(message) => r matches Err(m) && m@ == message,
        },
        r matches Ok(document) ==> document.names_are_distinct(),
{
    match serde_json::from_str::<serde_json::Value>(text) {
        Ok(value) => Ok(json_from_value(&value)),
        Err(error) => Err(error.to_string()),
    }
}

/// The value of the first member of `members` that is named `key`.
pub open spec fn find_member(members: Seq<(String, Json)>, key: Seq<char>) -> Option<Json>
    decreases members.len(),
{
    if members.len() == 0 {
        None
    } else if members[0].0@ == key {
        Some(members[0].1)
    } else {
        find_member(members.drop_first(), key)
    }
}

/// The names of `members`, in order.
pub open spec fn names_of(members: Seq<(String, Json)>) -> Seq<Seq<char>> {
    members.map_values(|m: (String, Json)| m.0@)
}

impl Json {
    /// The members of an object; no members for any other value.
    pub open spec fn members(self) -> Seq<(String, Json)> {
        match self {
            Json::Object(members) => members@,
            _ => Seq::empty(),
        }
    }

    /// The member of an object that is named `key`. `None` where there is
    /// none, and for a value that is no object.
    pub open spec fn member(self, key: Seq<char>) -> Option<Json> {
        find_member(self.members(), key)
    }

    /// Whether no object in the value holds a name twice.
    pub open spec fn names_are_distinct(self) -> bool
        decreases self,
    {
        match self {
            Json::Array(items) => forall|i: int|
                0 <= i < items@.len() ==> (#[trigger] items@[i]).names_are_distinct(),
            Json::Object(members) => names_of(members@).no_duplicates() && forall|i: int|
                0 <= i < members@.len() ==> (#[trigger] members@[i]).1.names_are_distinct(),
            _ => true,
        }
    }

    /// The text of a JSON string; `None` for any other value.
    pub open spec fn text(self) -> Option<Seq<char>> {
        match self {
            Json::Text(s) => Some(s@),
            _ => None,
        }
    }

    /// The names of the members of an object; `None` for any other value.
    pub open spec fn keys(self) -> Option<Seq<Seq<char>>> {
        match self {
            Json::Object(members) => Some(names_of(members@)),
            _ => None,
        }
    }

    /// Reads a document. The error is the reader's message. No object of
    /// a document that was read holds a name twice.
    pub fn parse(text: &str) -> (r: Result<Json, String>)
        ensures
            match json_document(text@) {
                Ok(document) => r == Ok::<Json, String>(document),
                Err(message) => r matches Err(m) && m@ == message,
            },
            r matches Ok(document) ==> document.names_are_distinct(),
    {
        json_from_str(text)
    }

    /// Looks a member of an object up by its name.
    pub fn get(&self, key: &str) -> (r: Option<&Json>)
        ensures
            match self.member(key@) {
                Some(value) => r == Some(&value),
                None => r is None,
            },
    {
        match self {
            Json::Object(members) => {
                let mut i: usize = 0;
                proof {
                    assert(members@.skip(0) =~= members@);
                }
                while i < members.len()
                    invariant
                        i <= members.len(),
                        self.members() == members@,
                        find_member(members@, key@) == find_member(members@.skip(i as int), key@),
                    decreases members.len() - i,
                {
                    proof {
                        assert(members@.skip(i as int)[0] == members@[i as int]);
                    }
                    if same_text(members[i].0.as_str(), key) {
                        return Some(&members[i].1);
                    }
                    proof {
                        assert(members@.skip(i as int).drop_first() =~= members@.skip(
                            i as int + 1,
                        ));
                    }
                    i += 1;
                }
                None
            },
            _ => None,
        }
    }

    /// The members of an object.
    pub fn as_object(&self) -> (r: Option<&Vec<(String, Json)>>)
        ensures
            match *self {
                Json::Object(members) => r == Some(&members),
                _ => r is None,
            },
    {
        match self {
            Json::Object(members) => Some(members),
            _ => None,
        }
    }

    /// The text of a JSON string.
    pub fn as_str(&self) -> (r: Option<&str>)
        ensures
            match self.text() {
                Some(text) => r matches Some(s) && s@ == text,
                None => r is None,
            },
    {
        match self {
            Json::Text(s) => Some(s.as_str()),
            _ => None,
        }
    }

    /// The names of the members of an object, in order.
    pub fn object_keys(&self) -> (r: Option<Vec<String>>)
        ensures
            match self.keys() {
                Some(keys) => r matches Some(k) && texts_of(k@) == keys,
                None => r is None,
            },
    {
        match self {
            Json::Object(members) => {
                let mut keys: Vec<String> = Vec::new();
                let mut i: usize = 0;
                while i < members.len()
                    invariant
                        i <= members.len(),
                        keys@.len() == i,
                        forall|j: int| 0 <= j < i ==> keys@[j]@ == (#[trigger] members@[j]).0@,
                    decreases members.len() - i,
                {
                    keys.push(members[i].0.clone());
                    i += 1;
                }
                proof {
                    assert(texts_of(keys@) =~= names_of(members@));
                }
                Some(keys)
            },
            _ => None,
        }
    }
}

} // verus!

//! JSON documents as the protocol reads them.
//!
//! Text is parsed by `serde_json`. What it yields is copied into a tree of
//! plain values, [`Json`], and everything that reads a document reads that
//! tree.

use vstd::prelude::*;

verus! {

/// One `"key": value` entry of a JSON object.
#[derive(Debug)]
pub struct Member {
    pub key: String,
    pub value: Json,
}

/// A JSON document as a tree of plain values.
///
/// A number keeps what the protocol reads of it: `Number(Some(n))` is a
/// non-negative integer that fits `u64`; every other number (negative,
/// fractional, or too large) is `Number(None)`. An object lists its members
/// in the order in which the parser hands them out.
#[derive(Debug)]
pub enum Json {
    Null,
    Bool(bool),
    Number(Option<u64>),
    Text(String),
    Array(Vec<Json>),
    Object(Vec<Member>),
}

/// `serde_json::Value`, the parser's own tree. It only passes through.
#[verifier::external_type_specification]
#[verifier::external_body]
pub struct ExValue(serde_json::Value);

/// The document that `serde_json::from_str` reads from a text, as a [`Json`],
/// or `None` where it reports an error. Nothing else is known of it here:
/// which texts are JSON, and what they hold, is the parser's to say.
pub uninterp spec fn parsed_json(text: Seq<char>) -> Option<Json>;

/// Copies a `serde_json::Value` into a [`Json`], variant by variant: a number
/// by `serde_json::Number::as_u64`, an array element by element, an object
/// member by member in the order of `serde_json::Map::iter`. Trusted, with
/// nothing claimed of the result.
#[verifier::external_body]
fn tree_of(value: &serde_json::Value) -> Json {
    match value {
        serde_json::Value::Null => Json::Null,
        serde_json::Value::Bool(b) => Json::Bool(*b),
        serde_json::Value::Number(n) => Json::Number(n.as_u64()),
        serde_json::Value::String(s) => Json::Text(s.clone()),
        serde_json::Value::Array(items) => Json::Array(items.iter().map(tree_of).collect()),
        serde_json::Value::Object(map) => Json::Object(
            map.iter().map(|(k, v)| Member { key: k.clone(), value: tree_of(v) }).collect(),
        ),
    }
}

/// Parses a text with `serde_json::from_str` into a `serde_json::Value` and
/// hands out its copy as a [`Json`], or `None` where the parser reports an
/// error. Trusted: the contract only gives the result its name, which claims
/// that the result depends on the text alone.
#[verifier::external_body]
pub(crate) fn parse_json(text: &str) -> (tree: Option<Json>)
    ensures
        tree == parsed_json(text@),
{
    match serde_json::from_str::<serde_json::Value>(text) {
        Ok(value) => Some(tree_of(&value)),
        Err(_) => None,
    }
}

/// The value of the first member with the given key, if there is one.
pub open spec fn member_value(members: Seq<Member>, key: Seq<char>) -> Option<Json>
    decreases members.len(),
{
    if members.len() == 0 {
        None
    } else if members[0].key@ == key {
        Some(members[0].value)
    } else {
        member_value(members.drop_first(), key)
    }
}

/// Looks up a member of an object by its key.
pub fn find_member<'a>(members: &'a Vec<Member>, key: &str) -> (found: Option<&'a Json>)
    ensures
        match found {
            Some(value) => member_value(members@, key@) == Some(*value),
            None => member_value(members@, key@) is None,
        },
{
    let wanted = String::from_str(key);
    let mut i: usize = 0;
    assert(members@.skip(0) == members@);
    while i < members.len()
        invariant
            i <= members.len(),
            wanted@ == key@,
            member_value(members@, key@) == member_value(members@.skip(i as int), key@),
        decreases members.len() - i,
    {
        if members[i].key == wanted {
            assert(members@.skip(i as int)[0] == members@[i as int]);
            return Some(&members[i].value);
        }
        assert(members@.skip(i as int).drop_first() == members@.skip(i as int + 1));
        i += 1;
    }
    None
}

} // verus!

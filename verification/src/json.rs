//! A JSON document as a tree of plain values, and the reading of one from bytes.

use crate::text::same_text;
use vstd::prelude::*;

verus! {

/// A JSON value.
#[derive(Debug, PartialEq, Eq)]
pub enum Json {
    Null,
    Bool(bool),
    /// A number: its value where it is a non-negative integer that fits in 64 bits,
    /// `None` where it is negative or has a fraction or an exponent.
    Number(Option<u64>),
    Text(String),
    List(Vec<Json>),
    /// An object: its members, each with its name.
    Record(Vec<(String, Json)>),
}

/// `serde_json::Value`, of which nothing is known here but what `json_tree` names.
#[verifier::external_type_specification]
#[verifier::external_body]
pub struct ExValue(serde_json::Value);

/// `serde_json::Error`: that there is one is all that is used of it.
#[verifier::external_type_specification]
#[verifier::external_body]
pub struct ExError(serde_json::Error);

/// The value that `serde_json::from_slice` reads from `bytes`; `None` where it
/// reports an error.
pub uninterp spec fn json_value(bytes: Seq<u8>) -> Option<serde_json::Value>;

/// The tree that holds what `value` holds.
pub uninterp spec fn json_tree(value: serde_json::Value) -> Json;

/// `serde_json::from_slice` at the type `serde_json::Value`: what it returns
/// depends on the bytes alone.
#[verifier::external_body]
fn read_value(bytes: &[u8]) -> (r: Result<serde_json::Value, serde_json::Error>)
    ensures
        r is Ok <==> json_value(bytes@) is Some,
        r matches Ok(value) ==> json_value(bytes@) == Some(value),
{
    serde_json::from_slice::<serde_json::Value>(bytes)
}

/// Moves a `serde_json::Value` into a tree, variant by variant; a number goes
/// through `serde_json::Number::as_u64`, the members of an object come in the
/// order in which its map hands them out.
#[verifier::external_body]
fn tree_of(value: serde_json::Value) -> (tree: Json)
    ensures
        tree == json_tree(value),
{
    match value {
        serde_json::Value::Null => Json::Null,
        serde_json::Value::Bool(b) => Json::Bool(b),
        serde_json::Value::Number(n) => Json::Number(n.as_u64()),
        serde_json::Value::String(s) => Json::Text(s),
        serde_json::Value::Array(items) => Json::List(items.into_iter().map(tree_of).collect()),
        serde_json::Value::Object(members) => Json::Record(
            members.into_iter().map(|(name, member)| (name, tree_of(member))).collect(),
        ),
    }
}

/// The JSON string that `serde_json::to_string` writes for the text `s`, quotes
/// included; `None` where it reports an error.
pub uninterp spec fn json_quoted(s: Seq<char>) -> Option<Seq<char>>;

/// `serde_json::to_string` at the type `str`: what it returns depends on the text
/// alone.
#[verifier::external_body]
fn write_text(s: &str) -> (r: Result<String, serde_json::Error>)
    ensures
        r is Ok <==> json_quoted(s@) is Some,
        r matches Ok(quoted) ==> json_quoted(s@) == Some(quoted@),
{
    serde_json::to_string(s)
}

/// Writes the text `s` as a JSON string.
pub fn quote(s: &str) -> (r: Option<String>)
    ensures
        match r {
            Some(quoted) => json_quoted(s@) == Some(quoted@),
            None => json_quoted(s@) is None,
        },
{
    match write_text(s) {
        Ok(quoted) => Some(quoted),
        Err(_) => None,
    }
}

/// The document that `bytes` hold; `None` where they are not one JSON value.
pub open spec fn json_document(bytes: Seq<u8>) -> Option<Json> {
    match json_value(bytes) {
        Some(value) => Some(json_tree(value)),
        None => None,
    }
}

impl Json {
    /// The member called `name` of an object: the first, where several have that
    /// name. `None` for a value that is no object or has no such member.
    pub open spec fn field(self, name: Seq<char>) -> Option<Json> {
        match self {
            Json::Record(members) => first_named(members@, name),
            _ => None,
        }
    }

    /// The value of the only member of an object, where that member is called
    /// `name`. `None` for a value that is no object, has no member or more than
    /// one, or one of another name.
    pub open spec fn sole_field(self, name: Seq<char>) -> Option<Json> {
        match self {
            Json::Record(members) => if members@.len() == 1 && members@[0].0@ == name {
                Some(members@[0].1)
            } else {
                None
            },
            _ => None,
        }
    }

    /// The characters of a text.
    pub open spec fn text(self) -> Option<Seq<char>> {
        match self {
            Json::Text(s) => Some(s@),
            _ => None,
        }
    }

    /// The value of a number that is a non-negative integer of 64 bits.
    pub open spec fn number(self) -> Option<u64> {
        match self {
            Json::Number(n) => n,
            _ => None,
        }
    }

    /// The entries of a list.
    pub open spec fn items(self) -> Option<Seq<Json>> {
        match self {
            Json::List(entries) => Some(entries@),
            _ => None,
        }
    }

    /// The only member of this object, if it is called `name`.
    pub fn sole_member(&self, name: &str) -> (r: Option<&Json>)
        ensures
            match r {
                Some(found) => self.sole_field(name@) == Some(*found),
                None => self.sole_field(name@) is None,
            },
    {
        match self {
            Json::Record(members) => {
                if members.len() == 1 && same_text(members[0].0.as_str(), name) {
                    Some(&members[0].1)
                } else {
                    None
                }
            },
            _ => None,
        }
    }

    /// This value as a list.
    pub fn as_list(&self) -> (r: Option<&Vec<Json>>)
        ensures
            match r {
                Some(entries) => self.items() == Some(entries@),
                None => self.items() is None,
            },
    {
        match self {
            Json::List(entries) => Some(entries),
            _ => None,
        }
    }

    /// Reads `bytes` as one JSON document.
    pub fn parse(bytes: &[u8]) -> (r: Option<Json>)
        ensures
            r == json_document(bytes@),
    {
        match read_value(bytes) {
            Ok(value) => Some(tree_of(value)),
            Err(_) => None,
        }
    }

    /// The member called `name`.
    pub fn member(&self, name: &str) -> (r: Option<&Json>)
        ensures
            match r {
                Some(found) => self.field(name@) == Some(*found),
                None => self.field(name@) is None,
            },
    {
        match self {
            Json::Record(members) => {
                let mut i: usize = 0;
                assert(members@.subrange(0, members@.len() as int) == members@);
                while i < members.len()
                    invariant
                        i <= members@.len(),
                        self.field(name@) == first_named(members@, name@),
                        first_named(members@, name@) == first_named(
                            members@.subrange(i as int, members@.len() as int),
                            name@,
                        ),
                    decreases members@.len() - i,
                {
                    let ghost rest = members@.subrange(i as int, members@.len() as int);
                    assert(rest.drop_first() == members@.subrange(
                        i + 1,
                        members@.len() as int,
                    ));
                    assert(rest[0] == members@[i as int]);
                    if same_text(members[i].0.as_str(), name) {
                        return Some(&members[i].1);
                    }
                    i += 1;
                }
                None
            },
            _ => None,
        }
    }
}

/// The position of the first entry of `s` that is `None`; the length of `s`
/// where no entry is.
pub open spec fn first_missing<T>(s: Seq<Option<T>>) -> int
    decreases s.len(),
{
    if s.len() == 0 {
        0
    } else if s[0] is None {
        0
    } else {
        1 + first_missing(s.drop_first())
    }
}

/// `first_missing` is the least position that holds `None`.
pub proof fn lemma_first_missing<T>(s: Seq<Option<T>>, i: int)
    requires
        0 <= i <= s.len(),
        forall|j: int| 0 <= j < i ==> s[j] is Some,
        i < s.len() ==> s[i] is None,
    ensures
        first_missing(s) == i,
    decreases s.len(),
{
    if i > 0 {
        let rest = s.drop_first();
        assert forall|j: int| 0 <= j < i - 1 implies rest[j] is Some by {
            assert(rest[j] == s[j + 1]);
        }
        lemma_first_missing(rest, i - 1);
    }
}

/// The first of `members` whose name is `name`.
pub open spec fn first_named(members: Seq<(String, Json)>, name: Seq<char>) -> Option<Json>
    decreases members.len(),
{
    if members.len() == 0 {
        None
    } else if members[0].0@ == name {
        Some(members[0].1)
    } else {
        first_named(members.drop_first(), name)
    }
}

} // verus!

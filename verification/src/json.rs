//! JSON documents as the stores answer with them, and JSON text as the
//! requests carry it.

use vstd::prelude::*;

verus! {

/// A JSON value. A number is kept as it is written.
#[derive(Debug, PartialEq, Eq)]
pub enum Json {
    Null,
    Bool(bool),
    Number(String),
    Text(String),
    List(Vec<Json>),
    Object(Vec<Member>),
}

/// A member of a JSON object.
#[derive(Debug, PartialEq, Eq)]
pub struct Member {
    pub name: String,
    pub value: Json,
}

/// The value of the member called `name` among `members`: that of the last
/// member with this name, if there is one.
pub open spec fn member_of(members: Seq<Member>, name: Seq<char>) -> Option<Json>
    decreases members.len(),
{
    if members.len() == 0 {
        None
    } else if members.last().name@ == name {
        Some(members.last().value)
    } else {
        member_of(members.drop_last(), name)
    }
}

impl Json {
    /// The member called `name`, if this is an object that has one.
    pub open spec fn member(self, name: Seq<char>) -> Option<Json> {
        match self {
            Json::Object(members) => member_of(members@, name),
            _ => None,
        }
    }

    /// The characters, if this is a string.
    pub open spec fn text(self) -> Option<Seq<char>> {
        match self {
            Json::Text(t) => Some(t@),
            _ => None,
        }
    }

    /// The elements, if this is an array.
    pub open spec fn items(self) -> Option<Seq<Json>> {
        match self {
            Json::List(items) => Some(items@),
            _ => None,
        }
    }

    /// The characters of the member called `name`, if this is an object
    /// that has such a member and the member is a string.
    pub open spec fn text_member(self, name: Seq<char>) -> Option<Seq<char>> {
        match self.member(name) {
            Some(value) => value.text(),
            None => None,
        }
    }

    /// The member called `name`.
    pub fn get(&self, name: &str) -> (value: Option<&Json>)
        ensures
            value is Some <==> self.member(name@) is Some,
            value is Some ==> *value->0 == self.member(name@)->0,
    {
        match self {
            Json::Object(members) => {
                let mut i: usize = members.len();
                assert(members@.take(i as int) =~= members@);
                while i > 0
                    invariant
                        i <= members.len(),
                        self.member(name@) == member_of(members@, name@),
                        member_of(members@, name@) == member_of(members@.take(i as int), name@),
                    decreases i,
                {
                    let ghost prefix = members@.take(i as int);
                    assert(prefix.last() == members@[i - 1]);
                    assert(prefix.drop_last() =~= members@.take(i - 1));
                    i -= 1;
                    if members[i].name.as_str().eq(name) {
                        return Some(&members[i].value);
                    }
                }
                None
            },
            _ => None,
        }
    }

    /// The characters, if this is a string.
    pub fn as_text(&self) -> (text: Option<&String>)
        ensures
            text is Some <==> self.text() is Some,
            text is Some ==> text->0@ == self.text()->0,
    {
        match self {
            Json::Text(t) => Some(t),
            _ => None,
        }
    }

    /// The elements, if this is an array.
    pub fn as_list(&self) -> (items: Option<&Vec<Json>>)
        ensures
            items is Some <==> self.items() is Some,
            items is Some ==> items->0@ == self.items()->0,
    {
        match self {
            Json::List(items) => Some(items),
            _ => None,
        }
    }

    /// Whether this is an object.
    pub fn is_object(&self) -> (r: bool)
        ensures
            r == (self is Object),
    {
        match self {
            Json::Object(_) => true,
            _ => false,
        }
    }

    /// The characters of the member called `name`, if it is a string.
    pub fn get_text(&self, name: &str) -> (text: Option<&String>)
        ensures
            text is Some <==> self.text_member(name@) is Some,
            text is Some ==> text->0@ == self.text_member(name@)->0,
    {
        match self.get(name) {
            Some(value) => value.as_text(),
            None => None,
        }
    }
}

/// The JSON string literal for `s`: the characters between double quotes,
/// escaped where JSON asks for it. The escaping is done by the `serde_json`
/// crate and is not defined here.
pub uninterp spec fn string_literal(s: Seq<char>) -> Seq<char>;

/// Writes `s` as a JSON string literal, by `serde_json`'s formatting of a
/// string value. Trusted: the result depends on the characters of `s` alone.
#[verifier::external_body]
pub(crate) fn quote(s: &str) -> (literal: String)
    ensures
        literal@ == string_literal(s@),
{
    serde_json::Value::String(s.to_owned()).to_string()
}

} // verus!

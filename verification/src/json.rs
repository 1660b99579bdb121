//! A JSON document as a tree of plain values.

use crate::error::DeckError;
use serde_json::Value;
use vstd::prelude::*;

verus! {

/// A JSON number.
#[derive(Debug, Clone, PartialEq, Eq)]
pub struct Number {
    /// The number's value, where it is a whole number from 0 to `u64::MAX`.
    pub unsigned: Option<u64>,
    /// The number written out, as messages show it.
    pub literal: String,
}

/// A JSON value.
#[derive(Debug, PartialEq, Eq)]
pub enum Json {
    Null,
    Bool(bool),
    Number(Number),
    Text(String),
    Array(Vec<Json>),
    /// The members of an object, each a key with its value. Where a key stands
    /// more than once, the first member with it counts.
    Object(Vec<(String, Json)>),
}

/// What a `Number` holds.
pub struct NumberView {
    pub unsigned: Option<u64>,
    pub literal: Seq<char>,
}

/// What a `Json` holds.
pub enum JsonView {
    Null,
    Bool(bool),
    Number(NumberView),
    Text(Seq<char>),
    Array(Seq<JsonView>),
    Object(Seq<(Seq<char>, JsonView)>),
}

impl View for Number {
    type V = NumberView;

    open spec fn view(&self) -> NumberView {
        NumberView { unsigned: self.unsigned, literal: self.literal@ }
    }
}

impl View for Json {
    type V = JsonView;

    open spec fn view(&self) -> JsonView
        decreases self,
    {
        match self {
            Json::Null => JsonView::Null,
            Json::Bool(b) => JsonView::Bool(*b),
            Json::Number(n) => JsonView::Number(n@),
            Json::Text(s) => JsonView::Text(s@),
            Json::Array(items) => JsonView::Array(
                Seq::new(
                    items@.len(),
                    |i: int|
                        if 0 <= i < items@.len() {
                            items@[i].view()
                        } else {
                            JsonView::Null
                        },
                ),
            ),
            Json::Object(members) => JsonView::Object(
                Seq::new(
                    members@.len(),
                    |i: int|
                        if 0 <= i < members@.len() {
                            (members@[i].0@, members@[i].1.view())
                        } else {
                            (Seq::empty(), JsonView::Null)
                        },
                ),
            ),
        }
    }
}

impl DeepView for Json {
    type V = JsonView;

    open spec fn deep_view(&self) -> JsonView {
        self@
    }
}

/// An array's view holds the views of its items.
pub proof fn lemma_array_view(items: Vec<Json>)
    ensures
        Json::Array(items)@ == JsonView::Array(items.deep_view()),
{
    reveal_with_fuel(<Json as View>::view, 2);
    assert(Json::Array(items)@->Array_0 =~= items.deep_view());
}

/// The views of an object's members: each key with its value.
pub open spec fn members_view(members: Seq<(String, Json)>) -> Seq<(Seq<char>, JsonView)> {
    Seq::new(members.len(), |i: int| (members[i].0@, members[i].1@))
}

/// An object's view holds the views of its members.
pub proof fn lemma_object_view(members: Vec<(String, Json)>)
    ensures
        Json::Object(members)@ == JsonView::Object(members_view(members@)),
{
    reveal_with_fuel(<Json as View>::view, 2);
    assert(Json::Object(members)@->Object_0 =~= members_view(members@));
}

/// The value of the first member with the key `key`; `Null` where there is none.
pub open spec fn lookup(members: Seq<(Seq<char>, JsonView)>, key: Seq<char>) -> JsonView
    decreases members.len(),
{
    if members.len() == 0 {
        JsonView::Null
    } else if members[0].0 == key {
        members[0].1
    } else {
        lookup(members.skip(1), key)
    }
}

impl JsonView {
    /// The value that an object holds under `key`. It is `Null` where the
    /// object has no such member, and where `self` is no object.
    pub open spec fn member(self, key: Seq<char>) -> JsonView {
        match self {
            JsonView::Object(members) => lookup(members, key),
            _ => JsonView::Null,
        }
    }

    /// The text that `self` holds, where it is a text.
    pub open spec fn text(self) -> Option<Seq<char>> {
        match self {
            JsonView::Text(text) => Some(text),
            _ => None,
        }
    }

    /// The items that `self` holds, where it is an array.
    pub open spec fn items(self) -> Option<Seq<JsonView>> {
        match self {
            JsonView::Array(items) => Some(items),
            _ => None,
        }
    }

    /// The number that `self` holds, where it is a whole number from 0 to
    /// `u64::MAX`.
    pub open spec fn count(self) -> Option<u64> {
        match self {
            JsonView::Number(number) => number.unsigned,
            _ => None,
        }
    }
}

impl Number {
    /// A copy of `self`.
    pub fn deep_copy(&self) -> (copy: Number)
        ensures
            copy@ == self@,
    {
        Number { unsigned: self.unsigned, literal: self.literal.clone() }
    }
}

impl Json {
    /// Tells whether `self` is `Null`.
    pub fn is_null(&self) -> (null: bool)
        ensures
            null == (self@ is Null),
    {
        match self {
            Json::Null => true,
            _ => false,
        }
    }

    /// The text that `self` holds, where it is a text.
    pub fn as_text(&self) -> (text: Option<&str>)
        ensures
            match text {
                Some(text) => self@.text() == Some(text@),
                None => self@.text() is None,
            },
    {
        match self {
            Json::Text(text) => Some(text.as_str()),
            _ => None,
        }
    }

    /// The items that `self` holds, where it is an array.
    pub fn as_items(&self) -> (items: Option<&Vec<Json>>)
        ensures
            match items {
                Some(items) => self@.items() == Some(items.deep_view()),
                None => self@.items() is None,
            },
    {
        match self {
            Json::Array(items) => {
                proof {
                    lemma_array_view(*items);
                }
                Some(items)
            },
            _ => None,
        }
    }

    /// The number that `self` holds, where it is a whole number from 0 to
    /// `u64::MAX`.
    pub fn as_count(&self) -> (count: Option<u64>)
        ensures
            count == self@.count(),
    {
        match self {
            Json::Number(number) => number.unsigned,
            _ => None,
        }
    }

    /// The value that an object holds under `key`. It is `Null` where the
    /// object has no such member, and where `self` is no object.
    pub fn member(&self, key: &str) -> (found: &Json)
        ensures
            found@ == self@.member(key@),
    {
        match self {
            Json::Object(members) => {
                let wanted = key.to_owned();
                let ghost held = members_view(members@);
                proof {
                    lemma_object_view(*members);
                    assert(held.skip(0) =~= held);
                }
                let mut i: usize = 0;
                while i < members.len()
                    invariant
                        i <= members.len(),
                        wanted@ == key@,
                        held == members_view(members@),
                        self@ == JsonView::Object(held),
                        lookup(held, key@) == lookup(held.skip(i as int), key@),
                    decreases members.len() - i,
                {
                    if members[i].0 == wanted {
                        return &members[i].1;
                    }
                    assert(held.skip(i as int).skip(1) =~= held.skip(i + 1));
                    i += 1;
                }
                &Json::Null
            },
            _ => &Json::Null,
        }
    }

    /// A copy of `self`.
    pub fn deep_copy(&self) -> (copy: Json)
        ensures
            copy@ == self@,
        decreases self,
    {
        match self {
            Json::Null => Json::Null,
            Json::Bool(b) => Json::Bool(*b),
            Json::Number(number) => Json::Number(number.deep_copy()),
            Json::Text(text) => Json::Text(text.clone()),
            Json::Array(items) => {
                let mut copies: Vec<Json> = Vec::new();
                let mut i: usize = 0;
                while i < items.len()
                    invariant
                        i <= items.len(),
                        *self == Json::Array(*items),
                        copies.len() == i,
                        forall|k: int| 0 <= k < i ==> copies@[k]@ == items@[k]@,
                    decreases items.len() - i,
                {
                    let item = &items[i];
                    assert(decreases_to!(self => self->Array_0));
                    copies.push(item.deep_copy());
                    i += 1;
                }
                proof {
                    lemma_array_view(*items);
                    lemma_array_view(copies);
                    assert(copies.deep_view() =~= items.deep_view());
                }
                Json::Array(copies)
            },
            Json::Object(members) => {
                let mut copies: Vec<(String, Json)> = Vec::new();
                let mut i: usize = 0;
                while i < members.len()
                    invariant
                        i <= members.len(),
                        *self == Json::Object(*members),
                        copies.len() == i,
                        forall|k: int|
                            0 <= k < i ==> copies@[k].0@ == members@[k].0@ && copies@[k].1@
                                == members@[k].1@,
                    decreases members.len() - i,
                {
                    let member = &members[i];
                    assert(decreases_to!(self => self->Object_0));
                    copies.push((member.0.clone(), member.1.deep_copy()));
                    i += 1;
                }
                proof {
                    lemma_object_view(*members);
                    lemma_object_view(copies);
                    assert(members_view(copies@) =~= members_view(members@));
                }
                Json::Object(copies)
            },
        }
    }
}

impl Clone for Json {
    fn clone(&self) -> (copy: Json)
        ensures
            copy@ == self@,
    {
        self.deep_copy()
    }
}

/// `serde_json::Value`: the tree into which `serde_json` reads a document.
#[verifier::external_type_specification]
#[verifier::external_body]
pub struct ExValue(Value);

/// What `serde_json::from_str` makes of `text`: the value that it reads, or
/// `None` where it reports an error.
pub uninterp spec fn parsed(text: Seq<char>) -> Option<JsonView>;

/// What a `serde_json::Value` holds.
pub uninterp spec fn value_view(value: Value) -> JsonView;

/// `serde_json::from_str`, asked for a `serde_json::Value`. The contract names
/// what it returns: the value that it reads from `text`, or its error.
#[verifier::external_body]
fn parse_value(text: &str) -> (result: Result<Value, serde_json::Error>)
    ensures
        match result {
            Ok(value) => parsed(text@) == Some(value_view(value)),
            Err(_) => parsed(text@) is None,
        },
{
    serde_json::from_str::<Value>(text)
}

/// Turns a `serde_json::Value` into a `Json`, variant by variant: a number
/// with what `serde_json::Number::as_u64` and its `Display` give, an object
/// with its members in the order in which `serde_json::Map` hands them out.
/// The contract says that the result holds what the value holds.
#[verifier::external_body]
fn json_of_value(value: Value) -> (json: Json)
    ensures
        json@ == value_view(value),
{
    match value {
        Value::Null => Json::Null,
        Value::Bool(b) => Json::Bool(b),
        Value::Number(n) => Json::Number(Number { unsigned: n.as_u64(), literal: n.to_string() }),
        Value::String(text) => Json::Text(text),
        Value::Array(items) => Json::Array(items.into_iter().map(json_of_value).collect()),
        Value::Object(members) => Json::Object(
            members.into_iter().map(|(key, member)| (key, json_of_value(member))).collect(),
        ),
    }
}

/// Reads a JSON document from `text`.
pub fn parse_document(text: &str) -> (result: Result<Json, DeckError>)
    ensures
        match parsed(text@) {
            Some(document) => result matches Ok(json) && json@ == document,
            None => result matches Err(error) && error@ is SerdeJsonError,
        },
{
    match parse_value(text) {
        Ok(value) => Ok(json_of_value(value)),
        Err(cause) => Err(DeckError::from(cause)),
    }
}

} // verus!

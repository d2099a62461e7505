//! JSON values, and the questions the drivers ask of them.

use vstd::prelude::*;

use crate::text::{same, text_option};

verus! {

/// A number of a JSON text.
pub struct JsonNumber {
    /// Its value, where it is an integer from zero to `u64::MAX`.
    pub unsigned: Option<u64>,
    /// The number, written out.
    pub text: String,
}

/// A JSON value.
pub enum Json {
    Null,
    Bool(bool),
    Number(JsonNumber),
    Str(String),
    Array(Vec<Json>),
    /// The members in the order in which they are held.
    Object(Vec<(String, Json)>),
}

/// A JSON value, as contracts see it.
pub enum JsonView {
    Null,
    Bool(bool),
    Number { unsigned: Option<u64>, text: Seq<char> },
    Str(Seq<char>),
    Array(Seq<JsonView>),
    Object(Seq<(Seq<char>, JsonView)>),
}

impl View for Json {
    type V = JsonView;

    open spec fn view(&self) -> JsonView
        decreases self,
    {
        match *self {
            Json::Null => JsonView::Null,
            Json::Bool(b) => JsonView::Bool(b),
            Json::Number(n) => JsonView::Number { unsigned: n.unsigned, text: n.text@ },
            Json::Str(s) => JsonView::Str(s@),
            Json::Array(items) => JsonView::Array(
                Seq::new(
                    items@.len(),
                    |i: int|
                        if 0 <= i < items@.len() {
                            items@[i].view()
                        } else {
                            arbitrary()
                        },
                ),
            ),
            Json::Object(members) => JsonView::Object(
                Seq::new(
                    members@.len(),
                    |i: int|
                        if 0 <= i < members@.len() {
                            (members@[i].0@, members@[i].1.view())
                        } else {
                            arbitrary()
                        },
                ),
            ),
        }
    }
}

/// The first of `members` that is called `key`.
pub open spec fn member(members: Seq<(Seq<char>, JsonView)>, key: Seq<char>) -> Option<JsonView>
    decreases members.len(),
{
    if members.len() == 0 {
        None
    } else if members.first().0 == key {
        Some(members.first().1)
    } else {
        member(members.drop_first(), key)
    }
}

impl JsonView {
    /// The member `key`, if this is an object that has one.
    pub open spec fn get(self, key: Seq<char>) -> Option<JsonView> {
        match self {
            JsonView::Object(members) => member(members, key),
            _ => None,
        }
    }

    /// The text, if this is a string.
    pub open spec fn as_str(self) -> Option<Seq<char>> {
        match self {
            JsonView::Str(s) => Some(s),
            _ => None,
        }
    }

    /// The value, if this is an integer from zero to `u64::MAX`.
    pub open spec fn as_u64(self) -> Option<u64> {
        match self {
            JsonView::Number { unsigned, .. } => unsigned,
            _ => None,
        }
    }

    /// The number written out, if this is a number.
    pub open spec fn as_number_text(self) -> Option<Seq<char>> {
        match self {
            JsonView::Number { text, .. } => Some(text),
            _ => None,
        }
    }

    /// The truth value, if this is one.
    pub open spec fn as_bool(self) -> Option<bool> {
        match self {
            JsonView::Bool(b) => Some(b),
            _ => None,
        }
    }

    /// The items; none if this is no array.
    pub open spec fn items(self) -> Seq<JsonView> {
        match self {
            JsonView::Array(items) => items,
            _ => Seq::empty(),
        }
    }

    /// The text of the member `key`, if there is such a member and it is a string.
    pub open spec fn str_at(self, key: Seq<char>) -> Option<Seq<char>> {
        match self.get(key) {
            Some(v) => v.as_str(),
            None => None,
        }
    }

    /// The text of the member `key`; empty if there is no such string.
    pub open spec fn text_at(self, key: Seq<char>) -> Seq<char> {
        match self.str_at(key) {
            Some(s) => s,
            None => Seq::empty(),
        }
    }

    /// The value of the member `key`, if it is an integer from zero to `u64::MAX`.
    pub open spec fn u64_at(self, key: Seq<char>) -> Option<u64> {
        match self.get(key) {
            Some(v) => v.as_u64(),
            None => None,
        }
    }

    /// The member `inner` of the member `outer`.
    pub open spec fn get2(self, outer: Seq<char>, inner: Seq<char>) -> Option<JsonView> {
        match self.get(outer) {
            Some(v) => v.get(inner),
            None => None,
        }
    }

    /// The text of the member `inner` of the member `outer`, if it is a string.
    pub open spec fn str_at2(self, outer: Seq<char>, inner: Seq<char>) -> Option<Seq<char>> {
        match self.get(outer) {
            Some(v) => v.str_at(inner),
            None => None,
        }
    }

    /// The value of the member `inner` of the member `outer`, if it is an integer from
    /// zero to `u64::MAX`.
    pub open spec fn u64_at2(self, outer: Seq<char>, inner: Seq<char>) -> Option<u64> {
        match self.get(outer) {
            Some(v) => v.u64_at(inner),
            None => None,
        }
    }
}

/// The view of an optional reference to a value.
pub open spec fn json_option(v: Option<&Json>) -> Option<JsonView> {
    match v {
        Some(v) => Some(v@),
        None => None,
    }
}

/// The view of an optional value.
pub open spec fn value_option(v: Option<Json>) -> Option<JsonView> {
    match v {
        Some(v) => Some(v@),
        None => None,
    }
}

/// The views of values.
pub open spec fn json_views(values: Seq<Json>) -> Seq<JsonView> {
    values.map_values(|v: Json| v@)
}

/// The members that an object holds, as contracts see them.
pub open spec fn member_views(members: Seq<(String, Json)>) -> Seq<(Seq<char>, JsonView)> {
    members.map_values(|m: (String, Json)| (m.0@, m.1@))
}

/// An array is seen as the sequence of the views of its items.
pub proof fn lemma_array_view(items: Vec<Json>)
    ensures
        Json::Array(items)@ == JsonView::Array(json_views(items@)),
{
    reveal_with_fuel(<Json as View>::view, 2);
    assert(Json::Array(items)@->Array_0 =~= json_views(items@));
}

/// An object is seen as the sequence of its names and the views of their values.
pub proof fn lemma_object_view(members: Vec<(String, Json)>)
    ensures
        Json::Object(members)@ == JsonView::Object(member_views(members@)),
{
    reveal_with_fuel(<Json as View>::view, 2);
    assert(Json::Object(members)@->Object_0 =~= member_views(members@));
}

impl Json {
    /// The member `key`, if this is an object that has one.
    pub fn get(&self, key: &str) -> (r: Option<&Json>)
        ensures
            json_option(r) == self@.get(key@),
    {
        match self {
            Json::Object(members) => {
                let ghost all = member_views(members@);
                proof {
                    lemma_object_view(*members);
                }
                let mut i: usize = 0;
                assert(all.skip(0) =~= all);
                while i < members.len()
                    invariant
                        i <= members@.len(),
                        all == member_views(members@),
                        self@ == JsonView::Object(all),
                        member(all, key@) == member(all.skip(i as int), key@),
                    decreases members@.len() - i,
                {
                    assert(all.skip(i as int).first() == all[i as int]);
                    if same(members[i].0.as_str(), key) {
                        return Some(&members[i].1);
                    }
                    assert(all.skip(i as int).drop_first() =~= all.skip(i + 1));
                    i += 1;
                }
                None
            },
            _ => None,
        }
    }

    /// The text, if this is a string.
    pub fn as_str(&self) -> (r: Option<&String>)
        ensures
            self@.as_str() == (match r {
                Some(s) => Some(s@),
                None => None,
            }),
    {
        match self {
            Json::Str(s) => Some(s),
            _ => None,
        }
    }

    /// The value, if this is an integer from zero to `u64::MAX`.
    pub fn as_u64(&self) -> (r: Option<u64>)
        ensures
            r == self@.as_u64(),
    {
        match self {
            Json::Number(n) => n.unsigned,
            _ => None,
        }
    }

    /// The number written out, if this is a number.
    pub fn as_number_text(&self) -> (r: Option<String>)
        ensures
            text_option(r) == self@.as_number_text(),
    {
        match self {
            Json::Number(n) => Some(n.text.clone()),
            _ => None,
        }
    }

    /// The truth value, if this is one.
    pub fn as_bool(&self) -> (r: Option<bool>)
        ensures
            r == self@.as_bool(),
    {
        match self {
            Json::Bool(b) => Some(*b),
            _ => None,
        }
    }

    /// The items, if this is an array.
    pub fn as_array(&self) -> (r: Option<&Vec<Json>>)
        ensures
            self@.items() == (match r {
                Some(items) => json_views(items@),
                None => Seq::empty(),
            }),
            r is Some <==> self@ is Array,
    {
        match self {
            Json::Array(items) => {
                proof {
                    lemma_array_view(*items);
                }
                Some(items)
            },
            _ => None,
        }
    }

    /// The text of the member `key`, if there is such a member and it is a string.
    pub fn str_at(&self, key: &str) -> (r: Option<String>)
        ensures
            text_option(r) == self@.str_at(key@),
    {
        match self.get(key) {
            Some(v) => match v.as_str() {
                Some(s) => Some(s.clone()),
                None => None,
            },
            None => None,
        }
    }

    /// The text of the member `key`; empty if there is no such string.
    pub fn text_at(&self, key: &str) -> (r: String)
        ensures
            r@ == self@.text_at(key@),
    {
        match self.str_at(key) {
            Some(s) => s,
            None => String::new(),
        }
    }

    /// The value of the member `key`, if it is an integer from zero to `u64::MAX`.
    pub fn u64_at(&self, key: &str) -> (r: Option<u64>)
        ensures
            r == self@.u64_at(key@),
    {
        match self.get(key) {
            Some(v) => v.as_u64(),
            None => None,
        }
    }

    /// The member `inner` of the member `outer`.
    pub fn get2(&self, outer: &str, inner: &str) -> (r: Option<&Json>)
        ensures
            json_option(r) == self@.get2(outer@, inner@),
    {
        match self.get(outer) {
            Some(v) => v.get(inner),
            None => None,
        }
    }

    /// The text of the member `inner` of the member `outer`, if it is a string.
    pub fn str_at2(&self, outer: &str, inner: &str) -> (r: Option<String>)
        ensures
            text_option(r) == self@.str_at2(outer@, inner@),
    {
        match self.get(outer) {
            Some(v) => v.str_at(inner),
            None => None,
        }
    }

    /// The value of the member `inner` of the member `outer`, if it is an integer from
    /// zero to `u64::MAX`.
    pub fn u64_at2(&self, outer: &str, inner: &str) -> (r: Option<u64>)
        ensures
            r == self@.u64_at2(outer@, inner@),
    {
        match self.get(outer) {
            Some(v) => v.u64_at(inner),
            None => None,
        }
    }
}

/// A value of `serde_json`.
#[verifier::external_type_specification]
#[verifier::external_body]
pub struct ExValue(serde_json::Value);

/// What a `serde_json::Value` holds: its items or members, and theirs in turn, down to
/// the texts, numbers and truth values.
pub uninterp spec fn value_contents(value: serde_json::Value) -> JsonView;

/// What `serde_json::from_str` reads from a text; `None` where it reports an error.
pub uninterp spec fn json_text(text: Seq<char>) -> Option<JsonView>;

/// One level of a `serde_json::Value`.
enum ValueNode<'a> {
    Null,
    Bool(bool),
    Number(JsonNumber),
    Str(&'a String),
    Array(&'a Vec<serde_json::Value>),
    Object(Vec<(&'a String, &'a serde_json::Value)>),
}

/// `serde_json::from_str`, asked for a `serde_json::Value`: whether `text` is JSON, and
/// if it is, the value. What it reads is named.
#[verifier::external_body]
fn read_value(text: &str) -> (r: Option<serde_json::Value>)
    ensures
        json_text(text@) == (match r {
            Some(value) => Some(value_contents(value)),
            None => None,
        }),
{
    serde_json::from_str::<serde_json::Value>(text).ok()
}

/// Opens one level of a `serde_json::Value`, variant by variant. A number is taken over
/// as what `Number::as_u64` says of it and as its `Display` text; the members of an
/// object come in the order of `serde_json::Map`.
#[verifier::external_body]
fn open_value<'a>(value: &'a serde_json::Value) -> (r: ValueNode<'a>)
    ensures
        match r {
            ValueNode::Null => value_contents(*value) == JsonView::Null,
            ValueNode::Bool(b) => value_contents(*value) == JsonView::Bool(b),
            ValueNode::Number(n) => value_contents(*value) == (JsonView::Number {
                unsigned: n.unsigned,
                text: n.text@,
            }),
            ValueNode::Str(s) => value_contents(*value) == JsonView::Str(s@),
            ValueNode::Array(items) => value_contents(*value) == JsonView::Array(
                items@.map_values(|v: serde_json::Value| value_contents(v)),
            ),
            ValueNode::Object(members) => value_contents(*value) == JsonView::Object(
                members@.map_values(
                    |m: (&String, &serde_json::Value)| (m.0@, value_contents(*m.1)),
                ),
            ),
        },
{
    match value {
        serde_json::Value::Null => ValueNode::Null,
        serde_json::Value::Bool(b) => ValueNode::Bool(*b),
        serde_json::Value::Number(n) => {
            ValueNode::Number(JsonNumber { unsigned: n.as_u64(), text: n.to_string() })
        },
        serde_json::Value::String(s) => ValueNode::Str(s),
        serde_json::Value::Array(items) => ValueNode::Array(items),
        serde_json::Value::Object(members) => ValueNode::Object(members.iter().collect()),
    }
}

/// Takes a `serde_json::Value` over into a [`Json`].
fn json_of_value(value: &serde_json::Value) -> (r: Json)
    ensures
        r@ == value_contents(*value),
    decreases value_contents(*value),
{
    match open_value(value) {
        ValueNode::Null => Json::Null,
        ValueNode::Bool(b) => Json::Bool(b),
        ValueNode::Number(n) => Json::Number(n),
        ValueNode::Str(s) => Json::Str(s.clone()),
        ValueNode::Array(items) => {
            let mut out: Vec<Json> = Vec::new();
            let ghost contents = value_contents(*value)->Array_0;
            let mut i: usize = 0;
            while i < items.len()
                invariant
                    i == out@.len() <= items@.len(),
                    value_contents(*value) == JsonView::Array(contents),
                    contents == items@.map_values(|v: serde_json::Value| value_contents(v)),
                    forall|k: int| 0 <= k < i ==> #[trigger] out@[k]@ == contents[k],
                decreases items@.len() - i,
            {
                assert(contents[i as int] == value_contents(items@[i as int]));
                assert(decreases_to!(value_contents(*value) => value_contents(*value)->Array_0));
                assert(decreases_to!(contents => contents[i as int]));
                out.push(json_of_value(&items[i]));
                i += 1;
            }
            proof {
                lemma_array_view(out);
                assert(json_views(out@) =~= contents);
            }
            Json::Array(out)
        },
        ValueNode::Object(members) => {
            let mut out: Vec<(String, Json)> = Vec::new();
            let ghost contents = value_contents(*value)->Object_0;
            let mut i: usize = 0;
            while i < members.len()
                invariant
                    i == out@.len() <= members@.len(),
                    value_contents(*value) == JsonView::Object(contents),
                    contents == members@.map_values(
                        |m: (&String, &serde_json::Value)| (m.0@, value_contents(*m.1)),
                    ),
                    forall|k: int|
                        0 <= k < i ==> (#[trigger] out@[k].0@, out@[k].1@) == contents[k],
                decreases members@.len() - i,
            {
                assert(contents[i as int] == (
                    members@[i as int].0@,
                    value_contents(*members@[i as int].1),
                ));
                assert(decreases_to!(value_contents(*value) => value_contents(*value)->Object_0));
                assert(decreases_to!(contents => contents[i as int]));
                assert(decreases_to!(contents[i as int] => contents[i as int].1));
                out.push((members[i].0.clone(), json_of_value(members[i].1)));
                i += 1;
            }
            proof {
                lemma_object_view(out);
                assert(member_views(out@) =~= contents);
            }
            Json::Object(out)
        },
    }
}

/// Reads a JSON text; `None` if it is none.
pub fn parse_json(text: &str) -> (r: Option<Json>)
    ensures
        value_option(r) == json_text(text@),
{
    match read_value(text) {
        Some(value) => Some(json_of_value(&value)),
        None => None,
    }
}

} // verus!

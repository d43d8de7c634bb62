//! JSON documents as plain values.
//!
//! Parsing is left to `serde_json`; what comes back is copied into [`Json`],
//! which the rest of the crate reads.

use crate::text::str_eq;
use vstd::prelude::*;

verus! {

/// `serde_json::Value`, which is only handed from the parser to the copy
/// into [`Json`]; nothing is known of what it holds.
#[verifier::external_type_specification]
#[verifier::external_body]
pub struct ExValue(serde_json::Value);

/// A JSON document.
#[derive(Debug, PartialEq, Eq)]
pub enum Json {
    Null,
    Bool(bool),
    /// A number, kept as a signed 64-bit integer when it is one.
    Number(Option<i64>),
    Str(String),
    Array(Vec<Json>),
    /// The members of an object, in the order in which the parser hands
    /// them out.
    Object(Vec<(String, Json)>),
}

/// The mathematical content of a [`Json`].
pub enum JsonView {
    Null,
    Bool(bool),
    Number(Option<i64>),
    Str(Seq<char>),
    Array(Seq<JsonView>),
    Object(Seq<(Seq<char>, JsonView)>),
}

/// What a document holds.
pub open spec fn json_view(j: Json) -> JsonView
    decreases j,
{
    match j {
        Json::Null => JsonView::Null,
        Json::Bool(b) => JsonView::Bool(b),
        Json::Number(n) => JsonView::Number(n),
        Json::Str(s) => JsonView::Str(s@),
        Json::Array(items) => JsonView::Array(
            Seq::new(
                items@.len(),
                |i: int|
                    if 0 <= i < items@.len() {
                        json_view(items@[i])
                    } else {
                        JsonView::Null
                    },
            ),
        ),
        Json::Object(fields) => JsonView::Object(
            Seq::new(
                fields@.len(),
                |i: int|
                    if 0 <= i < fields@.len() {
                        (fields@[i].0@, json_view(fields@[i].1))
                    } else {
                        (Seq::empty(), JsonView::Null)
                    },
            ),
        ),
    }
}

impl DeepView for Json {
    type V = JsonView;

    open spec fn deep_view(&self) -> JsonView {
        json_view(*self)
    }
}

/// An array holds what its elements hold, in their order.
pub proof fn lemma_array_view(items: Vec<Json>)
    ensures
        Json::Array(items).deep_view() == JsonView::Array(items.deep_view()),
{
    let whole = json_view(Json::Array(items));
    assert(whole is Array);
    let shown = whole->Array_0;
    assert forall|i: int| 0 <= i < shown.len() implies shown[i] == #[trigger] items.deep_view()[i] by {
        assert(items.deep_view()[i] == items@[i].deep_view());
    }
    assert(shown =~= items.deep_view());
}

/// An object holds what its members hold, in their order.
pub proof fn lemma_object_view(fields: Vec<(String, Json)>)
    ensures
        Json::Object(fields).deep_view() == JsonView::Object(fields.deep_view()),
{
    let whole = json_view(Json::Object(fields));
    assert(whole is Object);
    let shown = whole->Object_0;
    assert forall|i: int| 0 <= i < shown.len() implies shown[i] == #[trigger] fields.deep_view()[i] by {
        assert(fields.deep_view()[i] == fields@[i].deep_view());
    }
    assert(shown =~= fields.deep_view());
}

/// What `serde_json::from_str` reads from a text; `None` when the text is no
/// JSON document. A number is kept as `serde_json::Value::as_i64` gives it,
/// the members of an object in the order of `serde_json::Map::iter`.
pub uninterp spec fn json_of(text: Seq<char>) -> Option<JsonView>;

/// Copies a `serde_json::Value` into a [`Json`], variant by variant. A number
/// keeps what `serde_json::Value::as_i64` gives for it; the members of an
/// object come in the order in which `serde_json::Map::iter` yields them.
#[verifier::external_body]
fn from_value(v: &serde_json::Value) -> Json {
    match v {
        serde_json::Value::Null => Json::Null,
        serde_json::Value::Bool(b) => Json::Bool(*b),
        serde_json::Value::Number(_) => Json::Number(v.as_i64()),
        serde_json::Value::String(s) => Json::Str(s.clone()),
        serde_json::Value::Array(a) => Json::Array(a.iter().map(from_value).collect()),
        serde_json::Value::Object(m) => Json::Object(
            m.iter().map(|(k, x)| (k.clone(), from_value(x))).collect(),
        ),
    }
}

/// Calls `serde_json::from_str` to read one JSON document from `text`. What
/// the document holds depends on the text alone; it is named, not described.
#[verifier::external_body]
pub(crate) fn parse_json(text: &str) -> (r: Option<Json>)
    ensures
        r.deep_view() == json_of(text@),
{
    match serde_json::from_str::<serde_json::Value>(text) {
        Ok(v) => Some(from_value(&v)),
        Err(_) => None,
    }
}

/// The value of the first member called `key`.
pub open spec fn member(fields: Seq<(Seq<char>, JsonView)>, key: Seq<char>) -> Option<JsonView>
    decreases fields.len(),
{
    if fields.len() == 0 {
        None
    } else if fields[0].0 == key {
        Some(fields[0].1)
    } else {
        member(fields.drop_first(), key)
    }
}

impl JsonView {
    /// The element at position `i` of an array.
    pub open spec fn at(self, i: int) -> Option<JsonView> {
        match self {
            JsonView::Array(items) => if 0 <= i < items.len() {
                Some(items[i])
            } else {
                None
            },
            _ => None,
        }
    }

    /// The member called `key` of an object.
    pub open spec fn field(self, key: Seq<char>) -> Option<JsonView> {
        match self {
            JsonView::Object(fields) => member(fields, key),
            _ => None,
        }
    }

    /// The text of a string.
    pub open spec fn text(self) -> Option<Seq<char>> {
        match self {
            JsonView::Str(s) => Some(s),
            _ => None,
        }
    }

    /// The text of a string, or `fallback` for anything else.
    pub open spec fn text_or(self, fallback: Seq<char>) -> Seq<char> {
        match self {
            JsonView::Str(s) => s,
            _ => fallback,
        }
    }

    /// The value of an integer that fits 64 bits.
    pub open spec fn integer(self) -> Option<i64> {
        match self {
            JsonView::Number(n) => n,
            _ => None,
        }
    }

    /// The elements of an array; none for anything else.
    pub open spec fn elements(self) -> Seq<JsonView> {
        match self {
            JsonView::Array(items) => items,
            _ => Seq::empty(),
        }
    }
}

fn lookup<'a>(fields: &'a Vec<(String, Json)>, key: &str) -> (r: Option<&'a Json>)
    ensures
        r.deep_view() == member(fields.deep_view(), key@),
{
    let ghost all = fields.deep_view();
    let mut i: usize = 0;
    proof {
        assert(all.skip(0) =~= all);
    }
    while i < fields.len()
        invariant
            i <= fields.len(),
            all == fields.deep_view(),
            member(all, key@) == member(all.skip(i as int), key@),
        decreases fields.len() - i,
    {
        proof {
            assert(all.skip(i as int)[0] == fields@[i as int].deep_view());
            assert(all.skip(i as int).drop_first() =~= all.skip(i as int + 1));
        }
        if str_eq(fields[i].0.as_str(), key) {
            return Some(&fields[i].1);
        }
        i += 1;
    }
    None
}

impl Json {
    /// Whether the document is `null`.
    pub fn is_null(&self) -> (r: bool)
        ensures
            r == (self.deep_view() is Null),
    {
        match self {
            Json::Null => true,
            _ => false,
        }
    }

    /// The elements of an array.
    pub fn items(&self) -> (r: Option<&Vec<Json>>)
        ensures
            match r {
                Some(items) => self.deep_view() == JsonView::Array(items.deep_view()),
                None => !(self.deep_view() is Array),
            },
    {
        match self {
            Json::Array(items) => {
                proof {
                    lemma_array_view(*items);
                }
                Some(items)
            },
            _ => None,
        }
    }

    /// The members of an object.
    pub fn members(&self) -> (r: Option<&Vec<(String, Json)>>)
        ensures
            match r {
                Some(fields) => self.deep_view() == JsonView::Object(fields.deep_view()),
                None => !(self.deep_view() is Object),
            },
    {
        match self {
            Json::Object(fields) => {
                proof {
                    lemma_object_view(*fields);
                }
                Some(fields)
            },
            _ => None,
        }
    }

    /// The element at position `i` of an array.
    pub fn get_index(&self, i: usize) -> (r: Option<&Json>)
        ensures
            r.deep_view() == self.deep_view().at(i as int),
    {
        match self.items() {
            Some(items) => if i < items.len() {
                Some(&items[i])
            } else {
                None
            },
            None => None,
        }
    }

    /// The member called `key` of an object.
    pub fn get(&self, key: &str) -> (r: Option<&Json>)
        ensures
            r.deep_view() == self.deep_view().field(key@),
    {
        match self.members() {
            Some(fields) => lookup(fields, key),
            None => None,
        }
    }

    /// The text of a string.
    pub fn as_str(&self) -> (r: Option<&String>)
        ensures
            r.deep_view() == self.deep_view().text(),
    {
        match self {
            Json::Str(s) => Some(s),
            _ => None,
        }
    }

    /// The value of an integer that fits 64 bits.
    pub fn as_i64(&self) -> (r: Option<i64>)
        ensures
            r == self.deep_view().integer(),
    {
        match self {
            Json::Number(n) => *n,
            _ => None,
        }
    }
}

/// The member `key` of `doc`, when `doc` is there and has it.
pub open spec fn field_of(doc: Option<JsonView>, key: Seq<char>) -> Option<JsonView> {
    match doc {
        Some(j) => j.field(key),
        None => None,
    }
}

/// The text of `doc`, or `fallback` when `doc` is missing or no string.
pub open spec fn text_of(doc: Option<JsonView>, fallback: Seq<char>) -> Seq<char> {
    match doc {
        Some(j) => j.text_or(fallback),
        None => fallback,
    }
}

/// The integer in `doc`, or `fallback` when `doc` is missing or no such
/// integer.
pub open spec fn integer_of(doc: Option<JsonView>, fallback: i64) -> i64 {
    match doc {
        Some(j) => match j.integer() {
            Some(n) => n,
            None => fallback,
        },
        None => fallback,
    }
}

/// The elements of `doc`, none when `doc` is missing or no array.
pub open spec fn elements_of(doc: Option<JsonView>) -> Seq<JsonView> {
    match doc {
        Some(j) => j.elements(),
        None => Seq::empty(),
    }
}

/// The text of the member `key` of `doc`, when there is such a member and it
/// is a string.
pub open spec fn text_at(doc: JsonView, key: Seq<char>) -> Option<Seq<char>> {
    match doc.field(key) {
        Some(j) => j.text(),
        None => None,
    }
}

/// The member `key` of `doc`, when `doc` is there and has it.
pub fn get_in<'a>(doc: Option<&'a Json>, key: &str) -> (r: Option<&'a Json>)
    ensures
        r.deep_view() == field_of(doc.deep_view(), key@),
{
    match doc {
        Some(j) => j.get(key),
        None => None,
    }
}

/// The text of `doc`, or `fallback` when `doc` is missing or no string.
pub fn text_or(doc: Option<&Json>, fallback: String) -> (r: String)
    ensures
        r@ == text_of(doc.deep_view(), fallback@),
{
    match doc {
        Some(Json::Str(s)) => s.clone(),
        _ => fallback,
    }
}

/// The integer in `doc`, or `fallback` when `doc` is missing or no such
/// integer.
pub fn integer_or(doc: Option<&Json>, fallback: i64) -> (r: i64)
    ensures
        r == integer_of(doc.deep_view(), fallback),
{
    match doc {
        Some(Json::Number(Some(n))) => *n,
        _ => fallback,
    }
}

/// The text of the member `key` of `doc`, when there is such a member and it
/// is a string.
pub fn text_member(doc: &Json, key: &str) -> (r: Option<String>)
    ensures
        r.deep_view() == text_at(doc.deep_view(), key@),
{
    match doc.get(key) {
        Some(Json::Str(s)) => Some(s.clone()),
        _ => None,
    }
}

} // verus!

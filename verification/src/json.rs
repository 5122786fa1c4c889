//! JSON documents of the `serde_json` crate, and what they hold.

use vstd::prelude::*;

use crate::text::{same, view_option, views};

verus! {

broadcast use vstd::string::group_string_axioms;

/// What a JSON document holds.
pub enum Json {
    Null,
    Bool(bool),
    /// A number without a fraction or exponent, of 64 bits.
    Integer(int),
    /// Any other number, by the bits of its value; both zeros have the bits of zero.
    Real(u64),
    Text(Seq<char>),
    Array(Seq<Json>),
    Object(Map<Seq<char>, Json>),
}

impl Json {
    /// The member of an object.
    pub open spec fn member(self, key: Seq<char>) -> Option<Json> {
        match self {
            Json::Object(m) => if m.dom().contains(key) {
                Some(m[key])
            } else {
                None
            },
            _ => None,
        }
    }

    /// The text of a string.
    pub open spec fn text(self) -> Option<Seq<char>> {
        match self {
            Json::Text(s) => Some(s),
            _ => None,
        }
    }

    /// The truth value of a boolean.
    pub open spec fn truth(self) -> Option<bool> {
        match self {
            Json::Bool(b) => Some(b),
            _ => None,
        }
    }

    /// The value of an unsigned integer.
    pub open spec fn unsigned(self) -> Option<u64> {
        match self {
            Json::Integer(i) => if 0 <= i <= u64::MAX {
                Some(i as u64)
            } else {
                None
            },
            _ => None,
        }
    }

    /// The elements of an array.
    pub open spec fn items(self) -> Option<Seq<Json>> {
        match self {
            Json::Array(s) => Some(s),
            _ => None,
        }
    }

    /// The text of a member.
    pub open spec fn text_member(self, key: Seq<char>) -> Option<Seq<char>> {
        match self.member(key) {
            Some(v) => v.text(),
            None => None,
        }
    }

    /// The truth value of a member.
    pub open spec fn truth_member(self, key: Seq<char>) -> Option<bool> {
        match self.member(key) {
            Some(v) => v.truth(),
            None => None,
        }
    }

    /// An object with one member more, or with that member replaced; any other document
    /// stays as it is.
    pub open spec fn with_member(self, key: Seq<char>, value: Json) -> Json {
        match self {
            Json::Object(m) => Json::Object(m.insert(key, value)),
            _ => self,
        }
    }

    /// An object with the members of another one; any other document stays as it is.
    pub open spec fn merged(self, other: Json) -> Json {
        match (self, other) {
            (Json::Object(m), Json::Object(n)) => Json::Object(m.union_prefer_right(n)),
            _ => self,
        }
    }

    /// The text of a member, where it is one; null counts as absent, and any other value
    /// is neither.
    pub open spec fn extract(self, key: Seq<char>) -> Extract {
        match self.member(key) {
            None => Extract::Absent,
            Some(Json::Null) => Extract::Absent,
            Some(Json::Text(s)) => Extract::Text(s),
            Some(_) => Extract::Other,
        }
    }

    /// An object without a member; any other document stays as it is.
    pub open spec fn without_member(self, key: Seq<char>) -> Json {
        match self {
            Json::Object(m) => Json::Object(m.remove(key)),
            _ => self,
        }
    }
}

/// What a member of an object is to a comparison with a text.
pub enum Extract {
    Absent,
    Text(Seq<char>),
    Other,
}

/// A list of texts.
pub open spec fn texts_json(list: Seq<Seq<char>>) -> Json {
    Json::Array(Seq::new(list.len(), |i: int| Json::Text(list[i])))
}

/// The document type of the `serde_json` crate.
#[verifier::external_type_specification]
#[verifier::external_body]
pub struct ExValue(serde_json::Value);

/// What a document holds.
pub uninterp spec fn json_of(value: serde_json::Value) -> Json;

/// What a JSON text holds, where it is one.
pub uninterp spec fn json_text(bytes: Seq<u8>) -> Option<Json>;

/// What an optional document holds.
pub open spec fn json_option(o: Option<serde_json::Value>) -> Option<Json> {
    match o {
        Some(v) => Some(json_of(v)),
        None => None,
    }
}

/// `serde_json::from_slice` into a `Value`: the document that a JSON text writes.
#[verifier::external_body]
fn from_slice(bytes: &[u8]) -> (r: Option<serde_json::Value>)
    ensures
        json_option(r) == json_text(bytes@),
{
    serde_json::from_slice(bytes).ok()
}

/// `serde_json::Value::get` with a key: the member of an object, nothing for any other
/// document.
#[verifier::external_body]
fn get<'a>(value: &'a serde_json::Value, key: &str) -> (r: Option<&'a serde_json::Value>)
    ensures
        match r {
            Some(v) => json_of(*value).member(key@) == Some(json_of(*v)),
            None => json_of(*value).member(key@) is None,
        },
{
    value.get(key)
}

/// `serde_json::Value::as_str`: the text of a string.
#[verifier::external_body]
fn as_str(value: &serde_json::Value) -> (r: Option<String>)
    ensures
        view_option(r) == json_of(*value).text(),
{
    value.as_str().map(|s| s.to_owned())
}

/// `serde_json::Value::as_bool`: the truth value of a boolean.
#[verifier::external_body]
fn as_bool(value: &serde_json::Value) -> (r: Option<bool>)
    ensures
        r == json_of(*value).truth(),
{
    value.as_bool()
}

/// `serde_json::Value::as_u64`: the value of an unsigned integer.
#[verifier::external_body]
fn as_u64(value: &serde_json::Value) -> (r: Option<u64>)
    ensures
        r == json_of(*value).unsigned(),
{
    value.as_u64()
}

/// `serde_json::Value::as_array`: the elements of an array.
#[verifier::external_body]
fn as_array(value: &serde_json::Value) -> (r: Option<&Vec<serde_json::Value>>)
    ensures
        match r {
            Some(v) => json_of(*value).items() matches Some(s) && s.len() == v@.len() && forall|
                i: int,
            |
                0 <= i < v@.len() ==> json_of(#[trigger] v@[i]) == s[i],
            None => json_of(*value).items() is None,
        },
{
    value.as_array()
}

/// `serde_json::Value::is_null`: whether the document is null.
#[verifier::external_body]
fn is_null(value: &serde_json::Value) -> (r: bool)
    ensures
        r == (json_of(*value) == Json::Null),
{
    value.is_null()
}

/// `serde_json::Value::is_object`: whether the document is an object.
#[verifier::external_body]
fn is_object(value: &serde_json::Value) -> (r: bool)
    ensures
        r == (json_of(*value) matches Json::Object(_)),
{
    value.is_object()
}

/// The `Clone` of `serde_json::Value`: a document that holds the same.
#[verifier::external_body]
fn clone_value(value: &serde_json::Value) -> (r: serde_json::Value)
    ensures
        json_of(r) == json_of(*value),
{
    value.clone()
}

/// `serde_json::Map::insert` on the object of a document: sets a member.
#[verifier::external_body]
fn insert(value: &mut serde_json::Value, key: &str, member: serde_json::Value)
    ensures
        json_of(*final(value)) == json_of(*old(value)).with_member(key@, json_of(member)),
{
    value.as_object_mut().map(|m| m.insert(key.to_owned(), member));
}

/// `serde_json::Map::remove` on the object of a document: removes a member.
#[verifier::external_body]
fn remove(value: &mut serde_json::Value, key: &str)
    ensures
        json_of(*final(value)) == json_of(*old(value)).without_member(key@),
{
    value.as_object_mut().map(|m| m.remove(key));
}

/// The `==` of `serde_json::Value`: whether two documents hold the same. Numbers are equal
/// where both are whole numbers or both are not and their values are equal; the order of
/// an object's members does not matter.
#[verifier::external_body]
fn equal(a: &serde_json::Value, b: &serde_json::Value) -> (r: bool)
    ensures
        r == (json_of(*a) == json_of(*b)),
{
    a == b
}

/// `serde_json::Map::extend` on the objects of two documents: sets all members of the
/// second in the first.
#[verifier::external_body]
fn extend(value: &mut serde_json::Value, more: &serde_json::Value)
    ensures
        json_of(*final(value)) == json_of(*old(value)).merged(json_of(*more)),
{
    if let (Some(target), Some(source)) = (value.as_object_mut(), more.as_object()) {
        target.extend(source.clone());
    }
}

/// `serde_json::Value::String`: the document that is a text.
#[verifier::external_body]
fn string_value(text: &str) -> (r: serde_json::Value)
    ensures
        json_of(r) == Json::Text(text@),
{
    serde_json::Value::String(text.to_owned())
}

/// `serde_json::Value::Bool`: the document that is a truth value.
#[verifier::external_body]
fn bool_value(b: bool) -> (r: serde_json::Value)
    ensures
        json_of(r) == Json::Bool(b),
{
    serde_json::Value::Bool(b)
}

/// `serde_json::Map::new`: the object without members.
#[verifier::external_body]
fn empty_object() -> (r: serde_json::Value)
    ensures
        json_of(r) == Json::Object(Map::empty()),
{
    serde_json::Value::Object(serde_json::Map::new())
}

/// `serde_json::Value::Array`: the document that is a list.
#[verifier::external_body]
fn array_value(items: Vec<serde_json::Value>) -> (r: serde_json::Value)
    ensures
        json_of(r) matches Json::Array(s) && s.len() == items@.len() && forall|i: int|
            0 <= i < items@.len() ==> json_of(#[trigger] items@[i]) == s[i],
{
    serde_json::Value::Array(items)
}

/// A JSON document.
#[derive(Debug, PartialEq, Eq)]
pub struct Document {
    value: serde_json::Value,
}

impl View for Document {
    type V = Json;

    closed spec fn view(&self) -> Json {
        json_of(self.value)
    }
}

impl Clone for Document {
    fn clone(&self) -> (r: Document)
        ensures
            r@ == self@,
    {
        Document { value: clone_value(&self.value) }
    }
}

impl Document {
    /// A document of the `serde_json` crate.
    pub fn from_value(value: serde_json::Value) -> (r: Document)
        ensures
            r@ == json_of(value),
    {
        Document { value }
    }

    /// The document of the `serde_json` crate.
    pub fn value(&self) -> (r: &serde_json::Value)
        ensures
            json_of(*r) == self@,
    {
        &self.value
    }

    /// The document that a JSON text writes.
    pub fn parse(bytes: &[u8]) -> (r: Option<Document>)
        ensures
            match r {
                Some(d) => json_text(bytes@) == Some(d@),
                None => json_text(bytes@) is None,
            },
    {
        match from_slice(bytes) {
            Some(value) => Some(Document { value }),
            None => None,
        }
    }

    /// The object without members.
    pub fn object() -> (r: Document)
        ensures
            r@ == Json::Object(Map::empty()),
    {
        Document { value: empty_object() }
    }

    /// The document that is a text.
    pub fn text(s: &str) -> (r: Document)
        ensures
            r@ == Json::Text(s@),
    {
        Document { value: string_value(s) }
    }

    /// The document that is a truth value.
    pub fn truth(b: bool) -> (r: Document)
        ensures
            r@ == Json::Bool(b),
    {
        Document { value: bool_value(b) }
    }

    /// The document that is a list of texts.
    pub fn texts(list: &Vec<String>) -> (r: Document)
        ensures
            r@ == texts_json(views(list@)),
    {
        let mut items: Vec<serde_json::Value> = Vec::new();
        let mut i: usize = 0;
        while i < list.len()
            invariant
                i <= list@.len(),
                items@.len() == i,
                forall|j: int|
                    0 <= j < i ==> json_of(#[trigger] items@[j]) == Json::Text(list@[j]@),
            decreases list@.len() - i,
        {
            items.push(string_value(list[i].as_str()));
            i = i + 1;
        }
        let ghost held = items@;
        let value = array_value(items);
        proof {
            let s = json_of(value)->Array_0;
            assert forall|k: int| 0 <= k < list@.len() implies #[trigger] s[k] == Json::Text(
                list@[k]@,
            ) by {
                assert(json_of(held[k]) == s[k]);
            }
            assert(s =~= texts_json(views(list@))->Array_0);
        }
        Document { value }
    }

    /// Whether the document is an object.
    pub fn is_object(&self) -> (r: bool)
        ensures
            r == (self@ matches Json::Object(_)),
    {
        is_object(&self.value)
    }

    /// Whether the document is null.
    pub fn is_null(&self) -> (r: bool)
        ensures
            r == (self@ == Json::Null),
    {
        is_null(&self.value)
    }

    /// Whether an object has a member.
    pub fn has(&self, key: &str) -> (r: bool)
        ensures
            r == (self@.member(key@) is Some),
    {
        get(&self.value, key).is_some()
    }

    /// A copy of the member of an object.
    pub fn member(&self, key: &str) -> (r: Option<Document>)
        ensures
            match r {
                Some(d) => self@.member(key@) == Some(d@),
                None => self@.member(key@) is None,
            },
    {
        match get(&self.value, key) {
            Some(v) => Some(Document { value: clone_value(v) }),
            None => None,
        }
    }

    /// The text of a member.
    pub fn text_member(&self, key: &str) -> (r: Option<String>)
        ensures
            view_option(r) == self@.text_member(key@),
    {
        match get(&self.value, key) {
            Some(v) => as_str(v),
            None => None,
        }
    }

    /// The truth value of a member.
    pub fn truth_member(&self, key: &str) -> (r: Option<bool>)
        ensures
            r == self@.truth_member(key@),
    {
        match get(&self.value, key) {
            Some(v) => as_bool(v),
            None => None,
        }
    }

    /// The unsigned integer in a member.
    pub fn unsigned_member(&self, key: &str) -> (r: Option<u64>)
        ensures
            r == match self@.member(key@) {
                Some(v) => v.unsigned(),
                None => None,
            },
    {
        match get(&self.value, key) {
            Some(v) => as_u64(v),
            None => None,
        }
    }

    /// Copies of the elements of an array; none for any other document.
    pub fn elements(&self) -> (r: Vec<Document>)
        ensures
            match self@.items() {
                Some(s) => r@.len() == s.len() && forall|i: int|
                    0 <= i < r@.len() ==> (#[trigger] r@[i])@ == s[i],
                None => r@.len() == 0,
            },
    {
        let mut r: Vec<Document> = Vec::new();
        match as_array(&self.value) {
            None => {},
            Some(items) => {
                let ghost s = self@.items()->0;
                let mut i: usize = 0;
                while i < items.len()
                    invariant
                        i <= items@.len(),
                        s.len() == items@.len(),
                        r@.len() == i,
                        forall|j: int| 0 <= j < items@.len() ==> json_of(#[trigger] items@[j]) == s[j],
                        forall|j: int| 0 <= j < i ==> (#[trigger] r@[j])@ == s[j],
                    decreases items@.len() - i,
                {
                    r.push(Document { value: clone_value(&items[i]) });
                    i = i + 1;
                }
            },
        }
        r
    }

    /// Sets a member of an object.
    pub fn set(&mut self, key: &str, member: Document)
        ensures
            final(self)@ == old(self)@.with_member(key@, member@),
    {
        insert(&mut self.value, key, member.value);
    }

    /// Whether two documents hold the same.
    pub fn same(&self, other: &Document) -> (r: bool)
        ensures
            r == (self@ == other@),
    {
        equal(&self.value, &other.value)
    }

    /// Sets all members of another object in this one.
    pub fn merge(&mut self, other: &Document)
        ensures
            final(self)@ == old(self)@.merged(other@),
    {
        extend(&mut self.value, &other.value);
    }

    /// Whether a member is the given text.
    pub fn extract_is(&self, key: &str, text: &str) -> (r: bool)
        ensures
            r == (self@.extract(key@) == Extract::Text(text@)),
    {
        match self.text_member(key) {
            Some(s) => crate::text::same(s.as_str(), text),
            None => false,
        }
    }

    /// Whether a member is absent or null.
    pub fn extract_is_absent(&self, key: &str) -> (r: bool)
        ensures
            r == (self@.extract(key@) == Extract::Absent),
    {
        match self.member(key) {
            Some(v) => v.is_null(),
            None => true,
        }
    }

    /// Removes a member of an object.
    pub fn unset(&mut self, key: &str)
        ensures
            final(self)@ == old(self)@.without_member(key@),
    {
        remove(&mut self.value, key);
    }
}

/// What a change of an object makes of its members: the one that is set holds the value, the
/// one that is taken out is gone, and every other stays. Of two objects that are merged the
/// second one prevails. Only objects have members.
pub proof fn what_becomes_of_members(
    a: Map<Seq<char>, Json>,
    b: Map<Seq<char>, Json>,
    key: Seq<char>,
    other: Seq<char>,
    value: Json,
    plain: Json,
)
    requires
        key != other,
        !(plain is Object),
    ensures
        Json::Object(a).with_member(key, value).member(key) == Some(value),
        Json::Object(a).with_member(key, value).member(other) == Json::Object(a).member(other),
        Json::Object(a).without_member(key).member(key) is None,
        Json::Object(a).without_member(key).member(other) == Json::Object(a).member(other),
        Json::Object(b).member(key) is Some ==> Json::Object(a).merged(Json::Object(b)).member(key)
            == Json::Object(b).member(key),
        Json::Object(b).member(key) is None ==> Json::Object(a).merged(Json::Object(b)).member(key)
            == Json::Object(a).member(key),
        plain.member(key) is None,
        plain.with_member(key, value) == plain,
        plain.without_member(key) == plain,
{
}

/// What is read of a member is its text, its truth, or that it is not there; null counts as not
/// there, and anything else as neither.
pub proof fn what_is_read_of_a_member(
    a: Map<Seq<char>, Json>,
    key: Seq<char>,
    text: Seq<char>,
    truth: bool,
)
    ensures
        ({
            let j = Json::Object(a);
            let there = a.dom().contains(key);
            &&& j.extract(key) == Extract::Text(text) <==> there && a[key] == Json::Text(text)
            &&& j.extract(key) == Extract::Absent <==> !there || a[key] == Json::Null
            &&& j.text_member(key) == Some(text) <==> there && a[key] == Json::Text(text)
            &&& j.truth_member(key) == Some(truth) <==> there && a[key] == Json::Bool(truth)
        }),
{
}

/// A list of texts is an array with each of them in its place.
pub proof fn a_list_of_texts(list: Seq<Seq<char>>, i: int)
    requires
        0 <= i < list.len(),
    ensures
        texts_json(list).items() is Some,
        texts_json(list).items()->0.len() == list.len(),
        texts_json(list).items()->0[i] == Json::Text(list[i]),
{
}

} // verus!

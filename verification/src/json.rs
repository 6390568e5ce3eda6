//! JSON values as plain data.
use serde_json::Value;
use vstd::prelude::*;

use crate::text::str_eq;

verus! {

/// A JSON number: an integer, or the text of any other number.
#[derive(Clone, Debug, PartialEq, Eq)]
pub enum JsonNumber {
    Unsigned(u64),
    Negative(i64),
    Float(String),
}

/// A JSON value; the fields of an object stand in the order of their names.
#[derive(Debug, PartialEq, Eq)]
pub enum Json {
    Null,
    Bool(bool),
    Number(JsonNumber),
    Text(String),
    Array(Vec<Json>),
    Object(Vec<(String, Json)>),
}

pub enum JsonNumberView {
    Unsigned(u64),
    Negative(i64),
    Float(Seq<char>),
}

/// A JSON value with its texts as character sequences.
pub enum JsonView {
    Null,
    Bool(bool),
    Number(JsonNumberView),
    Text(Seq<char>),
    Array(Seq<JsonView>),
    Object(Seq<(Seq<char>, JsonView)>),
}

/// The fields of an object.
pub type Fields = Seq<(Seq<char>, JsonView)>;

impl View for JsonNumber {
    type V = JsonNumberView;

    open spec fn view(&self) -> JsonNumberView {
        match *self {
            JsonNumber::Unsigned(n) => JsonNumberView::Unsigned(n),
            JsonNumber::Negative(n) => JsonNumberView::Negative(n),
            JsonNumber::Float(text) => JsonNumberView::Float(text@),
        }
    }
}

pub open spec fn json_view(value: Json) -> JsonView
    decreases value,
{
    match value {
        Json::Null => JsonView::Null,
        Json::Bool(b) => JsonView::Bool(b),
        Json::Number(n) => JsonView::Number(n@),
        Json::Text(text) => JsonView::Text(text@),
        Json::Array(items) => JsonView::Array(
            Seq::new(
                items@.len(),
                |i: int|
                    if 0 <= i < items@.len() {
                        json_view(items@[i])
                    } else {
                        JsonView::Null
                    },
            ),
        ),
        Json::Object(fields) => JsonView::Object(
            Seq::new(
                fields@.len(),
                |i: int|
                    if 0 <= i < fields@.len() {
                        (fields@[i].0@, json_view(fields@[i].1))
                    } else {
                        (Seq::empty(), JsonView::Null)
                    },
            ),
        ),
    }
}

impl View for Json {
    type V = JsonView;

    open spec fn view(&self) -> JsonView {
        json_view(*self)
    }
}

impl JsonView {
    /// The field of this name, when the value is an object that has one.
    pub open spec fn field(self, name: Seq<char>) -> Option<JsonView> {
        match self {
            JsonView::Object(fields) => field_of(fields, name),
            _ => None,
        }
    }

    pub open spec fn as_text(self) -> Option<Seq<char>> {
        match self {
            JsonView::Text(text) => Some(text),
            _ => None,
        }
    }

    pub open spec fn as_bool(self) -> Option<bool> {
        match self {
            JsonView::Bool(b) => Some(b),
            _ => None,
        }
    }

    pub open spec fn as_u64(self) -> Option<u64> {
        match self {
            JsonView::Number(JsonNumberView::Unsigned(n)) => Some(n),
            _ => None,
        }
    }
}

/// The first field of this name.
pub open spec fn field_of(fields: Fields, name: Seq<char>) -> Option<JsonView>
    decreases fields.len(),
{
    if fields.len() == 0 {
        None
    } else if fields[0].0 == name {
        Some(fields[0].1)
    } else {
        field_of(fields.drop_first(), name)
    }
}

/// The text of a field, when it is one.
pub open spec fn text_field(value: JsonView, name: Seq<char>) -> Option<Seq<char>> {
    match value.field(name) {
        Some(found) => found.as_text(),
        None => None,
    }
}

pub open spec fn bool_field(value: JsonView, name: Seq<char>) -> Option<bool> {
    match value.field(name) {
        Some(found) => found.as_bool(),
        None => None,
    }
}

pub open spec fn integer_field(value: JsonView, name: Seq<char>) -> Option<u64> {
    match value.field(name) {
        Some(found) => found.as_u64(),
        None => None,
    }
}

impl Json {
    pub fn is_null(&self) -> (r: bool)
        ensures
            r == (self@ is Null),
    {
        match self {
            Json::Null => true,
            _ => false,
        }
    }

    pub fn is_object(&self) -> (r: bool)
        ensures
            r == (self@ is Object),
    {
        match self {
            Json::Object(_) => true,
            _ => false,
        }
    }

    pub fn as_str(&self) -> (r: Option<&str>)
        ensures
            r is Some == self@.as_text() is Some,
            r is Some ==> Some(r->0@) == self@.as_text(),
    {
        match self {
            Json::Text(text) => Some(text.as_str()),
            _ => None,
        }
    }

    pub fn as_bool(&self) -> (r: Option<bool>)
        ensures
            r == self@.as_bool(),
    {
        match self {
            Json::Bool(b) => Some(*b),
            _ => None,
        }
    }

    pub fn as_u64(&self) -> (r: Option<u64>)
        ensures
            r == self@.as_u64(),
    {
        match self {
            Json::Number(JsonNumber::Unsigned(n)) => Some(*n),
            _ => None,
        }
    }

    /// The field of this name, when the value is an object that has one.
    pub fn get(&self, name: &str) -> (r: Option<&Json>)
        ensures
            r is Some == self@.field(name@) is Some,
            r is Some ==> Some(r->0@) == self@.field(name@),
    {
        match self {
            Json::Object(fields) => {
                let ghost all = self@->Object_0;
                let mut i: usize = 0;
                assert(all.skip(0) =~= all);
                while i < fields.len()
                    invariant
                        *self == Json::Object(*fields),
                        all == self@->Object_0,
                        i <= fields@.len(),
                        field_of(all, name@) == field_of(all.skip(i as int), name@),
                    decreases fields@.len() - i,
                {
                    proof {
                        let rest = all.skip(i as int);
                        assert(rest[0] == all[i as int]);
                        assert(all[i as int] == (fields@[i as int].0@, fields@[i as int].1@));
                        assert(rest.drop_first() =~= all.skip(i + 1));
                    }
                    if str_eq(fields[i].0.as_str(), name) {
                        return Some(&fields[i].1);
                    }
                    i += 1;
                }
                assert(all.skip(i as int).len() == 0);
                None
            },
            _ => None,
        }
    }
}

/// The text of a field, when it is one.
pub fn get_text<'a>(value: &'a Json, name: &str) -> (r: Option<&'a str>)
    ensures
        r is Some == text_field(value@, name@) is Some,
        r is Some ==> Some(r->0@) == text_field(value@, name@),
{
    match value.get(name) {
        Some(found) => found.as_str(),
        None => None,
    }
}

pub fn get_bool(value: &Json, name: &str) -> (r: Option<bool>)
    ensures
        r == bool_field(value@, name@),
{
    match value.get(name) {
        Some(found) => found.as_bool(),
        None => None,
    }
}

pub fn get_integer(value: &Json, name: &str) -> (r: Option<u64>)
    ensures
        r == integer_field(value@, name@),
{
    match value.get(name) {
        Some(found) => found.as_u64(),
        None => None,
    }
}

// ---------------------------------------------------------------------------
// Outside calls
// ---------------------------------------------------------------------------
/// A value as `serde_json` holds it.
#[verifier::external_type_specification]
#[verifier::external_body]
pub struct ExValue(serde_json::Value);

/// What a `serde_json` value holds.
pub uninterp spec fn value_content(value: serde_json::Value) -> JsonView;

/// What `serde_json::from_slice` makes of some bytes: a value, or the text of its error.
pub uninterp spec fn parsed_json(bytes: Seq<u8>) -> Result<JsonView, Seq<char>>;

/// `serde_json::from_slice`: the value that the bytes spell, or why they spell none. Which
/// bytes spell which value is left to that function.
#[verifier::external_body]
pub(crate) fn read_value(bytes: &[u8]) -> (r: Result<serde_json::Value, String>)
    ensures
        match r {
            Ok(value) => parsed_json(bytes@) == Ok::<JsonView, Seq<char>>(value_content(value)),
            Err(message) => parsed_json(bytes@) == Err::<JsonView, Seq<char>>(message@),
        },
{
    serde_json::from_slice(bytes).map_err(|error| error.to_string())
}

/// Takes a `serde_json::Value` apart, variant by variant.
#[verifier::external_body]
pub(crate) fn from_value(value: &serde_json::Value) -> (r: Json)
    ensures
        r@ == value_content(*value),
{
    match value {
        Value::Null => Json::Null,
        Value::Bool(b) => Json::Bool(*b),
        Value::Number(n) => Json::Number(match (n.as_u64(), n.as_i64()) {
            (Some(unsigned), _) => JsonNumber::Unsigned(unsigned),
            (None, Some(negative)) => JsonNumber::Negative(negative),
            (None, None) => JsonNumber::Float(n.to_string()),
        }),
        Value::String(text) => Json::Text(text.clone()),
        Value::Array(items) => Json::Array(items.iter().map(from_value).collect()),
        Value::Object(fields) => Json::Object(
            fields.iter().map(|(name, field)| (name.clone(), from_value(field))).collect(),
        ),
    }
}

/// `serde_json::Value::get` with a text: the field of this name, when the value is an object that
/// has one.
#[verifier::external_body]
pub(crate) fn value_field<'a>(value: &'a serde_json::Value, name: &str) -> (r: Option<
    &'a serde_json::Value,
>)
    ensures
        r is Some == value_content(*value).field(name@) is Some,
        r is Some ==> Some(value_content(*r->0)) == value_content(*value).field(name@),
{
    value.get(name)
}

/// The entries of an object as names and contents.
pub open spec fn entries_content(entries: Seq<(&String, &serde_json::Value)>) -> Fields {
    Seq::new(entries.len(), |k: int| (entries[k].0@, value_content(*entries[k].1)))
}

/// `serde_json::Value::as_object` and the iterator over that map: the names and the values of an
/// object, in its order.
#[verifier::external_body]
pub(crate) fn value_entries<'a>(value: &'a serde_json::Value) -> (r: Option<
    Vec<(&'a String, &'a serde_json::Value)>,
>)
    ensures
        match r {
            Some(entries) => value_content(*value) == JsonView::Object(entries_content(entries@)),
            None => !(value_content(*value) is Object),
        },
{
    value.as_object().map(|fields| fields.iter().collect())
}

/// The text that `serde_json` writes a value as, without white space.
pub uninterp spec fn json_text(value: JsonView) -> Seq<char>;

/// `<serde_json::Value as Display>::fmt`: the value as compact JSON text. How the text looks is
/// left to that function.
#[verifier::external_body]
pub(crate) fn value_text(value: &serde_json::Value) -> (r: String)
    ensures
        r@ == json_text(value_content(*value)),
{
    value.to_string()
}

/// The value that the bytes spell, or why they spell none.
pub fn parse_json(bytes: &[u8]) -> (r: Result<Json, String>)
    ensures
        match r {
            Ok(value) => parsed_json(bytes@) == Ok::<JsonView, Seq<char>>(value@),
            Err(message) => parsed_json(bytes@) == Err::<JsonView, Seq<char>>(message@),
        },
{
    match read_value(bytes) {
        Ok(value) => Ok(from_value(&value)),
        Err(message) => Err(message),
    }
}

// ---------------------------------------------------------------------------
// Fields of objects
// ---------------------------------------------------------------------------
impl JsonView {
    /// The value is an object, and this is one of its fields.
    pub open spec fn has(self, name: Seq<char>, value: JsonView) -> bool {
        self matches JsonView::Object(fields) && exists|k: int|
            0 <= k < fields.len() && #[trigger] fields[k] == (name, value)
    }

    /// The value is an object, and each of its names stands in it once.
    pub open spec fn names_once(self) -> bool {
        self matches JsonView::Object(fields) && forall|i: int, j: int|
            0 <= i < j < fields.len() ==> (#[trigger] fields[i]).0 != (#[trigger] fields[j]).0
    }

    /// The value is no object with a field of this name.
    pub open spec fn lacks(self, name: Seq<char>) -> bool {
        forall|value: JsonView| !self.has(name, value)
    }
}

/// Looking a name up finds the field that has it, and finds nothing where no field has it.
pub proof fn lemma_field_is_found(object: JsonView, name: Seq<char>)
    requires
        object.names_once(),
    ensures
        forall|value: JsonView|
            object.has(name, value) <==> #[trigger] object.field(name) == Some(value),
        object.lacks(name) <==> object.field(name) is None,
{
    let fields = object->Object_0;
    lemma_first_field(fields, name);
    assert forall|value: JsonView| object.has(name, value) implies #[trigger] object.field(name)
        == Some(value) by {
        let k = choose|k: int| 0 <= k < fields.len() && #[trigger] fields[k] == (name, value);
        let j = choose|j: int|
            0 <= j < fields.len() && (#[trigger] fields[j]).0 == name && field_of(fields, name)
                == Some(fields[j].1);
        if j < k {
            assert(fields[j].0 != fields[k].0);
        } else if k < j {
            assert(fields[k].0 != fields[j].0);
        }
    }
    if let Some(value) = object.field(name) {
        let j = choose|j: int|
            0 <= j < fields.len() && (#[trigger] fields[j]).0 == name && field_of(fields, name)
                == Some(fields[j].1);
        assert(fields[j] == (name, value));
        assert(object.has(name, value));
    }
}

proof fn lemma_first_field(fields: Fields, name: Seq<char>)
    ensures
        field_of(fields, name) is Some ==> exists|j: int|
            0 <= j < fields.len() && (#[trigger] fields[j]).0 == name && field_of(fields, name)
                == Some(fields[j].1),
        field_of(fields, name) is None ==> forall|j: int|
            0 <= j < fields.len() ==> (#[trigger] fields[j]).0 != name,
    decreases fields.len(),
{
    if fields.len() > 0 {
        if fields[0].0 != name {
            let rest = fields.drop_first();
            lemma_first_field(rest, name);
            if field_of(rest, name) is Some {
                let j = choose|j: int|
                    0 <= j < rest.len() && (#[trigger] rest[j]).0 == name && field_of(rest, name)
                        == Some(rest[j].1);
                assert(fields[j + 1] == rest[j]);
            } else {
                assert forall|j: int| 0 <= j < fields.len() implies (#[trigger] fields[j]).0
                    != name by {
                    if j > 0 {
                        assert(fields[j] == rest[j - 1]);
                    }
                }
            }
        }
    }
}

/// A field is read as a text, a switch or a count only if it is one, and then as it stands.
pub proof fn lemma_fields_are_read_as_they_stand(object: JsonView, name: Seq<char>, value: JsonView)
    requires
        object.names_once(),
        object.has(name, value),
    ensures
        forall|text: Seq<char>|
            value == JsonView::Text(text) <==> #[trigger] text_field(object, name) == Some(text),
        forall|b: bool|
            value == JsonView::Bool(b) <==> #[trigger] bool_field(object, name) == Some(b),
        forall|n: u64|
            value == JsonView::Number(JsonNumberView::Unsigned(n)) <==> #[trigger] integer_field(
                object,
                name,
            ) == Some(n),
{
    lemma_field_is_found(object, name);
}

/// A field that is not there is read as nothing.
pub proof fn lemma_missing_fields_are_read_as_nothing(object: JsonView, name: Seq<char>)
    requires
        object.names_once(),
        object.lacks(name),
    ensures
        text_field(object, name) is None,
        bool_field(object, name) is None,
        integer_field(object, name) is None,
{
    lemma_field_is_found(object, name);
}

} // verus!

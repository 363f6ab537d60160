//! JSON values as the rest of the library reads them.

use vstd::prelude::*;

use crate::text::{parse_i64_text, parse_u64_text, parsed_i64, parsed_u64, same_text};

verus! {

/// A number, as far as it is an integer, and the text by which it is written.
#[derive(Debug)]
pub struct JsonNumber {
    pub unsigned: Option<u64>,
    pub signed: Option<i64>,
    pub text: String,
}

#[derive(Debug)]
pub enum Json {
    Null,
    Bool(bool),
    Number(JsonNumber),
    Text(String),
    Array(Vec<Json>),
    /// The fields in the order of their names.
    Object(Vec<(String, Json)>),
}

/// What a JSON value holds.
pub enum JsonView {
    Null,
    Bool(bool),
    Number { unsigned: Option<u64>, signed: Option<i64>, text: Seq<char> },
    Text(Seq<char>),
    Array(Seq<JsonView>),
    Object(Seq<(Seq<char>, JsonView)>),
}

impl View for Json {
    type V = JsonView;

    open spec fn view(&self) -> JsonView {
        json_view(*self)
    }
}

pub open spec fn json_view(json: Json) -> JsonView
    decreases json,
{
    match json {
        Json::Null => JsonView::Null,
        Json::Bool(value) => JsonView::Bool(value),
        Json::Number(number) => JsonView::Number {
            unsigned: number.unsigned,
            signed: number.signed,
            text: number.text@,
        },
        Json::Text(text) => JsonView::Text(text@),
        Json::Array(items) => JsonView::Array(
            Seq::new(
                items@.len(),
                |i: int|
                    if 0 <= i < items@.len() {
                        json_view(items@[i])
                    } else {
                        JsonView::Null
                    },
            ),
        ),
        Json::Object(fields) => JsonView::Object(
            Seq::new(
                fields@.len(),
                |i: int|
                    if 0 <= i < fields@.len() {
                        (fields@[i].0@, json_view(fields@[i].1))
                    } else {
                        (Seq::empty(), JsonView::Null)
                    },
            ),
        ),
    }
}

pub open spec fn items_view(items: Seq<Json>) -> Seq<JsonView> {
    Seq::new(items.len(), |i: int| items[i]@)
}

pub open spec fn fields_view(fields: Seq<(String, Json)>) -> Seq<(Seq<char>, JsonView)> {
    Seq::new(fields.len(), |i: int| (fields[i].0@, fields[i].1@))
}

proof fn lemma_array_view(items: Vec<Json>)
    ensures
        Json::Array(items)@ == JsonView::Array(items_view(items@)),
{
    let json = Json::Array(items);
    assert(json_view(json)->Array_0 =~= items_view(items@));
}

proof fn lemma_object_view(fields: Vec<(String, Json)>)
    ensures
        Json::Object(fields)@ == JsonView::Object(fields_view(fields@)),
{
    let json = Json::Object(fields);
    assert(json_view(json)->Object_0 =~= fields_view(fields@));
}

/// The result of parsing a JSON text: the value, or the message of the error.
pub uninterp spec fn parsed_json(text: Seq<char>) -> Result<JsonView, Seq<char>>;

/// A parsed value of the `serde_json` crate, which is only carried from its parser to
/// [`json_of`].
#[verifier::external_type_specification]
#[verifier::external_body]
pub struct ExValue(serde_json::Value);

/// The value of the `serde_json` crate, case by case. Nothing is stated of it by itself; what it
/// gives for a parsed text is named in [`Json::parse`].
#[verifier::external_body]
fn json_of(value: serde_json::Value) -> (res: Json) {
    match value {
        serde_json::Value::Null => Json::Null,
        serde_json::Value::Bool(value) => Json::Bool(value),
        serde_json::Value::Number(number) => Json::Number(
            JsonNumber { unsigned: number.as_u64(), signed: number.as_i64(), text: number.to_string() },
        ),
        serde_json::Value::String(text) => Json::Text(text),
        serde_json::Value::Array(items) => Json::Array(items.into_iter().map(json_of).collect()),
        serde_json::Value::Object(fields) => Json::Object(
            fields.into_iter().map(|(name, value)| (name, json_of(value))).collect(),
        ),
    }
}

/// `serde_json::from_str`: the value or the error's message is a function of the text, named by
/// [`parsed_json`]. The fields of an object come in the order of their names.
#[verifier::external_body]
fn parse_json(text: &str) -> (res: Result<Json, String>)
    ensures
        match res {
            Ok(json) => parsed_json(text@) == Ok::<JsonView, Seq<char>>(json@),
            Err(message) => parsed_json(text@) == Err::<JsonView, Seq<char>>(message@),
        },
{
    match serde_json::from_str::<serde_json::Value>(text) {
        Ok(value) => Ok(json_of(value)),
        Err(error) => Err(error.to_string()),
    }
}

impl JsonView {
    /// The first field of the given name, of an object.
    pub open spec fn field(self, name: Seq<char>) -> Option<JsonView> {
        match self {
            JsonView::Object(fields) => first_field(fields, name),
            _ => None,
        }
    }

    pub open spec fn spec_bool(self) -> Option<bool> {
        match self {
            JsonView::Bool(value) => Some(value),
            _ => None,
        }
    }

    pub open spec fn spec_text(self) -> Option<Seq<char>> {
        match self {
            JsonView::Text(text) => Some(text),
            _ => None,
        }
    }

    pub open spec fn spec_unsigned(self) -> Option<u64> {
        match self {
            JsonView::Number { unsigned, .. } => unsigned,
            _ => None,
        }
    }
}

/// The first of the fields with the given name.
pub open spec fn first_field(fields: Seq<(Seq<char>, JsonView)>, name: Seq<char>) -> Option<
    JsonView,
>
    decreases fields.len(),
{
    if fields.len() == 0 {
        None
    } else if fields[0].0 == name {
        Some(fields[0].1)
    } else {
        first_field(fields.drop_first(), name)
    }
}

/// The field of the given name of an optional value.
pub open spec fn field_of(json: Option<JsonView>, name: Seq<char>) -> Option<JsonView> {
    match json {
        Some(value) => value.field(name),
        None => None,
    }
}

/// What an optional reference refers to.
pub open spec fn referred(json: Option<&Json>) -> Option<JsonView> {
    match json {
        Some(value) => Some(value@),
        None => None,
    }
}

/// The field of the given name.
pub fn find_field<'a>(fields: &'a Vec<(String, Json)>, name: &str) -> (res: Option<&'a Json>)
    ensures
        referred(res) == first_field(fields_view(fields@), name@),
{
    let ghost all = fields_view(fields@);
    let mut i: usize = 0;
    assert(all.skip(0) =~= all);
    while i < fields.len()
        invariant
            i <= fields@.len(),
            all == fields_view(fields@),
            first_field(all, name@) == first_field(all.skip(i as int), name@),
        decreases fields@.len() - i,
    {
        assert(all.skip(i as int)[0] == (fields@[i as int].0@, fields@[i as int].1@));
        assert(all.skip(i as int).drop_first() =~= all.skip(i + 1));
        if same_text(fields[i].0.as_str(), name) {
            return Some(&fields[i].1);
        }
        i = i + 1;
    }
    None
}

impl Json {
    /// Reads a JSON text; the error is the parser's message.
    pub fn parse(text: &str) -> (res: Result<Json, String>)
        ensures
            match res {
                Ok(json) => parsed_json(text@) == Ok::<JsonView, Seq<char>>(json@),
                Err(message) => parsed_json(text@) == Err::<JsonView, Seq<char>>(message@),
            },
    {
        parse_json(text)
    }

    /// A copy of the value.
    pub fn duplicate(&self) -> (res: Json)
        ensures
            res@ == self@,
        decreases self,
    {
        match self {
            Json::Null => Json::Null,
            Json::Bool(value) => Json::Bool(*value),
            Json::Number(number) => Json::Number(
                JsonNumber {
                    unsigned: number.unsigned,
                    signed: number.signed,
                    text: number.text.clone(),
                },
            ),
            Json::Text(text) => Json::Text(text.clone()),
            Json::Array(items) => {
                let mut copies: Vec<Json> = Vec::new();
                let mut i: usize = 0;
                while i < items.len()
                    invariant
                        i <= items@.len(),
                        *self == Json::Array(*items),
                        copies@.len() == i,
                        forall|k: int| 0 <= k < i ==> (#[trigger] copies@[k])@ == items@[k]@,
                    decreases items@.len() - i,
                {
                    assert(decreases_to!(*self => self->Array_0));
                    assert(decreases_to!(*items => items@));
                    assert(decreases_to!(items@ => items@[i as int]));
                    let item = items[i].duplicate();
                    copies.push(item);
                    i = i + 1;
                }
                proof {
                    lemma_array_view(*items);
                    lemma_array_view(copies);
                    assert(items_view(copies@) =~= items_view(items@));
                }
                Json::Array(copies)
            },
            Json::Object(fields) => {
                let mut copies: Vec<(String, Json)> = Vec::new();
                let mut i: usize = 0;
                while i < fields.len()
                    invariant
                        i <= fields@.len(),
                        *self == Json::Object(*fields),
                        copies@.len() == i,
                        forall|k: int|
                            0 <= k < i ==> (#[trigger] copies@[k]).0@ == fields@[k].0@
                                && copies@[k].1@ == fields@[k].1@,
                    decreases fields@.len() - i,
                {
                    assert(decreases_to!(*self => self->Object_0));
                    assert(decreases_to!(*fields => fields@));
                    assert(decreases_to!(fields@ => fields@[i as int]));
                    assert(decreases_to!(fields@[i as int] => fields@[i as int].1));
                    let name = fields[i].0.clone();
                    let value = fields[i].1.duplicate();
                    copies.push((name, value));
                    i = i + 1;
                }
                proof {
                    lemma_object_view(*fields);
                    lemma_object_view(copies);
                    assert(fields_view(copies@) =~= fields_view(fields@));
                }
                Json::Object(copies)
            },
        }
    }

    /// The field of the given name, of an object.
    pub fn get(&self, name: &str) -> (res: Option<&Json>)
        ensures
            referred(res) == self@.field(name@),
    {
        match self {
            Json::Object(fields) => {
                proof {
                    lemma_object_view(*fields);
                }
                find_field(fields, name)
            },
            _ => None,
        }
    }

    pub fn as_bool(&self) -> (res: Option<bool>)
        ensures
            res == self@.spec_bool(),
    {
        match self {
            Json::Bool(value) => Some(*value),
            _ => None,
        }
    }

    pub fn as_str(&self) -> (res: Option<&str>)
        ensures
            match res {
                Some(text) => self@.spec_text() == Some(text@),
                None => self@.spec_text() is None,
            },
    {
        match self {
            Json::Text(text) => Some(text.as_str()),
            _ => None,
        }
    }

    pub fn as_u64(&self) -> (res: Option<u64>)
        ensures
            res == self@.spec_unsigned(),
    {
        match self {
            Json::Number(number) => number.unsigned,
            _ => None,
        }
    }

    pub fn as_array(&self) -> (res: Option<&Vec<Json>>)
        ensures
            match res {
                Some(items) => self@ == JsonView::Array(items_view(items@)),
                None => !(self@ is Array),
            },
    {
        match self {
            Json::Array(items) => {
                proof {
                    lemma_array_view(*items);
                }
                Some(items)
            },
            _ => None,
        }
    }

    pub fn as_object(&self) -> (res: Option<&Vec<(String, Json)>>)
        ensures
            match res {
                Some(fields) => self@ == JsonView::Object(fields_view(fields@)),
                None => !(self@ is Object),
            },
    {
        match self {
            Json::Object(fields) => {
                proof {
                    lemma_object_view(*fields);
                }
                Some(fields)
            },
            _ => None,
        }
    }
}

/// The unsigned number that a value stands for: a number, or a text that is one.
pub open spec fn unsigned_value(json: JsonView) -> Option<u64> {
    match json {
        JsonView::Number { unsigned, .. } => unsigned,
        JsonView::Text(text) => parsed_u64(text),
        _ => None,
    }
}

/// The signed number that a value stands for: a number, or a text that is one. An unsigned number
/// beyond the signed range wraps around.
pub open spec fn signed_value(json: JsonView) -> Option<i64> {
    match json {
        JsonView::Number { unsigned, signed, .. } => match (signed, unsigned) {
            (Some(value), _) => Some(value),
            (None, Some(value)) => Some(wrapped(value)),
            (None, None) => None,
        },
        JsonView::Text(text) => parsed_i64(text),
        _ => None,
    }
}

/// The signed number with the same 64 bits.
pub open spec fn wrapped(value: u64) -> i64 {
    if value <= i64::MAX {
        value as i64
    } else {
        (value - 0x1_0000_0000_0000_0000) as i64
    }
}

/// The unsigned number that a value stands for.
pub fn value_to_u64(value: &Json) -> (res: Option<u64>)
    ensures
        res == unsigned_value(value@),
{
    match value {
        Json::Number(number) => number.unsigned,
        Json::Text(text) => parse_u64_text(text.as_str()),
        _ => None,
    }
}

/// The signed number that a value stands for.
pub fn value_to_i64(value: &Json) -> (res: Option<i64>)
    ensures
        res == signed_value(value@),
{
    match value {
        Json::Number(number) => match number.signed {
            Some(signed) => Some(signed),
            None => match number.unsigned {
                Some(unsigned) => Some(wrap(unsigned)),
                None => None,
            },
        },
        Json::Text(text) => parse_i64_text(text.as_str()),
        _ => None,
    }
}

fn wrap(value: u64) -> (res: i64)
    ensures
        res == wrapped(value),
{
    if value <= 0x7FFF_FFFF_FFFF_FFFF {
        value as i64
    } else {
        let below: u64 = 0xFFFF_FFFF_FFFF_FFFF - value;
        -1 - (below as i64)
    }
}

} // verus!

//! JSON texts: reading and writing them with the `serde_json` crate.
use crate::json::{self, Json, JsonView};
use vstd::prelude::*;

verus! {

/// `serde_json::Value`, the crate's container of JSON values: null, a boolean, a number, a text,
/// a list of values, or a map from names to values.
#[verifier::external_type_specification]
#[verifier::external_body]
pub struct ExValue(serde_json::Value);

/// `serde_json::Map`, the crate's map from names to values.
#[verifier::external_type_specification]
#[verifier::external_body]
#[verifier::reject_recursive_types(K)]
#[verifier::reject_recursive_types(V)]
pub struct ExMap<K, V>(serde_json::Map<K, V>);

/// The contents of a `serde_json::Value`.
pub uninterp spec fn value_content(value: serde_json::Value) -> JsonView;

/// The contents of a `serde_json::Map`: the names it holds, each with the contents of its value.
pub uninterp spec fn map_content(map: serde_json::Map<String, serde_json::Value>) -> Map<
    Seq<char>,
    JsonView,
>;

/// The JSON value that `serde_json::from_str` reads from a text; `None` where it refuses the text.
pub uninterp spec fn parsed_json(text: Seq<char>) -> Option<JsonView>;

/// The text that `serde_json` writes for a JSON value, without spaces between its parts.
pub uninterp spec fn compact_json(value: JsonView) -> Seq<char>;

/// The field names that `serde_json` keeps for itself: an object that starts with one of them may
/// be read as something else than an object.
pub open spec fn reserved(name: Seq<char>) -> bool {
    name == "$serde_json::private::RawValue"@ || name == "$serde_json::private::Number"@
}

/// Whether a JSON value is an object whose fields are all texts, under names that are not
/// reserved.
pub open spec fn flat(value: JsonView) -> bool {
    match value {
        JsonView::Object(fields) => forall|name: Seq<char>|
            fields.contains_key(name) ==> (#[trigger] fields[name]) is Text && !reserved(name),
        _ => false,
    }
}

/// One layer of a JSON value, the values inside it still in `serde_json`'s form.
pub enum ValueParts {
    Null,
    Bool(bool),
    Number(serde_json::Number),
    Text(String),
    Array(Vec<serde_json::Value>),
    Object(serde_json::Map<String, serde_json::Value>),
}

impl View for ValueParts {
    type V = JsonView;

    open spec fn view(&self) -> JsonView {
        match self {
            ValueParts::Null => JsonView::Null,
            ValueParts::Bool(value) => JsonView::Bool(*value),
            ValueParts::Number(number) => JsonView::Number(*number),
            ValueParts::Text(text) => JsonView::Text(text@),
            ValueParts::Array(items) => JsonView::Array(
                Seq::new(items@.len(), |i: int| value_content(items@[i])),
            ),
            ValueParts::Object(map) => JsonView::Object(map_content(*map)),
        }
    }
}

/// What the fields of a list are, their values still in `serde_json`'s form.
pub open spec fn value_fields(fields: Seq<(String, serde_json::Value)>) -> Seq<
    (Seq<char>, JsonView),
> {
    Seq::new(fields.len(), |i: int| (fields[i].0@, value_content(fields[i].1)))
}

/// Takes a `serde_json::Value` apart, one variant of the outside type for one of `ValueParts`. The
/// contents of the value are those of its parts.
#[verifier::external_body]
fn split_value(value: serde_json::Value) -> (parts: ValueParts)
    ensures
        parts@ == value_content(value),
{
    match value {
        serde_json::Value::Null => ValueParts::Null,
        serde_json::Value::Bool(value) => ValueParts::Bool(value),
        serde_json::Value::Number(number) => ValueParts::Number(number),
        serde_json::Value::String(text) => ValueParts::Text(text),
        serde_json::Value::Array(items) => ValueParts::Array(items),
        serde_json::Value::Object(map) => ValueParts::Object(map),
    }
}

/// Puts a `serde_json::Value` together, one variant of `ValueParts` for one of the outside type.
/// The contents of the value are those of its parts.
#[verifier::external_body]
fn join_value(parts: ValueParts) -> (value: serde_json::Value)
    ensures
        value_content(value) == parts@,
{
    match parts {
        ValueParts::Null => serde_json::Value::Null,
        ValueParts::Bool(value) => serde_json::Value::Bool(value),
        ValueParts::Number(number) => serde_json::Value::Number(number),
        ValueParts::Text(text) => serde_json::Value::String(text),
        ValueParts::Array(items) => serde_json::Value::Array(items),
        ValueParts::Object(map) => serde_json::Value::Object(map),
    }
}

/// Calls `serde_json::Map::new`, which makes a map without names.
#[verifier::external_body]
fn empty_map() -> (made: serde_json::Map<String, serde_json::Value>)
    ensures
        map_content(made) == json::object_of(Seq::empty()),
{
    serde_json::Map::new()
}

/// Calls `serde_json::Map::insert`, which adds a name with its value, or updates the value of a
/// name that the map holds already; the other names keep theirs.
#[verifier::external_body]
fn insert_field(
    map: &mut serde_json::Map<String, serde_json::Value>,
    name: String,
    value: serde_json::Value,
)
    ensures
        map_content(*final(map)) == map_content(*old(map)).insert(name@, value_content(value)),
{
    map.insert(name, value);
}

/// Walks a `serde_json::Map` with its `into_iter`, which hands out each name once, with its value.
/// The order of the names is not stated.
#[verifier::external_body]
fn map_fields(map: serde_json::Map<String, serde_json::Value>) -> (fields: Vec<
    (String, serde_json::Value),
>)
    ensures
        map_content(map) == json::object_of(value_fields(fields@)),
        forall|i: int, j: int| 0 <= i < j < fields@.len() ==> fields@[i].0@ != fields@[j].0@,
{
    map.into_iter().collect()
}

/// Calls `serde_json::from_str`. Whether it reads a value, and which, depends on the text alone;
/// the grammar of JSON is not stated.
#[verifier::external_body]
fn parse_value(text: &str) -> (value: Option<serde_json::Value>)
    ensures
        match value {
            Some(value) => parsed_json(text@) == Some(value_content(value)),
            None => parsed_json(text@) is None,
        },
{
    serde_json::from_str(text).ok()
}

/// Calls the `to_string` of `serde_json::Value`, which writes compact JSON. The text depends on the
/// contents alone, for a map is written in the order of its names. An object of texts, none of
/// them under a reserved name, is read back from what was written for it. The same is not stated of
/// other values: `serde_json::from_str` reads no value of more than 127 layers, may round a number,
/// and takes the text under a reserved name for JSON of its own.
#[verifier::external_body]
fn print_value(value: &serde_json::Value) -> (text: String)
    ensures
        text@ == compact_json(value_content(*value)),
        flat(value_content(*value)) ==> parsed_json(text@) == Some(value_content(*value)),
{
    value.to_string()
}

proof fn lemma_object_finite(fields: Seq<(Seq<char>, JsonView)>)
    ensures
        json::object_of(fields).dom().finite(),
    decreases fields.len(),
{
    if fields.len() > 0 {
        lemma_object_finite(fields.drop_last());
    }
}

impl Json {
    /// The JSON value that a `serde_json::Value` holds.
    pub fn from_value(value: serde_json::Value) -> (json: Json)
        ensures
            json@ == value_content(value),
        decreases value_content(value),
    {
        let ghost content = value_content(value);
        match split_value(value) {
            ValueParts::Null => Json::Null,
            ValueParts::Bool(value) => Json::Bool(value),
            ValueParts::Number(number) => Json::Number(number),
            ValueParts::Text(text) => Json::Text(text),
            ValueParts::Array(parts) => {
                let ghost all = parts@;
                let mut items: Vec<Json> = Vec::new();
                for part in it: parts
                    invariant
                        content == value_content(value),
                        content == JsonView::Array(Seq::new(all.len(), |i: int| value_content(all[i]))),
                        it.seq() == all,
                        items@.len() == it.index(),
                        forall|i: int|
                            0 <= i < items@.len() ==> (#[trigger] items@[i])@ == value_content(all[i]),
                {
                    assert(value_content(part) == content->Array_0[it.index()]);
                    assert(decreases_to!(content => content->Array_0[it.index()]));
                    items.push(Json::from_value(part));
                }
                assert(json::item_views(items@) =~= content->Array_0);
                Json::Array(items)
            },
            ValueParts::Object(map) => {
                let parts = map_fields(map);
                let ghost all = parts@;
                let ghost named = value_fields(all);
                let mut fields: Vec<(String, Json)> = Vec::new();
                for part in it: parts
                    invariant
                        content == value_content(value),
                        named == value_fields(all),
                        content == JsonView::Object(json::object_of(named)),
                        forall|i: int, j: int| 0 <= i < j < all.len() ==> all[i].0@ != all[j].0@,
                        it.seq() == all,
                        fields@.len() == it.index(),
                        forall|i: int|
                            0 <= i < fields@.len() ==> (#[trigger] fields@[i]).0@ == all[i].0@
                                && fields@[i].1@ == value_content(all[i].1),
                {
                    proof {
                        let index = it.index();
                        assert(named[index] == (part.0@, value_content(part.1)));
                        lemma_object_finite(named);
                        json::lemma_last_field(named, index);
                        assert(decreases_to!(content => content->Object_0[part.0@]));
                    }
                    fields.push((part.0, Json::from_value(part.1)));
                }
                assert(json::field_views(fields@) =~= named);
                Json::Object(fields)
            },
        }
    }

    /// This value in `serde_json`'s form.
    pub fn to_value(&self) -> (value: serde_json::Value)
        ensures
            value_content(value) == self@,
        decreases self,
    {
        match self {
            Json::Null => join_value(ValueParts::Null),
            Json::Bool(value) => join_value(ValueParts::Bool(*value)),
            Json::Number(number) => join_value(ValueParts::Number(number.clone())),
            Json::Text(text) => join_value(ValueParts::Text(text.clone())),
            Json::Array(items) => {
                let mut values: Vec<serde_json::Value> = Vec::new();
                for index in 0..items.len()
                    invariant
                        *self == Json::Array(*items),
                        values@.len() == index,
                        forall|i: int|
                            0 <= i < index ==> value_content(#[trigger] values@[i]) == items@[i]@,
                {
                    proof {
                        json::lemma_item_is_smaller(*self, index as int);
                    }
                    values.push(items[index].to_value());
                }
                assert(Seq::new(values@.len(), |i: int| value_content(values@[i])) =~= json::item_views(
                    items@,
                ));
                join_value(ValueParts::Array(values))
            },
            Json::Object(fields) => {
                let ghost listed = json::field_views(fields@);
                let mut map = empty_map();
                for index in 0..fields.len()
                    invariant
                        *self == Json::Object(*fields),
                        listed == json::field_views(fields@),
                        map_content(map) == json::object_of(listed.take(index as int)),
                {
                    proof {
                        json::lemma_field_is_smaller(*self, index as int);
                        assert(listed.take(index + 1).drop_last() =~= listed.take(index as int));
                    }
                    insert_field(&mut map, fields[index].0.clone(), fields[index].1.to_value());
                }
                assert(listed.take(listed.len() as int) =~= listed);
                join_value(ValueParts::Object(map))
            },
        }
    }

    /// Reads a JSON value from a text.
    pub fn parse(text: &str) -> (json: Option<Json>)
        ensures
            match json {
                Some(json) => parsed_json(text@) == Some(json@),
                None => parsed_json(text@) is None,
            },
    {
        match parse_value(text) {
            Some(value) => Some(Json::from_value(value)),
            None => None,
        }
    }

    /// Writes this value as a text without spaces between its parts.
    pub fn to_text(&self) -> (text: String)
        ensures
            text@ == compact_json(self@),
            flat(self@) ==> parsed_json(text@) == Some(self@),
    {
        print_value(&self.to_value())
    }
}

} // verus!

//! JSON values: reading and setting their parts.
use crate::text;
use vstd::prelude::*;

verus! {

/// `serde_json::Number`, a JSON number that is carried through unread.
#[verifier::external_type_specification]
#[verifier::external_body]
pub struct ExNumber(serde_json::Number);

/// A JSON value.
///
/// An object is a list of fields; where a name occurs twice, the last occurrence counts.
#[derive(Debug, PartialEq)]
pub enum Json {
    Null,
    Bool(bool),
    Number(serde_json::Number),
    Text(String),
    Array(Vec<Json>),
    Object(Vec<(String, Json)>),
}

/// What a JSON value is, whatever the order of its fields.
#[verifier::ext_equal]
pub enum JsonView {
    Null,
    Bool(bool),
    Number(serde_json::Number),
    Text(Seq<char>),
    Array(Seq<JsonView>),
    Object(Map<Seq<char>, JsonView>),
}

/// The object that a list of fields stands for: a later field replaces an earlier one of the
/// same name.
pub open spec fn object_of(fields: Seq<(Seq<char>, JsonView)>) -> Map<Seq<char>, JsonView>
    decreases fields.len(),
{
    if fields.len() == 0 {
        Map::empty()
    } else {
        object_of(fields.drop_last()).insert(fields.last().0, fields.last().1)
    }
}

/// What a JSON value is.
pub open spec fn json_view(json: Json) -> JsonView
    decreases json,
{
    match json {
        Json::Null => JsonView::Null,
        Json::Bool(value) => JsonView::Bool(value),
        Json::Number(number) => JsonView::Number(number),
        Json::Text(text) => JsonView::Text(text@),
        Json::Array(items) => JsonView::Array(item_views(items@)),
        Json::Object(fields) => JsonView::Object(object_of(field_views(fields@))),
    }
}

/// What the values of a list are.
pub open spec fn item_views(items: Seq<Json>) -> Seq<JsonView>
    decreases items,
{
    Seq::new(
        items.len(),
        |i: int|
            if 0 <= i < items.len() {
                json_view(items[i])
            } else {
                JsonView::Null
            },
    )
}

/// What the fields of a list are.
pub open spec fn field_views(fields: Seq<(String, Json)>) -> Seq<(Seq<char>, JsonView)>
    decreases fields,
{
    Seq::new(
        fields.len(),
        |i: int|
            if 0 <= i < fields.len() {
                (fields[i].0@, json_view(fields[i].1))
            } else {
                (Seq::empty(), JsonView::Null)
            },
    )
}

impl View for Json {
    type V = JsonView;

    open spec fn view(&self) -> JsonView {
        json_view(*self)
    }
}

/// Cloning a `serde_json::Number` copies the number.
pub assume_specification[ <serde_json::Number as Clone>::clone ](number: &serde_json::Number) -> (copy:
    serde_json::Number)
    ensures
        copy == *number,
;

/// A recursion may descend from an array into its items.
pub(crate) proof fn lemma_item_is_smaller(json: Json, index: int)
    requires
        json is Array,
        0 <= index < json->Array_0@.len(),
    ensures
        decreases_to!(json => json->Array_0@[index]),
{
    let items = json->Array_0;
    assert(decreases_to!(json => items));
    assert(decreases_to!(items => items@));
    assert(decreases_to!(items@ => items@[index]));
}

/// A recursion may descend from an object into its fields.
pub(crate) proof fn lemma_field_is_smaller(json: Json, index: int)
    requires
        json is Object,
        0 <= index < json->Object_0@.len(),
    ensures
        decreases_to!(json => json->Object_0@[index].1),
{
    let fields = json->Object_0;
    assert(decreases_to!(json => fields));
    assert(decreases_to!(fields => fields@));
    assert(decreases_to!(fields@ => fields@[index]));
    assert(decreases_to!(fields@[index] => fields@[index].1));
}

impl Clone for Json {
    fn clone(&self) -> (copy: Self)
        ensures
            copy@ == self@,
        decreases self,
    {
        match self {
            Json::Null => Json::Null,
            Json::Bool(value) => Json::Bool(*value),
            Json::Number(number) => Json::Number(number.clone()),
            Json::Text(text) => Json::Text(text.clone()),
            Json::Array(items) => {
                let mut copies: Vec<Json> = Vec::new();
                for index in 0..items.len()
                    invariant
                        *self == Json::Array(*items),
                        copies@.len() == index,
                        forall|i: int|
                            0 <= i < index ==> (#[trigger] copies@[i])@ == items@[i]@,
                {
                    proof {
                        lemma_item_is_smaller(*self, index as int);
                    }
                    copies.push(items[index].clone());
                }
                assert(item_views(copies@) =~= item_views(items@));
                Json::Array(copies)
            },
            Json::Object(fields) => {
                let mut copies: Vec<(String, Json)> = Vec::new();
                for index in 0..fields.len()
                    invariant
                        *self == Json::Object(*fields),
                        copies@.len() == index,
                        forall|i: int|
                            0 <= i < index ==> (#[trigger] copies@[i]).0@ == fields@[i].0@
                                && copies@[i].1@ == fields@[i].1@,
                {
                    proof {
                        lemma_field_is_smaller(*self, index as int);
                    }
                    copies.push((fields[index].0.clone(), fields[index].1.clone()));
                }
                assert(field_views(copies@) =~= field_views(fields@));
                Json::Object(copies)
            },
        }
    }
}

/// A field of a JSON value; only an object has fields.
pub open spec fn field(value: JsonView, name: Seq<char>) -> Option<JsonView> {
    match value {
        JsonView::Object(fields) => if fields.contains_key(name) {
            Some(fields[name])
        } else {
            None
        },
        _ => None,
    }
}

/// An item of a JSON value; only an array has items.
pub open spec fn item(value: JsonView, index: int) -> Option<JsonView> {
    match value {
        JsonView::Array(items) => if 0 <= index < items.len() {
            Some(items[index])
        } else {
            None
        },
        _ => None,
    }
}

/// The text that a JSON value is, where it is one.
pub open spec fn text_of(value: Option<JsonView>) -> Option<Seq<char>> {
    match value {
        Some(JsonView::Text(text)) => Some(text),
        _ => None,
    }
}

/// A JSON value with one field set: an object keeps its other fields, anything else gives way to
/// an object with that field alone.
pub open spec fn with_field(value: JsonView, name: Seq<char>, part: JsonView) -> JsonView {
    match value {
        JsonView::Object(fields) => JsonView::Object(fields.insert(name, part)),
        _ => JsonView::Object(Map::empty().insert(name, part)),
    }
}

/// The object without fields.
pub open spec fn empty_object() -> JsonView {
    JsonView::Object(Map::empty())
}

/// A field that was set is read back, and setting it changes no other field.
pub proof fn set_field_is_read_back(
    value: JsonView,
    name: Seq<char>,
    part: JsonView,
    other: Seq<char>,
)
    ensures
        field(with_field(value, name, part), name) == Some(part),
        other != name && (value is Object || value is Null) ==> field(
            with_field(value, name, part),
            other,
        ) == field(value, other),
        with_field(with_field(value, name, part), name, part) == with_field(value, name, part),
{
    assert(with_field(with_field(value, name, part), name, part)->Object_0 =~= with_field(
        value,
        name,
        part,
    )->Object_0);
}

/// What an optional JSON value is.
pub open spec fn option_view(value: Option<&Json>) -> Option<JsonView> {
    match value {
        Some(json) => Some(json@),
        None => None,
    }
}

/// The last field of a name is the object's field of that name.
pub(crate) proof fn lemma_last_field(fields: Seq<(Seq<char>, JsonView)>, index: int)
    requires
        0 <= index < fields.len(),
        forall|i: int| index < i < fields.len() ==> fields[i].0 != fields[index].0,
    ensures
        object_of(fields).contains_key(fields[index].0),
        object_of(fields)[fields[index].0] == fields[index].1,
    decreases fields.len(),
{
    if index < fields.len() - 1 {
        lemma_last_field(fields.drop_last(), index);
    }
}

/// A name that no field of the list has is no field of the object.
pub(crate) proof fn lemma_no_field(fields: Seq<(Seq<char>, JsonView)>, name: Seq<char>)
    requires
        forall|i: int| 0 <= i < fields.len() ==> fields[i].0 != name,
    ensures
        !object_of(fields).contains_key(name),
    decreases fields.len(),
{
    if fields.len() > 0 {
        lemma_no_field(fields.drop_last(), name);
    }
}

/// Replacing the last field of a name sets the object's field of that name.
proof fn lemma_replaced_field(fields: Seq<(Seq<char>, JsonView)>, index: int, part: JsonView)
    requires
        0 <= index < fields.len(),
        forall|i: int| index < i < fields.len() ==> fields[i].0 != fields[index].0,
    ensures
        object_of(fields.update(index, (fields[index].0, part))) == object_of(fields).insert(
            fields[index].0,
            part,
        ),
    decreases fields.len(),
{
    let name = fields[index].0;
    let updated = fields.update(index, (name, part));
    if index == fields.len() - 1 {
        assert(updated.drop_last() =~= fields.drop_last());
    } else {
        lemma_replaced_field(fields.drop_last(), index, part);
        assert(updated.drop_last() =~= fields.drop_last().update(index, (name, part)));
    }
    assert(object_of(updated) =~= object_of(fields).insert(name, part));
}

/// The number of the last field of a name, where there is one.
fn find_field(fields: &Vec<(String, Json)>, name: &str) -> (found: Option<usize>)
    ensures
        match found {
            Some(index) => {
                &&& index < fields@.len()
                &&& fields@[index as int].0@ == name@
                &&& forall|i: int| index < i < fields@.len() ==> fields@[i].0@ != name@
            },
            None => forall|i: int| 0 <= i < fields@.len() ==> fields@[i].0@ != name@,
        },
{
    let mut rest: usize = fields.len();
    while rest > 0
        invariant
            rest <= fields@.len(),
            forall|i: int| rest <= i < fields@.len() ==> fields@[i].0@ != name@,
        decreases rest,
    {
        if text::same(fields[rest - 1].0.as_str(), name) {
            return Some(rest - 1);
        }
        rest = rest - 1;
    }
    None
}

impl Json {
    /// The field of a name.
    pub fn get(&self, name: &str) -> (part: Option<&Json>)
        ensures
            option_view(part) == field(self@, name@),
    {
        match self {
            Json::Object(fields) => {
                let ghost listed = field_views(fields@);
                match find_field(fields, name) {
                    Some(index) => {
                        proof {
                            lemma_last_field(listed, index as int);
                        }
                        Some(&fields[index].1)
                    },
                    None => {
                        proof {
                            lemma_no_field(listed, name@);
                        }
                        None
                    },
                }
            },
            _ => None,
        }
    }

    /// The item at an index.
    pub fn at(&self, index: usize) -> (part: Option<&Json>)
        ensures
            option_view(part) == item(self@, index as int),
    {
        match self {
            Json::Array(items) => if index < items.len() {
                Some(&items[index])
            } else {
                None
            },
            _ => None,
        }
    }

    /// The text that this value is, where it is one.
    pub fn as_str(&self) -> (text: Option<&str>)
        ensures
            match text {
                Some(text) => self@ == JsonView::Text(text@),
                None => !(self@ is Text),
            },
    {
        match self {
            Json::Text(text) => Some(text.as_str()),
            _ => None,
        }
    }

    /// This value with one field set.
    pub fn with_field(self, name: &str, part: Json) -> (whole: Json)
        ensures
            whole@ == with_field(self@, name@, part@),
            whole is Object,
    {
        match self {
            Json::Object(fields) => {
                let mut fields = fields;
                let ghost listed = field_views(fields@);
                match find_field(&fields, name) {
                    Some(index) => {
                        proof {
                            lemma_replaced_field(listed, index as int, part@);
                        }
                        fields.set(index, (name.to_owned(), part));
                        assert(field_views(fields@) =~= listed.update(index as int, (name@, part@)));
                    },
                    None => {
                        fields.push((name.to_owned(), part));
                        assert(field_views(fields@) =~= listed.push((name@, part@)));
                        assert(listed.push((name@, part@)).drop_last() =~= listed);
                    },
                }
                Json::Object(fields)
            },
            _ => {
                let mut fields: Vec<(String, Json)> = Vec::new();
                fields.push((name.to_owned(), part));
                proof {
                    let listed = field_views(fields@);
                    assert(listed =~= seq![(name@, part@)]);
                    assert(listed.drop_last() =~= Seq::empty());
                    assert(object_of(Seq::empty()) =~= Map::empty());
                }
                Json::Object(fields)
            },
        }
    }

    /// The object without fields.
    pub fn object() -> (json: Json)
        ensures
            json@ == empty_object(),
    {
        let fields: Vec<(String, Json)> = Vec::new();
        proof {
            assert(field_views(fields@) =~= Seq::empty());
        }
        Json::Object(fields)
    }

    /// A text as a JSON value.
    pub fn text(text: &str) -> (json: Json)
        ensures
            json@ == JsonView::Text(text@),
    {
        Json::Text(text.to_owned())
    }
}

} // verus!

//! What holds of every JSON value.
use crate::json::{self, Json, JsonView};
use vstd::prelude::*;

verus! {

/// A JSON value is taken as it stands: a text with its characters, an array with each of its items
/// in its place.
pub proof fn values_are_taken_as_they_stand(json: Json)
    ensures
        json is Null <==> json@ is Null,
        json is Bool <==> json@ is Bool,
        json is Number <==> json@ is Number,
        json is Text <==> json@ is Text,
        json is Array <==> json@ is Array,
        json is Object <==> json@ is Object,
        json is Bool ==> json@->Bool_0 == json->Bool_0,
        json is Number ==> json@->Number_0 == json->Number_0,
        json is Text ==> json@->Text_0 == json->Text_0@,
        json is Array ==> json@->Array_0.len() == json->Array_0@.len() && forall|i: int|
            0 <= i < json->Array_0@.len() ==> #[trigger] json@->Array_0[i] == json->Array_0@[i]@,
{
}

/// An object has a field exactly where its list of fields has one of that name, and the last of
/// that name counts.
pub proof fn the_last_field_of_a_name_counts(json: Json, index: int)
    requires
        json is Object,
        0 <= index < json->Object_0@.len(),
        forall|i: int|
            index < i < json->Object_0@.len() ==> (#[trigger] json->Object_0@[i]).0@
                != json->Object_0@[index].0@,
    ensures
        json@->Object_0.contains_pair(json->Object_0@[index].0@, json->Object_0@[index].1@),
{
    let listed = json::field_views(json->Object_0@);
    assert forall|i: int| index < i < listed.len() implies listed[i].0 != listed[index].0 by {
        assert(json->Object_0@[i].0@ != json->Object_0@[index].0@);
    }
    json::lemma_last_field(listed, index);
}

/// An object has no field but those of its list.
pub proof fn no_other_field_counts(json: Json, name: Seq<char>)
    requires
        json is Object,
        forall|i: int|
            0 <= i < json->Object_0@.len() ==> (#[trigger] json->Object_0@[i]).0@ != name,
    ensures
        !json@->Object_0.contains_key(name),
{
    let listed = json::field_views(json->Object_0@);
    assert forall|i: int| 0 <= i < listed.len() implies listed[i].0 != name by {
        assert(json->Object_0@[i].0@ != name);
    }
    json::lemma_no_field(listed, name);
}

/// The items of a list of values, and an optional value, are what they were given as.
pub proof fn lists_keep_their_items(items: Seq<Json>, value: Option<&Json>)
    ensures
        json::item_views(items).len() == items.len(),
        forall|i: int| 0 <= i < items.len() ==> #[trigger] json::item_views(items)[i] == items[i]@,
        json::option_view(value) is Some <==> value is Some,
        value is Some ==> json::option_view(value)->0 == value->0@,
{
}

/// A field is read exactly where the value is an object that has it, and then it is that object's
/// part of that name.
pub proof fn fields_are_read_from_objects(value: JsonView, name: Seq<char>, part: JsonView)
    ensures
        json::field(value, name) == Some(part) <==> value is Object
            && value->Object_0.contains_pair(name, part),
        json::field(value, name) is Some <==> value is Object && value->Object_0.contains_key(name),
{
}

/// An item is read exactly where the value is an array that reaches that far, and then it is the
/// one in that place.
pub proof fn items_are_read_from_arrays(value: JsonView, index: int)
    ensures
        json::item(value, index) is Some <==> value is Array && 0 <= index
            < value->Array_0.len(),
        json::item(value, index) is Some ==> json::item(value, index)->0 == value->Array_0[index],
{
}

/// A text is read from exactly the values that are texts.
pub proof fn texts_are_read_from_texts(value: Option<JsonView>, text: Seq<char>)
    ensures
        json::text_of(value) == Some(text) <==> value == Some(JsonView::Text(text)),
        json::text_of(value) is Some <==> value is Some && value->0 is Text,
{
}

/// Setting a field gives an object that has that part under that name; the other fields are those
/// that were there, and there are none where there was no object.
pub proof fn setting_a_field_sets_it_alone(value: JsonView, name: Seq<char>, part: JsonView)
    ensures
        json::with_field(value, name, part) is Object,
        json::with_field(value, name, part)->Object_0.contains_pair(name, part),
        forall|other: Seq<char>| #[trigger]
            json::with_field(value, name, part)->Object_0.contains_key(other) <==> other == name || (
            value is Object && value->Object_0.contains_key(other)),
        forall|other: Seq<char>|
            other != name && value is Object && value->Object_0.contains_key(other)
                ==> #[trigger] json::with_field(value, name, part)->Object_0[other]
                == value->Object_0[other],
{
}

/// The object without fields has none.
pub proof fn the_empty_object_has_no_field(name: Seq<char>)
    ensures
        json::empty_object() is Object,
        !json::empty_object()->Object_0.contains_key(name),
{
}

} // verus!

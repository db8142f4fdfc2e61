//! Documents as values of `serde_json`.

use crate::dict::{distinct_keys, key_position, lemma_dict_decreases, lemma_key_position};
use crate::formats::into_json::{
    document_view, documents_view, members_view, Document, DocumentView, Number, NumberView,
};
use crate::value::Float;
use serde_json::Value as Json;
use vstd::prelude::*;

verus! {

broadcast use lemma_dict_decreases;

/// `serde_json::Value`, a JSON value of any kind. It goes by the name
/// `Json` here, beside the library's own `Value`.
#[verifier::external_type_specification]
#[verifier::external_body]
pub struct ExJsonValue(Json);

/// `serde_json::Map`, the map that holds the members of a JSON object.
#[verifier::external_type_specification]
#[verifier::external_body]
#[verifier::reject_recursive_types(K)]
#[verifier::reject_recursive_types(V)]
pub struct ExJsonMap<K, V>(serde_json::Map<K, V>);

/// What a JSON value holds, one level deep: the items of an array and the
/// members of an object are JSON values again.
pub enum JsonShape {
    Null,
    Bool(bool),
    /// A number that is an integer.
    Integer(int),
    /// A number that is a floating-point number of double precision, by the
    /// bits of its encoding.
    Float(u64),
    String(Seq<char>),
    Array(Seq<Json>),
    Object(Map<Seq<char>, Json>),
}

/// What the JSON value `json` holds.
pub uninterp spec fn json_shape(json: Json) -> JsonShape;

/// The members that the map `members` holds, each value under its name.
pub uninterp spec fn json_members(members: serde_json::Map<String, Json>) -> Map<
    Seq<char>,
    Json,
>;

/// `serde_json::Value::Null`, the JSON null.
#[verifier::external_body]
fn json_null() -> (json: Json)
    ensures
        json_shape(json) == JsonShape::Null,
{
    Json::Null
}

/// `serde_json::Value::Bool`, the JSON boolean that holds `b`.
#[verifier::external_body]
fn json_bool(b: bool) -> (json: Json)
    ensures
        json_shape(json) == JsonShape::Bool(b),
{
    Json::Bool(b)
}

/// `serde_json::Value::from` an unsigned integer of 64 bits: the JSON number
/// that holds the integer `n`.
#[verifier::external_body]
fn json_unsigned(n: u64) -> (json: Json)
    ensures
        json_shape(json) == JsonShape::Integer(n as int),
{
    Json::from(n)
}

/// `serde_json::Value::from` a signed integer of 64 bits: the JSON number
/// that holds the integer `n`, whatever its sign.
#[verifier::external_body]
fn json_signed(n: i64) -> (json: Json)
    ensures
        json_shape(json) == JsonShape::Integer(n as int),
{
    Json::from(n)
}

/// `serde_json::Value::String`, the JSON string that holds `s`.
#[verifier::external_body]
fn json_string(s: String) -> (json: Json)
    ensures
        json_shape(json) == JsonShape::String(s@),
{
    Json::String(s)
}

/// `serde_json::Value::Array`, the JSON array that holds `items` in their
/// order.
#[verifier::external_body]
fn json_array(items: Vec<Json>) -> (json: Json)
    ensures
        json_shape(json) == JsonShape::Array(items@),
{
    Json::Array(items)
}

/// `serde_json::Map::new`, a map without members.
#[verifier::external_body]
fn json_map_new() -> (members: serde_json::Map<String, Json>)
    ensures
        json_members(members) == (Map::<Seq<char>, Json>::empty()),
{
    serde_json::Map::new()
}

/// `serde_json::Map::insert`: the map holds `value` under `name` afterwards,
/// whether or not it held a member of that name before, and its other
/// members as before.
#[verifier::external_body]
fn json_map_insert(
    members: &mut serde_json::Map<String, Json>,
    name: String,
    value: Json,
)
    ensures
        json_members(*final(members)) == json_members(*old(members)).insert(name@, value),
{
    members.insert(name, value);
}

/// `serde_json::Value::Object`, the JSON object that holds the members of
/// `members`.
#[verifier::external_body]
fn json_object(members: serde_json::Map<String, Json>) -> (json: Json)
    ensures
        json_shape(json) == JsonShape::Object(json_members(members)),
{
    Json::Object(members)
}

/// Whether `json` holds what `document` holds: the same scalar, for each
/// item of an array the value of that item in its place, and for each member
/// of an object the value of that member under its name and no other name.
/// For a floating-point number `json` is what `float` gives for it.
pub open spec fn renders<F: Fn(Float) -> Json>(
    document: DocumentView,
    json: Json,
    float: F,
) -> bool
    decreases document,
{
    match document {
        DocumentView::Null => json_shape(json) == JsonShape::Null,
        DocumentView::Bool(b) => json_shape(json) == JsonShape::Bool(b),
        DocumentView::Number(NumberView::Int(n)) => json_shape(json) == JsonShape::Integer(n),
        DocumentView::Number(NumberView::Float(f)) => call_ensures(float, (f,), json),
        DocumentView::String(s) => json_shape(json) == JsonShape::String(s),
        DocumentView::Array(items) => {
            &&& json_shape(json) is Array
            &&& json_shape(json)->Array_0.len() == items.len()
            &&& forall|i: int|
                0 <= i < items.len() ==> renders(
                    #[trigger] items[i],
                    json_shape(json)->Array_0[i],
                    float,
                )
        },
        DocumentView::Object(members) => {
            &&& json_shape(json) is Object
            &&& forall|name: Seq<char>| #[trigger]
                json_shape(json)->Object_0.contains_key(name) <==> key_position(members, name)
                    is Some
            &&& forall|i: int|
                0 <= i < members.len() && key_position(members, (#[trigger] members[i]).0) == Some(
                    i,
                ) ==> renders(members[i].1, json_shape(json)->Object_0[members[i].0], float)
        },
    }
}

/// The JSON value of the number `number`, where `float` gives the value of a
/// floating-point number.
fn number_to_json<F: Fn(Float) -> Json>(number: Number, float: &F) -> (json:
    Json)
    requires
        forall|f: Float| call_requires(*float, (f,)),
    ensures
        renders(DocumentView::Number(number@), json, *float),
{
    match number {
        Number::PosInt(n) => json_unsigned(n),
        Number::NegInt(n) => json_signed(n),
        Number::Float(f) => float(f),
    }
}

/// The JSON value that holds what `document` holds. `serde_json` makes the
/// value of a floating-point number from the number itself, which this
/// library holds as bits only: `float` is called with each such number of the
/// document, and what it gives stands for the number.
pub fn to_json_value<F: Fn(Float) -> Json>(document: Document, float: &F) -> (json:
    Json)
    requires
        forall|f: Float| call_requires(*float, (f,)),
    ensures
        renders(document@, json, *float),
    decreases document,
{
    match document {
        Document::Null => json_null(),
        Document::Bool(b) => json_bool(b),
        Document::Number(n) => number_to_json(n, float),
        Document::String(s) => json_string(s),
        Document::Array(items) => {
            let ghost given = items@;
            let mut parts: Vec<Json> = Vec::with_capacity(items.len());
            for item in iter: items
                invariant
                    iter.seq() == given,
                    given == items@,
                    document == Document::Array(items),
                    forall|f: Float| call_requires(*float, (f,)),
                    parts@.len() == iter.index(),
                    forall|j: int|
                        0 <= j < iter.index() ==> renders(
                            #[trigger] document_view(given[j]),
                            parts@[j],
                            *float,
                        ),
            {
                assert(decreases_to!(document => item)) by {
                    assert(document->Array_0 == items);
                    assert(item == items@[iter.index()]);
                    assert(decreases_to!(items => items[iter.index()]));
                }
                let part = to_json_value(item, float);
                parts.push(part);
            }
            let json = json_array(parts);
            assert forall|i: int| 0 <= i < documents_view(given).len() implies renders(
                #[trigger] documents_view(given)[i],
                json_shape(json)->Array_0[i],
                *float,
            ) by {
                assert(renders(document_view(given[i]), parts@[i], *float));
            }
            assert(document@ == DocumentView::Array(documents_view(given)));
            json
        },
        Document::Object(members) => {
            let ghost named = members_view(members@);
            let entries = members.into_entries();
            let ghost given = entries@;
            let mut map = json_map_new();
            for entry in iter: entries
                invariant
                    iter.seq() == given,
                    given == entries@,
                    given == members@,
                    distinct_keys(given),
                    named == members_view(given),
                    document == Document::Object(members),
                    forall|f: Float| call_requires(*float, (f,)),
                    forall|name: Seq<char>| #[trigger]
                        json_members(map).contains_key(name) <==> exists|j: int|
                            0 <= j < iter.index() && (#[trigger] given[j]).0@ == name,
                    forall|j: int|
                        0 <= j < iter.index() ==> renders(
                            document_view((#[trigger] given[j]).1),
                            json_members(map)[given[j].0@],
                            *float,
                        ),
            {
                let ghost at = iter.index();
                assert(entry == given[at]);
                assert(decreases_to!(document => entry.1)) by {
                    assert(document->Object_0 == members);
                    assert(decreases_to!(members => members@));
                    assert(decreases_to!(members@ => members@[at]));
                    assert(decreases_to!(members@[at] => members@[at].1));
                }
                let (name, value) = entry;
                let part = to_json_value(value, float);
                let ghost before = json_members(map);
                json_map_insert(&mut map, name, part);
                assert forall|j: int| 0 <= j < at + 1 implies renders(
                    document_view((#[trigger] given[j]).1),
                    json_members(map)[given[j].0@],
                    *float,
                ) by {
                    if j < at {
                        assert(given[j].0@ != given[at].0@);
                        assert(json_members(map)[given[j].0@] == before[given[j].0@]);
                    }
                }
                assert forall|n: Seq<char>| #[trigger]
                    json_members(map).contains_key(n) <==> exists|j: int|
                        0 <= j < at + 1 && (#[trigger] given[j]).0@ == n by {
                    if before.contains_key(n) {
                        let j = choose|j: int| 0 <= j < at && (#[trigger] given[j]).0@ == n;
                        assert(0 <= j < at + 1 && given[j].0@ == n);
                    }
                    if n == given[at].0@ {
                        assert(0 <= at < at + 1 && given[at].0@ == n);
                    }
                }
            }
            let json = json_object(map);
            proof {
                assert(named.len() == given.len());
                assert forall|i: int| 0 <= i < named.len() implies (#[trigger] named[i]).0
                    == given[i].0@ && named[i].1 == document_view(given[i].1) by {}
                assert forall|n: Seq<char>| #[trigger]
                    json_shape(json)->Object_0.contains_key(n) <==> key_position(named, n)
                        is Some by {
                    lemma_key_position(named, n);
                    if key_position(named, n) is Some {
                        let p = key_position(named, n)->Some_0;
                        assert(given[p].0@ == n);
                    }
                    if json_shape(json)->Object_0.contains_key(n) {
                        let j = choose|j: int| 0 <= j < given.len() && (#[trigger] given[j]).0@ == n;
                        assert(named[j].0 == n);
                    }
                }
                assert forall|i: int|
                    0 <= i < named.len() && key_position(named, (#[trigger] named[i]).0) == Some(
                        i,
                    ) implies renders(named[i].1, json_shape(json)->Object_0[named[i].0], *float) by {
                    assert(renders(
                        document_view(given[i].1),
                        json_members(map)[given[i].0@],
                        *float,
                    ));
                }
                assert(document@ == DocumentView::Object(named));
            }
            json
        },
    }
}

} // verus!

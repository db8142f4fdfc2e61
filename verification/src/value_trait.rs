//! The conversions of native values into the value tree.

use crate::dict::{entry_views, lemma_with_entry_views, put_all, Dict};
use crate::value::{
    entries_view, key_view, keys_view, value_view, values_view, Float, HashablePrimitive,
    HashablePrimitiveView, HashableValue, HashableValueView, Integer, Primitive, PrimitiveView,
    Value, ValueView,
};
use std::collections::HashMap;
use vstd::prelude::*;

verus! {

/// A type whose values convert into the value tree.
pub trait RustyValue: Sized {
    /// Whether `value` is what a conversion of `self` may give. An
    /// implementation that says nothing allows every value.
    open spec fn converts_to(self, value: ValueView) -> bool {
        true
    }

    /// Converts `self` into the value tree.
    fn into_rusty_value(self) -> (value: Value)
        ensures
            self.converts_to(value@),
    ;
}

/// A type whose values convert into keys of maps.
pub trait HashableRustyValue: Sized {
    /// Whether `key` is what a conversion of `self` may give. An
    /// implementation that says nothing allows every key.
    open spec fn hashes_to(self, key: HashableValueView) -> bool {
        true
    }

    /// Converts `self` into a key.
    fn into_hashable_rusty_value(self) -> (key: HashableValue)
        ensures
            self.hashes_to(key@),
    ;
}

/// The key that holds the integer `i`.
pub open spec fn integer_key(i: Integer) -> HashableValueView {
    HashableValueView::Primitive(HashablePrimitiveView::Integer(i))
}

impl HashableRustyValue for usize {
    open spec fn hashes_to(self, key: HashableValueView) -> bool {
        key == integer_key(Integer::USize(self))
    }

    fn into_hashable_rusty_value(self) -> (key: HashableValue) {
        HashableValue::Primitive(HashablePrimitive::Integer(Integer::USize(self)))
    }
}

impl HashableRustyValue for isize {
    open spec fn hashes_to(self, key: HashableValueView) -> bool {
        key == integer_key(Integer::ISize(self))
    }

    fn into_hashable_rusty_value(self) -> (key: HashableValue) {
        HashableValue::Primitive(HashablePrimitive::Integer(Integer::ISize(self)))
    }
}

impl HashableRustyValue for u8 {
    open spec fn hashes_to(self, key: HashableValueView) -> bool {
        key == integer_key(Integer::U8(self))
    }

    fn into_hashable_rusty_value(self) -> (key: HashableValue) {
        HashableValue::Primitive(HashablePrimitive::Integer(Integer::U8(self)))
    }
}

impl HashableRustyValue for i8 {
    open spec fn hashes_to(self, key: HashableValueView) -> bool {
        key == integer_key(Integer::I8(self))
    }

    fn into_hashable_rusty_value(self) -> (key: HashableValue) {
        HashableValue::Primitive(HashablePrimitive::Integer(Integer::I8(self)))
    }
}

impl HashableRustyValue for u16 {
    open spec fn hashes_to(self, key: HashableValueView) -> bool {
        key == integer_key(Integer::U16(self))
    }

    fn into_hashable_rusty_value(self) -> (key: HashableValue) {
        HashableValue::Primitive(HashablePrimitive::Integer(Integer::U16(self)))
    }
}

impl HashableRustyValue for i16 {
    open spec fn hashes_to(self, key: HashableValueView) -> bool {
        key == integer_key(Integer::I16(self))
    }

    fn into_hashable_rusty_value(self) -> (key: HashableValue) {
        HashableValue::Primitive(HashablePrimitive::Integer(Integer::I16(self)))
    }
}

impl HashableRustyValue for u32 {
    open spec fn hashes_to(self, key: HashableValueView) -> bool {
        key == integer_key(Integer::U32(self))
    }

    fn into_hashable_rusty_value(self) -> (key: HashableValue) {
        HashableValue::Primitive(HashablePrimitive::Integer(Integer::U32(self)))
    }
}

impl HashableRustyValue for i32 {
    open spec fn hashes_to(self, key: HashableValueView) -> bool {
        key == integer_key(Integer::I32(self))
    }

    fn into_hashable_rusty_value(self) -> (key: HashableValue) {
        HashableValue::Primitive(HashablePrimitive::Integer(Integer::I32(self)))
    }
}

impl HashableRustyValue for u64 {
    open spec fn hashes_to(self, key: HashableValueView) -> bool {
        key == integer_key(Integer::U64(self))
    }

    fn into_hashable_rusty_value(self) -> (key: HashableValue) {
        HashableValue::Primitive(HashablePrimitive::Integer(Integer::U64(self)))
    }
}

impl HashableRustyValue for i64 {
    open spec fn hashes_to(self, key: HashableValueView) -> bool {
        key == integer_key(Integer::I64(self))
    }

    fn into_hashable_rusty_value(self) -> (key: HashableValue) {
        HashableValue::Primitive(HashablePrimitive::Integer(Integer::I64(self)))
    }
}

impl HashableRustyValue for u128 {
    open spec fn hashes_to(self, key: HashableValueView) -> bool {
        key == integer_key(Integer::U128(self))
    }

    fn into_hashable_rusty_value(self) -> (key: HashableValue) {
        HashableValue::Primitive(HashablePrimitive::Integer(Integer::U128(self)))
    }
}

impl HashableRustyValue for i128 {
    open spec fn hashes_to(self, key: HashableValueView) -> bool {
        key == integer_key(Integer::I128(self))
    }

    fn into_hashable_rusty_value(self) -> (key: HashableValue) {
        HashableValue::Primitive(HashablePrimitive::Integer(Integer::I128(self)))
    }
}

impl HashableRustyValue for String {
    open spec fn hashes_to(self, key: HashableValueView) -> bool {
        key == HashableValueView::Primitive(HashablePrimitiveView::String(self@))
    }

    fn into_hashable_rusty_value(self) -> (key: HashableValue) {
        HashableValue::Primitive(HashablePrimitive::String(self))
    }
}

impl<'a> HashableRustyValue for &'a str {
    open spec fn hashes_to(self, key: HashableValueView) -> bool {
        key == HashableValueView::Primitive(HashablePrimitiveView::String(self@))
    }

    fn into_hashable_rusty_value(self) -> (key: HashableValue) {
        self.to_owned().into_hashable_rusty_value()
    }
}

impl HashableRustyValue for char {
    open spec fn hashes_to(self, key: HashableValueView) -> bool {
        key == HashableValueView::Primitive(HashablePrimitiveView::Char(self))
    }

    fn into_hashable_rusty_value(self) -> (key: HashableValue) {
        char_key(self)
    }
}

/// The key that holds the character `c`.
fn char_key(c: char) -> (key: HashableValue)
    ensures
        key@ == HashableValueView::Primitive(HashablePrimitiveView::Char(c)),
{
    HashableValue::Primitive(HashablePrimitive::Char(c))
}

impl HashableRustyValue for bool {
    open spec fn hashes_to(self, key: HashableValueView) -> bool {
        key == HashableValueView::Primitive(HashablePrimitiveView::Bool(self))
    }

    fn into_hashable_rusty_value(self) -> (key: HashableValue) {
        HashableValue::Primitive(HashablePrimitive::Bool(self))
    }
}

/// The scalar of the value tree that holds what the scalar `p` of a key
/// holds.
pub open spec fn key_primitive(p: HashablePrimitiveView) -> PrimitiveView {
    match p {
        HashablePrimitiveView::Integer(i) => PrimitiveView::Integer(i),
        HashablePrimitiveView::String(s) => PrimitiveView::String(s),
        HashablePrimitiveView::Char(c) => PrimitiveView::Char(c),
        HashablePrimitiveView::Bool(b) => PrimitiveView::Bool(b),
    }
}

/// The value that holds what the key `key` holds: a scalar for a scalar, a
/// list for a list, and the empty list for no value.
pub open spec fn key_value(key: HashableValueView) -> ValueView
    decreases key,
{
    match key {
        HashableValueView::Primitive(p) => ValueView::Primitive(key_primitive(p)),
        HashableValueView::List(items) => ValueView::List(key_values(items)),
        HashableValueView::NoValue => ValueView::List(Seq::empty()),
    }
}

/// The value of each key of `keys`, in the same order.
pub open spec fn key_values(keys: Seq<HashableValueView>) -> Seq<ValueView>
    decreases keys,
{
    Seq::new(
        keys.len(),
        |i: int|
            if 0 <= i < keys.len() {
                key_value(keys[i])
            } else {
                ValueView::List(Seq::empty())
            },
    )
}

/// The value that holds what the key `key` holds.
fn key_into_value(key: HashableValue) -> (value: Value)
    ensures
        value@ == key_value(key@),
    decreases key,
{
    match key {
        HashableValue::Primitive(p) => match p {
            HashablePrimitive::Integer(i) => Value::Primitive(Primitive::Integer(i)),
            HashablePrimitive::String(s) => Value::Primitive(Primitive::String(s)),
            HashablePrimitive::Char(c) => Value::Primitive(Primitive::Char(c)),
            HashablePrimitive::Bool(b) => Value::Primitive(Primitive::Bool(b)),
        },
        HashableValue::List(l) => {
            let ghost items = l@;
            let mut values: Vec<Value> = Vec::with_capacity(l.len());
            for item in iter: l
                invariant
                    iter.seq() == items,
                    key == HashableValue::List(l),
                    items == l@,
                    values@.len() == iter.index(),
                    forall|j: int|
                        0 <= j < iter.index() ==> value_view(values@[j]) == key_value(
                            key_view(items[j]),
                        ),
            {
                assert(decreases_to!(key => item)) by {
                    assert(key->List_0 == l);
                    assert(item == l@[iter.index()]);
                    assert(decreases_to!(l => l[iter.index()]));
                }
                let value = key_into_value(item);
                values.push(value);
            }
            let value = Value::List(values);
            assert(value@->List_0 =~= key_values(keys_view(items)));
            value
        },
        HashableValue::NoValue => {
            let value = Value::List(Vec::new());
            assert(value@->List_0 =~= Seq::empty());
            value
        },
    }
}

impl RustyValue for HashableValue {
    open spec fn converts_to(self, value: ValueView) -> bool {
        value == key_value(self@)
    }

    fn into_rusty_value(self) -> (value: Value) {
        key_into_value(self)
    }
}

impl<H: HashableRustyValue> RustyValue for H {
    open spec fn converts_to(self, value: ValueView) -> bool {
        exists|key: HashableValueView| #[trigger] self.hashes_to(key) && value == key_value(key)
    }

    fn into_rusty_value(self) -> (value: Value) {
        self.into_hashable_rusty_value().into_rusty_value()
    }
}

impl RustyValue for Float {
    open spec fn converts_to(self, value: ValueView) -> bool {
        value == ValueView::Primitive(PrimitiveView::Float(self))
    }

    fn into_rusty_value(self) -> (value: Value) {
        Value::Primitive(Primitive::Float(self))
    }
}

impl<R: RustyValue> RustyValue for Vec<R> {
    open spec fn converts_to(self, value: ValueView) -> bool {
        &&& value is List
        &&& value->List_0.len() == self@.len()
        &&& forall|i: int| 0 <= i < self@.len() ==> (#[trigger] self@[i]).converts_to(value->List_0[i])
    }

    fn into_rusty_value(self) -> (value: Value) {
        let ghost items = self@;
        let mut values: Vec<Value> = Vec::with_capacity(self.len());
        for item in iter: self
            invariant
                iter.seq() == items,
                values@.len() == iter.index(),
                forall|j: int|
                    0 <= j < iter.index() ==> (#[trigger] items[j]).converts_to(
                        value_view(values@[j]),
                    ),
        {
            let value = item.into_rusty_value();
            values.push(value);
        }
        let value = Value::List(values);
        assert(value@->List_0 =~= values_view(values@));
        value
    }
}

/// `entries` hold each pair of `map` once, in some order.
pub open spec fn lists_map<K, V>(entries: Seq<(K, V)>, map: Map<K, V>) -> bool {
    &&& forall|i: int|
        0 <= i < entries.len() ==> map.contains_key((#[trigger] entries[i]).0) && map[entries[i].0]
            == entries[i].1
    &&& forall|i: int, j: int|
        0 <= i < j < entries.len() ==> (#[trigger] entries[i]).0 != (#[trigger] entries[j]).0
    &&& forall|k: K| #[trigger]
        map.contains_key(k) ==> exists|i: int| 0 <= i < entries.len() && (#[trigger] entries[i]).0 == k
}

/// The pairs of a hash map, moved out of it. `HashMap::into_iter` hands out
/// each pair of the map once, in an order that the map chooses;
/// `Vec::from_iter` keeps what it is handed in that order.
#[verifier::external_body]
fn hash_map_into_entries<K, V>(map: HashMap<K, V>) -> (entries: Vec<(K, V)>)
    ensures
        lists_map(entries@, map@),
{
    Vec::from_iter(map)
}

/// `pairs` hold, for each entry of `entries` in the same order, a key and a
/// value that converting the entry's key and value may give.
pub open spec fn converted_pairs<H: HashableRustyValue, R: RustyValue>(
    entries: Seq<(H, R)>,
    pairs: Seq<(HashableValueView, ValueView)>,
) -> bool {
    &&& pairs.len() == entries.len()
    &&& forall|i: int|
        0 <= i < entries.len() ==> (#[trigger] entries[i]).0.hashes_to(pairs[i].0)
            && entries[i].1.converts_to(pairs[i].1)
}

/// The map that takes the entries one after the other, each with its key and
/// its value converted: of two entries whose keys convert to one key the
/// earlier gives the place and the later the value.
pub fn entries_into_rusty_value<H: HashableRustyValue, R: RustyValue>(entries: Vec<(H, R)>) -> (value:
    Value)
    ensures
        exists|pairs: Seq<(HashableValueView, ValueView)>| #[trigger]
            converted_pairs(entries@, pairs) && value@ == ValueView::Dict(put_all(pairs)),
{
    let ghost given = entries@;
    let ghost f = |v: Value| value_view(v);
    let ghost mut pairs: Seq<(HashableValueView, ValueView)> = Seq::empty();
    let mut dict: Dict<HashableValue, Value> = Dict::with_capacity(entries.len());
    assert(entries_view(dict@) =~= put_all(pairs));
    for entry in iter: entries
        invariant
            iter.seq() == given,
            f == (|v: Value| value_view(v)),
            pairs.len() == iter.index(),
            forall|j: int|
                0 <= j < iter.index() ==> (#[trigger] given[j]).0.hashes_to(pairs[j].0)
                    && given[j].1.converts_to(pairs[j].1),
            entries_view(dict@) == put_all(pairs),
    {
        let (k, v) = entry;
        let key = k.into_hashable_rusty_value();
        let value = v.into_rusty_value();
        proof {
            lemma_with_entry_views(dict@, f, key, value);
            assert(entries_view(dict@) =~= entry_views(dict@, f));
            let before = pairs;
            pairs = pairs.push((key@, value@));
            assert(pairs.drop_last() =~= before);
        }
        dict.insert(key, value);
        assert(entries_view(dict@) =~= entry_views(dict@, f));
    }
    assert(converted_pairs(given, pairs));
    Value::Dict(dict)
}

impl<H: HashableRustyValue, R: RustyValue> RustyValue for HashMap<H, R> {
    open spec fn converts_to(self, value: ValueView) -> bool {
        exists|entries: Seq<(H, R)>, pairs: Seq<(HashableValueView, ValueView)>|
            lists_map(entries, self@) && #[trigger] converted_pairs(entries, pairs) && value
                == ValueView::Dict(put_all(pairs))
    }

    fn into_rusty_value(self) -> (value: Value) {
        let entries = hash_map_into_entries(self);
        entries_into_rusty_value(entries)
    }
}

} // verus!

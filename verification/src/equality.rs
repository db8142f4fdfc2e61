//! Equality of keys and values: keys are equal when they hold the same,
//! floating-point numbers are compared as IEEE 754 has it, and maps without
//! regard to the order of their entries.

use crate::dict::{
    entry_views, key_position, lemma_dict_decreases, lemma_key_position, lemma_position_of,
    lemma_position_views, unique_keys, Dict, DictKey,
};
use crate::float_order::same_float;
use crate::value::{
    entries_view, named_view, value_view, values_view, Enum, Fields, FieldsView,
    HashablePrimitive, HashableValue, Primitive, PrimitiveView, Struct, Value, ValueView,
};
use vstd::prelude::*;
use vstd::std_specs::cmp::PartialEqSpecImpl;

verus! {

broadcast use lemma_dict_decreases;

/// Whether two scalars are equal: they are of one kind and hold equal
/// contents.
pub open spec fn same_primitive(a: PrimitiveView, b: PrimitiveView) -> bool {
    match (a, b) {
        (PrimitiveView::Integer(x), PrimitiveView::Integer(y)) => x == y,
        (PrimitiveView::Float(x), PrimitiveView::Float(y)) => same_float(x, y),
        (PrimitiveView::String(x), PrimitiveView::String(y)) => x == y,
        (PrimitiveView::Char(x), PrimitiveView::Char(y)) => x == y,
        (PrimitiveView::Bool(x), PrimitiveView::Bool(y)) => x == y,
        _ => false,
    }
}

/// Whether two values are equal: they are of one kind, with equal names and
/// equal contents.
pub open spec fn same_value(a: ValueView, b: ValueView) -> bool
    decreases a, 0int,
{
    match (a, b) {
        (ValueView::Primitive(x), ValueView::Primitive(y)) => same_primitive(x, y),
        (ValueView::Struct(x), ValueView::Struct(y)) => x.name == y.name && same_fields(
            x.fields,
            y.fields,
        ),
        (ValueView::Enum(x), ValueView::Enum(y)) => x.name == y.name && x.variant == y.variant
            && same_fields(x.fields, y.fields),
        (ValueView::Dict(x), ValueView::Dict(y)) => same_entries(x, y),
        (ValueView::List(x), ValueView::List(y)) => same_values(x, y),
        _ => false,
    }
}

/// Whether the members of two records or variants are equal.
pub open spec fn same_fields(a: FieldsView, b: FieldsView) -> bool
    decreases a, 0int,
{
    match (a, b) {
        (FieldsView::Named(x), FieldsView::Named(y)) => same_entries(x, y),
        (FieldsView::Unnamed(x), FieldsView::Unnamed(y)) => same_values(x, y),
        (FieldsView::Unit, FieldsView::Unit) => true,
        _ => false,
    }
}

/// Whether two lists are equal: they are as long as each other, and the items
/// in each place are equal.
pub open spec fn same_values(a: Seq<ValueView>, b: Seq<ValueView>) -> bool
    decreases a, 0int,
{
    &&& a.len() == b.len()
    &&& forall|i: int| 0 <= i < a.len() ==> same_value(#[trigger] a[i], b[i])
}

/// Whether two maps are equal: they have as many entries as each other, and
/// each key of the first has in the second a value equal to its own.
pub open spec fn same_entries<K>(a: Seq<(K, ValueView)>, b: Seq<(K, ValueView)>) -> bool
    decreases a, 0int,
{
    &&& a.len() == b.len()
    &&& forall|i: int| 0 <= i < a.len() ==> found_same(b, (#[trigger] a[i]).0, a[i].1)
}

/// Whether `key` has in `b` a value equal to `value`.
pub open spec fn found_same<K>(b: Seq<(K, ValueView)>, key: K, value: ValueView) -> bool
    decreases value, 1int,
{
    match key_position(b, key) {
        Some(j) => same_value(value, b[j].1),
        None => false,
    }
}

/// The order of the entries of a map does not matter to equality: two maps
/// with different keys each, of which the second holds the entries of the
/// first in any order, are equal, if each value is equal to itself (as every
/// value without a NaN is).
pub proof fn lemma_same_entries_in_any_order<K>(a: Seq<(K, ValueView)>, b: Seq<(K, ValueView)>)
    requires
        unique_keys(b),
        a.len() == b.len(),
        forall|i: int| 0 <= i < a.len() ==> exists|j: int| 0 <= j < b.len() && b[j] == #[trigger] a[i],
        forall|i: int| 0 <= i < a.len() ==> same_value((#[trigger] a[i]).1, a[i].1),
    ensures
        same_entries(a, b),
{
    assert forall|i: int| 0 <= i < a.len() implies found_same(b, (#[trigger] a[i]).0, a[i].1) by {
        let j = choose|j: int| 0 <= j < b.len() && b[j] == a[i];
        lemma_key_position(b, a[i].0);
        let found = key_position(b, a[i].0);
        assert(found is Some) by {
            if found is None {
                assert(b[j].0 != a[i].0);
            }
        }
        let k = found->Some_0;
        if k != j {
            if k < j {
                assert(b[k].0 != b[j].0);
            } else {
                assert(b[j].0 != b[k].0);
            }
        }
    }
}

impl Primitive {
    /// Whether `self` and `other` are equal.
    pub fn same(&self, other: &Self) -> (same: bool)
        ensures
            same == same_primitive(self@, other@),
    {
        match (self, other) {
            (Primitive::Integer(a), Primitive::Integer(b)) => *a == *b,
            (Primitive::Float(a), Primitive::Float(b)) => *a == *b,
            (Primitive::String(a), Primitive::String(b)) => *a == *b,
            (Primitive::Char(a), Primitive::Char(b)) => *a == *b,
            (Primitive::Bool(a), Primitive::Bool(b)) => *a == *b,
            _ => false,
        }
    }
}

/// Whether the lists `a` and `b` are equal.
fn lists_same(a: &Vec<Value>, b: &Vec<Value>) -> (same: bool)
    ensures
        same == same_values(values_view(a@), values_view(b@)),
    decreases *a,
{
    if a.len() != b.len() {
        return false;
    }
    let mut i: usize = 0;
    while i < a.len()
        invariant
            i <= a.len(),
            a.len() == b.len(),
            forall|j: int|
                0 <= j < i ==> same_value(#[trigger] values_view(a@)[j], values_view(b@)[j]),
        decreases a.len() - i,
    {
        assert(decreases_to!(*a => a[i as int]));
        if !a[i].same(&b[i]) {
            assert(!same_value(values_view(a@)[i as int], values_view(b@)[i as int]));
            return false;
        }
        i += 1;
    }
    true
}

/// Whether the maps `a` and `b` are equal.
fn maps_same<K: DictKey>(a: &Dict<K, Value>, b: &Dict<K, Value>) -> (same: bool)
    ensures
        same == same_entries(
            entry_views(a@, |v: Value| value_view(v)),
            entry_views(b@, |v: Value| value_view(v)),
        ),
    decreases *a,
{
    let ghost f = |v: Value| value_view(v);
    let ghost left = entry_views(a@, f);
    let ghost right = entry_views(b@, f);
    if a.len() != b.len() {
        return false;
    }
    let entries = a.entries();
    let mut i: usize = 0;
    while i < entries.len()
        invariant
            i <= entries.len(),
            entries@ == a@,
            f == (|v: Value| value_view(v)),
            left == entry_views(a@, f),
            right == entry_views(b@, f),
            a@.len() == b@.len(),
            forall|j: int| 0 <= j < i ==> found_same(right, (#[trigger] left[j]).0, left[j].1),
        decreases entries.len() - i,
    {
        proof {
            lemma_position_views(b@, f, entries@[i as int].0@);
            lemma_position_of(b@, entries@[i as int].0@);
        }
        match b.get(&entries[i].0) {
            Some(found) => {
                assert(decreases_to!(*a => entries@[i as int].1)) by {
                    assert(decreases_to!(*a => a@));
                    assert(decreases_to!(a@ => a@[i as int]));
                    assert(decreases_to!(a@[i as int] => a@[i as int].1));
                }
                if !entries[i].1.same(found) {
                    assert(!found_same(right, left[i as int].0, left[i as int].1));
                    return false;
                }
            },
            None => {
                assert(!found_same(right, left[i as int].0, left[i as int].1));
                return false;
            },
        }
        i += 1;
    }
    true
}

impl Fields {
    /// Whether `self` and `other` are equal.
    pub fn same(&self, other: &Self) -> (same: bool)
        ensures
            same == same_fields(self@, other@),
        decreases *self,
    {
        match (self, other) {
            (Fields::Named(a), Fields::Named(b)) => {
                assert(named_view(a@) =~= entry_views(a@, |v: Value| value_view(v)));
                assert(named_view(b@) =~= entry_views(b@, |v: Value| value_view(v)));
                maps_same(a, b)
            },
            (Fields::Unnamed(a), Fields::Unnamed(b)) => lists_same(a, b),
            (Fields::Unit, Fields::Unit) => true,
            _ => false,
        }
    }
}

impl Value {
    /// Whether `self` and `other` are equal.
    pub fn same(&self, other: &Self) -> (same: bool)
        ensures
            same == same_value(self@, other@),
        decreases *self,
    {
        match (self, other) {
            (Value::Primitive(a), Value::Primitive(b)) => a.same(b),
            (Value::Struct(a), Value::Struct(b)) => a.name == b.name && a.fields.same(&b.fields),
            (Value::Enum(a), Value::Enum(b)) => a.name == b.name && a.variant == b.variant
                && a.fields.same(&b.fields),
            (Value::Dict(a), Value::Dict(b)) => {
                assert(entries_view(a@) =~= entry_views(a@, |v: Value| value_view(v)));
                assert(entries_view(b@) =~= entry_views(b@, |v: Value| value_view(v)));
                maps_same(a, b)
            },
            (Value::List(a), Value::List(b)) => lists_same(a, b),
            _ => false,
        }
    }
}

impl PartialEq for HashablePrimitive {
    fn eq(&self, other: &HashablePrimitive) -> (equal: bool) {
        self.same(other)
    }
}

impl PartialEqSpecImpl for HashablePrimitive {
    open spec fn obeys_eq_spec() -> bool {
        true
    }

    open spec fn eq_spec(&self, other: &HashablePrimitive) -> bool {
        self@ == other@
    }
}

impl PartialEq for HashableValue {
    fn eq(&self, other: &HashableValue) -> (equal: bool) {
        self.same(other)
    }
}

impl PartialEqSpecImpl for HashableValue {
    open spec fn obeys_eq_spec() -> bool {
        true
    }

    open spec fn eq_spec(&self, other: &HashableValue) -> bool {
        self@ == other@
    }
}

impl PartialEq for Primitive {
    fn eq(&self, other: &Primitive) -> (equal: bool) {
        self.same(other)
    }
}

impl PartialEqSpecImpl for Primitive {
    open spec fn obeys_eq_spec() -> bool {
        true
    }

    open spec fn eq_spec(&self, other: &Primitive) -> bool {
        same_primitive(self@, other@)
    }
}

impl PartialEq for Fields {
    fn eq(&self, other: &Fields) -> (equal: bool) {
        self.same(other)
    }
}

impl PartialEqSpecImpl for Fields {
    open spec fn obeys_eq_spec() -> bool {
        true
    }

    open spec fn eq_spec(&self, other: &Fields) -> bool {
        same_fields(self@, other@)
    }
}

impl PartialEq for Struct {
    fn eq(&self, other: &Struct) -> (equal: bool) {
        self.name == other.name && self.fields.same(&other.fields)
    }
}

impl PartialEqSpecImpl for Struct {
    open spec fn obeys_eq_spec() -> bool {
        true
    }

    open spec fn eq_spec(&self, other: &Struct) -> bool {
        same_value(ValueView::Struct(self@), ValueView::Struct(other@))
    }
}

impl PartialEq for Enum {
    fn eq(&self, other: &Enum) -> (equal: bool) {
        self.name == other.name && self.variant == other.variant && self.fields.same(&other.fields)
    }
}

impl PartialEqSpecImpl for Enum {
    open spec fn obeys_eq_spec() -> bool {
        true
    }

    open spec fn eq_spec(&self, other: &Enum) -> bool {
        same_value(ValueView::Enum(self@), ValueView::Enum(other@))
    }
}

impl PartialEq for Value {
    fn eq(&self, other: &Value) -> (equal: bool) {
        self.same(other)
    }
}

impl PartialEqSpecImpl for Value {
    open spec fn obeys_eq_spec() -> bool {
        true
    }

    open spec fn eq_spec(&self, other: &Value) -> bool {
        same_value(self@, other@)
    }
}

} // verus!

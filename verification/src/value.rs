//! The value tree: primitives, records, variants, maps and lists.

use crate::dict::{distinct_keys, lemma_dict_decreases, lemma_with_entry_new, Dict, DictKey};
use crate::text::{decimal_string, decimal_text};
use vstd::prelude::*;

verus! {

broadcast use lemma_dict_decreases;

/// An integer together with the type it came from. Two integers of different
/// types are different, whatever their numbers.
#[derive(Clone, Copy, Debug, PartialEq, Eq, PartialOrd, Ord, Hash, Structural)]
pub enum Integer {
    USize(usize),
    ISize(isize),
    U8(u8),
    I8(i8),
    U16(u16),
    I16(i16),
    U32(u32),
    I32(i32),
    U64(u64),
    I64(i64),
    U128(u128),
    I128(i128),
}

/// A floating-point number of single or double precision, held as the bits of
/// its IEEE 754 encoding.
#[derive(Clone, Copy, Debug)]
pub enum Float {
    F32(u32),
    F64(u64),
}

/// A scalar.
#[derive(Clone, Debug, PartialOrd)]
pub enum Primitive {
    Integer(Integer),
    Float(Float),
    String(String),
    Char(char),
    Bool(bool),
}

/// A scalar that can be part of a map's key.
#[derive(Clone, Debug, Eq, PartialOrd, Ord, Hash)]
pub enum HashablePrimitive {
    Integer(Integer),
    String(String),
    Char(char),
    Bool(bool),
}

/// A value that can be the key of a map.
#[derive(Debug, Eq, PartialOrd, Ord, Hash)]
pub enum HashableValue {
    Primitive(HashablePrimitive),
    List(Vec<HashableValue>),
    NoValue,
}

/// The members of a record or of a variant.
#[derive(Debug)]
pub enum Fields {
    Named(Dict<String, Value>),
    Unnamed(Vec<Value>),
    Unit,
}

/// One instance of a record type.
#[derive(Debug)]
pub struct Struct {
    pub name: String,
    pub fields: Fields,
}

/// One instance of a sum type, in its active variant.
#[derive(Debug)]
pub struct Enum {
    pub name: String,
    pub variant: String,
    pub fields: Fields,
}

/// A value of any convertible type.
#[derive(Debug)]
pub enum Value {
    Primitive(Primitive),
    Struct(Struct),
    Enum(Enum),
    Dict(Dict<HashableValue, Value>),
    List(Vec<Value>),
}

/// What a [`Primitive`] holds.
pub enum PrimitiveView {
    Integer(Integer),
    Float(Float),
    String(Seq<char>),
    Char(char),
    Bool(bool),
}

/// What a [`HashablePrimitive`] holds.
pub enum HashablePrimitiveView {
    Integer(Integer),
    String(Seq<char>),
    Char(char),
    Bool(bool),
}

/// What a [`HashableValue`] holds.
pub enum HashableValueView {
    Primitive(HashablePrimitiveView),
    List(Seq<HashableValueView>),
    NoValue,
}

/// What a [`Fields`] holds. Named members stand in the order of the map.
pub enum FieldsView {
    Named(Seq<(Seq<char>, ValueView)>),
    Unnamed(Seq<ValueView>),
    Unit,
}

/// What a [`Struct`] holds.
pub struct StructView {
    pub name: Seq<char>,
    pub fields: FieldsView,
}

/// What an [`Enum`] holds.
pub struct EnumView {
    pub name: Seq<char>,
    pub variant: Seq<char>,
    pub fields: FieldsView,
}

/// What a [`Value`] holds. The entries of a map stand in the order of the map.
pub enum ValueView {
    Primitive(PrimitiveView),
    Struct(StructView),
    Enum(EnumView),
    Dict(Seq<(HashableValueView, ValueView)>),
    List(Seq<ValueView>),
}

impl View for Primitive {
    type V = PrimitiveView;

    open spec fn view(&self) -> PrimitiveView {
        match *self {
            Primitive::Integer(i) => PrimitiveView::Integer(i),
            Primitive::Float(f) => PrimitiveView::Float(f),
            Primitive::String(s) => PrimitiveView::String(s@),
            Primitive::Char(c) => PrimitiveView::Char(c),
            Primitive::Bool(b) => PrimitiveView::Bool(b),
        }
    }
}

impl View for HashablePrimitive {
    type V = HashablePrimitiveView;

    open spec fn view(&self) -> HashablePrimitiveView {
        match *self {
            HashablePrimitive::Integer(i) => HashablePrimitiveView::Integer(i),
            HashablePrimitive::String(s) => HashablePrimitiveView::String(s@),
            HashablePrimitive::Char(c) => HashablePrimitiveView::Char(c),
            HashablePrimitive::Bool(b) => HashablePrimitiveView::Bool(b),
        }
    }
}

/// The view of a key.
pub open spec fn key_view(key: HashableValue) -> HashableValueView
    decreases key,
{
    match key {
        HashableValue::Primitive(p) => HashableValueView::Primitive(p@),
        HashableValue::List(l) => HashableValueView::List(keys_view(l@)),
        HashableValue::NoValue => HashableValueView::NoValue,
    }
}

/// The view of each key of `keys`, in the same order.
pub open spec fn keys_view(keys: Seq<HashableValue>) -> Seq<HashableValueView>
    decreases keys,
{
    Seq::new(
        keys.len(),
        |i: int|
            if 0 <= i < keys.len() {
                key_view(keys[i])
            } else {
                HashableValueView::NoValue
            },
    )
}

impl View for HashableValue {
    type V = HashableValueView;

    open spec fn view(&self) -> HashableValueView {
        key_view(*self)
    }
}

impl Integer {
    /// The number that the integer holds.
    pub open spec fn value(self) -> int {
        match self {
            Integer::USize(n) => n as int,
            Integer::ISize(n) => n as int,
            Integer::U8(n) => n as int,
            Integer::I8(n) => n as int,
            Integer::U16(n) => n as int,
            Integer::I16(n) => n as int,
            Integer::U32(n) => n as int,
            Integer::I32(n) => n as int,
            Integer::U64(n) => n as int,
            Integer::I64(n) => n as int,
            Integer::U128(n) => n as int,
            Integer::I128(n) => n as int,
        }
    }

    /// The integer in decimal.
    pub fn to_string(&self) -> (s: String)
        ensures
            s@ == decimal_text(self.value()),
    {
        match *self {
            Integer::USize(n) => decimal_string(false, n as u128),
            Integer::ISize(n) => signed_decimal_string(n as i128),
            Integer::U8(n) => decimal_string(false, n as u128),
            Integer::I8(n) => signed_decimal_string(n as i128),
            Integer::U16(n) => decimal_string(false, n as u128),
            Integer::I16(n) => signed_decimal_string(n as i128),
            Integer::U32(n) => decimal_string(false, n as u128),
            Integer::I32(n) => signed_decimal_string(n as i128),
            Integer::U64(n) => decimal_string(false, n as u128),
            Integer::I64(n) => signed_decimal_string(n as i128),
            Integer::U128(n) => decimal_string(false, n),
            Integer::I128(n) => signed_decimal_string(n),
        }
    }
}

impl Float {
    /// The exponent field of the encoding: 8 bits in single precision, 11 in
    /// double precision.
    pub open spec fn exponent(self) -> int {
        match self {
            Float::F32(bits) => (bits as int / 0x80_0000) % 0x100,
            Float::F64(bits) => (bits as int / 0x10_0000_0000_0000) % 0x800,
        }
    }

    /// Whether the number is neither an infinity nor a NaN: those, and only
    /// those, have an exponent field of all ones.
    pub open spec fn finite(self) -> bool {
        match self {
            Float::F32(_) => self.exponent() != 0xff,
            Float::F64(_) => self.exponent() != 0x7ff,
        }
    }

    /// Whether the number is neither an infinity nor a NaN.
    pub fn is_finite(&self) -> (b: bool)
        ensures
            b == self.finite(),
    {
        match *self {
            Float::F32(bits) => {
                assert((bits >> 23u32) & 0xffu32 == (bits / 0x80_0000u32) % 0x100u32) by (bit_vector);
                (bits >> 23u32) & 0xffu32 != 0xffu32
            },
            Float::F64(bits) => {
                assert((bits >> 52u64) & 0x7ffu64 == (bits / 0x10_0000_0000_0000u64) % 0x800u64)
                    by (bit_vector);
                (bits >> 52u64) & 0x7ffu64 != 0x7ffu64
            },
        }
    }
}

/// The signed integer `n` in decimal.
fn signed_decimal_string(n: i128) -> (s: String)
    ensures
        s@ == decimal_text(n as int),
{
    if n < 0 {
        let below: i128 = -(n + 1);
        decimal_string(true, below as u128 + 1)
    } else {
        decimal_string(false, n as u128)
    }
}

/// The text of a scalar that is part of a key: an integer in decimal, a
/// string as it is, a character alone, a boolean as `true` or `false`.
pub open spec fn primitive_text(p: HashablePrimitiveView) -> Seq<char> {
    match p {
        HashablePrimitiveView::Integer(i) => decimal_text(i.value()),
        HashablePrimitiveView::String(s) => s,
        HashablePrimitiveView::Char(c) => seq![c],
        HashablePrimitiveView::Bool(b) => if b {
            "true"@
        } else {
            "false"@
        },
    }
}

impl HashablePrimitive {
    /// The scalar as text.
    pub fn to_string(&self) -> (s: String)
        ensures
            s@ == primitive_text(self@),
    {
        match self {
            HashablePrimitive::Integer(i) => i.to_string(),
            HashablePrimitive::String(s) => s.clone(),
            HashablePrimitive::Char(c) => {
                let mut s = String::new();
                s.push(*c);
                s
            },
            HashablePrimitive::Bool(b) => if *b {
                "true".to_owned()
            } else {
                "false".to_owned()
            },
        }
    }

    /// Whether `self` and `other` hold the same scalar.
    pub fn same(&self, other: &Self) -> (same: bool)
        ensures
            same == (self@ == other@),
    {
        match (self, other) {
            (HashablePrimitive::Integer(a), HashablePrimitive::Integer(b)) => *a == *b,
            (HashablePrimitive::String(a), HashablePrimitive::String(b)) => *a == *b,
            (HashablePrimitive::Char(a), HashablePrimitive::Char(b)) => *a == *b,
            (HashablePrimitive::Bool(a), HashablePrimitive::Bool(b)) => *a == *b,
            _ => false,
        }
    }

    /// A copy that holds the same scalar.
    pub fn duplicate(&self) -> (copy: Self)
        ensures
            copy@ == self@,
    {
        match self {
            HashablePrimitive::Integer(i) => HashablePrimitive::Integer(*i),
            HashablePrimitive::String(s) => HashablePrimitive::String(s.clone()),
            HashablePrimitive::Char(c) => HashablePrimitive::Char(*c),
            HashablePrimitive::Bool(b) => HashablePrimitive::Bool(*b),
        }
    }
}

impl HashableValue {
    /// Whether `self` and `other` hold the same key.
    pub fn same(&self, other: &Self) -> (same: bool)
        ensures
            same == (self@ == other@),
        decreases *self,
    {
        match (self, other) {
            (HashableValue::Primitive(a), HashableValue::Primitive(b)) => a.same(b),
            (HashableValue::List(a), HashableValue::List(b)) => {
                if a.len() != b.len() {
                    assert(self@->List_0.len() != other@->List_0.len());
                    return false;
                }
                let mut i: usize = 0;
                while i < a.len()
                    invariant
                        i <= a.len(),
                        a.len() == b.len(),
                        *self == HashableValue::List(*a),
                        *other == HashableValue::List(*b),
                        forall|j: int| 0 <= j < i ==> key_view(a@[j]) == key_view(b@[j]),
                    decreases a.len() - i,
                {
                    assert(decreases_to!(*a => a[i as int]));
                    if !a[i].same(&b[i]) {
                        assert(self@->List_0[i as int] == key_view(a@[i as int]));
                        assert(other@->List_0[i as int] == key_view(b@[i as int]));
                        return false;
                    }
                    i += 1;
                }
                assert(self@->List_0 =~= other@->List_0);
                true
            },
            (HashableValue::NoValue, HashableValue::NoValue) => true,
            _ => false,
        }
    }

    /// A copy that holds the same key.
    pub fn duplicate(&self) -> (copy: Self)
        ensures
            copy@ == self@,
        decreases *self,
    {
        match self {
            HashableValue::Primitive(p) => HashableValue::Primitive(p.duplicate()),
            HashableValue::List(l) => {
                let mut items: Vec<HashableValue> = Vec::with_capacity(l.len());
                let mut i: usize = 0;
                while i < l.len()
                    invariant
                        i <= l.len(),
                        items@.len() == i,
                        *self == HashableValue::List(*l),
                        forall|j: int| 0 <= j < i ==> key_view(items@[j]) == key_view(l@[j]),
                    decreases l.len() - i,
                {
                    assert(decreases_to!(*l => l[i as int]));
                    assert(self->List_0 == *l);
                    let item = l[i].duplicate();
                    items.push(item);
                    i += 1;
                }
                let copy = HashableValue::List(items);
                assert(copy@->List_0 =~= self@->List_0);
                copy
            },
            HashableValue::NoValue => HashableValue::NoValue,
        }
    }
}

impl Clone for HashableValue {
    fn clone(&self) -> (copy: Self)
        ensures
            copy@ == self@,
    {
        self.duplicate()
    }
}

impl DictKey for HashableValue {
    fn same_key(&self, other: &Self) -> (same: bool) {
        self.same(other)
    }

    fn clone_key(&self) -> (copy: Self) {
        self.duplicate()
    }
}

/// The view of a value.
pub open spec fn value_view(value: Value) -> ValueView
    decreases value,
{
    match value {
        Value::Primitive(p) => ValueView::Primitive(p@),
        Value::Struct(s) => ValueView::Struct(
            StructView { name: s.name@, fields: fields_view(s.fields) },
        ),
        Value::Enum(e) => ValueView::Enum(
            EnumView { name: e.name@, variant: e.variant@, fields: fields_view(e.fields) },
        ),
        Value::Dict(m) => ValueView::Dict(entries_view(m@)),
        Value::List(l) => ValueView::List(values_view(l@)),
    }
}

/// The view of the members of a record or variant.
pub open spec fn fields_view(fields: Fields) -> FieldsView
    decreases fields,
{
    match fields {
        Fields::Named(m) => FieldsView::Named(named_view(m@)),
        Fields::Unnamed(l) => FieldsView::Unnamed(values_view(l@)),
        Fields::Unit => FieldsView::Unit,
    }
}

/// The view of each value of `values`, in the same order.
pub open spec fn values_view(values: Seq<Value>) -> Seq<ValueView>
    decreases values,
{
    Seq::new(
        values.len(),
        |i: int|
            if 0 <= i < values.len() {
                value_view(values[i])
            } else {
                ValueView::List(Seq::empty())
            },
    )
}

/// The view of each named member of `entries`, in the same order.
pub open spec fn named_view(entries: Seq<(String, Value)>) -> Seq<(Seq<char>, ValueView)>
    decreases entries,
{
    Seq::new(
        entries.len(),
        |i: int|
            if 0 <= i < entries.len() {
                (entries[i].0@, value_view(entries[i].1))
            } else {
                (Seq::empty(), ValueView::List(Seq::empty()))
            },
    )
}

/// The view of each entry of `entries`, in the same order.
pub open spec fn entries_view(entries: Seq<(HashableValue, Value)>) -> Seq<
    (HashableValueView, ValueView),
>
    decreases entries,
{
    Seq::new(
        entries.len(),
        |i: int|
            if 0 <= i < entries.len() {
                (key_view(entries[i].0), value_view(entries[i].1))
            } else {
                (HashableValueView::NoValue, ValueView::List(Seq::empty()))
            },
    )
}

impl View for Fields {
    type V = FieldsView;

    open spec fn view(&self) -> FieldsView {
        fields_view(*self)
    }
}

impl View for Struct {
    type V = StructView;

    open spec fn view(&self) -> StructView {
        StructView { name: self.name@, fields: self.fields@ }
    }
}

impl View for Enum {
    type V = EnumView;

    open spec fn view(&self) -> EnumView {
        EnumView { name: self.name@, variant: self.variant@, fields: self.fields@ }
    }
}

impl View for Value {
    type V = ValueView;

    open spec fn view(&self) -> ValueView {
        value_view(*self)
    }
}

impl Fields {
    /// A copy that holds the same members.
    pub fn duplicate(&self) -> (copy: Self)
        ensures
            copy@ == self@,
        decreases *self,
    {
        match self {
            Fields::Named(m) => {
                let entries = m.entries();
                let mut named: Dict<String, Value> = Dict::with_capacity(entries.len());
                let mut i: usize = 0;
                while i < entries.len()
                    invariant
                        i <= entries.len(),
                        entries@ == m@,
                        *self == Fields::Named(*m),
                        distinct_keys(entries@),
                        named@.len() == i,
                        forall|j: int|
                            0 <= j < i ==> (#[trigger] named@[j]).0@ == entries@[j].0@
                                && value_view(named@[j].1) == value_view(entries@[j].1),
                    decreases entries.len() - i,
                {
                    let key = entries[i].0.clone();
                    assert(decreases_to!(*self => entries@[i as int].1)) by {
                        assert(self is Named);
                        assert(self->Named_0 == *m);
                        assert(decreases_to!(*self => self->Named_0));
                        assert(decreases_to!(*m => m@));
                        assert(decreases_to!(m@ => m@[i as int]));
                        assert(decreases_to!(m@[i as int] => m@[i as int].1));
                    }
                    let value = entries[i].1.duplicate();
                    proof {
                        lemma_with_entry_new(named@, key, value);
                    }
                    named.insert(key, value);
                    i += 1;
                }
                let copy = Fields::Named(named);
                assert(copy@->Named_0 =~= self@->Named_0);
                copy
            },
            Fields::Unnamed(l) => {
                let copy = Fields::Unnamed(duplicate_values(l));
                assert(copy@->Unnamed_0 =~= self@->Unnamed_0);
                copy
            },
            Fields::Unit => Fields::Unit,
        }
    }
}

/// A copy of each value of `values`, in the same order.
fn duplicate_values(values: &Vec<Value>) -> (copies: Vec<Value>)
    ensures
        copies@.len() == values@.len(),
        forall|j: int| 0 <= j < values@.len() ==> value_view(copies@[j]) == value_view(values@[j]),
    decreases *values,
{
    let mut copies: Vec<Value> = Vec::with_capacity(values.len());
    let mut i: usize = 0;
    while i < values.len()
        invariant
            i <= values.len(),
            copies@.len() == i,
            forall|j: int| 0 <= j < i ==> value_view(copies@[j]) == value_view(values@[j]),
        decreases values.len() - i,
    {
        assert(decreases_to!(*values => values[i as int]));
        let copy = values[i].duplicate();
        copies.push(copy);
        i += 1;
    }
    copies
}

impl Value {
    /// A copy that holds the same value.
    pub fn duplicate(&self) -> (copy: Self)
        ensures
            copy@ == self@,
        decreases *self,
    {
        match self {
            Value::Primitive(p) => Value::Primitive(p.duplicate()),
            Value::Struct(s) => Value::Struct(
                Struct { name: s.name.clone(), fields: s.fields.duplicate() },
            ),
            Value::Enum(e) => Value::Enum(
                Enum {
                    name: e.name.clone(),
                    variant: e.variant.clone(),
                    fields: e.fields.duplicate(),
                },
            ),
            Value::Dict(m) => {
                let entries = m.entries();
                let mut dict: Dict<HashableValue, Value> = Dict::with_capacity(entries.len());
                let mut i: usize = 0;
                while i < entries.len()
                    invariant
                        i <= entries.len(),
                        entries@ == m@,
                        *self == Value::Dict(*m),
                        distinct_keys(entries@),
                        dict@.len() == i,
                        forall|j: int|
                            0 <= j < i ==> (#[trigger] dict@[j]).0@ == entries@[j].0@
                                && value_view(dict@[j].1) == value_view(entries@[j].1),
                    decreases entries.len() - i,
                {
                    let key = entries[i].0.duplicate();
                    assert(decreases_to!(*self => entries@[i as int].1)) by {
                        assert(self is Dict);
                        assert(self->Dict_0 == *m);
                        assert(decreases_to!(*self => self->Dict_0));
                        assert(decreases_to!(*m => m@));
                        assert(decreases_to!(m@ => m@[i as int]));
                        assert(decreases_to!(m@[i as int] => m@[i as int].1));
                    }
                    let value = entries[i].1.duplicate();
                    proof {
                        lemma_with_entry_new(dict@, key, value);
                    }
                    dict.insert(key, value);
                    i += 1;
                }
                let copy = Value::Dict(dict);
                assert(copy@->Dict_0 =~= self@->Dict_0);
                copy
            },
            Value::List(l) => {
                let copy = Value::List(duplicate_values(l));
                assert(copy@->List_0 =~= self@->List_0);
                copy
            },
        }
    }
}

impl Primitive {
    /// A copy that holds the same scalar.
    pub fn duplicate(&self) -> (copy: Self)
        ensures
            copy@ == self@,
    {
        match self {
            Primitive::Integer(i) => Primitive::Integer(*i),
            Primitive::Float(f) => Primitive::Float(*f),
            Primitive::String(s) => Primitive::String(s.clone()),
            Primitive::Char(c) => Primitive::Char(*c),
            Primitive::Bool(b) => Primitive::Bool(*b),
        }
    }
}

impl Clone for Fields {
    fn clone(&self) -> (copy: Self)
        ensures
            copy@ == self@,
    {
        self.duplicate()
    }
}

impl Clone for Struct {
    fn clone(&self) -> (copy: Self)
        ensures
            copy@ == self@,
    {
        Struct { name: self.name.clone(), fields: self.fields.duplicate() }
    }
}

impl Clone for Enum {
    fn clone(&self) -> (copy: Self)
        ensures
            copy@ == self@,
    {
        Enum {
            name: self.name.clone(),
            variant: self.variant.clone(),
            fields: self.fields.duplicate(),
        }
    }
}

impl Clone for Value {
    fn clone(&self) -> (copy: Self)
        ensures
            copy@ == self@,
    {
        self.duplicate()
    }
}

} // verus!

//! The projection of a value into a JSON-like document.

use crate::dict::{
    entry_views, lemma_dict_decreases, lemma_key_position, lemma_with_entry_views, put, put_all,
    Dict,
};
use crate::text::join;
use crate::value::{
    entries_view, named_view, primitive_text, value_view, values_view, Enum, EnumView, Fields,
    FieldsView, Float, HashableValue, HashableValueView, Integer, Primitive, PrimitiveView, Struct,
    StructView, Value, ValueView,
};
use crate::value_trait::RustyValue;
use vstd::prelude::*;
use vstd::string::StringExecFns;

verus! {

broadcast use lemma_dict_decreases;

/// How a variant is tagged in the document of an enum.
#[derive(Clone, Debug)]
pub enum EnumRepr {
    /// The document of the members alone.
    Untagged,
    /// An object with one member: the variant's name, with the document of
    /// the members.
    ExternallyTagged,
    /// An object with two members: `type_field` with the variant's name, and
    /// `value_field` with the document of the members.
    AdjacentlyTagged { type_field: String, value_field: String },
}

/// What an [`EnumRepr`] holds.
pub enum EnumReprView {
    Untagged,
    ExternallyTagged,
    AdjacentlyTagged { type_field: Seq<char>, value_field: Seq<char> },
}

impl View for EnumRepr {
    type V = EnumReprView;

    open spec fn view(&self) -> EnumReprView {
        match *self {
            EnumRepr::Untagged => EnumReprView::Untagged,
            EnumRepr::ExternallyTagged => EnumReprView::ExternallyTagged,
            EnumRepr::AdjacentlyTagged { type_field, value_field } => EnumReprView::AdjacentlyTagged {
                type_field: type_field@,
                value_field: value_field@,
            },
        }
    }
}

impl Default for EnumRepr {
    fn default() -> (repr: Self)
        ensures
            repr == EnumRepr::ExternallyTagged,
    {
        EnumRepr::ExternallyTagged
    }
}

/// The options of the projection.
#[derive(Clone, Debug)]
pub struct IntoJsonOptions {
    pub enum_repr: EnumRepr,
}

impl Default for IntoJsonOptions {
    fn default() -> (options: Self)
        ensures
            options.enum_repr == EnumRepr::ExternallyTagged,
    {
        IntoJsonOptions { enum_repr: EnumRepr::ExternallyTagged }
    }
}

/// A number of a document: an integer of up to 64 bits, or a floating-point
/// number.
#[derive(Clone, Copy, Debug)]
pub enum Number {
    PosInt(u64),
    NegInt(i64),
    Float(Float),
}

/// A node of a document.
#[derive(Debug)]
pub enum Document {
    Null,
    Bool(bool),
    Number(Number),
    String(String),
    Array(Vec<Document>),
    Object(Dict<String, Document>),
}

/// What a [`Number`] holds: the integer itself, whichever variant holds it.
pub enum NumberView {
    Int(int),
    Float(Float),
}

/// What a [`Document`] holds. The members of an object stand in the order of
/// the map.
pub enum DocumentView {
    Null,
    Bool(bool),
    Number(NumberView),
    String(Seq<char>),
    Array(Seq<DocumentView>),
    Object(Seq<(Seq<char>, DocumentView)>),
}

impl View for Number {
    type V = NumberView;

    open spec fn view(&self) -> NumberView {
        match *self {
            Number::PosInt(n) => NumberView::Int(n as int),
            Number::NegInt(n) => NumberView::Int(n as int),
            Number::Float(f) => NumberView::Float(f),
        }
    }
}

/// The view of a document.
pub open spec fn document_view(document: Document) -> DocumentView
    decreases document,
{
    match document {
        Document::Null => DocumentView::Null,
        Document::Bool(b) => DocumentView::Bool(b),
        Document::Number(n) => DocumentView::Number(n@),
        Document::String(s) => DocumentView::String(s@),
        Document::Array(items) => DocumentView::Array(documents_view(items@)),
        Document::Object(members) => DocumentView::Object(members_view(members@)),
    }
}

/// The view of each document of `documents`, in the same order.
pub open spec fn documents_view(documents: Seq<Document>) -> Seq<DocumentView>
    decreases documents,
{
    Seq::new(
        documents.len(),
        |i: int|
            if 0 <= i < documents.len() {
                document_view(documents[i])
            } else {
                DocumentView::Null
            },
    )
}

/// The view of each member of `members`, in the same order.
pub open spec fn members_view(members: Seq<(String, Document)>) -> Seq<(Seq<char>, DocumentView)>
    decreases members,
{
    Seq::new(
        members.len(),
        |i: int|
            if 0 <= i < members.len() {
                (members[i].0@, document_view(members[i].1))
            } else {
                (Seq::empty(), DocumentView::Null)
            },
    )
}

impl View for Document {
    type V = DocumentView;

    open spec fn view(&self) -> DocumentView {
        document_view(*self)
    }
}

/// The two 64-bit halves of a 128-bit integer: the quotient and the remainder
/// of the division by 2^64. The quotient carries the sign.
pub open spec fn halves(n: int) -> (int, int) {
    (n / 0x1_0000_0000_0000_0000, n % 0x1_0000_0000_0000_0000)
}

/// The document of an integer: a number for one of up to 64 bits, the array
/// of the two halves for one of 128 bits.
pub open spec fn integer_document(i: Integer) -> DocumentView {
    match i {
        Integer::U128(n) => DocumentView::Array(
            seq![
                DocumentView::Number(NumberView::Int(halves(n as int).0)),
                DocumentView::Number(NumberView::Int(halves(n as int).1)),
            ],
        ),
        Integer::I128(n) => DocumentView::Array(
            seq![
                DocumentView::Number(NumberView::Int(halves(n as int).0)),
                DocumentView::Number(NumberView::Int(halves(n as int).1)),
            ],
        ),
        _ => DocumentView::Number(NumberView::Int(i.value())),
    }
}

/// The number that holds the integer `n`.
fn signed_number(n: i64) -> (number: Number)
    ensures
        number@ == NumberView::Int(n as int),
        n < 0 <==> number is NegInt,
{
    if n < 0 {
        Number::NegInt(n)
    } else {
        Number::PosInt(n as u64)
    }
}

/// The array of the two numbers `high` and `low`.
fn pair_document(high: Number, low: Number) -> (document: Document)
    ensures
        document@ == DocumentView::Array(
            seq![DocumentView::Number(high@), DocumentView::Number(low@)],
        ),
{
    let mut items: Vec<Document> = Vec::with_capacity(2);
    items.push(Document::Number(high));
    items.push(Document::Number(low));
    assert(document_view(items@[0]) == DocumentView::Number(high@));
    assert(document_view(items@[1]) == DocumentView::Number(low@));
    let document = Document::Array(items);
    assert(document@->Array_0 =~= seq![DocumentView::Number(high@), DocumentView::Number(low@)]);
    document
}

impl Integer {
    /// The document of the integer.
    pub fn into_json(self) -> (document: Document)
        ensures
            document@ == integer_document(self),
    {
        match self {
            Integer::USize(n) => Document::Number(Number::PosInt(n as u64)),
            Integer::ISize(n) => Document::Number(signed_number(n as i64)),
            Integer::U8(n) => Document::Number(Number::PosInt(n as u64)),
            Integer::I8(n) => Document::Number(signed_number(n as i64)),
            Integer::U16(n) => Document::Number(Number::PosInt(n as u64)),
            Integer::I16(n) => Document::Number(signed_number(n as i64)),
            Integer::U32(n) => Document::Number(Number::PosInt(n as u64)),
            Integer::I32(n) => Document::Number(signed_number(n as i64)),
            Integer::U64(n) => Document::Number(Number::PosInt(n)),
            Integer::I64(n) => Document::Number(signed_number(n)),
            Integer::U128(n) => {
                let high = (n >> 64u32) as u64;
                let low = (n & 0xFFFF_FFFF_FFFF_FFFFu128) as u64;
                assert(high == n / 0x1_0000_0000_0000_0000u128 && low == n
                    % 0x1_0000_0000_0000_0000u128) by (bit_vector)
                    requires
                        high == (n >> 64u32) as u64,
                        low == (n & 0xFFFF_FFFF_FFFF_FFFFu128) as u64,
                ;
                pair_document(Number::PosInt(high), Number::PosInt(low))
            },
            Integer::I128(n) => {
                let high = (n >> 64u32) as i64;
                let low = (n & 0xFFFF_FFFF_FFFF_FFFFi128) as u64;
                assert(high as int == (n as int) / 0x1_0000_0000_0000_0000 && low as int == (n as int)
                    % 0x1_0000_0000_0000_0000) by (bit_vector)
                    requires
                        high == (n >> 64u32) as i64,
                        low == (n & 0xFFFF_FFFF_FFFF_FFFFi128) as u64,
                ;
                pair_document(signed_number(high), Number::PosInt(low))
            },
        }
    }
}

/// The document of a floating-point number: the number itself if it is
/// finite, null for an infinity or a NaN.
pub open spec fn float_document(f: Float) -> DocumentView {
    if f.finite() {
        DocumentView::Number(NumberView::Float(f))
    } else {
        DocumentView::Null
    }
}

/// The document of a scalar.
pub open spec fn primitive_document(p: PrimitiveView) -> DocumentView {
    match p {
        PrimitiveView::Integer(i) => integer_document(i),
        PrimitiveView::Float(f) => float_document(f),
        PrimitiveView::String(s) => DocumentView::String(s),
        PrimitiveView::Char(c) => DocumentView::String(seq![c]),
        PrimitiveView::Bool(b) => DocumentView::Bool(b),
    }
}

/// The document of an enum whose variant is `variant` and whose members have
/// the document `inner`.
pub open spec fn tagged(repr: EnumReprView, variant: Seq<char>, inner: DocumentView) -> DocumentView {
    match repr {
        EnumReprView::Untagged => inner,
        EnumReprView::ExternallyTagged => DocumentView::Object(seq![(variant, inner)]),
        EnumReprView::AdjacentlyTagged { type_field, value_field } => DocumentView::Object(
            put(seq![(type_field, DocumentView::String(variant))], value_field, inner),
        ),
    }
}

/// The document of a value.
pub open spec fn value_document(value: ValueView, repr: EnumReprView) -> DocumentView
    decreases value,
{
    match value {
        ValueView::Primitive(p) => primitive_document(p),
        ValueView::Struct(s) => fields_document(s.fields, s.name, repr),
        ValueView::Enum(e) => tagged(repr, e.variant, fields_document(e.fields, e.variant, repr)),
        ValueView::Dict(entries) => DocumentView::Object(put_all(keyed_pairs(entries, repr))),
        ValueView::List(items) => DocumentView::Array(documents_of(items, repr)),
    }
}

/// The document of the members of a record or variant. Named members give an
/// object. A single positional member gives its own document, any other
/// number of them an array. No members give `unit` as a string: the name of
/// the record type, or of the variant.
pub open spec fn fields_document(
    fields: FieldsView,
    unit: Seq<char>,
    repr: EnumReprView,
) -> DocumentView
    decreases fields,
{
    match fields {
        FieldsView::Named(entries) => DocumentView::Object(put_all(named_pairs(entries, repr))),
        FieldsView::Unnamed(items) => if items.len() == 1 {
            value_document(items[0], repr)
        } else {
            DocumentView::Array(documents_of(items, repr))
        },
        FieldsView::Unit => DocumentView::String(unit),
    }
}

/// The document of each value of `values`, in the same order.
pub open spec fn documents_of(values: Seq<ValueView>, repr: EnumReprView) -> Seq<DocumentView>
    decreases values,
{
    Seq::new(
        values.len(),
        |i: int|
            if 0 <= i < values.len() {
                value_document(values[i], repr)
            } else {
                DocumentView::Null
            },
    )
}

/// Each named member with the document of its value, in the same order.
pub open spec fn named_pairs(entries: Seq<(Seq<char>, ValueView)>, repr: EnumReprView) -> Seq<
    (Seq<char>, DocumentView),
>
    decreases entries,
{
    Seq::new(
        entries.len(),
        |i: int|
            if 0 <= i < entries.len() {
                (entries[i].0, value_document(entries[i].1, repr))
            } else {
                (Seq::empty(), DocumentView::Null)
            },
    )
}

/// Each entry of a map with the text of its key and the document of its
/// value, in the same order.
pub open spec fn keyed_pairs(
    entries: Seq<(HashableValueView, ValueView)>,
    repr: EnumReprView,
) -> Seq<(Seq<char>, DocumentView)>
    decreases entries,
{
    Seq::new(
        entries.len(),
        |i: int|
            if 0 <= i < entries.len() {
                (key_text(entries[i].0), value_document(entries[i].1, repr))
            } else {
                (Seq::empty(), DocumentView::Null)
            },
    )
}

/// The text of a key: a scalar by its own text, a list by the texts of its
/// items with a comma between them, no value by the empty text.
pub open spec fn key_text(key: HashableValueView) -> Seq<char>
    decreases key,
{
    match key {
        HashableValueView::Primitive(p) => primitive_text(p),
        HashableValueView::List(items) => join(key_texts(items), seq![',']),
        HashableValueView::NoValue => Seq::empty(),
    }
}

/// The text of each key of `keys`, in the same order.
pub open spec fn key_texts(keys: Seq<HashableValueView>) -> Seq<Seq<char>>
    decreases keys,
{
    Seq::new(
        keys.len(),
        |i: int|
            if 0 <= i < keys.len() {
                key_text(keys[i])
            } else {
                Seq::empty()
            },
    )
}

/// The text of the key `key`.
fn key_string(key: &HashableValue) -> (text: String)
    ensures
        text@ == key_text(key@),
    decreases *key,
{
    match key {
        HashableValue::Primitive(p) => p.to_string(),
        HashableValue::List(items) => {
            let ghost parts = key_texts(key@->List_0);
            let mut text = String::new();
            let mut i: usize = 0;
            while i < items.len()
                invariant
                    i <= items.len(),
                    *key == HashableValue::List(*items),
                    parts == key_texts(key@->List_0),
                    text@ == join(parts.take(i as int), seq![',']),
                decreases items.len() - i,
            {
                assert(key->List_0 == *items);
                assert(decreases_to!(*items => items[i as int]));
                let part = key_string(&items[i]);
                if i > 0 {
                    text.push(',');
                }
                text.append(part.as_str());
                proof {
                    let now = parts.take(i as int + 1);
                    assert(now.drop_last() =~= parts.take(i as int));
                    assert(now.last() == parts[i as int]);
                    if i == 0 {
                        assert(text@ =~= now[0]);
                    } else {
                        assert(text@ =~= join(now.drop_last(), seq![',']) + seq![','] + now.last());
                    }
                }
                i += 1;
            }
            assert(parts.take(i as int) =~= parts);
            text
        },
        HashableValue::NoValue => String::new(),
    }
}

/// The text under which a key of a map stands in the document.
pub fn hashable_to_string(hashable: HashableValue) -> (text: String)
    ensures
        text@ == key_text(hashable@),
{
    key_string(&hashable)
}

impl Primitive {
    /// The document of the scalar.
    pub fn to_document(&self) -> (document: Document)
        ensures
            document@ == primitive_document(self@),
    {
        match self {
            Primitive::Integer(i) => (*i).into_json(),
            Primitive::Float(f) => if f.is_finite() {
                Document::Number(Number::Float(*f))
            } else {
                Document::Null
            },
            Primitive::String(s) => Document::String(s.clone()),
            Primitive::Char(c) => {
                let mut s = String::new();
                s.push(*c);
                Document::String(s)
            },
            Primitive::Bool(b) => Document::Bool(*b),
        }
    }
}

/// Puts `key` with `document` into `members`, and says what the members are
/// then.
fn put_member(members: &mut Dict<String, Document>, key: String, document: Document)
    ensures
        members_view(final(members)@) == put(members_view(old(members)@), key@, document@),
{
    let ghost f = |d: Document| document_view(d);
    proof {
        lemma_with_entry_views(members@, f, key, document);
        assert(members_view(members@) =~= entry_views(members@, f));
    }
    members.insert(key, document);
    proof {
        assert(members_view(members@) =~= entry_views(members@, f));
    }
}

/// The document of an enum whose variant is `variant` and whose members have
/// the document `inner`.
fn tag(repr: &EnumRepr, variant: &String, inner: Document) -> (document: Document)
    ensures
        document@ == tagged(repr@, variant@, inner@),
{
    match repr {
        EnumRepr::Untagged => inner,
        EnumRepr::ExternallyTagged => {
            let mut members: Dict<String, Document> = Dict::new();
            assert(members_view(members@) =~= Seq::empty());
            put_member(&mut members, variant.clone(), inner);
            assert(members_view(members@) =~= seq![(variant@, inner@)]);
            Document::Object(members)
        },
        EnumRepr::AdjacentlyTagged { type_field, value_field } => {
            let mut members: Dict<String, Document> = Dict::new();
            assert(members_view(members@) =~= Seq::empty());
            put_member(&mut members, type_field.clone(), Document::String(variant.clone()));
            assert(members_view(members@) =~= seq![(type_field@, DocumentView::String(variant@))]);
            put_member(&mut members, value_field.clone(), inner);
            Document::Object(members)
        },
    }
}

/// The document of each value of `values`, in the same order.
fn values_to_documents(values: &Vec<Value>, options: &IntoJsonOptions) -> (documents: Vec<
    Document,
>)
    ensures
        documents_view(documents@) == documents_of(values_view(values@), options.enum_repr@),
    decreases *values,
{
    let mut documents: Vec<Document> = Vec::with_capacity(values.len());
    let mut i: usize = 0;
    while i < values.len()
        invariant
            i <= values.len(),
            documents@.len() == i,
            forall|j: int|
                0 <= j < i ==> document_view(documents@[j]) == value_document(
                    value_view(values@[j]),
                    options.enum_repr@,
                ),
        decreases values.len() - i,
    {
        assert(decreases_to!(*values => values[i as int]));
        let document = value_to_document(&values[i], options);
        documents.push(document);
        i += 1;
    }
    assert(documents_view(documents@) =~= documents_of(
        values_view(values@),
        options.enum_repr@,
    ));
    documents
}

/// The document of the members `fields`, where no members give `unit`.
fn fields_to_document(fields: &Fields, unit: &String, options: &IntoJsonOptions) -> (document:
    Document)
    ensures
        document@ == fields_document(fields@, unit@, options.enum_repr@),
    decreases *fields,
{
    match fields {
        Fields::Named(named) => {
            let entries = named.entries();
            let ghost pairs = named_pairs(named_view(entries@), options.enum_repr@);
            let mut members: Dict<String, Document> = Dict::with_capacity(entries.len());
            assert(members_view(members@) =~= put_all(pairs.take(0)));
            let mut i: usize = 0;
            while i < entries.len()
                invariant
                    i <= entries.len(),
                    *fields == Fields::Named(*named),
                    entries@ == named@,
                    pairs == named_pairs(named_view(entries@), options.enum_repr@),
                    members_view(members@) == put_all(pairs.take(i as int)),
                decreases entries.len() - i,
            {
                assert(decreases_to!(*fields => entries@[i as int].1)) by {
                    assert(fields->Named_0 == *named);
                    assert(decreases_to!(*named => named@));
                    assert(decreases_to!(named@ => named@[i as int]));
                    assert(decreases_to!(named@[i as int] => named@[i as int].1));
                }
                let document = value_to_document(&entries[i].1, options);
                put_member(&mut members, entries[i].0.clone(), document);
                proof {
                    let now = pairs.take(i as int + 1);
                    assert(now.drop_last() =~= pairs.take(i as int));
                    assert(now.last() == pairs[i as int]);
                }
                i += 1;
            }
            assert(pairs.take(i as int) =~= pairs);
            Document::Object(members)
        },
        Fields::Unnamed(items) => {
            if items.len() == 1 {
                assert(fields->Unnamed_0 == *items);
                assert(decreases_to!(*items => items[0]));
                value_to_document(&items[0], options)
            } else {
                assert(fields->Unnamed_0 == *items);
                Document::Array(values_to_documents(items, options))
            }
        },
        Fields::Unit => Document::String(unit.clone()),
    }
}

/// The document of the value `value`.
fn value_to_document(value: &Value, options: &IntoJsonOptions) -> (document: Document)
    ensures
        document@ == value_document(value@, options.enum_repr@),
    decreases *value,
{
    match value {
        Value::Primitive(p) => p.to_document(),
        Value::Struct(s) => fields_to_document(&s.fields, &s.name, options),
        Value::Enum(e) => {
            let inner = fields_to_document(&e.fields, &e.variant, options);
            tag(&options.enum_repr, &e.variant, inner)
        },
        Value::Dict(dict) => {
            let entries = dict.entries();
            let ghost pairs = keyed_pairs(entries_view(entries@), options.enum_repr@);
            let mut members: Dict<String, Document> = Dict::with_capacity(entries.len());
            assert(members_view(members@) =~= put_all(pairs.take(0)));
            let mut i: usize = 0;
            while i < entries.len()
                invariant
                    i <= entries.len(),
                    *value == Value::Dict(*dict),
                    entries@ == dict@,
                    pairs == keyed_pairs(entries_view(entries@), options.enum_repr@),
                    members_view(members@) == put_all(pairs.take(i as int)),
                decreases entries.len() - i,
            {
                assert(decreases_to!(*value => entries@[i as int].1)) by {
                    assert(value->Dict_0 == *dict);
                    assert(decreases_to!(*dict => dict@));
                    assert(decreases_to!(dict@ => dict@[i as int]));
                    assert(decreases_to!(dict@[i as int] => dict@[i as int].1));
                }
                let document = value_to_document(&entries[i].1, options);
                let key = key_string(&entries[i].0);
                put_member(&mut members, key, document);
                proof {
                    let now = pairs.take(i as int + 1);
                    assert(now.drop_last() =~= pairs.take(i as int));
                    assert(now.last() == pairs[i as int]);
                }
                i += 1;
            }
            assert(pairs.take(i as int) =~= pairs);
            Document::Object(members)
        },
        Value::List(items) => {
            assert(value->List_0 == *items);
            Document::Array(values_to_documents(items, options))
        },
    }
}

/// A type whose values have a document.
pub trait IntoJson: Sized {
    /// The document of `self` under the default options, which tag a variant
    /// externally.
    fn into_json(self) -> Document;

    /// The document of `self` under `options`.
    fn into_json_with_options(self, options: &IntoJsonOptions) -> Document;
}

impl IntoJson for Value {
    fn into_json(self) -> (document: Document)
        ensures
            document@ == value_document(self@, EnumReprView::ExternallyTagged),
    {
        self.into_json_with_options(&IntoJsonOptions::default())
    }

    fn into_json_with_options(self, options: &IntoJsonOptions) -> (document: Document)
        ensures
            document@ == value_document(self@, options.enum_repr@),
    {
        value_to_document(&self, options)
    }
}

impl IntoJson for Primitive {
    fn into_json(self) -> (document: Document)
        ensures
            document@ == primitive_document(self@),
    {
        self.to_document()
    }

    fn into_json_with_options(self, options: &IntoJsonOptions) -> (document: Document)
        ensures
            document@ == primitive_document(self@),
    {
        self.to_document()
    }
}

impl IntoJson for Enum {
    fn into_json(self) -> (document: Document)
        ensures
            document@ == value_document(ValueView::Enum(self@), EnumReprView::ExternallyTagged),
    {
        self.into_json_with_options(&IntoJsonOptions::default())
    }

    fn into_json_with_options(self, options: &IntoJsonOptions) -> (document: Document)
        ensures
            document@ == value_document(ValueView::Enum(self@), options.enum_repr@),
    {
        let inner = fields_to_document(&self.fields, &self.variant, options);
        tag(&options.enum_repr, &self.variant, inner)
    }
}

impl IntoJson for Struct {
    fn into_json(self) -> (document: Document)
        ensures
            document@ == value_document(ValueView::Struct(self@), EnumReprView::ExternallyTagged),
    {
        self.into_json_with_options(&IntoJsonOptions::default())
    }

    fn into_json_with_options(self, options: &IntoJsonOptions) -> (document: Document)
        ensures
            document@ == value_document(ValueView::Struct(self@), options.enum_repr@),
    {
        fields_to_document(&self.fields, &self.name, options)
    }
}

impl<R: RustyValue> IntoJson for R {
    fn into_json(self) -> (document: Document)
        ensures
            exists|value: ValueView| #[trigger]
                self.converts_to(value) && document@ == value_document(
                    value,
                    EnumReprView::ExternallyTagged,
                ),
    {
        self.into_json_with_options(&IntoJsonOptions::default())
    }

    fn into_json_with_options(self, options: &IntoJsonOptions) -> (document: Document)
        ensures
            exists|value: ValueView| #[trigger]
                self.converts_to(value) && document@ == value_document(value, options.enum_repr@),
    {
        self.into_rusty_value().into_json_with_options(options)
    }
}

/// The value that holds the string `s`.
pub open spec fn string_value(s: Seq<char>) -> ValueView {
    ValueView::Primitive(PrimitiveView::String(s))
}

/// The value of a way to tag variants: an enum named `EnumRepr` in the
/// variant of that name, the two field names as named members where the
/// variant has them.
pub open spec fn enum_repr_value(repr: EnumReprView) -> ValueView {
    match repr {
        EnumReprView::Untagged => ValueView::Enum(
            EnumView { name: "EnumRepr"@, variant: "Untagged"@, fields: FieldsView::Unit },
        ),
        EnumReprView::ExternallyTagged => ValueView::Enum(
            EnumView { name: "EnumRepr"@, variant: "ExternallyTagged"@, fields: FieldsView::Unit },
        ),
        EnumReprView::AdjacentlyTagged { type_field, value_field } => ValueView::Enum(
            EnumView {
                name: "EnumRepr"@,
                variant: "AdjacentlyTagged"@,
                fields: FieldsView::Named(
                    seq![
                        ("type_field"@, string_value(type_field)),
                        ("value_field"@, string_value(value_field)),
                    ],
                ),
            },
        ),
    }
}

/// The value of the options: a record named `IntoJsonOptions` with the one
/// named member `enum_repr`.
pub open spec fn options_value(repr: EnumReprView) -> ValueView {
    ValueView::Struct(
        StructView {
            name: "IntoJsonOptions"@,
            fields: FieldsView::Named(seq![("enum_repr"@, enum_repr_value(repr))]),
        },
    )
}

/// Puts `name` with `value` into `named`, and says what the members are
/// then.
fn put_named(named: &mut Dict<String, Value>, name: String, value: Value)
    ensures
        named_view(final(named)@) == put(named_view(old(named)@), name@, value@),
{
    let ghost f = |v: Value| value_view(v);
    proof {
        lemma_with_entry_views(named@, f, name, value);
        assert(named_view(named@) =~= entry_views(named@, f));
    }
    named.insert(name, value);
    proof {
        assert(named_view(named@) =~= entry_views(named@, f));
    }
}

impl RustyValue for EnumRepr {
    open spec fn converts_to(self, value: ValueView) -> bool {
        value == enum_repr_value(self@)
    }

    fn into_rusty_value(self) -> (value: Value) {
        let name = "EnumRepr".to_owned();
        match self {
            EnumRepr::Untagged => Value::Enum(
                Enum { name, variant: "Untagged".to_owned(), fields: Fields::Unit },
            ),
            EnumRepr::ExternallyTagged => Value::Enum(
                Enum { name, variant: "ExternallyTagged".to_owned(), fields: Fields::Unit },
            ),
            EnumRepr::AdjacentlyTagged { type_field, value_field } => {
                let mut fields: Dict<String, Value> = Dict::with_capacity(2);
                assert(named_view(fields@) =~= Seq::empty());
                put_named(&mut fields, "type_field".to_owned(), type_field.into_rusty_value());
                assert(named_view(fields@) =~= seq![("type_field"@, string_value(type_field@))]);
                let ghost first = named_view(fields@);
                put_named(&mut fields, "value_field".to_owned(), value_field.into_rusty_value());
                proof {
                    reveal_strlit("type_field");
                    reveal_strlit("value_field");
                    assert("type_field"@.len() != "value_field"@.len());
                    lemma_key_position(first, "value_field"@);
                    assert(named_view(fields@) =~= seq![
                        ("type_field"@, string_value(type_field@)),
                        ("value_field"@, string_value(value_field@)),
                    ]);
                }
                Value::Enum(
                    Enum {
                        name,
                        variant: "AdjacentlyTagged".to_owned(),
                        fields: Fields::Named(fields),
                    },
                )
            },
        }
    }
}

impl RustyValue for IntoJsonOptions {
    open spec fn converts_to(self, value: ValueView) -> bool {
        value == options_value(self.enum_repr@)
    }

    fn into_rusty_value(self) -> (value: Value) {
        let mut fields: Dict<String, Value> = Dict::with_capacity(1);
        assert(named_view(fields@) =~= Seq::empty());
        put_named(&mut fields, "enum_repr".to_owned(), self.enum_repr.into_rusty_value());
        assert(named_view(fields@) =~= seq![("enum_repr"@, enum_repr_value(self.enum_repr@))]);
        Value::Struct(Struct { name: "IntoJsonOptions".to_owned(), fields: Fields::Named(fields) })
    }
}

} // verus!

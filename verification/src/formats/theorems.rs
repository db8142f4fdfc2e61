//! What holds of the documents of all values.

use crate::dict::{lemma_key_position, lemma_put_all_unique, put, unique_keys};
use crate::formats::into_json::{
    documents_of, fields_document, named_pairs, tagged, value_document, DocumentView, EnumReprView,
    NumberView,
};
use crate::formats::weight::{lemma_tag_adds_weight, lemma_untagged_fields_are_lightest};
use crate::value::{EnumView, FieldsView, Float, Integer, PrimitiveView, StructView, ValueView};
use vstd::prelude::*;

verus! {

/// The value that holds the integer `i`.
pub open spec fn integer_value(i: Integer) -> ValueView {
    ValueView::Primitive(PrimitiveView::Integer(i))
}

/// The value that holds the floating-point number `f`.
pub open spec fn float_value(f: Float) -> ValueView {
    ValueView::Primitive(PrimitiveView::Float(f))
}

/// An integer of at most 64 bits has the number equal to it as its
/// document, whatever its type and the options.
pub proof fn lemma_narrow_integer_is_number(i: Integer, repr: EnumReprView)
    requires
        !(i is U128),
        !(i is I128),
    ensures
        value_document(integer_value(i), repr) == DocumentView::Number(NumberView::Int(i.value())),
        -0x8000_0000_0000_0000 <= i.value() <= 0xFFFF_FFFF_FFFF_FFFF,
{
}

/// An unsigned integer of 128 bits has as its document the array of two
/// numbers of 64 bits: the integer shifted right by 64 bits, then its lowest
/// 64 bits.
pub proof fn lemma_unsigned_wide_integer_is_pair(n: u128, repr: EnumReprView)
    ensures
        value_document(integer_value(Integer::U128(n)), repr) == DocumentView::Array(
            seq![
                DocumentView::Number(NumberView::Int((n >> 64u32) as int)),
                DocumentView::Number(NumberView::Int((n & 0xFFFF_FFFF_FFFF_FFFFu128) as int)),
            ],
        ),
        0 <= (n >> 64u32) <= 0xFFFF_FFFF_FFFF_FFFF,
        0 <= (n & 0xFFFF_FFFF_FFFF_FFFFu128) <= 0xFFFF_FFFF_FFFF_FFFF,
{
    assert((n >> 64u32) == n / 0x1_0000_0000_0000_0000u128 && (n & 0xFFFF_FFFF_FFFF_FFFFu128) == n
        % 0x1_0000_0000_0000_0000u128 && (n >> 64u32) <= 0xFFFF_FFFF_FFFF_FFFFu128 && (n
        & 0xFFFF_FFFF_FFFF_FFFFu128) <= 0xFFFF_FFFF_FFFF_FFFFu128) by (bit_vector);
}

/// A signed integer of 128 bits has as its document the array of two numbers
/// of 64 bits: the integer shifted right by 64 bits, which is signed as the
/// integer is, then its lowest 64 bits, which are not signed.
pub proof fn lemma_signed_wide_integer_is_pair(n: i128, repr: EnumReprView)
    ensures
        value_document(integer_value(Integer::I128(n)), repr) == DocumentView::Array(
            seq![
                DocumentView::Number(NumberView::Int(((n >> 64u32) as i64) as int)),
                DocumentView::Number(
                    NumberView::Int(((n & 0xFFFF_FFFF_FFFF_FFFFi128) as u64) as int),
                ),
            ],
        ),
        n < 0 <==> ((n >> 64u32) as i64) < 0,
{
    let high = (n >> 64u32) as i64;
    let low = (n & 0xFFFF_FFFF_FFFF_FFFFi128) as u64;
    assert(high as int == (n as int) / 0x1_0000_0000_0000_0000 && low as int == (n as int)
        % 0x1_0000_0000_0000_0000 && (n < 0 <==> high < 0)) by (bit_vector)
        requires
            high == (n >> 64u32) as i64,
            low == (n & 0xFFFF_FFFF_FFFF_FFFFi128) as u64,
    ;
}

/// A finite floating-point number has itself as its document, an infinity or
/// a NaN has null.
pub proof fn lemma_float_is_number_or_null(f: Float, repr: EnumReprView)
    ensures
        f.finite() ==> value_document(float_value(f), repr) == DocumentView::Number(
            NumberView::Float(f),
        ),
        !f.finite() ==> value_document(float_value(f), repr) == DocumentView::Null,
{
}

/// No members give the name as a string: the name of the type for a record,
/// the name of the variant for an enum, which the options then tag.
pub proof fn lemma_no_members_give_name(
    name: Seq<char>,
    variant: Seq<char>,
    repr: EnumReprView,
)
    ensures
        value_document(
            ValueView::Struct(StructView { name, fields: FieldsView::Unit }),
            repr,
        ) == DocumentView::String(name),
        value_document(
            ValueView::Enum(EnumView { name, variant, fields: FieldsView::Unit }),
            repr,
        ) == tagged(repr, variant, DocumentView::String(variant)),
{
}

/// A single positional member gives its own document, not an array of one
/// item.
pub proof fn lemma_single_positional_member_collapses(
    member: ValueView,
    unit: Seq<char>,
    repr: EnumReprView,
)
    ensures
        fields_document(FieldsView::Unnamed(seq![member]), unit, repr) == value_document(
            member,
            repr,
        ),
{
}

/// Positional members in any other number than one give an array of as many
/// items, each the document of the member in its place.
pub proof fn lemma_positional_members_give_array(
    members: Seq<ValueView>,
    unit: Seq<char>,
    repr: EnumReprView,
)
    requires
        members.len() != 1,
    ensures
        fields_document(FieldsView::Unnamed(members), unit, repr) == DocumentView::Array(
            documents_of(members, repr),
        ),
        documents_of(members, repr).len() == members.len(),
        forall|i: int|
            0 <= i < members.len() ==> documents_of(members, repr)[i] == value_document(
                #[trigger] members[i],
                repr,
            ),
{
}

/// Named members with names that are all different give an object with one
/// member for each, under its name and in its place, with the document of
/// its value.
pub proof fn lemma_named_members_give_object(
    members: Seq<(Seq<char>, ValueView)>,
    unit: Seq<char>,
    repr: EnumReprView,
)
    requires
        unique_keys(members),
    ensures
        fields_document(FieldsView::Named(members), unit, repr) == DocumentView::Object(
            named_pairs(members, repr),
        ),
        named_pairs(members, repr).len() == members.len(),
        forall|i: int|
            0 <= i < members.len() ==> named_pairs(members, repr)[i] == (
                (#[trigger] members[i]).0,
                value_document(members[i].1, repr),
            ),
{
    let pairs = named_pairs(members, repr);
    assert forall|i: int, j: int| 0 <= i < j < pairs.len() implies (#[trigger] pairs[i]).0 != (
    #[trigger] pairs[j]).0 by {
        assert(pairs[i].0 == members[i].0);
        assert(pairs[j].0 == members[j].0);
    }
    lemma_put_all_unique(pairs);
}

/// The document of an enum under options that tag adjacently with the two
/// given field names.
pub open spec fn adjacent(type_field: Seq<char>, value_field: Seq<char>) -> EnumReprView {
    EnumReprView::AdjacentlyTagged { type_field, value_field }
}

/// The shapes of the three documents of an enum. Without a tag it is the
/// document of the members. Tagged externally it is an object with one
/// member, the document of the members under the variant's name. Tagged
/// adjacently it is an object with the variant's name under the one field
/// name and the document of the members under the other; where the two field
/// names are the same, the document of the members alone is left under it.
pub proof fn lemma_enum_tagging_shapes(e: EnumView, type_field: Seq<char>, value_field: Seq<char>)
    ensures
        value_document(ValueView::Enum(e), EnumReprView::Untagged) == fields_document(
            e.fields,
            e.variant,
            EnumReprView::Untagged,
        ),
        value_document(ValueView::Enum(e), EnumReprView::ExternallyTagged) == DocumentView::Object(
            seq![
                (e.variant, fields_document(e.fields, e.variant, EnumReprView::ExternallyTagged)),
            ],
        ),
        type_field != value_field ==> value_document(
            ValueView::Enum(e),
            adjacent(type_field, value_field),
        ) == DocumentView::Object(
            seq![
                (type_field, DocumentView::String(e.variant)),
                (
                    value_field,
                    fields_document(e.fields, e.variant, adjacent(type_field, value_field)),
                ),
            ],
        ),
        type_field == value_field ==> value_document(
            ValueView::Enum(e),
            adjacent(type_field, value_field),
        ) == DocumentView::Object(
            seq![
                (
                    value_field,
                    fields_document(e.fields, e.variant, adjacent(type_field, value_field)),
                ),
            ],
        ),
{
    let first = seq![(type_field, DocumentView::String(e.variant))];
    let inner = fields_document(e.fields, e.variant, adjacent(type_field, value_field));
    lemma_key_position(first, value_field);
    assert(first.last() == first[0]);
    if type_field != value_field {
        assert(put(first, value_field, inner) =~= seq![
            (type_field, DocumentView::String(e.variant)),
            (value_field, inner),
        ]);
    } else {
        assert(put(first, value_field, inner) =~= seq![(value_field, inner)]);
    }
}

/// The three documents of one enum are three different documents, unless
/// both field names of the adjacent tagging are the variant's name: then the
/// adjacent tagging leaves one member under the variant's name, as the
/// external one does.
pub proof fn lemma_enum_tagging_distinct(e: EnumView, type_field: Seq<char>, value_field: Seq<char>)
    requires
        !(type_field == value_field && value_field == e.variant),
    ensures
        value_document(ValueView::Enum(e), EnumReprView::Untagged) != value_document(
            ValueView::Enum(e),
            EnumReprView::ExternallyTagged,
        ),
        value_document(ValueView::Enum(e), EnumReprView::Untagged) != value_document(
            ValueView::Enum(e),
            adjacent(type_field, value_field),
        ),
        value_document(ValueView::Enum(e), EnumReprView::ExternallyTagged) != value_document(
            ValueView::Enum(e),
            adjacent(type_field, value_field),
        ),
{
    let beside = adjacent(type_field, value_field);
    let outside = EnumReprView::ExternallyTagged;
    lemma_enum_tagging_shapes(e, type_field, value_field);
    lemma_untagged_fields_are_lightest(e.fields, e.variant, outside);
    lemma_untagged_fields_are_lightest(e.fields, e.variant, beside);
    lemma_tag_adds_weight(outside, e.variant, fields_document(e.fields, e.variant, outside));
    lemma_tag_adds_weight(beside, e.variant, fields_document(e.fields, e.variant, beside));
    let external = value_document(ValueView::Enum(e), outside);
    let adjacent = value_document(ValueView::Enum(e), beside);
    if external == adjacent {
        assert(external->Object_0.len() == adjacent->Object_0.len());
        assert(external->Object_0[0] == adjacent->Object_0[0]);
    }
}

/// The three documents of a variant without members. Without a tag it is the
/// variant's name as a string, and that string is what the externally tagged
/// document holds under the variant's name. The tagged documents are
/// objects, so neither is the untagged one, and they differ from each other
/// unless both field names are the variant's name.
pub proof fn lemma_unit_variant_tagging(
    name: Seq<char>,
    variant: Seq<char>,
    type_field: Seq<char>,
    value_field: Seq<char>,
)
    ensures
        ({
            let e = ValueView::Enum(EnumView { name, variant, fields: FieldsView::Unit });
            let untagged = value_document(e, EnumReprView::Untagged);
            let external = value_document(e, EnumReprView::ExternallyTagged);
            let adjacent = value_document(e, adjacent(type_field, value_field));
            &&& untagged == DocumentView::String(variant)
            &&& external == DocumentView::Object(seq![(variant, untagged)])
            &&& adjacent is Object
            &&& untagged != external
            &&& untagged != adjacent
            &&& !(type_field == value_field && value_field == variant) ==> external != adjacent
        }),
{
    let e = EnumView { name, variant, fields: FieldsView::Unit };
    lemma_enum_tagging_shapes(e, type_field, value_field);
    let external = value_document(ValueView::Enum(e), EnumReprView::ExternallyTagged);
    let adjacent = value_document(ValueView::Enum(e), adjacent(type_field, value_field));
    if !(type_field == value_field && value_field == variant) && external == adjacent {
        assert(external->Object_0.len() == adjacent->Object_0.len());
        assert(external->Object_0[0] == adjacent->Object_0[0]);
    }
}

} // verus!

//! The weight of a document, and how tagging adds to it.

use crate::dict::{key_position, lemma_key_position, put, put_all};
use crate::formats::into_json::{
    documents_of, fields_document, keyed_pairs, named_pairs, tagged, value_document, DocumentView,
    EnumReprView,
};
use crate::value::{FieldsView, ValueView};
use vstd::prelude::*;

verus! {

/// The number of nodes of a document.
pub open spec fn weight(document: DocumentView) -> nat
    decreases document, 0nat,
{
    match document {
        DocumentView::Array(items) => 1 + weights(items, items.len()),
        DocumentView::Object(members) => 1 + member_weights(members, members.len()),
        _ => 1,
    }
}

/// The weights of the first `n` documents of `items` together.
pub open spec fn weights(items: Seq<DocumentView>, n: nat) -> nat
    decreases items, n,
{
    if n == 0 || n > items.len() {
        0
    } else {
        weights(items, (n - 1) as nat) + weight(items[n - 1])
    }
}

/// The weights of the values of the first `n` members of `members` together.
pub open spec fn member_weights(members: Seq<(Seq<char>, DocumentView)>, n: nat) -> nat
    decreases members, n,
{
    if n == 0 || n > members.len() {
        0
    } else {
        member_weights(members, (n - 1) as nat) + weight(members[n - 1].1)
    }
}

/// `light` has as many documents as `heavy`, none heavier than the one in its
/// place in `heavy`.
pub open spec fn lighter_items(light: Seq<DocumentView>, heavy: Seq<DocumentView>) -> bool {
    &&& light.len() == heavy.len()
    &&& forall|i: int| 0 <= i < light.len() ==> weight(#[trigger] light[i]) <= weight(heavy[i])
}

/// `light` has the keys of `heavy` in the same places, with no value heavier
/// than the one in its place in `heavy`.
pub open spec fn lighter_members(
    light: Seq<(Seq<char>, DocumentView)>,
    heavy: Seq<(Seq<char>, DocumentView)>,
) -> bool {
    &&& light.len() == heavy.len()
    &&& forall|i: int|
        0 <= i < light.len() ==> (#[trigger] light[i]).0 == heavy[i].0 && weight(light[i].1)
            <= weight(heavy[i].1)
}

proof fn lemma_weights_lighter(light: Seq<DocumentView>, heavy: Seq<DocumentView>, n: nat)
    requires
        lighter_items(light, heavy),
        n <= light.len(),
    ensures
        weights(light, n) <= weights(heavy, n),
    decreases n,
{
    if n > 0 {
        lemma_weights_lighter(light, heavy, (n - 1) as nat);
        assert(weight(light[n - 1]) <= weight(heavy[n - 1]));
    }
}

proof fn lemma_member_weights_lighter(
    light: Seq<(Seq<char>, DocumentView)>,
    heavy: Seq<(Seq<char>, DocumentView)>,
    n: nat,
)
    requires
        lighter_members(light, heavy),
        n <= light.len(),
    ensures
        member_weights(light, n) <= member_weights(heavy, n),
    decreases n,
{
    if n > 0 {
        lemma_member_weights_lighter(light, heavy, (n - 1) as nat);
        assert(light[n - 1].0 == heavy[n - 1].0);
    }
}

proof fn lemma_same_keys_position(
    light: Seq<(Seq<char>, DocumentView)>,
    heavy: Seq<(Seq<char>, DocumentView)>,
    key: Seq<char>,
)
    requires
        lighter_members(light, heavy),
    ensures
        key_position(light, key) == key_position(heavy, key),
    decreases light.len(),
{
    if light.len() > 0 {
        assert(light.last().0 == light[light.len() - 1].0);
        assert(light[light.len() - 1].0 == heavy[light.len() - 1].0);
        let l = light.drop_last();
        let h = heavy.drop_last();
        assert forall|i: int| 0 <= i < l.len() implies (#[trigger] l[i]).0 == h[i].0 && weight(l[i].1)
            <= weight(h[i].1) by {
            assert(light[i].0 == heavy[i].0);
        }
        lemma_same_keys_position(l, h, key);
    }
}

proof fn lemma_put_lighter(
    light: Seq<(Seq<char>, DocumentView)>,
    heavy: Seq<(Seq<char>, DocumentView)>,
    key: Seq<char>,
    light_value: DocumentView,
    heavy_value: DocumentView,
)
    requires
        lighter_members(light, heavy),
        weight(light_value) <= weight(heavy_value),
    ensures
        lighter_members(put(light, key, light_value), put(heavy, key, heavy_value)),
{
    lemma_same_keys_position(light, heavy, key);
    lemma_key_position(light, key);
    let l = put(light, key, light_value);
    let h = put(heavy, key, heavy_value);
    assert forall|i: int| 0 <= i < l.len() implies (#[trigger] l[i]).0 == h[i].0 && weight(l[i].1)
        <= weight(h[i].1) by {
        if i < light.len() {
            assert(light[i].0 == heavy[i].0);
        }
    }
}

proof fn lemma_put_all_lighter(
    light: Seq<(Seq<char>, DocumentView)>,
    heavy: Seq<(Seq<char>, DocumentView)>,
)
    requires
        lighter_members(light, heavy),
    ensures
        lighter_members(put_all(light), put_all(heavy)),
    decreases light.len(),
{
    if light.len() > 0 {
        let l = light.drop_last();
        let h = heavy.drop_last();
        assert forall|i: int| 0 <= i < l.len() implies (#[trigger] l[i]).0 == h[i].0 && weight(l[i].1)
            <= weight(h[i].1) by {
            assert(light[i].0 == heavy[i].0);
        }
        lemma_put_all_lighter(l, h);
        assert(light.last() == light[light.len() - 1]);
        assert(light[light.len() - 1].0 == heavy[light.len() - 1].0);
        lemma_put_lighter(
            put_all(l),
            put_all(h),
            light.last().0,
            light.last().1,
            heavy.last().1,
        );
    }
}

/// A tag adds to the weight of what it tags.
pub proof fn lemma_tag_adds_weight(repr: EnumReprView, variant: Seq<char>, inner: DocumentView)
    ensures
        repr is Untagged ==> tagged(repr, variant, inner) == inner,
        !(repr is Untagged) ==> weight(tagged(repr, variant, inner)) > weight(inner),
{
    match repr {
        EnumReprView::Untagged => {},
        EnumReprView::ExternallyTagged => {
            let members = seq![(variant, inner)];
            assert(member_weights(members, 0) == 0);
            assert(member_weights(members, 1) == member_weights(members, 0) + weight(members[0].1));
        },
        EnumReprView::AdjacentlyTagged { type_field, value_field } => {
            let first = seq![(type_field, DocumentView::String(variant))];
            let members = put(first, value_field, inner);
            lemma_key_position(first, value_field);
            assert(member_weights(members, 0) == 0);
            assert(member_weights(members, 1) == member_weights(members, 0) + weight(members[0].1));
            if members.len() == 2 {
                assert(member_weights(members, 2) == member_weights(members, 1) + weight(
                    members[1].1,
                ));
            }
        },
    }
}

/// No tagging gives a value a lighter document than no tagging at all.
pub proof fn lemma_untagged_is_lightest(value: ValueView, repr: EnumReprView)
    ensures
        weight(value_document(value, EnumReprView::Untagged)) <= weight(
            value_document(value, repr),
        ),
    decreases value, 0nat,
{
    let plain = EnumReprView::Untagged;
    match value {
        ValueView::Primitive(_) => {},
        ValueView::Struct(s) => {
            lemma_untagged_fields_are_lightest(s.fields, s.name, repr);
        },
        ValueView::Enum(e) => {
            lemma_untagged_fields_are_lightest(e.fields, e.variant, repr);
            lemma_tag_adds_weight(repr, e.variant, fields_document(e.fields, e.variant, repr));
        },
        ValueView::Dict(entries) => {
            let light = keyed_pairs(entries, plain);
            let heavy = keyed_pairs(entries, repr);
            assert forall|i: int| 0 <= i < light.len() implies (#[trigger] light[i]).0 == heavy[i].0
                && weight(light[i].1) <= weight(heavy[i].1) by {
                lemma_untagged_is_lightest(entries[i].1, repr);
            }
            lemma_put_all_lighter(light, heavy);
            lemma_member_weights_lighter(put_all(light), put_all(heavy), put_all(light).len());
        },
        ValueView::List(items) => {
            lemma_untagged_items_are_lightest(items, repr);
        },
    }
}

/// No tagging gives the members of a record or variant a lighter document
/// than no tagging at all.
pub proof fn lemma_untagged_fields_are_lightest(
    fields: FieldsView,
    unit: Seq<char>,
    repr: EnumReprView,
)
    ensures
        weight(fields_document(fields, unit, EnumReprView::Untagged)) <= weight(
            fields_document(fields, unit, repr),
        ),
    decreases fields, 0nat,
{
    let plain = EnumReprView::Untagged;
    match fields {
        FieldsView::Named(entries) => {
            let light = named_pairs(entries, plain);
            let heavy = named_pairs(entries, repr);
            assert forall|i: int| 0 <= i < light.len() implies (#[trigger] light[i]).0 == heavy[i].0
                && weight(light[i].1) <= weight(heavy[i].1) by {
                lemma_untagged_is_lightest(entries[i].1, repr);
            }
            lemma_put_all_lighter(light, heavy);
            lemma_member_weights_lighter(put_all(light), put_all(heavy), put_all(light).len());
        },
        FieldsView::Unnamed(items) => {
            if items.len() == 1 {
                lemma_untagged_is_lightest(items[0], repr);
            } else {
                lemma_untagged_items_are_lightest(items, repr);
            }
        },
        FieldsView::Unit => {},
    }
}

proof fn lemma_untagged_items_are_lightest(items: Seq<ValueView>, repr: EnumReprView)
    ensures
        weight(DocumentView::Array(documents_of(items, EnumReprView::Untagged))) <= weight(
            DocumentView::Array(documents_of(items, repr)),
        ),
    decreases items, 1nat,
{
    let light = documents_of(items, EnumReprView::Untagged);
    let heavy = documents_of(items, repr);
    assert forall|i: int| 0 <= i < light.len() implies weight(#[trigger] light[i]) <= weight(
        heavy[i],
    ) by {
        lemma_untagged_is_lightest(items[i], repr);
    }
    lemma_weights_lighter(light, heavy, light.len());
}

} // verus!

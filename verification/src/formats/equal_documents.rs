//! Copies and equality of documents: numbers are compared by what they hold,
//! floating-point numbers as IEEE 754 has it, and objects without regard to
//! the order of their members.

use crate::dict::{
    distinct_keys, entry_views, key_position, lemma_dict_decreases, lemma_position_of,
    lemma_position_views, lemma_with_entry_new, Dict,
};
use crate::float_order::same_float;
use crate::formats::into_json::{
    document_view, documents_view, members_view, Document, DocumentView, Number, NumberView,
};
use vstd::prelude::*;
use vstd::std_specs::cmp::PartialEqSpecImpl;

verus! {

broadcast use lemma_dict_decreases;

/// Whether two numbers are equal: both are integers and the same integer, or
/// both are floating-point numbers and equal.
pub open spec fn same_number(a: NumberView, b: NumberView) -> bool {
    match (a, b) {
        (NumberView::Int(x), NumberView::Int(y)) => x == y,
        (NumberView::Float(x), NumberView::Float(y)) => same_float(x, y),
        _ => false,
    }
}

/// Whether two documents are equal: they are of one kind and hold equal
/// contents.
pub open spec fn same_document(a: DocumentView, b: DocumentView) -> bool
    decreases a, 0int,
{
    match (a, b) {
        (DocumentView::Null, DocumentView::Null) => true,
        (DocumentView::Bool(x), DocumentView::Bool(y)) => x == y,
        (DocumentView::Number(x), DocumentView::Number(y)) => same_number(x, y),
        (DocumentView::String(x), DocumentView::String(y)) => x == y,
        (DocumentView::Array(x), DocumentView::Array(y)) => same_documents(x, y),
        (DocumentView::Object(x), DocumentView::Object(y)) => same_members(x, y),
        _ => false,
    }
}

/// Whether two arrays are equal: they are as long as each other, and the
/// items in each place are equal.
pub open spec fn same_documents(a: Seq<DocumentView>, b: Seq<DocumentView>) -> bool
    decreases a, 0int,
{
    &&& a.len() == b.len()
    &&& forall|i: int| 0 <= i < a.len() ==> same_document(#[trigger] a[i], b[i])
}

/// Whether two objects are equal: they have as many members as each other,
/// and each name of the first has in the second a value equal to its own.
pub open spec fn same_members(
    a: Seq<(Seq<char>, DocumentView)>,
    b: Seq<(Seq<char>, DocumentView)>,
) -> bool
    decreases a, 0int,
{
    &&& a.len() == b.len()
    &&& forall|i: int| 0 <= i < a.len() ==> member_found(b, (#[trigger] a[i]).0, a[i].1)
}

/// Whether `name` has in `b` a value equal to `value`.
pub open spec fn member_found(
    b: Seq<(Seq<char>, DocumentView)>,
    name: Seq<char>,
    value: DocumentView,
) -> bool
    decreases value, 1int,
{
    match key_position(b, name) {
        Some(j) => same_document(value, b[j].1),
        None => false,
    }
}

impl Number {
    /// Whether `self` and `other` are equal.
    pub fn same(&self, other: &Self) -> (same: bool)
        ensures
            same == same_number(self@, other@),
    {
        match (*self, *other) {
            (Number::PosInt(a), Number::PosInt(b)) => a == b,
            (Number::NegInt(a), Number::NegInt(b)) => a == b,
            (Number::PosInt(a), Number::NegInt(b)) => b >= 0 && a == b as u64,
            (Number::NegInt(a), Number::PosInt(b)) => a >= 0 && a as u64 == b,
            (Number::Float(a), Number::Float(b)) => a == b,
            _ => false,
        }
    }
}

/// A copy of each document of `documents`, in the same order.
fn duplicate_documents(documents: &Vec<Document>) -> (copies: Vec<Document>)
    ensures
        documents_view(copies@) == documents_view(documents@),
    decreases *documents,
{
    let mut copies: Vec<Document> = Vec::with_capacity(documents.len());
    let mut i: usize = 0;
    while i < documents.len()
        invariant
            i <= documents.len(),
            copies@.len() == i,
            forall|j: int|
                0 <= j < i ==> document_view(copies@[j]) == document_view(documents@[j]),
        decreases documents.len() - i,
    {
        assert(decreases_to!(*documents => documents[i as int]));
        let copy = documents[i].duplicate();
        copies.push(copy);
        i += 1;
    }
    assert(documents_view(copies@) =~= documents_view(documents@));
    copies
}

/// Whether the arrays `a` and `b` are equal.
fn arrays_same(a: &Vec<Document>, b: &Vec<Document>) -> (same: bool)
    ensures
        same == same_documents(documents_view(a@), documents_view(b@)),
    decreases *a,
{
    if a.len() != b.len() {
        return false;
    }
    let mut i: usize = 0;
    while i < a.len()
        invariant
            i <= a.len(),
            a.len() == b.len(),
            forall|j: int|
                0 <= j < i ==> same_document(
                    #[trigger] documents_view(a@)[j],
                    documents_view(b@)[j],
                ),
        decreases a.len() - i,
    {
        assert(decreases_to!(*a => a[i as int]));
        if !a[i].same(&b[i]) {
            assert(!same_document(documents_view(a@)[i as int], documents_view(b@)[i as int]));
            return false;
        }
        i += 1;
    }
    true
}

/// Whether the objects `a` and `b` are equal.
fn objects_same(a: &Dict<String, Document>, b: &Dict<String, Document>) -> (same: bool)
    ensures
        same == same_members(members_view(a@), members_view(b@)),
    decreases *a,
{
    let ghost f = |d: Document| document_view(d);
    let ghost left = members_view(a@);
    let ghost right = members_view(b@);
    assert(right =~= entry_views(b@, f));
    if a.len() != b.len() {
        return false;
    }
    let entries = a.entries();
    let mut i: usize = 0;
    while i < entries.len()
        invariant
            i <= entries.len(),
            entries@ == a@,
            f == (|d: Document| document_view(d)),
            left == members_view(a@),
            right == members_view(b@),
            right == entry_views(b@, f),
            a@.len() == b@.len(),
            forall|j: int| 0 <= j < i ==> member_found(right, (#[trigger] left[j]).0, left[j].1),
        decreases entries.len() - i,
    {
        proof {
            lemma_position_views(b@, f, entries@[i as int].0@);
            lemma_position_of(b@, entries@[i as int].0@);
        }
        match b.get(&entries[i].0) {
            Some(found) => {
                assert(decreases_to!(*a => entries@[i as int].1)) by {
                    assert(decreases_to!(*a => a@));
                    assert(decreases_to!(a@ => a@[i as int]));
                    assert(decreases_to!(a@[i as int] => a@[i as int].1));
                }
                if !entries[i].1.same(found) {
                    assert(!member_found(right, left[i as int].0, left[i as int].1));
                    return false;
                }
            },
            None => {
                assert(!member_found(right, left[i as int].0, left[i as int].1));
                return false;
            },
        }
        i += 1;
    }
    true
}

impl Document {
    /// A copy that holds the same document.
    pub fn duplicate(&self) -> (copy: Self)
        ensures
            copy@ == self@,
        decreases *self,
    {
        match self {
            Document::Null => Document::Null,
            Document::Bool(b) => Document::Bool(*b),
            Document::Number(n) => Document::Number(*n),
            Document::String(s) => Document::String(s.clone()),
            Document::Array(items) => Document::Array(duplicate_documents(items)),
            Document::Object(members) => {
                let entries = members.entries();
                let mut copy: Dict<String, Document> = Dict::with_capacity(entries.len());
                let mut i: usize = 0;
                while i < entries.len()
                    invariant
                        i <= entries.len(),
                        entries@ == members@,
                        *self == Document::Object(*members),
                        distinct_keys(entries@),
                        copy@.len() == i,
                        forall|j: int|
                            0 <= j < i ==> (#[trigger] copy@[j]).0@ == entries@[j].0@
                                && document_view(copy@[j].1) == document_view(entries@[j].1),
                    decreases entries.len() - i,
                {
                    let key = entries[i].0.clone();
                    assert(decreases_to!(*self => entries@[i as int].1)) by {
                        assert(self->Object_0 == *members);
                        assert(decreases_to!(*members => members@));
                        assert(decreases_to!(members@ => members@[i as int]));
                        assert(decreases_to!(members@[i as int] => members@[i as int].1));
                    }
                    let value = entries[i].1.duplicate();
                    proof {
                        lemma_with_entry_new(copy@, key, value);
                    }
                    copy.insert(key, value);
                    i += 1;
                }
                assert(members_view(copy@) =~= members_view(members@));
                Document::Object(copy)
            },
        }
    }

    /// Whether `self` and `other` are equal.
    pub fn same(&self, other: &Self) -> (same: bool)
        ensures
            same == same_document(self@, other@),
        decreases *self,
    {
        match (self, other) {
            (Document::Null, Document::Null) => true,
            (Document::Bool(a), Document::Bool(b)) => *a == *b,
            (Document::Number(a), Document::Number(b)) => a.same(b),
            (Document::String(a), Document::String(b)) => *a == *b,
            (Document::Array(a), Document::Array(b)) => arrays_same(a, b),
            (Document::Object(a), Document::Object(b)) => objects_same(a, b),
            _ => false,
        }
    }
}

impl Clone for Document {
    fn clone(&self) -> (copy: Self)
        ensures
            copy@ == self@,
    {
        self.duplicate()
    }
}

impl PartialEq for Number {
    fn eq(&self, other: &Number) -> (equal: bool) {
        self.same(other)
    }
}

impl PartialEqSpecImpl for Number {
    open spec fn obeys_eq_spec() -> bool {
        true
    }

    open spec fn eq_spec(&self, other: &Number) -> bool {
        same_number(self@, other@)
    }
}

impl PartialEq for Document {
    fn eq(&self, other: &Document) -> (equal: bool) {
        self.same(other)
    }
}

impl PartialEqSpecImpl for Document {
    open spec fn obeys_eq_spec() -> bool {
        true
    }

    open spec fn eq_spec(&self, other: &Document) -> bool {
        same_document(self@, other@)
    }
}

} // verus!

//! An insertion-ordered map whose keys are told apart by their views.

use vstd::prelude::*;

verus! {

/// A type whose values can serve as keys of a [`Dict`]: two keys are the same
/// key when their views are equal.
pub trait DictKey: View + Sized {
    /// Whether `self` and `other` are the same key.
    fn same_key(&self, other: &Self) -> (same: bool)
        ensures
            same == (self@ == other@),
    ;

    /// A copy that is the same key.
    fn clone_key(&self) -> (copy: Self)
        ensures
            copy@ == self@,
    ;
}

impl DictKey for String {
    fn same_key(&self, other: &Self) -> (same: bool) {
        *self == *other
    }

    fn clone_key(&self) -> (copy: Self) {
        self.clone()
    }
}

/// No two entries of `entries` have the same key.
pub open spec fn distinct_keys<K: DictKey, V>(entries: Seq<(K, V)>) -> bool {
    forall|i: int, j: int|
        0 <= i < j < entries.len() ==> (#[trigger] entries[i]).0@ != (#[trigger] entries[j]).0@
}

/// The position of the entry of `entries` with the key `key`, if there is one.
pub open spec fn position_of<K: DictKey, V>(entries: Seq<(K, V)>, key: K::V) -> Option<int>
    decreases entries.len(),
{
    if entries.len() == 0 {
        None
    } else if entries.last().0@ == key {
        Some(entries.len() - 1)
    } else {
        position_of(entries.drop_last(), key)
    }
}

/// `entries` after `key` has been given the value `value`: an entry with that
/// key keeps its place and its key and takes the value, otherwise a new entry
/// comes last.
pub open spec fn with_entry<K: DictKey, V>(entries: Seq<(K, V)>, key: K, value: V) -> Seq<(K, V)> {
    match position_of(entries, key@) {
        Some(i) => entries.update(i, (entries[i].0, value)),
        None => entries.push((key, value)),
    }
}

/// What [`position_of`] finds is an entry with the key, and it finds none only
/// where no entry has the key.
pub proof fn lemma_position_of<K: DictKey, V>(entries: Seq<(K, V)>, key: K::V)
    ensures
        match position_of(entries, key) {
            Some(i) => 0 <= i < entries.len() && entries[i].0@ == key,
            None => forall|j: int| 0 <= j < entries.len() ==> (#[trigger] entries[j]).0@ != key,
        },
    decreases entries.len(),
{
    if entries.len() > 0 && entries.last().0@ != key {
        lemma_position_of(entries.drop_last(), key);
        assert forall|j: int|
            0 <= j < entries.len() && position_of(entries, key) is None implies (
        #[trigger] entries[j]).0@ != key by {
            if j < entries.len() - 1 {
                assert(entries.drop_last()[j] == entries[j]);
            }
        }
    }
}

/// Among distinct keys, the entry with the key is where [`position_of`] says.
pub proof fn lemma_position_of_distinct<K: DictKey, V>(entries: Seq<(K, V)>, i: int)
    requires
        distinct_keys(entries),
        0 <= i < entries.len(),
    ensures
        position_of(entries, entries[i].0@) == Some(i),
    decreases entries.len(),
{
    if i < entries.len() - 1 {
        assert(entries.last() == entries[entries.len() - 1]);
        assert(entries.last().0@ != entries[i].0@);
        let front = entries.drop_last();
        assert forall|a: int, b: int| 0 <= a < b < front.len() implies (#[trigger] front[a]).0@ != (
        #[trigger] front[b]).0@ by {
            assert(front[a] == entries[a]);
            assert(front[b] == entries[b]);
        }
        assert(front[i] == entries[i]);
        lemma_position_of_distinct(front, i);
    }
}

/// A key that no entry has comes last when it is given a value.
pub proof fn lemma_with_entry_new<K: DictKey, V>(entries: Seq<(K, V)>, key: K, value: V)
    requires
        forall|j: int| 0 <= j < entries.len() ==> (#[trigger] entries[j]).0@ != key@,
    ensures
        with_entry(entries, key, value) == entries.push((key, value)),
{
    lemma_position_of(entries, key@);
}

/// Giving a key a value keeps the keys distinct.
pub proof fn lemma_with_entry_distinct<K: DictKey, V>(entries: Seq<(K, V)>, key: K, value: V)
    requires
        distinct_keys(entries),
    ensures
        distinct_keys(with_entry(entries, key, value)),
{
    lemma_position_of(entries, key@);
    let after = with_entry(entries, key, value);
    assert forall|i: int, j: int| 0 <= i < j < after.len() implies (#[trigger] after[i]).0@ != (
    #[trigger] after[j]).0@ by {
        match position_of(entries, key@) {
            Some(p) => {
                assert(after[i].0 == entries[i].0);
                assert(after[j].0 == entries[j].0);
            },
            None => {
                if j < entries.len() {
                    assert(after[i] == entries[i]);
                    assert(after[j] == entries[j]);
                } else {
                    assert(after[i] == entries[i]);
                }
            },
        }
    }
}

/// The position of the pair of `pairs` whose first part is `key`, if there is
/// one.
pub open spec fn key_position<A, B>(pairs: Seq<(A, B)>, key: A) -> Option<int>
    decreases pairs.len(),
{
    if pairs.len() == 0 {
        None
    } else if pairs.last().0 == key {
        Some(pairs.len() - 1)
    } else {
        key_position(pairs.drop_last(), key)
    }
}

/// `pairs` after `key` has been given `value`: a pair with that key keeps its
/// place and takes the value, otherwise a new pair comes last.
pub open spec fn put<A, B>(pairs: Seq<(A, B)>, key: A, value: B) -> Seq<(A, B)> {
    match key_position(pairs, key) {
        Some(i) => pairs.update(i, (key, value)),
        None => pairs.push((key, value)),
    }
}

/// The pairs that are left when `pairs` are put one after the other: of two
/// pairs with one key the earlier gives the place and the later the value.
pub open spec fn put_all<A, B>(pairs: Seq<(A, B)>) -> Seq<(A, B)>
    decreases pairs.len(),
{
    if pairs.len() == 0 {
        Seq::empty()
    } else {
        put(put_all(pairs.drop_last()), pairs.last().0, pairs.last().1)
    }
}

/// What [`key_position`] finds is a pair with the key, and it finds none only
/// where no pair has the key.
pub proof fn lemma_key_position<A, B>(pairs: Seq<(A, B)>, key: A)
    ensures
        match key_position(pairs, key) {
            Some(i) => 0 <= i < pairs.len() && pairs[i].0 == key,
            None => forall|j: int| 0 <= j < pairs.len() ==> (#[trigger] pairs[j]).0 != key,
        },
    decreases pairs.len(),
{
    if pairs.len() > 0 && pairs.last().0 != key {
        lemma_key_position(pairs.drop_last(), key);
        assert forall|j: int|
            0 <= j < pairs.len() && key_position(pairs, key) is None implies (
        #[trigger] pairs[j]).0 != key by {
            if j < pairs.len() - 1 {
                assert(pairs.drop_last()[j] == pairs[j]);
            }
        }
    }
}

/// No two pairs of `pairs` have the same first part.
pub open spec fn unique_keys<A, B>(pairs: Seq<(A, B)>) -> bool {
    forall|i: int, j: int|
        0 <= i < j < pairs.len() ==> (#[trigger] pairs[i]).0 != (#[trigger] pairs[j]).0
}

/// Pairs with keys that are all different are left as they are when they are
/// put one after the other.
pub proof fn lemma_put_all_unique<A, B>(pairs: Seq<(A, B)>)
    requires
        unique_keys(pairs),
    ensures
        put_all(pairs) == pairs,
    decreases pairs.len(),
{
    if pairs.len() > 0 {
        let front = pairs.drop_last();
        assert forall|i: int, j: int| 0 <= i < j < front.len() implies (#[trigger] front[i]).0 != (
        #[trigger] front[j]).0 by {
            assert(front[i] == pairs[i]);
            assert(front[j] == pairs[j]);
        }
        lemma_put_all_unique(front);
        lemma_key_position(front, pairs.last().0);
        assert forall|j: int| 0 <= j < front.len() implies (#[trigger] front[j]).0
            != pairs.last().0 by {
            assert(front[j] == pairs[j]);
            assert(pairs.last() == pairs[pairs.len() - 1]);
        }
        assert(put_all(pairs) =~= pairs);
    }
}

/// The entries with each key by its view and each value by `f`.
pub open spec fn entry_views<K: DictKey, V, B>(entries: Seq<(K, V)>, f: spec_fn(V) -> B) -> Seq<
    (K::V, B),
> {
    Seq::new(entries.len(), |i: int| (entries[i].0@, f(entries[i].1)))
}

/// A key stands in a map where its view stands among the views.
pub proof fn lemma_position_views<K: DictKey, V, B>(
    entries: Seq<(K, V)>,
    f: spec_fn(V) -> B,
    key: K::V,
)
    ensures
        key_position(entry_views(entries, f), key) == position_of(entries, key),
    decreases entries.len(),
{
    let views = entry_views(entries, f);
    if entries.len() > 0 {
        assert(views.last().0 == entries.last().0@);
        assert(views.drop_last() =~= entry_views(entries.drop_last(), f));
        lemma_position_views(entries.drop_last(), f, key);
    }
}

/// Giving a key a value in a map gives the key's view the value's view among
/// the views.
pub proof fn lemma_with_entry_views<K: DictKey, V, B>(
    entries: Seq<(K, V)>,
    f: spec_fn(V) -> B,
    key: K,
    value: V,
)
    ensures
        entry_views(with_entry(entries, key, value), f) == put(
            entry_views(entries, f),
            key@,
            f(value),
        ),
{
    lemma_position_views(entries, f, key@);
    lemma_position_of(entries, key@);
    assert(entry_views(with_entry(entries, key, value), f) =~= put(
        entry_views(entries, f),
        key@,
        f(value),
    ));
}

/// A map that keeps its entries in the order in which their keys first came.
/// No two of its entries have the same key.
#[derive(Debug)]
pub struct Dict<K: DictKey, V> {
    entries: Vec<(K, V)>,
}

impl<K: DictKey, V> View for Dict<K, V> {
    type V = Seq<(K, V)>;

    closed spec fn view(&self) -> Seq<(K, V)> {
        self.entries@
    }
}

/// A map is larger than what it holds, so that a definition over a tree of
/// maps may descend into the entries.
pub broadcast proof fn lemma_dict_decreases<K: DictKey, V>(d: Dict<K, V>)
    ensures
        #[trigger] (decreases_to!(d => d@)),
{
    broadcast use vstd::std_specs::vec::axiom_vec_decreases_to_view;

    assert(decreases_to!(d => d.entries));
    assert(decreases_to!(d.entries => d.entries@));
}

impl<K: DictKey, V: Clone> Clone for Dict<K, V> {
    /// A map with the same keys in the same order, each with a clone of its
    /// value.
    fn clone(&self) -> (copy: Self)
        ensures
            copy@.len() == self@.len(),
            forall|i: int|
                0 <= i < self@.len() ==> (#[trigger] copy@[i]).0@ == self@[i].0@ && cloned(
                    self@[i].1,
                    copy@[i].1,
                ),
    {
        proof {
            use_type_invariant(self);
        }
        let mut entries: Vec<(K, V)> = Vec::with_capacity(self.entries.len());
        let mut i: usize = 0;
        while i < self.entries.len()
            invariant
                i <= self.entries.len(),
                entries@.len() == i,
                forall|j: int|
                    0 <= j < i ==> (#[trigger] entries@[j]).0@ == self.entries@[j].0@ && cloned(
                        self.entries@[j].1,
                        entries@[j].1,
                    ),
            decreases self.entries.len() - i,
        {
            let key = self.entries[i].0.clone_key();
            let value = self.entries[i].1.clone();
            entries.push((key, value));
            i += 1;
        }
        assert forall|a: int, b: int| 0 <= a < b < entries@.len() implies (#[trigger] entries@[a]).0@
            != (#[trigger] entries@[b]).0@ by {
            assert(self.entries@[a].0@ != self.entries@[b].0@);
        }
        Dict { entries }
    }
}

impl<K: DictKey, V> Dict<K, V> {
    #[verifier::type_invariant]
    spec fn keys_distinct(&self) -> bool {
        distinct_keys(self.entries@)
    }

    /// The empty map.
    pub fn new() -> (d: Self)
        ensures
            d@ == Seq::<(K, V)>::empty(),
    {
        Dict { entries: Vec::new() }
    }

    /// The empty map, with room for `capacity` entries.
    pub fn with_capacity(capacity: usize) -> (d: Self)
        ensures
            d@ == Seq::<(K, V)>::empty(),
    {
        Dict { entries: Vec::with_capacity(capacity) }
    }

    /// The number of entries.
    pub fn len(&self) -> (n: usize)
        ensures
            n == self@.len(),
    {
        self.entries.len()
    }

    /// Whether the map has no entry.
    pub fn is_empty(&self) -> (b: bool)
        ensures
            b == (self@.len() == 0),
    {
        self.entries.len() == 0
    }

    /// The entries in their order.
    pub fn entries(&self) -> (entries: &Vec<(K, V)>)
        ensures
            entries@ == self@,
            distinct_keys(entries@),
    {
        proof {
            use_type_invariant(self);
        }
        &self.entries
    }

    /// The entries in their order, taken out of the map.
    pub fn into_entries(self) -> (entries: Vec<(K, V)>)
        ensures
            entries@ == self@,
            distinct_keys(entries@),
    {
        proof {
            use_type_invariant(&self);
        }
        self.entries
    }

    fn find(&self, key: &K) -> (at: Option<usize>)
        ensures
            match at {
                Some(i) => position_of(self@, key@) == Some(i as int),
                None => position_of(self@, key@) is None,
            },
    {
        proof {
            use_type_invariant(self);
        }
        let mut i: usize = 0;
        while i < self.entries.len()
            invariant
                i <= self.entries.len(),
                distinct_keys(self.entries@),
                forall|j: int| 0 <= j < i ==> (#[trigger] self.entries@[j]).0@ != key@,
            decreases self.entries.len() - i,
        {
            if self.entries[i].0.same_key(key) {
                proof {
                    lemma_position_of_distinct(self.entries@, i as int);
                }
                return Some(i);
            }
            i += 1;
        }
        proof {
            lemma_position_of(self.entries@, key@);
        }
        None
    }

    /// Whether an entry has the key `key`.
    pub fn contains_key(&self, key: &K) -> (b: bool)
        ensures
            b == position_of(self@, key@) is Some,
    {
        self.find(key).is_some()
    }

    /// The value of the entry with the key `key`.
    pub fn get(&self, key: &K) -> (value: Option<&V>)
        ensures
            match position_of(self@, key@) {
                Some(i) => value == Some(&self@[i].1),
                None => value is None,
            },
    {
        match self.find(key) {
            Some(i) => {
                proof {
                    lemma_position_of(self@, key@);
                }
                Some(&self.entries[i].1)
            },
            None => None,
        }
    }

    /// Gives `key` the value `value`. A key that the map has keeps its place
    /// and hands back its earlier value; a new key comes last.
    pub fn insert(&mut self, key: K, value: V) -> (earlier: Option<V>)
        ensures
            final(self)@ == with_entry(old(self)@, key, value),
            match position_of(old(self)@, key@) {
                Some(i) => earlier == Some(old(self)@[i].1),
                None => earlier is None,
            },
    {
        proof {
            use_type_invariant(&*self);
            lemma_position_of(self@, key@);
            lemma_with_entry_distinct(self@, key, value);
        }
        let found = self.find(&key);
        let mut entries: Vec<(K, V)> = Vec::new();
        core::mem::swap(&mut self.entries, &mut entries);
        let earlier = match found {
            Some(i) => {
                let (kept, earlier) = entries.remove(i);
                entries.insert(i, (kept, value));
                Some(earlier)
            },
            None => {
                entries.push((key, value));
                None
            },
        };
        assert(entries@ =~= with_entry(old(self)@, key, value));
        core::mem::swap(&mut self.entries, &mut entries);
        earlier
    }
}

} // verus!

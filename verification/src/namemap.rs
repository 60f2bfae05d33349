//! A map from names to values, held in the order of the names.
//!
//! The names ascend, so no name occurs twice: a value that is inserted under
//! a name that is already there takes the place of the earlier one, and a
//! new name is put where it belongs.

use vstd::prelude::*;
use crate::text::{
    comes_before,
    lemma_text_before_irreflexive,
    lemma_text_before_total,
    lemma_text_before_transitive,
    same_text,
    text_before,
};

verus! {

/// Whether some entry of `entries` has the name `key`.
pub open spec fn has_key<T>(entries: Seq<(Seq<char>, T)>, key: Seq<char>) -> bool {
    exists|i: int| 0 <= i < entries.len() && (#[trigger] entries[i]).0 == key
}

/// The index of an entry of `entries` with the name `key`, where there is one.
pub open spec fn index_of<T>(entries: Seq<(Seq<char>, T)>, key: Seq<char>) -> int {
    choose|i: int| 0 <= i < entries.len() && (#[trigger] entries[i]).0 == key
}

/// No two entries have the same name.
pub open spec fn distinct_keys<T>(entries: Seq<(Seq<char>, T)>) -> bool {
    forall|i: int, j: int|
        0 <= i < j < entries.len() ==> (#[trigger] entries[i]).0 != (#[trigger] entries[j]).0
}

/// The names ascend: each entry comes before all that follow it.
pub open spec fn ascending<T>(entries: Seq<(Seq<char>, T)>) -> bool {
    forall|i: int, j: int|
        0 <= i < j < entries.len() ==> text_before(
            (#[trigger] entries[i]).0,
            (#[trigger] entries[j]).0,
        )
}

/// Whether `p` is the place of `key` among `entries`: the entries before
/// `p` come before `key`, and the others do not.
pub open spec fn is_rank<T>(entries: Seq<(Seq<char>, T)>, key: Seq<char>, p: int) -> bool {
    &&& 0 <= p <= entries.len()
    &&& forall|i: int| 0 <= i < p ==> text_before((#[trigger] entries[i]).0, key)
    &&& forall|i: int| p <= i < entries.len() ==> !text_before((#[trigger] entries[i]).0, key)
}

/// The place of `key` among ascending `entries`: the number of entries that
/// come before it.
pub open spec fn rank<T>(entries: Seq<(Seq<char>, T)>, key: Seq<char>) -> int {
    choose|p: int| is_rank(entries, key, p)
}

/// The value under the name `key`, if there is one.
pub open spec fn lookup<T>(entries: Seq<(Seq<char>, T)>, key: Seq<char>) -> Option<T> {
    if has_key(entries, key) {
        Some(entries[index_of(entries, key)].1)
    } else {
        None
    }
}

/// The entries after `value` was put under `key`: in the place of the entry
/// with that name where there is one, and otherwise between the names that
/// come before `key` and those that come after it.
pub open spec fn upsert<T>(entries: Seq<(Seq<char>, T)>, key: Seq<char>, value: T) -> Seq<
    (Seq<char>, T),
> {
    if has_key(entries, key) {
        entries.update(index_of(entries, key), (key, value))
    } else {
        entries.insert(rank(entries, key), (key, value))
    }
}

/// The entries that result from putting each pair of `pairs` in turn: the
/// names of the pairs in ascending order, each with the value of the last
/// pair that has it.
pub open spec fn collect<T>(pairs: Seq<(Seq<char>, T)>) -> Seq<(Seq<char>, T)>
    decreases pairs.len(),
{
    if pairs.len() == 0 {
        Seq::empty()
    } else {
        upsert(collect(pairs.drop_last()), pairs.last().0, pairs.last().1)
    }
}

/// With distinct names, the entry that has a name is the one that `index_of` finds.
pub proof fn lemma_index_of_unique<T>(entries: Seq<(Seq<char>, T)>, i: int)
    requires
        distinct_keys(entries),
        0 <= i < entries.len(),
    ensures
        has_key(entries, entries[i].0),
        index_of(entries, entries[i].0) == i,
        lookup(entries, entries[i].0) == Some(entries[i].1),
{
    let key = entries[i].0;
    let j = index_of(entries, key);
    assert(0 <= j < entries.len() && entries[j].0 == key);
    if j < i {
        assert(entries[j].0 != entries[i].0);
    } else if i < j {
        assert(entries[i].0 != entries[j].0);
    }
}

/// Ascending names are distinct.
pub proof fn lemma_ascending_is_distinct<T>(entries: Seq<(Seq<char>, T)>)
    requires
        ascending(entries),
    ensures
        distinct_keys(entries),
{
    assert forall|i: int, j: int| 0 <= i < j < entries.len() implies (#[trigger] entries[i]).0 != (
    #[trigger] entries[j]).0 by {
        lemma_text_before_irreflexive(entries[i].0);
    }
}

/// A name has one place only.
pub proof fn lemma_rank_unique<T>(entries: Seq<(Seq<char>, T)>, key: Seq<char>, p: int)
    requires
        is_rank(entries, key, p),
    ensures
        rank(entries, key) == p,
{
    let q = rank(entries, key);
    assert(is_rank(entries, key, q));
    if q < p {
        assert(text_before(entries[q].0, key));
    } else if p < q {
        assert(text_before(entries[p].0, key));
    }
}

/// Among ascending names every name has a place.
pub proof fn lemma_rank_exists<T>(entries: Seq<(Seq<char>, T)>, key: Seq<char>)
    requires
        ascending(entries),
    ensures
        is_rank(entries, key, rank(entries, key)),
    decreases entries.len(),
{
    if entries.len() == 0 {
        assert(is_rank(entries, key, 0));
    } else {
        let front = entries.drop_last();
        let last = entries.last();
        assert(ascending(front)) by {
            assert forall|i: int, j: int| 0 <= i < j < front.len() implies text_before(
                (#[trigger] front[i]).0,
                (#[trigger] front[j]).0,
            ) by {
                assert(front[i] == entries[i] && front[j] == entries[j]);
            }
        }
        lemma_rank_exists(front, key);
        let p = rank(front, key);
        if text_before(last.0, key) {
            assert forall|i: int| 0 <= i < entries.len() implies text_before(
                (#[trigger] entries[i]).0,
                key,
            ) by {
                if i < entries.len() - 1 {
                    assert(text_before(entries[i].0, entries[entries.len() - 1].0));
                    lemma_text_before_transitive(entries[i].0, last.0, key);
                }
            }
            assert(is_rank(entries, key, entries.len() as int));
        } else {
            assert forall|i: int| 0 <= i < p implies text_before((#[trigger] entries[i]).0, key) by {
                assert(front[i] == entries[i]);
            }
            assert forall|i: int| p <= i < entries.len() implies !text_before(
                (#[trigger] entries[i]).0,
                key,
            ) by {
                if i < entries.len() - 1 {
                    assert(front[i] == entries[i]);
                }
            }
            assert(is_rank(entries, key, p));
        }
    }
}

/// Putting a value keeps the names ascending, leaves the other names as they
/// were, and makes `key` stand for `value`.
pub proof fn lemma_upsert<T>(entries: Seq<(Seq<char>, T)>, key: Seq<char>, value: T)
    requires
        ascending(entries),
    ensures
        ascending(upsert(entries, key, value)),
        distinct_keys(upsert(entries, key, value)),
        lookup(upsert(entries, key, value), key) == Some(value),
        forall|other: Seq<char>|
            other != key ==> lookup(upsert(entries, key, value), other) == lookup(entries, other),
        upsert(entries, key, value).len() == entries.len() + if has_key(entries, key) {
            0int
        } else {
            1int
        },
{
    let after = upsert(entries, key, value);
    lemma_ascending_is_distinct(entries);
    if has_key(entries, key) {
        let at = index_of(entries, key);
        assert forall|i: int, j: int| 0 <= i < j < after.len() implies text_before(
            (#[trigger] after[i]).0,
            (#[trigger] after[j]).0,
        ) by {
            assert(after[i].0 == entries[i].0);
            assert(after[j].0 == entries[j].0);
        }
        lemma_ascending_is_distinct(after);
        assert(after[at].0 == key);
        lemma_index_of_unique(after, at);
        assert forall|other: Seq<char>| other != key implies lookup(after, other) == lookup(
            entries,
            other,
        ) by {
            if has_key(entries, other) {
                let k = index_of(entries, other);
                assert(after[k] == entries[k]);
                lemma_index_of_unique(after, k);
            } else if has_key(after, other) {
                let k = index_of(after, other);
                assert(entries[k].0 == after[k].0);
            }
        }
    } else {
        lemma_rank_exists(entries, key);
        let at = rank(entries, key);
        assert forall|i: int| at <= i < entries.len() implies text_before(
            key,
            (#[trigger] entries[i]).0,
        ) by {
            lemma_text_before_total(key, entries[i].0);
        }
        assert forall|i: int, j: int| 0 <= i < j < after.len() implies text_before(
            (#[trigger] after[i]).0,
            (#[trigger] after[j]).0,
        ) by {
            let i0 = if i < at { i } else { i - 1 };
            let j0 = if j < at { j } else { j - 1 };
            if i != at {
                assert(after[i] == entries[i0]);
            }
            if j != at {
                assert(after[j] == entries[j0]);
            }
            if i != at && j != at {
                assert(text_before(entries[i0].0, entries[j0].0));
            }
        }
        lemma_ascending_is_distinct(after);
        assert(after[at].0 == key);
        lemma_index_of_unique(after, at);
        assert forall|other: Seq<char>| other != key implies lookup(after, other) == lookup(
            entries,
            other,
        ) by {
            if has_key(entries, other) {
                let k = index_of(entries, other);
                let k1 = if k < at { k } else { k + 1 };
                assert(after[k1] == entries[k]);
                lemma_index_of_unique(after, k1);
            } else if has_key(after, other) {
                let k = index_of(after, other);
                let k0 = if k < at { k } else { k - 1 };
                assert(k != at);
                assert(entries[k0] == after[k]);
            }
        }
    }
}

/// Collecting pairs gives ascending names: exactly the names of the pairs,
/// each with the value of the last pair that has it.
pub proof fn lemma_collect<T>(pairs: Seq<(Seq<char>, T)>)
    ensures
        ascending(collect(pairs)),
        distinct_keys(collect(pairs)),
        forall|key: Seq<char>| has_key(collect(pairs), key) <==> has_key(pairs, key),
        forall|i: int|
            0 <= i < pairs.len() && (forall|j: int| i < j < pairs.len() ==> (#[trigger] pairs[j]).0
                != pairs[i].0) ==> lookup(collect(pairs), (#[trigger] pairs[i]).0) == Some(
                pairs[i].1,
            ),
    decreases pairs.len(),
{
    if pairs.len() == 0 {
    } else {
        let front = pairs.drop_last();
        let last = pairs.last();
        lemma_collect(front);
        lemma_upsert(collect(front), last.0, last.1);
        let all = collect(pairs);
        assert forall|key: Seq<char>| has_key(all, key) <==> has_key(pairs, key) by {
            if key == last.0 {
                assert(pairs[pairs.len() - 1].0 == key);
            } else {
                assert(lookup(all, key) == lookup(collect(front), key));
                if has_key(front, key) {
                    let k = index_of(front, key);
                    assert(pairs[k].0 == key);
                }
                if has_key(pairs, key) {
                    let k = index_of(pairs, key);
                    assert(k < pairs.len() - 1);
                    assert(front[k].0 == key);
                }
            }
        }
        assert forall|i: int|
            0 <= i < pairs.len() && (forall|j: int|
                i < j < pairs.len() ==> (#[trigger] pairs[j]).0 != pairs[i].0) implies lookup(
            all,
            (#[trigger] pairs[i]).0,
        ) == Some(pairs[i].1) by {
            if i < pairs.len() - 1 {
                assert(pairs[pairs.len() - 1].0 != pairs[i].0);
                assert(front[i] == pairs[i]);
                assert forall|j: int| i < j < front.len() implies (#[trigger] front[j]).0
                    != front[i].0 by {
                    assert(front[j] == pairs[j]);
                }
            }
        }
    }
}

/// A map from names to values, in the ascending order of the names.
#[derive(Debug, PartialEq, Eq)]
pub struct NameMap<V: View> {
    entries: Vec<(String, V)>,
}

/// The names and the views of the values of `entries`, in order.
pub open spec fn entries_view<V: View>(entries: Seq<(String, V)>) -> Seq<(Seq<char>, V::V)> {
    Seq::new(entries.len(), |i: int| (entries[i].0@, entries[i].1@))
}

impl<V: View> NameMap<V> {
    #[verifier::type_invariant]
    spec fn inv(self) -> bool {
        ascending(entries_view(self.entries@))
    }

    /// The entries, each as a name and the view of its value, in the
    /// ascending order of the names.
    pub closed spec fn view(&self) -> Seq<(Seq<char>, V::V)> {
        entries_view(self.entries@)
    }

    /// A map without entries.
    pub fn new() -> (m: NameMap<V>)
        ensures
            m@ == Seq::<(Seq<char>, V::V)>::empty(),
    {
        let m = NameMap { entries: Vec::new() };
        assert(m@ =~= Seq::<(Seq<char>, V::V)>::empty());
        m
    }

    /// The number of entries.
    pub fn len(&self) -> (n: usize)
        ensures
            n == self@.len(),
            ascending(self@),
            distinct_keys(self@),
    {
        proof {
            use_type_invariant(self);
            lemma_ascending_is_distinct(self@);
        }
        self.entries.len()
    }

    /// Whether the map has no entries.
    pub fn is_empty(&self) -> (b: bool)
        ensures
            b == (self@.len() == 0),
    {
        self.entries.len() == 0
    }

    /// The index of the entry with the name `key`, if there is one.
    pub fn position(&self, key: &str) -> (at: Option<usize>)
        ensures
            at is Some == has_key(self@, key@),
            at matches Some(i) ==> i < self@.len() && i == index_of(self@, key@),
    {
        proof {
            use_type_invariant(self);
            lemma_ascending_is_distinct(self@);
        }
        let mut i: usize = 0;
        while i < self.entries.len()
            invariant
                i <= self.entries.len(),
                distinct_keys(self@),
                self@ == entries_view(self.entries@),
                forall|k: int| 0 <= k < i ==> (#[trigger] self@[k]).0 != key@,
            decreases self.entries.len() - i,
        {
            if same_text(self.entries[i].0.as_str(), key) {
                proof {
                    assert(self@[i as int].0 == key@);
                    lemma_index_of_unique(self@, i as int);
                }
                return Some(i);
            }
            i += 1;
        }
        None
    }

    /// Whether the map has an entry with the name `key`.
    pub fn contains_key(&self, key: &str) -> (b: bool)
        ensures
            b == has_key(self@, key@),
    {
        self.position(key).is_some()
    }

    /// The value under the name `key`, if there is one.
    pub fn get(&self, key: &str) -> (v: Option<&V>)
        ensures
            v is Some == has_key(self@, key@),
            v matches Some(x) ==> lookup(self@, key@) == Some(x@),
    {
        match self.position(key) {
            Some(i) => Some(&self.entries[i].1),
            None => None,
        }
    }

    /// The name of the entry at `index`, if there are that many entries.
    pub fn key_at(&self, index: usize) -> (k: Option<&String>)
        ensures
            k is Some == (index < self@.len()),
            k matches Some(name) ==> name@ == self@[index as int].0,
    {
        if index < self.entries.len() {
            Some(&self.entries[index].0)
        } else {
            None
        }
    }

    /// The value of the entry at `index`, if there are that many entries.
    pub fn value_at(&self, index: usize) -> (v: Option<&V>)
        ensures
            v is Some == (index < self@.len()),
            v matches Some(value) ==> value@ == self@[index as int].1,
    {
        if index < self.entries.len() {
            Some(&self.entries[index].1)
        } else {
            None
        }
    }

    /// The place of `key` among the names: the number of names that come
    /// before it.
    pub fn rank_of(&self, key: &str) -> (p: usize)
        ensures
            p == rank(self@, key@),
            is_rank(self@, key@, p as int),
    {
        proof {
            use_type_invariant(self);
        }
        let mut p: usize = 0;
        while p < self.entries.len() && comes_before(self.entries[p].0.as_str(), key)
            invariant
                p <= self.entries.len(),
                self@ == entries_view(self.entries@),
                forall|k: int| 0 <= k < p ==> text_before((#[trigger] self@[k]).0, key@),
            decreases self.entries.len() - p,
        {
            p += 1;
        }
        proof {
            assert forall|i: int| p <= i < self@.len() implies !text_before(
                (#[trigger] self@[i]).0,
                key@,
            ) by {
                if i > p && text_before(self@[i].0, key@) {
                    assert(text_before(self@[p as int].0, self@[i].0));
                    lemma_text_before_transitive(self@[p as int].0, self@[i].0, key@);
                }
            }
            lemma_rank_unique(self@, key@, p as int);
        }
        p
    }

    /// Puts `value` under the name `key`. A value that was there under that
    /// name is replaced and returned; a new name goes to its place in the
    /// order of the names.
    pub fn insert(&mut self, key: String, value: V) -> (replaced: Option<V>)
        ensures
            final(self)@ == upsert(old(self)@, key@, value@),
            ascending(final(self)@),
            distinct_keys(final(self)@),
            replaced is Some == has_key(old(self)@, key@),
            replaced matches Some(x) ==> lookup(old(self)@, key@) == Some(x@),
    {
        proof {
            use_type_invariant(&*self);
            lemma_upsert(self@, key@, value@);
            lemma_ascending_is_distinct(self@);
        }
        let ghost before = self@;
        let at = self.rank_of(key.as_str());
        let found = at < self.entries.len() && same_text(self.entries[at].0.as_str(), key.as_str());
        proof {
            if found {
                lemma_index_of_unique(before, at as int);
            } else if has_key(before, key@) {
                let i = index_of(before, key@);
                if i < at {
                    lemma_text_before_irreflexive(key@);
                } else {
                    assert(i > at);
                    assert(text_before(before[at as int].0, before[i].0));
                }
            }
        }
        let mut entries: Vec<(String, V)> = Vec::new();
        std::mem::swap(&mut self.entries, &mut entries);
        assert(entries_view(entries@) == before);
        if found {
            let old_entry = entries.remove(at);
            entries.insert(at, (key, value));
            assert(entries_view(entries@) =~= upsert(before, key@, value@));
            self.entries = entries;
            Some(old_entry.1)
        } else {
            entries.insert(at, (key, value));
            assert(entries_view(entries@) =~= upsert(before, key@, value@));
            self.entries = entries;
            None
        }
    }
}

} // verus!

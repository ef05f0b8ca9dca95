//! A small map from texts to values that remembers the order of insertion.

use crate::text::str_eq;
use vstd::prelude::*;

verus! {

/// The entries of a map in the order of insertion.
pub type Entries<V> = Seq<(Seq<char>, V)>;

/// No key occurs twice.
pub open spec fn distinct_keys<V>(entries: Entries<V>) -> bool {
    forall|i: int, j: int|
        0 <= i < j < entries.len() ==> (#[trigger] entries[i]).0 != (#[trigger] entries[j]).0
}

/// Some entry has this key.
pub open spec fn has_key<V>(entries: Entries<V>, key: Seq<char>) -> bool {
    exists|i: int| 0 <= i < entries.len() && (#[trigger] entries[i]).0 == key
}

/// The place of the entry with this key.
pub open spec fn place_of<V>(entries: Entries<V>, key: Seq<char>) -> int {
    choose|i: int| 0 <= i < entries.len() && (#[trigger] entries[i]).0 == key
}

/// The value of each key.
pub open spec fn as_map<V>(entries: Entries<V>) -> Map<Seq<char>, V> {
    Map::new(
        |key: Seq<char>| has_key(entries, key),
        |key: Seq<char>| entries[place_of(entries, key)].1,
    )
}

/// The entries with `key` set to `value`, in its place where it has one, behind
/// the others where it is new.
pub open spec fn entries_with<V>(entries: Entries<V>, key: Seq<char>, value: V) -> Entries<V> {
    if has_key(entries, key) {
        entries.update(place_of(entries, key), (key, value))
    } else {
        entries.push((key, value))
    }
}

/// The entries without `key`.
pub open spec fn entries_without<V>(entries: Entries<V>, key: Seq<char>) -> Entries<V> {
    if has_key(entries, key) {
        entries.remove(place_of(entries, key))
    } else {
        entries
    }
}

/// The entry at `i` is what its key maps to.
pub proof fn lemma_entry<V>(entries: Entries<V>, i: int)
    requires
        distinct_keys(entries),
        0 <= i < entries.len(),
    ensures
        has_key(entries, entries[i].0),
        place_of(entries, entries[i].0) == i,
        as_map(entries).contains_key(entries[i].0),
        as_map(entries)[entries[i].0] == entries[i].1,
{
    let key = entries[i].0;
    assert(entries[i].0 == key);
    let p = place_of(entries, key);
    assert(0 <= p < entries.len() && entries[p].0 == key);
    if p < i {
        assert(entries[p].0 != entries[i].0);
    } else if i < p {
        assert(entries[i].0 != entries[p].0);
    }
}

/// Setting a key changes that key alone.
pub proof fn lemma_with<V>(entries: Entries<V>, key: Seq<char>, value: V)
    requires
        distinct_keys(entries),
    ensures
        distinct_keys(entries_with(entries, key, value)),
        as_map(entries_with(entries, key, value)) == as_map(entries).insert(key, value),
{
    let now = entries_with(entries, key, value);
    let at = if has_key(entries, key) {
        place_of(entries, key)
    } else {
        entries.len() as int
    };
    assert forall|i: int, j: int| 0 <= i < j < now.len() implies (#[trigger] now[i]).0 != (
    #[trigger] now[j]).0 by {
        if i != at && j != at {
            assert(entries[i].0 != entries[j].0);
        } else if i == at {
            assert(entries[i].0 != entries[j].0);
        } else if has_key(entries, key) {
            assert(entries[i].0 != entries[j].0);
        } else {
            assert(entries[i].0 != key);
        }
    }
    lemma_entry(now, at);
    assert forall|k: Seq<char>| k != key implies (#[trigger] as_map(now).contains_key(k) <==> as_map(
        entries,
    ).contains_key(k)) by {
        if has_key(entries, k) {
            let p = place_of(entries, k);
            assert(now[p] == entries[p]);
            lemma_entry(now, p);
        }
        if has_key(now, k) {
            let p = place_of(now, k);
            assert(now[p].0 == k);
            assert(entries[p].0 == k);
        }
    }
    assert forall|k: Seq<char>| k != key && as_map(entries).contains_key(k) implies
        #[trigger] as_map(now)[k] == as_map(entries)[k] by {
        let p = place_of(entries, k);
        assert(now[p] == entries[p]);
        lemma_entry(now, p);
    }
    assert(as_map(now) =~= as_map(entries).insert(key, value));
}

/// Changing the value at a place sets its key.
pub proof fn lemma_update<V>(entries: Entries<V>, i: int, value: V)
    requires
        distinct_keys(entries),
        0 <= i < entries.len(),
    ensures
        entries.update(i, (entries[i].0, value)) == entries_with(entries, entries[i].0, value),
        distinct_keys(entries.update(i, (entries[i].0, value))),
{
    lemma_entry(entries, i);
    lemma_with(entries, entries[i].0, value);
}

/// Taking a key out leaves every other one as it was.
pub proof fn lemma_without<V>(entries: Entries<V>, key: Seq<char>)
    requires
        distinct_keys(entries),
    ensures
        distinct_keys(entries_without(entries, key)),
        as_map(entries_without(entries, key)) == as_map(entries).remove(key),
{
    let now = entries_without(entries, key);
    if has_key(entries, key) {
        let at = place_of(entries, key);
        assert(entries[at].0 == key);
        assert forall|i: int, j: int| 0 <= i < j < now.len() implies (#[trigger] now[i]).0 != (
        #[trigger] now[j]).0 by {
            let a = if i < at {
                i
            } else {
                i + 1
            };
            let b = if j < at {
                j
            } else {
                j + 1
            };
            assert(entries[a].0 != entries[b].0);
        }
        assert forall|k: Seq<char>| #[trigger] as_map(now).contains_key(k) <==> as_map(
            entries,
        ).contains_key(k) && k != key by {
            if has_key(now, k) {
                let p = place_of(now, k);
                let q = if p < at {
                    p
                } else {
                    p + 1
                };
                assert(now[p] == entries[q]);
                assert(entries[q].0 == k);
                if k == key {
                    if q < at {
                        assert(entries[q].0 != entries[at].0);
                    } else {
                        assert(entries[at].0 != entries[q].0);
                    }
                }
            }
            if has_key(entries, k) && k != key {
                let q = place_of(entries, k);
                let p = if q < at {
                    q
                } else {
                    q - 1
                };
                assert(now[p] == entries[q]);
            }
        }
        assert forall|k: Seq<char>| as_map(now).contains_key(k) implies #[trigger] as_map(now)[k]
            == as_map(entries)[k] by {
            let p = place_of(now, k);
            assert(now[p].0 == k);
            let q = if p < at {
                p
            } else {
                p + 1
            };
            assert(now[p] == entries[q]);
            lemma_entry(entries, q);
        }
    }
    assert(as_map(now) =~= as_map(entries).remove(key));
}

/// The entries with each value seen through `f`.
pub open spec fn seen<V, W>(entries: Entries<V>, f: spec_fn(V) -> W) -> Entries<W> {
    Seq::new(entries.len(), |i: int| (entries[i].0, f(entries[i].1)))
}

/// What is seen of a map has the same keys in the same places.
pub proof fn lemma_seen<V, W>(entries: Entries<V>, f: spec_fn(V) -> W, key: Seq<char>)
    requires
        distinct_keys(entries),
    ensures
        distinct_keys(seen(entries, f)),
        has_key(seen(entries, f), key) == has_key(entries, key),
        has_key(entries, key) ==> place_of(seen(entries, f), key) == place_of(entries, key),
        has_key(entries, key) ==> as_map(seen(entries, f))[key] == f(as_map(entries)[key]),
{
    let s = seen(entries, f);
    assert forall|i: int, j: int| 0 <= i < j < s.len() implies (#[trigger] s[i]).0 != (
    #[trigger] s[j]).0 by {
        assert(entries[i].0 != entries[j].0);
    }
    if has_key(entries, key) {
        let p = place_of(entries, key);
        assert(s[p].0 == key);
        lemma_entry(s, p);
    }
    if has_key(s, key) {
        let p = place_of(s, key);
        assert(entries[p].0 == key);
    }
}

/// Setting a key sets it in what is seen.
pub proof fn lemma_seen_with<V, W>(entries: Entries<V>, f: spec_fn(V) -> W, key: Seq<char>, value: V)
    requires
        distinct_keys(entries),
    ensures
        seen(entries_with(entries, key, value), f) == entries_with(seen(entries, f), key, f(value)),
{
    lemma_seen(entries, f, key);
    assert(seen(entries_with(entries, key, value), f) =~= entries_with(
        seen(entries, f),
        key,
        f(value),
    ));
}

/// Taking a key out takes it out of what is seen.
pub proof fn lemma_seen_without<V, W>(entries: Entries<V>, f: spec_fn(V) -> W, key: Seq<char>)
    requires
        distinct_keys(entries),
    ensures
        seen(entries_without(entries, key), f) == entries_without(seen(entries, f), key),
{
    lemma_seen(entries, f, key);
    assert(seen(entries_without(entries, key), f) =~= entries_without(seen(entries, f), key));
}

/// A map from texts to values that remembers the order of insertion.
pub struct TextMap<V> {
    entries: Vec<(String, V)>,
}

impl<V> View for TextMap<V> {
    type V = Entries<V>;

    closed spec fn view(&self) -> Entries<V> {
        Seq::new(self.entries@.len(), |i: int| (self.entries@[i].0@, self.entries@[i].1))
    }
}

impl<V> TextMap<V> {
    /// No key occurs twice.
    pub open spec fn wf(&self) -> bool {
        distinct_keys(self@)
    }

    /// The value of each key.
    pub open spec fn map(&self) -> Map<Seq<char>, V> {
        as_map(self@)
    }

    pub fn new() -> (r: Self)
        ensures
            r.wf(),
            r@ == Seq::<(Seq<char>, V)>::empty(),
            r.map() == Map::<Seq<char>, V>::empty(),
    {
        let r = TextMap { entries: Vec::new() };
        assert(r@ =~= Seq::<(Seq<char>, V)>::empty());
        assert(r.map() =~= Map::<Seq<char>, V>::empty());
        r
    }

    pub fn len(&self) -> (r: usize)
        ensures
            r == self@.len(),
    {
        self.entries.len()
    }

    /// The place of the entry with this key.
    pub fn find(&self, key: &str) -> (r: Option<usize>)
        requires
            self.wf(),
        ensures
            match r {
                Some(i) => i < self@.len() && self@[i as int].0 == key@ && has_key(self@, key@)
                    && place_of(self@, key@) == i && self.map().contains_key(key@)
                    && self.map()[key@] == self@[i as int].1,
                None => !has_key(self@, key@) && !self.map().contains_key(key@),
            },
    {
        let mut i: usize = 0;
        while i < self.entries.len()
            invariant
                i <= self.entries@.len(),
                self.wf(),
                forall|k: int| 0 <= k < i ==> (#[trigger] self@[k]).0 != key@,
            decreases self.entries@.len() - i,
        {
            assert(self@[i as int].0 == self.entries@[i as int].0@);
            if str_eq(self.entries[i].0.as_str(), key) {
                proof {
                    lemma_entry(self@, i as int);
                }
                return Some(i);
            }
            i = i + 1;
        }
        None
    }

    pub fn contains(&self, key: &str) -> (r: bool)
        requires
            self.wf(),
        ensures
            r == has_key(self@, key@),
            r == self.map().contains_key(key@),
    {
        self.find(key).is_some()
    }

    /// The value of the entry at `i`.
    pub fn at(&self, i: usize) -> (r: &V)
        requires
            i < self@.len(),
        ensures
            *r == self@[i as int].1,
    {
        &self.entries[i].1
    }

    /// The value of the entry at `i`, to be changed in place.
    pub fn at_mut(&mut self, i: usize) -> (r: &mut V)
        requires
            i < old(self)@.len(),
        ensures
            *r == old(self)@[i as int].1,
            final(self)@ == old(self)@.update(i as int, (old(self)@[i as int].0, *final(r))),
    {
        let ghost before = self@;
        let r = &mut self.entries[i].1;
        proof {
            assert(after_borrow(self)@ =~= before.update(i as int, (before[i as int].0, *final(r))));
        }
        r
    }

    /// The value of a key.
    pub fn get(&self, key: &str) -> (r: Option<&V>)
        requires
            self.wf(),
        ensures
            match r {
                Some(v) => self.map().contains_key(key@) && *v == self.map()[key@],
                None => !self.map().contains_key(key@),
            },
    {
        match self.find(key) {
            Some(i) => Some(&self.entries[i].1),
            None => None,
        }
    }

    /// Sets a key, in its place where it has one.
    pub fn insert(&mut self, key: &str, value: V)
        requires
            old(self).wf(),
        ensures
            final(self).wf(),
            final(self)@ == entries_with(old(self)@, key@, value),
            final(self).map() == old(self).map().insert(key@, value),
    {
        proof {
            lemma_with(self@, key@, value);
        }
        let ghost before = self@;
        match self.find(key) {
            Some(i) => {
                self.entries[i].1 = value;
                assert(self@ =~= entries_with(before, key@, value));
            },
            None => {
                self.entries.push((key.to_owned(), value));
                assert(self@ =~= entries_with(before, key@, value));
            },
        }
    }

    /// Takes a key out.
    pub fn remove(&mut self, key: &str) -> (r: Option<V>)
        requires
            old(self).wf(),
        ensures
            final(self).wf(),
            final(self)@ == entries_without(old(self)@, key@),
            final(self).map() == old(self).map().remove(key@),
            match r {
                Some(v) => old(self).map().contains_key(key@) && v == old(self).map()[key@],
                None => !old(self).map().contains_key(key@),
            },
    {
        proof {
            lemma_without(self@, key@);
        }
        let ghost before = self@;
        match self.find(key) {
            Some(i) => {
                let (k, v) = self.entries.remove(i);
                assert(self@ =~= entries_without(before, key@));
                Some(v)
            },
            None => None,
        }
    }
}

} // verus!

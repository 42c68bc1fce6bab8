//! A map from string keys to values, kept as a list in ascending key order.

use vstd::prelude::*;
use crate::key::{lemma_precedes_irreflexive, lemma_precedes_transitive, precedes, rank, Rank};
use crate::text::chars_of;

verus! {

/// The keys of `entries` ascend strictly, so that none occurs twice.
pub open spec fn ascending<T>(entries: Seq<(String, T)>) -> bool {
    forall|i: int, j: int|
        #![trigger entries[i], entries[j]]
        0 <= i < j < entries.len() ==> precedes(entries[i].0@, entries[j].0@)
}

/// Some entry has the key `key`.
spec fn holds<T>(entries: Seq<(String, T)>, key: Seq<char>) -> bool {
    exists|i: int| 0 <= i < entries.len() && (#[trigger] entries[i]).0@ == key
}

/// The place of an entry with the key `key`.
spec fn place<T>(entries: Seq<(String, T)>, key: Seq<char>) -> int {
    choose|i: int| 0 <= i < entries.len() && (#[trigger] entries[i]).0@ == key
}

/// The map that a list of entries stands for.
spec fn as_map<T>(entries: Seq<(String, T)>) -> Map<Seq<char>, T> {
    Map::new(|k: Seq<char>| holds(entries, k), |k: Seq<char>| entries[place(entries, k)].1)
}

/// In an ascending list a key is found at one place only.
proof fn lemma_place<T>(entries: Seq<(String, T)>, i: int)
    requires
        ascending(entries),
        0 <= i < entries.len(),
    ensures
        holds(entries, entries[i].0@),
        place(entries, entries[i].0@) == i,
        as_map(entries).contains_key(entries[i].0@),
        as_map(entries)[entries[i].0@] == entries[i].1,
{
    let k = entries[i].0@;
    let p = place(entries, k);
    lemma_precedes_irreflexive(k);
    if p < i {
        assert(precedes(entries[p].0@, entries[i].0@));
    } else if i < p {
        assert(precedes(entries[i].0@, entries[p].0@));
    }
}

/// A key that falls between two neighbours is the key of no entry.
proof fn lemma_absent<T>(entries: Seq<(String, T)>, key: Seq<char>, p: int)
    requires
        0 <= p <= entries.len(),
        forall|i: int| 0 <= i < p ==> precedes((#[trigger] entries[i]).0@, key),
        forall|j: int| p <= j < entries.len() ==> precedes(key, (#[trigger] entries[j]).0@),
    ensures
        !holds(entries, key),
        !as_map(entries).contains_key(key),
{
    lemma_precedes_irreflexive(key);
}

/// A new key put in at its place: the list still ascends, and the map has gained the pair.
proof fn lemma_insert<T>(entries: Seq<(String, T)>, p: int, key: String, value: T)
    requires
        ascending(entries),
        0 <= p <= entries.len(),
        forall|i: int| 0 <= i < p ==> precedes((#[trigger] entries[i]).0@, key@),
        forall|j: int| p <= j < entries.len() ==> precedes(key@, (#[trigger] entries[j]).0@),
    ensures
        ascending(entries.insert(p, (key, value))),
        as_map(entries.insert(p, (key, value))) == as_map(entries).insert(key@, value),
{
    let after = entries.insert(p, (key, value));
    assert forall|i: int, j: int| 0 <= i < j < after.len() implies precedes(
        (#[trigger] after[i]).0@,
        (#[trigger] after[j]).0@,
    ) by {
        let a = if i < p { i } else { i - 1 };
        let b = if j < p { j } else { j - 1 };
        if i != p && j != p {
            assert(precedes(entries[a].0@, entries[b].0@));
        } else if i == p {
            assert(precedes(key@, entries[b].0@));
        } else {
            assert(precedes(entries[a].0@, key@));
        }
    }
    lemma_place(after, p);
    assert forall|k: Seq<char>| holds(after, k) <==> (k == key@ || holds(entries, k)) by {
        if holds(after, k) && k != key@ {
            let q = place(after, k);
            let b = if q < p { q } else { q - 1 };
            assert(entries[b].0@ == k);
        }
        if holds(entries, k) {
            let q = place(entries, k);
            let b = if q < p { q } else { q + 1 };
            assert(after[b].0@ == k);
        }
    }
    assert forall|k: Seq<char>| holds(entries, k) && k != key@ implies as_map(after)[k] == as_map(
        entries,
    )[k] by {
        let q = place(entries, k);
        let b = if q < p { q } else { q + 1 };
        assert(after[b] == entries[q]);
        lemma_place(after, b);
    }
    assert(as_map(after) =~= as_map(entries).insert(key@, value));
}

/// A value put in the place of another under the same key: the list still
/// ascends, and the map holds the new value there.
proof fn lemma_update<T>(entries: Seq<(String, T)>, p: int, key: String, value: T)
    requires
        ascending(entries),
        0 <= p < entries.len(),
        entries[p].0@ == key@,
    ensures
        ascending(entries.update(p, (key, value))),
        as_map(entries.update(p, (key, value))) == as_map(entries).insert(key@, value),
{
    let after = entries.update(p, (key, value));
    assert forall|i: int, j: int| 0 <= i < j < after.len() implies precedes(
        (#[trigger] after[i]).0@,
        (#[trigger] after[j]).0@,
    ) by {
        assert(precedes(entries[i].0@, entries[j].0@));
    }
    lemma_place(after, p);
    assert forall|k: Seq<char>| holds(after, k) <==> (k == key@ || holds(entries, k)) by {
        if holds(after, k) {
            let q = place(after, k);
            assert(entries[q].0@ == k);
        }
        if holds(entries, k) {
            let q = place(entries, k);
            assert(after[q].0@ == k);
        }
        if k == key@ {
            assert(entries[p].0@ == k);
        }
    }
    assert forall|k: Seq<char>| holds(entries, k) && k != key@ implies as_map(after)[k] == as_map(
        entries,
    )[k] by {
        let q = place(entries, k);
        assert(after[q] == entries[q]);
        lemma_place(after, q);
    }
    assert(as_map(after) =~= as_map(entries).insert(key@, value));
}

/// An entry taken out: the list still ascends, and the map has lost its key.
proof fn lemma_remove<T>(entries: Seq<(String, T)>, p: int)
    requires
        ascending(entries),
        0 <= p < entries.len(),
    ensures
        ascending(entries.remove(p)),
        as_map(entries.remove(p)) == as_map(entries).remove(entries[p].0@),
{
    let after = entries.remove(p);
    let gone = entries[p].0@;
    assert forall|i: int, j: int| 0 <= i < j < after.len() implies precedes(
        (#[trigger] after[i]).0@,
        (#[trigger] after[j]).0@,
    ) by {
        let a = if i < p { i } else { i + 1 };
        let b = if j < p { j } else { j + 1 };
        assert(precedes(entries[a].0@, entries[b].0@));
    }
    assert forall|k: Seq<char>| holds(after, k) <==> (k != gone && holds(entries, k)) by {
        if holds(after, k) {
            let q = place(after, k);
            let b = if q < p { q } else { q + 1 };
            assert(entries[b].0@ == k);
            lemma_place(entries, b);
            lemma_place(entries, p);
        }
        if holds(entries, k) && k != gone {
            let q = place(entries, k);
            let b = if q < p { q } else { q - 1 };
            assert(after[b].0@ == k);
        }
    }
    assert forall|k: Seq<char>| holds(after, k) implies as_map(after)[k] == as_map(entries)[k] by {
        let q = place(after, k);
        let b = if q < p { q } else { q + 1 };
        assert(after[q] == entries[b]);
        lemma_place(entries, b);
    }
    assert(as_map(after) =~= as_map(entries).remove(gone));
}

/// The map that comes of putting the entries into an empty map one after
/// another, from the first on: of two entries with one key the later one stays.
pub open spec fn collected<T>(entries: Seq<(String, T)>) -> Map<Seq<char>, T>
    decreases entries.len(),
{
    if entries.len() == 0 {
        Map::empty()
    } else {
        collected(entries.drop_last()).insert(entries.last().0@, entries.last().1)
    }
}

/// Of an ascending list nothing is lost in putting its entries into a map:
/// the map is the one that the list stands for.
proof fn lemma_collected_ascending<T>(entries: Seq<(String, T)>)
    requires
        ascending(entries),
    ensures
        collected(entries) == as_map(entries),
    decreases entries.len(),
{
    if entries.len() == 0 {
        assert(as_map(entries) =~= Map::<Seq<char>, T>::empty());
    } else {
        let front = entries.drop_last();
        let last = entries.last();
        assert forall|i: int, j: int| 0 <= i < j < front.len() implies precedes(
            (#[trigger] front[i]).0@,
            (#[trigger] front[j]).0@,
        ) by {
            assert(precedes(entries[i].0@, entries[j].0@));
        }
        lemma_collected_ascending(front);
        assert forall|i: int| 0 <= i < front.len() implies precedes(
            (#[trigger] front[i]).0@,
            last.0@,
        ) by {
            assert(precedes(entries[i].0@, entries[entries.len() - 1].0@));
        }
        lemma_insert(front, front.len() as int, last.0, last.1);
        assert(front.insert(front.len() as int, (last.0, last.1)) =~= entries);
    }
}

/// An ascending list and the map made of it hold the same: every entry of
/// the list stands in the map under its key, and the map has no key but
/// those of the list. So a map that was listed and made again of its listing
/// is the map it was.
pub proof fn law_listing_is_the_map<T>(entries: Seq<(String, T)>)
    requires
        ascending(entries),
    ensures
        forall|i: int|
            0 <= i < entries.len() ==> collected(entries).contains_key(
                (#[trigger] entries[i]).0@,
            ) && collected(entries)[entries[i].0@] == entries[i].1,
        forall|key: Seq<char>| #[trigger]
            collected(entries).contains_key(key) ==> exists|i: int|
                0 <= i < entries.len() && (#[trigger] entries[i]).0@ == key,
{
    lemma_collected_ascending(entries);
    assert forall|i: int| 0 <= i < entries.len() implies collected(entries).contains_key(
        (#[trigger] entries[i]).0@,
    ) && collected(entries)[entries[i].0@] == entries[i].1 by {
        lemma_place(entries, i);
    }
    assert forall|key: Seq<char>| #[trigger]
        collected(entries).contains_key(key) implies exists|i: int|
        0 <= i < entries.len() && (#[trigger] entries[i]).0@ == key by {
        assert(holds(entries, key));
    }
}

/// A map from string keys to values. Its entries lie in ascending key order,
/// the order of Rust strings, and no key occurs twice.
#[derive(Debug, PartialEq)]
pub struct SortedMap<T> {
    entries: Vec<(String, T)>,
}

impl<T> View for SortedMap<T> {
    type V = Map<Seq<char>, T>;

    closed spec fn view(&self) -> Map<Seq<char>, T> {
        as_map(self.entries@)
    }
}

impl<T> SortedMap<T> {
    #[verifier::type_invariant]
    spec fn well_formed(self) -> bool {
        ascending(self.entries@)
    }

    /// The place of `key`, or the place where it would go, and whether it is there.
    fn locate(&self, key: &Vec<char>) -> (r: (usize, bool))
        ensures
            r.0 <= self.entries@.len(),
            r.1 ==> r.0 < self.entries@.len() && self.entries@[r.0 as int].0@ == key@,
            !r.1 ==> forall|i: int| 0 <= i < r.0 ==> precedes((#[trigger] self.entries@[i]).0@, key@),
            !r.1 ==> forall|j: int|
                r.0 <= j < self.entries@.len() ==> precedes(key@, (#[trigger] self.entries@[j]).0@),
    {
        proof {
            use_type_invariant(self);
        }
        let mut lo: usize = 0;
        let mut hi: usize = self.entries.len();
        while lo < hi
            invariant
                lo <= hi <= self.entries@.len(),
                ascending(self.entries@),
                forall|i: int| 0 <= i < lo ==> precedes((#[trigger] self.entries@[i]).0@, key@),
                forall|j: int|
                    hi <= j < self.entries@.len() ==> precedes(key@, (#[trigger] self.entries@[j]).0@),
            decreases hi - lo,
        {
            let mid: usize = lo + (hi - lo) / 2;
            let probe = chars_of(self.entries[mid].0.as_str());
            match rank(&probe, key) {
                Rank::Same => {
                    return (mid, true);
                },
                Rank::Before => {
                    assert forall|i: int| 0 <= i < mid + 1 implies precedes(
                        (#[trigger] self.entries@[i]).0@,
                        key@,
                    ) by {
                        if i < mid {
                            assert(precedes(self.entries@[i].0@, self.entries@[mid as int].0@));
                            lemma_precedes_transitive(
                                self.entries@[i].0@,
                                self.entries@[mid as int].0@,
                                key@,
                            );
                        }
                    }
                    lo = mid + 1;
                },
                Rank::After => {
                    assert forall|j: int| mid <= j < self.entries@.len() implies precedes(
                        key@,
                        (#[trigger] self.entries@[j]).0@,
                    ) by {
                        if mid < j {
                            assert(precedes(self.entries@[mid as int].0@, self.entries@[j].0@));
                            lemma_precedes_transitive(
                                key@,
                                self.entries@[mid as int].0@,
                                self.entries@[j].0@,
                            );
                        }
                    }
                    hi = mid;
                },
            }
        }
        (lo, false)
    }

    /// A map without entries.
    pub fn new() -> (m: Self)
        ensures
            m@ == Map::<Seq<char>, T>::empty(),
    {
        let m = SortedMap { entries: Vec::new() };
        assert(m@ =~= Map::<Seq<char>, T>::empty());
        m
    }

    /// The map that comes of putting `entries` in one after another.
    pub fn from_entries(entries: Vec<(String, T)>) -> (m: Self)
        ensures
            m@ == collected(entries@),
    {
        let mut m: SortedMap<T> = SortedMap::new();
        let ghost all = entries@;
        assert(all.take(0) =~= Seq::<(String, T)>::empty());
        for entry in it: entries
            invariant
                it.seq() == all,
                m@ == collected(all.take(it.index())),
        {
            let ghost done = it.index();
            assert(all.take(done + 1).drop_last() =~= all.take(done));
            assert(all.take(done + 1).last() == entry);
            let (key, value) = entry;
            m.insert(key, value);
        }
        assert(all.take(all.len() as int) =~= all);
        m
    }

    /// The entries in ascending key order; put into a map again they make this map.
    pub fn into_entries(self) -> (entries: Vec<(String, T)>)
        ensures
            ascending(entries@),
            collected(entries@) == self@,
    {
        proof {
            use_type_invariant(&self);
            lemma_collected_ascending(self.entries@);
        }
        self.entries
    }

    /// Whether the map has no entry.
    pub fn is_empty(&self) -> (r: bool)
        ensures
            r == (forall|key: Seq<char>| !self@.contains_key(key)),
    {
        proof {
            use_type_invariant(self);
            if self.entries@.len() > 0 {
                lemma_place(self.entries@, 0);
                assert(self@.contains_key(self.entries@[0].0@));
            } else {
                assert forall|key: Seq<char>| !self@.contains_key(key) by {
                    assert(!holds(self.entries@, key));
                }
            }
        }
        self.entries.len() == 0
    }

    /// Whether the map has an entry under `key`.
    pub fn contains_key(&self, key: &str) -> (r: bool)
        ensures
            r == self@.contains_key(key@),
    {
        self.get(key).is_some()
    }

    /// The value under `key`, where there is one.
    pub fn get(&self, key: &str) -> (r: Option<&T>)
        ensures
            r is Some == self@.contains_key(key@),
            r matches Some(v) ==> *v == self@[key@],
    {
        let probe = chars_of(key);
        let (p, found) = self.locate(&probe);
        proof {
            use_type_invariant(self);
            if found {
                lemma_place(self.entries@, p as int);
            } else {
                lemma_absent(self.entries@, key@, p as int);
            }
        }
        if found {
            Some(&self.entries[p].1)
        } else {
            None
        }
    }

    /// Puts `value` under `key`, in the place of the value that was there, if one was.
    pub fn insert(&mut self, key: String, value: T)
        ensures
            final(self)@ == old(self)@.insert(key@, value),
    {
        let probe = chars_of(key.as_str());
        let (p, found) = self.locate(&probe);
        proof {
            use_type_invariant(&*self);
            if found {
                lemma_update(self.entries@, p as int, key, value);
            } else {
                lemma_insert(self.entries@, p as int, key, value);
            }
        }
        let mut entries: Vec<(String, T)> = Vec::new();
        core::mem::swap(&mut self.entries, &mut entries);
        if found {
            entries.set(p, (key, value));
        } else {
            entries.insert(p, (key, value));
        }
        self.entries = entries;
    }

    /// Takes the entry under `key` out and hands it back; without one the map stays as it is.
    pub fn remove_entry(&mut self, key: &str) -> (r: Option<(String, T)>)
        ensures
            r is Some == old(self)@.contains_key(key@),
            r matches Some(e) ==> e.0@ == key@ && e.1 == old(self)@[key@],
            final(self)@ == old(self)@.remove(key@),
    {
        let probe = chars_of(key);
        let (p, found) = self.locate(&probe);
        proof {
            use_type_invariant(&*self);
            if found {
                lemma_place(self.entries@, p as int);
                lemma_remove(self.entries@, p as int);
            } else {
                lemma_absent(self.entries@, key@, p as int);
                assert(self@.remove(key@) =~= self@);
            }
        }
        if found {
            let mut entries: Vec<(String, T)> = Vec::new();
            core::mem::swap(&mut self.entries, &mut entries);
            let entry = entries.remove(p);
            self.entries = entries;
            Some(entry)
        } else {
            None
        }
    }

    /// The keys, each once, in ascending order.
    pub fn keys(&self) -> (out: Vec<String>)
        ensures
            forall|i: int, j: int|
                0 <= i < j < out@.len() ==> precedes(#[trigger] out@[i]@, #[trigger] out@[j]@),
            forall|k: Seq<char>|
                self@.contains_key(k) <==> exists|i: int| 0 <= i < out@.len() && #[trigger] out@[i]@ == k,
    {
        proof {
            use_type_invariant(self);
        }
        let mut out: Vec<String> = Vec::new();
        let mut i: usize = 0;
        while i < self.entries.len()
            invariant
                i <= self.entries@.len(),
                out@.len() == i,
                forall|k: int| 0 <= k < i ==> (#[trigger] out@[k])@ == self.entries@[k].0@,
            decreases self.entries@.len() - i,
        {
            out.push(self.entries[i].0.clone());
            i = i + 1;
        }
        proof {
            assert forall|a: int, b: int| 0 <= a < b < out@.len() implies precedes(
                #[trigger] out@[a]@,
                #[trigger] out@[b]@,
            ) by {
                assert(precedes(self.entries@[a].0@, self.entries@[b].0@));
            }
            assert forall|k: Seq<char>| self@.contains_key(k) <==> exists|i: int|
                0 <= i < out@.len() && #[trigger] out@[i]@ == k by {
                if self@.contains_key(k) {
                    let q = place(self.entries@, k);
                    assert(out@[q]@ == k);
                }
                if exists|i: int| 0 <= i < out@.len() && #[trigger] out@[i]@ == k {
                    let q = choose|i: int| 0 <= i < out@.len() && #[trigger] out@[i]@ == k;
                    assert(self.entries@[q].0@ == k);
                }
            }
        }
        out
    }
}

impl<T: Clone> Clone for SortedMap<T> {
    /// A map with the same keys, under each a clone of the value that stands there.
    fn clone(&self) -> (copy: Self)
        ensures
            copy@.dom() == self@.dom(),
            forall|k: Seq<char>| #[trigger] self@.contains_key(k) ==> cloned::<T>(self@[k], copy@[k]),
    {
        proof {
            use_type_invariant(self);
        }
        let mut entries: Vec<(String, T)> = Vec::new();
        let mut i: usize = 0;
        while i < self.entries.len()
            invariant
                i <= self.entries@.len(),
                entries@.len() == i,
                forall|k: int|
                    0 <= k < i ==> (#[trigger] entries@[k]).0@ == self.entries@[k].0@ && cloned::<T>(
                        self.entries@[k].1,
                        entries@[k].1,
                    ),
            decreases self.entries@.len() - i,
        {
            let key = self.entries[i].0.clone();
            let value = self.entries[i].1.clone();
            entries.push((key, value));
            i = i + 1;
        }
        proof {
            assert forall|a: int, b: int| 0 <= a < b < entries@.len() implies precedes(
                (#[trigger] entries@[a]).0@,
                (#[trigger] entries@[b]).0@,
            ) by {
                assert(precedes(self.entries@[a].0@, self.entries@[b].0@));
            }
            assert forall|k: Seq<char>| holds(entries@, k) <==> holds(self.entries@, k) by {
                if holds(entries@, k) {
                    let q = place(entries@, k);
                    assert(self.entries@[q].0@ == k);
                }
                if holds(self.entries@, k) {
                    let q = place(self.entries@, k);
                    assert(entries@[q].0@ == k);
                }
            }
            assert(as_map(entries@).dom() =~= as_map(self.entries@).dom());
            assert forall|k: Seq<char>| #[trigger]
                as_map(self.entries@).contains_key(k) implies cloned::<T>(
                as_map(self.entries@)[k],
                as_map(entries@)[k],
            ) by {
                let q = place(self.entries@, k);
                assert(entries@[q].0@ == k);
                lemma_place(entries@, q);
                lemma_place(self.entries@, q);
            }
        }
        SortedMap { entries }
    }
}

} // verus!

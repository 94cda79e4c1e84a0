//! A map keyed by path, held as a vector in path order.
//!
//! The order is the invariant: keys strictly increase, so no key occurs twice and a listing of
//! the map comes out sorted with no further work.

use vstd::prelude::*;

use crate::paths::{lemma_path_lt_irreflexive, lemma_path_lt_total, lemma_path_lt_transitive, path_less, path_lt};

verus! {

/// A value that knows the path it is filed under.
pub trait Keyed: View + Sized {
    /// The path this value is filed under.
    spec fn key_of(&self) -> Seq<char>;

    /// The path this value is filed under.
    fn key(&self) -> (k: &str)
        ensures
            k@ == self.key_of(),
    ;

    /// A copy, equal in value and filed under the same path.
    fn copied(&self) -> (r: Self)
        ensures
            r@ == self@,
            r.key_of() == self.key_of(),
    ;
}

impl Keyed for String {
    open spec fn key_of(&self) -> Seq<char> {
        self@
    }

    fn key(&self) -> (k: &str) {
        self.as_str()
    }

    fn copied(&self) -> (r: String) {
        self.clone()
    }
}

/// The keys of `items`, in order.
pub open spec fn keys_of<T: Keyed>(items: Seq<T>) -> Seq<Seq<char>> {
    items.map_values(|t: T| t.key_of())
}

/// Keys strictly increase in path order.
pub open spec fn sorted_by_path<T: Keyed>(items: Seq<T>) -> bool {
    forall|i: int, j: int| 0 <= i < j < items.len() ==> path_lt(#[trigger] items[i].key_of(), #[trigger] items[j].key_of())
}

/// Whether some item is filed under `k`.
pub open spec fn has_key<T: Keyed>(items: Seq<T>, k: Seq<char>) -> bool {
    exists|i: int| 0 <= i < items.len() && #[trigger] items[i].key_of() == k
}

/// The position of the item filed under `k`.
pub open spec fn key_index<T: Keyed>(items: Seq<T>, k: Seq<char>) -> int {
    choose|i: int| 0 <= i < items.len() && #[trigger] items[i].key_of() == k
}

/// The map `items` describes: key to value.
pub open spec fn map_of<T: Keyed>(items: Seq<T>) -> Map<Seq<char>, T::V> {
    Map::new(|k: Seq<char>| has_key(items, k), |k: Seq<char>| items[key_index(items, k)]@)
}

/// A map described by sorted items has one entry per item.
pub proof fn lemma_map_len<T: Keyed>(items: Seq<T>)
    requires
        sorted_by_path(items),
    ensures
        map_of(items).len() == items.len(),
{
    let keys = keys_of(items);
    assert(keys.no_duplicates()) by {
        assert forall|i: int, j: int| 0 <= i < keys.len() && 0 <= j < keys.len() && i != j implies keys[i] != keys[j] by {
            if i < j {
                assert(path_lt(items[i].key_of(), items[j].key_of()));
                lemma_path_lt_irreflexive(items[i].key_of());
            } else {
                assert(path_lt(items[j].key_of(), items[i].key_of()));
                lemma_path_lt_irreflexive(items[j].key_of());
            }
        }
    }
    keys.unique_seq_to_set();
    assert(map_of(items).dom() =~= keys.to_set()) by {
        assert forall|k: Seq<char>| map_of(items).dom().contains(k) implies keys.to_set().contains(k) by {
            let i = choose|i: int| 0 <= i < items.len() && #[trigger] items[i].key_of() == k;
            assert(keys[i] == k);
        }
        assert forall|k: Seq<char>| keys.to_set().contains(k) implies map_of(items).dom().contains(k) by {
            let i = choose|i: int| 0 <= i < keys.len() && keys[i] == k;
            assert(items[i].key_of() == k);
        }
    }
}

/// In a sorted sequence, equal keys are at equal positions.
pub proof fn lemma_sorted_unique<T: Keyed>(items: Seq<T>, i: int, j: int)
    requires
        sorted_by_path(items),
        0 <= i < items.len(),
        0 <= j < items.len(),
        items[i].key_of() == items[j].key_of(),
    ensures
        i == j,
{
    if i < j {
        lemma_path_lt_irreflexive(items[i].key_of());
    } else if j < i {
        lemma_path_lt_irreflexive(items[i].key_of());
    }
}

/// In a sorted sequence, the chosen position of a key is the position that holds it.
pub proof fn lemma_key_index<T: Keyed>(items: Seq<T>, i: int)
    requires
        sorted_by_path(items),
        0 <= i < items.len(),
    ensures
        has_key(items, items[i].key_of()),
        key_index(items, items[i].key_of()) == i,
        map_of(items).contains_key(items[i].key_of()),
        map_of(items)[items[i].key_of()] == items[i]@,
{
    let k = items[i].key_of();
    assert(has_key(items, k));
    let j = key_index(items, k);
    lemma_sorted_unique(items, i, j);
}

/// Paths, each filed in order.
pub struct PathMap<T> {
    items: Vec<T>,
}

impl<T: Keyed> PathMap<T> {
    /// The items, in path order.
    pub closed spec fn seq(&self) -> Seq<T> {
        self.items@
    }

    /// Keys strictly increase.
    pub open spec fn wf(&self) -> bool {
        sorted_by_path(self.seq())
    }

    /// The map the items describe.
    pub open spec fn map(&self) -> Map<Seq<char>, T::V> {
        map_of(self.seq())
    }

    /// An empty map.
    pub fn new() -> (m: Self)
        ensures
            m.wf(),
            m.seq() == Seq::<T>::empty(),
            m.map() == Map::<Seq<char>, T::V>::empty(),
    {
        let m = PathMap { items: Vec::new() };
        assert(m.map() =~= Map::<Seq<char>, T::V>::empty());
        m
    }

    /// How many entries there are.
    pub fn len(&self) -> (n: usize)
        ensures
            n == self.seq().len(),
    {
        self.items.len()
    }

    /// The entry at position `i`, in path order.
    pub fn at(&self, i: usize) -> (t: &T)
        requires
            i < self.seq().len(),
        ensures
            *t == self.seq()[i as int],
    {
        &self.items[i]
    }

    /// The first position whose key is not before `key`, and whether it holds `key`.
    fn locate(&self, key: &str) -> (r: (usize, bool))
        requires
            self.wf(),
        ensures
            r.0 <= self.seq().len(),
            forall|i: int| 0 <= i < r.0 ==> path_lt(#[trigger] self.seq()[i].key_of(), key@),
            r.0 < self.seq().len() ==> !path_lt(self.seq()[r.0 as int].key_of(), key@),
            r.1 == (r.0 < self.seq().len() && self.seq()[r.0 as int].key_of() == key@),
            r.1 == has_key(self.seq(), key@),
            r.1 ==> key_index(self.seq(), key@) == r.0,
    {
        let mut i: usize = 0;
        let mut stop = false;
        while !stop && i < self.items.len()
            invariant
                i <= self.items@.len(),
                forall|j: int| 0 <= j < i ==> path_lt(#[trigger] self.items@[j].key_of(), key@),
                stop ==> i < self.items@.len() && !path_lt(self.items@[i as int].key_of(), key@),
            decreases self.items@.len() - i, if stop { 0int } else { 1int },
        {
            if path_less(self.items[i].key(), key) {
                i = i + 1;
            } else {
                stop = true;
            }
        }
        let hit = i < self.items.len() && {
            let k = self.items[i].key();
            let c = crate::text::chars_of(k);
            let d = crate::text::chars_of(key);
            same_chars(&c, &d)
        };
        proof {
            if has_key(self.seq(), key@) {
                let j = choose|j: int| 0 <= j < self.seq().len() && #[trigger] self.seq()[j].key_of() == key@;
                lemma_path_lt_irreflexive(key@);
                if j > i {
                    if i < self.seq().len() {
                        let ki = self.seq()[i as int].key_of();
                        if ki != key@ {
                            lemma_path_lt_total(ki, key@);
                            assert(path_lt(ki, self.seq()[j].key_of()));
                            lemma_path_lt_transitive(key@, ki, key@);
                            assert(false);
                        }
                    }
                }
                if hit {
                    lemma_key_index(self.seq(), i as int);
                }
            }
        }
        (i, hit)
    }

    /// Where the entry for `key` is, if there is one.
    pub fn find(&self, key: &str) -> (r: Option<usize>)
        requires
            self.wf(),
        ensures
            r is Some <==> self.map().contains_key(key@),
            r matches Some(i) ==> i < self.seq().len() && self.seq()[i as int].key_of() == key@
                && self.map()[key@] == self.seq()[i as int]@,
    {
        let (i, hit) = self.locate(key);
        if hit {
            proof {
                lemma_key_index(self.seq(), i as int);
            }
            Some(i)
        } else {
            None
        }
    }

    /// Insert `value` under its key, replacing any entry already filed there.
    pub fn upsert(&mut self, value: T)
        requires
            old(self).wf(),
        ensures
            final(self).wf(),
            final(self).map() == old(self).map().insert(value.key_of(), value@),
    {
        let ghost k = value.key_of();
        let ghost v = value@;
        let (i, hit) = self.locate(value.key());
        let ghost before = self.items@;
        if hit {
            self.items.set(i, value);
        } else {
            self.items.insert(i, value);
        }
        let ghost after = self.items@;
        proof {
            if hit {
                assert forall|a: int, b: int| 0 <= a < b < after.len() implies path_lt(#[trigger] after[a].key_of(), #[trigger] after[b].key_of()) by {
                    assert(after[a].key_of() == before[a].key_of());
                    assert(after[b].key_of() == before[b].key_of());
                }
            } else {
                assert forall|a: int, b: int| 0 <= a < b < after.len() implies path_lt(#[trigger] after[a].key_of(), #[trigger] after[b].key_of()) by {
                    if b < i {
                    } else if a < i && b == i {
                    } else if a < i && b > i {
                        assert(after[b] == before[b - 1]);
                        assert(path_lt(before[a].key_of(), before[b - 1].key_of()));
                    } else if a == i {
                        assert(after[b] == before[b - 1]);
                        let bi = before[i as int].key_of();
                        lemma_path_lt_total(bi, k);
                        if b - 1 > i {
                            lemma_path_lt_transitive(k, bi, before[b - 1].key_of());
                        }
                    } else {
                        assert(after[a] == before[a - 1]);
                        assert(after[b] == before[b - 1]);
                    }
                }
            }
            lemma_upsert_map(before, after, i as int, hit, value);
        }
    }

    /// Remove the entry at position `i`.
    pub fn remove_at(&mut self, i: usize) -> (removed: T)
        requires
            old(self).wf(),
            i < old(self).seq().len(),
        ensures
            final(self).wf(),
            removed == old(self).seq()[i as int],
            final(self).seq() == old(self).seq().remove(i as int),
            final(self).map() == old(self).map().remove(removed.key_of()),
    {
        let ghost before = self.items@;
        let removed = self.items.remove(i);
        let ghost after = self.items@;
        proof {
            assert forall|a: int, b: int| 0 <= a < b < after.len() implies path_lt(#[trigger] after[a].key_of(), #[trigger] after[b].key_of()) by {
                if a < i && b >= i {
                    assert(after[b] == before[b + 1]);
                } else if a >= i {
                    assert(after[a] == before[a + 1]);
                    assert(after[b] == before[b + 1]);
                }
            }
            let k = removed.key_of();
            assert forall|key: Seq<char>| #[trigger] map_of(after).contains_key(key) == map_of(before).remove(k).contains_key(key) by {
                if has_key(after, key) {
                    let j = choose|j: int| 0 <= j < after.len() && #[trigger] after[j].key_of() == key;
                    if j < i {
                        assert(before[j].key_of() == key);
                        if key == k {
                            lemma_sorted_unique(before, j, i as int);
                        }
                    } else {
                        assert(before[j + 1].key_of() == key);
                        if key == k {
                            lemma_sorted_unique(before, j + 1, i as int);
                        }
                    }
                }
                if has_key(before, key) && key != k {
                    let j = choose|j: int| 0 <= j < before.len() && #[trigger] before[j].key_of() == key;
                    if j < i {
                        assert(after[j].key_of() == key);
                    } else {
                        assert(j != i);
                        assert(after[j - 1].key_of() == key);
                    }
                }
            }
            assert forall|key: Seq<char>| #[trigger] map_of(after).contains_key(key) implies map_of(after)[key] == map_of(before)[key] by {
                let j = key_index(after, key);
                lemma_key_index(after, j);
                if j < i {
                    assert(before[j] == after[j]);
                    lemma_key_index(before, j);
                } else {
                    assert(before[j + 1] == after[j]);
                    lemma_key_index(before, j + 1);
                }
            }
            assert(map_of(after) =~= map_of(before).remove(k));
        }
        removed
    }
}

/// The keys of a list of items, as a set.
pub open spec fn key_set<T: Keyed>(items: Seq<T>) -> Set<Seq<char>> {
    Set::new(|k: Seq<char>| has_key(items, k))
}

impl<T: Keyed> PathMap<T> {
    /// Keep the entries whose key `keep` accepts, and hand back the others in path order.
    pub(crate) fn retain<F: Fn(&str) -> bool>(&mut self, keep: F, Ghost(pred): Ghost<spec_fn(Seq<char>) -> bool>) -> (removed: Vec<T>)
        requires
            old(self).wf(),
            forall|s: &str| #[trigger] keep.requires((s,)),
            forall|s: &str, b: bool| keep.ensures((s,), b) ==> b == pred(s@),
        ensures
            final(self).wf(),
            final(self).map() == old(self).map().restrict(Set::new(pred)),
            sorted_by_path(removed@),
            forall|j: int| 0 <= j < removed@.len() ==> {
                let k = #[trigger] removed@[j].key_of();
                &&& !pred(k)
                &&& old(self).map().contains_key(k)
                &&& old(self).map()[k] == removed@[j]@
            },
            forall|k: Seq<char>| old(self).map().contains_key(k) && !pred(k) ==> #[trigger] has_key(removed@, k),
    {
        let ghost old_map = self.map();
        let mut removed: Vec<T> = Vec::new();
        let mut i: usize = 0;
        while i < self.items.len()
            invariant
                self.wf(),
                i <= self.seq().len(),
                forall|s: &str| #[trigger] keep.requires((s,)),
                forall|s: &str, b: bool| keep.ensures((s,), b) ==> b == pred(s@),
                forall|j: int| 0 <= j < i ==> pred(#[trigger] self.seq()[j].key_of()),
                self.map() == old_map.remove_keys(key_set(removed@)),
                sorted_by_path(removed@),
                forall|j: int| 0 <= j < removed@.len() ==> {
                    let k = #[trigger] removed@[j].key_of();
                    &&& !pred(k)
                    &&& old_map.contains_key(k)
                    &&& old_map[k] == removed@[j]@
                },
                forall|r: int, j: int| 0 <= r < removed@.len() && i <= j < self.seq().len() ==> path_lt(#[trigger] removed@[r].key_of(), #[trigger] self.seq()[j].key_of()),
            decreases self.seq().len() - i,
        {
            if keep(self.items[i].key()) {
                i = i + 1;
            } else {
                let ghost before = self.seq();
                let ghost removed_before = removed@;
                let t = self.remove_at(i);
                proof {
                    lemma_key_index(before, i as int);
                    assert(old_map.remove_keys(key_set(removed_before)).contains_key(t.key_of()));
                }
                removed.push(t);
                proof {
                    assert(self.map() =~= old_map.remove_keys(key_set(removed@))) by {
                        assert forall|k: Seq<char>| key_set(removed@).contains(k) == (key_set(removed_before).contains(k) || k == t.key_of()) by {
                            if has_key(removed@, k) {
                                let j = choose|j: int| 0 <= j < removed@.len() && #[trigger] removed@[j].key_of() == k;
                                if j < removed_before.len() {
                                    assert(removed_before[j].key_of() == k);
                                }
                            }
                            if has_key(removed_before, k) {
                                let j = choose|j: int| 0 <= j < removed_before.len() && #[trigger] removed_before[j].key_of() == k;
                                assert(removed@[j].key_of() == k);
                            }
                            if k == t.key_of() {
                                assert(removed@[removed_before.len() as int].key_of() == k);
                            }
                        }
                    }
                    assert forall|r: int, j: int| 0 <= r < removed@.len() && i <= j < self.seq().len() implies path_lt(#[trigger] removed@[r].key_of(), #[trigger] self.seq()[j].key_of()) by {
                        assert(self.seq()[j] == before[j + 1]);
                        if r < removed_before.len() {
                            assert(removed@[r] == removed_before[r]);
                        }
                    }
                    assert forall|a: int, b: int| 0 <= a < b < removed@.len() implies path_lt(#[trigger] removed@[a].key_of(), #[trigger] removed@[b].key_of()) by {
                        if b == removed_before.len() {
                            assert(removed@[a] == removed_before[a]);
                        } else {
                            assert(removed@[a] == removed_before[a]);
                            assert(removed@[b] == removed_before[b]);
                        }
                    }
                }
            }
        }
        proof {
            let fin = self.seq();
            assert forall|k: Seq<char>| #[trigger] self.map().contains_key(k) implies pred(k) by {
                let j = choose|j: int| 0 <= j < fin.len() && #[trigger] fin[j].key_of() == k;
            }
            assert forall|k: Seq<char>| key_set(removed@).contains(k) implies !pred(k) by {
                let j = choose|j: int| 0 <= j < removed@.len() && #[trigger] removed@[j].key_of() == k;
            }
            assert(self.map() =~= old_map.restrict(Set::new(pred)));
            assert forall|k: Seq<char>| old_map.contains_key(k) && !pred(k) implies #[trigger] has_key(removed@, k) by {
                if !key_set(removed@).contains(k) {
                    assert(self.map().contains_key(k));
                }
            }
        }
        removed
    }
}

/// The map after an upsert at position `i`.
proof fn lemma_upsert_map<T: Keyed>(before: Seq<T>, after: Seq<T>, i: int, hit: bool, value: T)
    requires
        sorted_by_path(before),
        sorted_by_path(after),
        0 <= i <= before.len(),
        hit ==> i < before.len() && before[i].key_of() == value.key_of() && after == before.update(i, value),
        !hit ==> after == before.insert(i, value) && !has_key(before, value.key_of()),
    ensures
        map_of(after) == map_of(before).insert(value.key_of(), value@),
{
    let k = value.key_of();
    lemma_key_index(after, i);
    assert forall|key: Seq<char>| #[trigger] map_of(after).contains_key(key) == map_of(before).insert(k, value@).contains_key(key) by {
        if has_key(after, key) && key != k {
            let j = choose|j: int| 0 <= j < after.len() && #[trigger] after[j].key_of() == key;
            if hit {
                assert(before[j].key_of() == key);
            } else if j < i {
                assert(before[j].key_of() == key);
            } else {
                assert(j != i);
                assert(before[j - 1].key_of() == key);
            }
        }
        if has_key(before, key) && key != k {
            let j = choose|j: int| 0 <= j < before.len() && #[trigger] before[j].key_of() == key;
            if hit || j < i {
                assert(after[j].key_of() == key);
            } else {
                assert(after[j + 1].key_of() == key);
            }
        }
    }
    assert forall|key: Seq<char>| #[trigger] map_of(after).contains_key(key) implies map_of(after)[key] == map_of(before).insert(k, value@)[key] by {
        let j = key_index(after, key);
        lemma_key_index(after, j);
        if key != k {
            if hit || j < i {
                assert(before[j] == after[j]);
                lemma_key_index(before, j);
            } else {
                assert(j != i);
                assert(before[j - 1] == after[j]);
                lemma_key_index(before, j - 1);
            }
        }
    }
    assert(map_of(after) =~= map_of(before).insert(k, value@));
}

/// Whether two character sequences are the same.
pub fn same_chars(a: &Vec<char>, b: &Vec<char>) -> (same: bool)
    ensures
        same == (a@ == b@),
{
    if a.len() != b.len() {
        return false;
    }
    let mut i: usize = 0;
    while i < a.len()
        invariant
            a@.len() == b@.len(),
            i <= a@.len(),
            a@.take(i as int) == b@.take(i as int),
        decreases a@.len() - i,
    {
        if a[i] != b[i] {
            return false;
        }
        assert(a@.take(i + 1) =~= a@.take(i as int).push(a@[i as int]));
        assert(b@.take(i + 1) =~= b@.take(i as int).push(b@[i as int]));
        i = i + 1;
    }
    assert(a@ =~= a@.take(a@.len() as int));
    assert(b@ =~= b@.take(b@.len() as int));
    true
}

} // verus!

//! A map from text to values, kept as a vector in ascending key order.

use crate::snapshot::Duplicate;
use crate::text::{
    lemma_text_order_strict, lemma_text_order_total, lemma_text_order_transitive, str_before,
    str_eq, text_before,
};
use vstd::prelude::*;

verus! {

/// A map with text keys. Its view is the mathematical map from each key's characters
/// to the view of the value stored under it.
pub struct StringMap<V> {
    entries: Vec<(String, V)>,
}

spec fn ascending<V>(e: Seq<(String, V)>) -> bool {
    forall|i: int, j: int|
        0 <= i < j < e.len() ==> text_before((#[trigger] e[i]).0@, (#[trigger] e[j]).0@)
}

spec fn key_of<V>(e: Seq<(String, V)>, i: int, k: Seq<char>) -> bool {
    0 <= i < e.len() && e[i].0@ == k
}

spec fn position<V>(e: Seq<(String, V)>, k: Seq<char>) -> int {
    choose|i: int| #[trigger] key_of(e, i, k)
}

spec fn map_of<V: View>(e: Seq<(String, V)>) -> Map<Seq<char>, V::V> {
    Map::new(
        |k: Seq<char>| exists|i: int| #[trigger] key_of(e, i, k),
        |k: Seq<char>| e[position(e, k)].1@,
    )
}

proof fn lemma_position<V>(e: Seq<(String, V)>, i: int)
    requires
        ascending(e),
        0 <= i < e.len(),
    ensures
        position(e, e[i].0@) == i,
        key_of(e, i, e[i].0@),
{
    let k = e[i].0@;
    assert(key_of(e, i, k));
    let p = position(e, k);
    if p < i {
        assert(text_before(e[p].0@, e[i].0@));
        lemma_text_order_strict(k, k);
    } else if i < p {
        assert(text_before(e[i].0@, e[p].0@));
        lemma_text_order_strict(k, k);
    }
}

proof fn lemma_inserted<V: View>(e: Seq<(String, V)>, i: int, k: String, v: V)
    requires
        ascending(e),
        0 <= i <= e.len(),
        forall|j: int| 0 <= j < i ==> text_before((#[trigger] e[j]).0@, k@),
        forall|j: int| i <= j < e.len() ==> text_before(k@, (#[trigger] e[j]).0@),
    ensures
        ascending(e.insert(i, (k, v))),
        map_of(e.insert(i, (k, v))) == map_of(e).insert(k@, v@),
        !map_of(e).contains_key(k@),
{
    let n = e.insert(i, (k, v));
    assert forall|a: int, b: int| 0 <= a < b < n.len() implies text_before(
        (#[trigger] n[a]).0@,
        (#[trigger] n[b]).0@,
    ) by {
        let x = if a < i { a } else { a - 1 };
        let y = if b < i { b } else { b - 1 };
        if a != i && b != i {
            assert(text_before(e[x].0@, e[y].0@));
        }
    }
    assert(!map_of(e).contains_key(k@)) by {
        if map_of(e).contains_key(k@) {
            let p = position(e, k@);
            assert(key_of(e, p, k@));
            lemma_text_order_strict(k@, k@);
            assert(e[p].0@ == k@);
        }
    }
    let m = map_of(e).insert(k@, v@);
    assert(map_of(n) =~= m) by {
        assert forall|q: Seq<char>| map_of(n).contains_key(q) == m.contains_key(q) by {
            if map_of(n).contains_key(q) {
                let p = position(n, q);
                assert(key_of(n, p, q));
                if p < i {
                    assert(key_of(e, p, q));
                } else if p > i {
                    assert(key_of(e, p - 1, q));
                }
            }
            if m.contains_key(q) {
                if q == k@ {
                    assert(key_of(n, i, q));
                } else {
                    let p = position(e, q);
                    assert(key_of(e, p, q));
                    if p < i {
                        assert(key_of(n, p, q));
                    } else {
                        assert(key_of(n, p + 1, q));
                    }
                }
            }
        }
        assert forall|q: Seq<char>| map_of(n).contains_key(q) implies map_of(n)[q] == m[q] by {
            let p = position(n, q);
            assert(key_of(n, p, q));
            if p < i {
                lemma_position(e, p);
            } else if p > i {
                lemma_position(e, p - 1);
            }
        }
    }
}

proof fn lemma_removed<V: View>(e: Seq<(String, V)>, i: int)
    requires
        ascending(e),
        0 <= i < e.len(),
    ensures
        ascending(e.remove(i)),
        map_of(e.remove(i)) == map_of(e).remove(e[i].0@),
        map_of(e).contains_key(e[i].0@),
        map_of(e)[e[i].0@] == e[i].1@,
{
    let n = e.remove(i);
    let k = e[i].0@;
    lemma_position(e, i);
    assert forall|a: int, b: int| 0 <= a < b < n.len() implies text_before(
        (#[trigger] n[a]).0@,
        (#[trigger] n[b]).0@,
    ) by {
        let x = if a < i { a } else { a + 1 };
        let y = if b < i { b } else { b + 1 };
        assert(text_before(e[x].0@, e[y].0@));
    }
    let m = map_of(e).remove(k);
    assert(map_of(n) =~= m) by {
        assert forall|q: Seq<char>| map_of(n).contains_key(q) == m.contains_key(q) by {
            if map_of(n).contains_key(q) {
                let p = position(n, q);
                assert(key_of(n, p, q));
                let p0 = if p < i { p } else { p + 1 };
                assert(key_of(e, p0, q));
                lemma_position(e, p0);
            }
            if m.contains_key(q) {
                let p = position(e, q);
                assert(key_of(e, p, q));
                if p < i {
                    assert(key_of(n, p, q));
                } else {
                    assert(p != i);
                    assert(key_of(n, p - 1, q));
                }
            }
        }
        assert forall|q: Seq<char>| map_of(n).contains_key(q) implies map_of(n)[q] == m[q] by {
            let p = position(n, q);
            assert(key_of(n, p, q));
            let p0 = if p < i { p } else { p + 1 };
            lemma_position(e, p0);
        }
    }
}

impl<V: View> View for StringMap<V> {
    type V = Map<Seq<char>, V::V>;

    closed spec fn view(&self) -> Map<Seq<char>, V::V> {
        map_of(self.entries@)
    }
}

impl<V> StringMap<V> {
    #[verifier::type_invariant]
    spec fn wf(self) -> bool {
        ascending(self.entries@)
    }

    /// The keys in ascending order.
    pub closed spec fn ordered_keys(self) -> Seq<Seq<char>> {
        self.entries@.map_values(|e: (String, V)| e.0@)
    }
}

impl<V: View> StringMap<V> {
    /// The empty map.
    pub fn new() -> (r: Self)
        ensures
            r@ == Map::<Seq<char>, V::V>::empty(),
    {
        let r = StringMap { entries: Vec::new() };
        proof {
            assert(r@ =~= Map::<Seq<char>, V::V>::empty());
        }
        r
    }

    /// The first position whose key is not before `key`.
    fn lower_bound(&self, key: &str) -> (r: usize)
        ensures
            r <= self.entries@.len(),
            forall|j: int| 0 <= j < r ==> text_before((#[trigger] self.entries@[j]).0@, key@),
            forall|j: int|
                r <= j < self.entries@.len() ==> !text_before(
                    (#[trigger] self.entries@[j]).0@,
                    key@,
                ),
    {
        proof {
            use_type_invariant(self);
        }
        let mut lo: usize = 0;
        let mut hi: usize = self.entries.len();
        while lo < hi
            invariant
                ascending(self.entries@),
                0 <= lo <= hi <= self.entries@.len(),
                forall|j: int|
                    0 <= j < lo ==> text_before((#[trigger] self.entries@[j]).0@, key@),
                forall|j: int|
                    hi <= j < self.entries@.len() ==> !text_before(
                        (#[trigger] self.entries@[j]).0@,
                        key@,
                    ),
            decreases hi - lo,
        {
            let mid: usize = lo + (hi - lo) / 2;
            if str_before(self.entries[mid].0.as_str(), key) {
                proof {
                    assert forall|j: int| 0 <= j < mid + 1 implies text_before(
                        (#[trigger] self.entries@[j]).0@,
                        key@,
                    ) by {
                        if j < mid {
                            assert(text_before(self.entries@[j].0@, self.entries@[mid as int].0@));
                            lemma_text_order_transitive(
                                self.entries@[j].0@,
                                self.entries@[mid as int].0@,
                                key@,
                            );
                        }
                    }
                }
                lo = mid + 1;
            } else {
                proof {
                    assert forall|j: int| mid <= j < self.entries@.len() implies !text_before(
                        (#[trigger] self.entries@[j]).0@,
                        key@,
                    ) by {
                        if mid < j && text_before(self.entries@[j].0@, key@) {
                            assert(text_before(self.entries@[mid as int].0@, self.entries@[j].0@));
                            lemma_text_order_transitive(
                                self.entries@[mid as int].0@,
                                self.entries@[j].0@,
                                key@,
                            );
                        }
                    }
                }
                hi = mid;
            }
        }
        lo
    }

    /// The position of `key`, where it is present.
    fn find(&self, key: &str) -> (r: Result<usize, usize>)
        ensures
            match r {
                Ok(i) => i < self.entries@.len() && self.entries@[i as int].0@ == key@
                    && self@.contains_key(key@) && self@[key@] == self.entries@[i as int].1@,
                Err(i) => {
                    &&& !self@.contains_key(key@)
                    &&& i <= self.entries@.len()
                    &&& forall|j: int|
                        0 <= j < i ==> text_before((#[trigger] self.entries@[j]).0@, key@)
                    &&& forall|j: int|
                        i <= j < self.entries@.len() ==> text_before(
                            key@,
                            (#[trigger] self.entries@[j]).0@,
                        )
                },
            },
    {
        proof {
            use_type_invariant(self);
        }
        let i: usize = self.lower_bound(key);
        if i < self.entries.len() && str_eq(self.entries[i].0.as_str(), key) {
            proof {
                lemma_removed(self.entries@, i as int);
            }
            Ok(i)
        } else {
            proof {
                assert forall|j: int| i <= j < self.entries@.len() implies text_before(
                    key@,
                    (#[trigger] self.entries@[j]).0@,
                ) by {
                    lemma_text_order_total(key@, self.entries@[j].0@);
                    if i < j && self.entries@[j].0@ == key@ {
                        assert(text_before(self.entries@[i as int].0@, self.entries@[j].0@));
                    }
                }
                if self@.contains_key(key@) {
                    let p = position(self.entries@, key@);
                    assert(key_of(self.entries@, p, key@));
                    lemma_text_order_strict(key@, key@);
                    assert(self.entries@[p].0@ == key@);
                }
            }
            Err(i)
        }
    }

    /// The ordered keys are exactly the keys of the map, each once, in ascending order.
    pub open spec fn keys_cover(self) -> bool {
        &&& self.ordered_keys().no_duplicates()
        &&& self.ordered_keys().to_set() == self@.dom()
        &&& self@.dom().finite()
        &&& self@.len() == self.ordered_keys().len()
        &&& forall|i: int, j: int|
            0 <= i < j < self.ordered_keys().len() ==> text_before(
                #[trigger] self.ordered_keys()[i],
                #[trigger] self.ordered_keys()[j],
            )
    }

    /// The number of keys.
    pub fn len(&self) -> (r: usize)
        ensures
            r == self@.len(),
            r == self.ordered_keys().len(),
            self.keys_cover(),
    {
        proof {
            use_type_invariant(self);
            let keys = self.ordered_keys();
            let e = self.entries@;
            assert forall|i: int, j: int|
                0 <= i < keys.len() && 0 <= j < keys.len() && i != j implies keys[i] != keys[j] by {
                if i < j {
                    assert(text_before(e[i].0@, e[j].0@));
                } else {
                    assert(text_before(e[j].0@, e[i].0@));
                }
                lemma_text_order_strict(keys[i], keys[j]);
            }
            assert(keys.to_set() =~= self@.dom()) by {
                assert forall|k: Seq<char>| keys.to_set().contains(k) == self@.dom().contains(
                    k,
                ) by {
                    if keys.to_set().contains(k) {
                        let i = choose|i: int| 0 <= i < keys.len() && keys[i] == k;
                        assert(key_of(e, i, k));
                    }
                    if self@.dom().contains(k) {
                        let i = position(e, k);
                        assert(key_of(e, i, k));
                        assert(keys[i] == k);
                    }
                }
            }
            keys.unique_seq_to_set();
            vstd::seq_lib::seq_to_set_is_finite(keys);
        }
        self.entries.len()
    }

    /// Whether the map has no key.
    pub fn is_empty(&self) -> (r: bool)
        ensures
            r == (self@ == Map::<Seq<char>, V::V>::empty()),
            r == (self.ordered_keys().len() == 0),
    {
        let r = self.entries.len() == 0;
        proof {
            if r {
                assert(self@ =~= Map::<Seq<char>, V::V>::empty());
            } else {
                assert(key_of(self.entries@, 0, self.entries@[0].0@));
                assert(self@.contains_key(self.entries@[0].0@));
            }
        }
        r
    }

    /// Whether `key` is present.
    pub fn contains_key(&self, key: &str) -> (r: bool)
        ensures
            r == self@.contains_key(key@),
    {
        match self.find(key) {
            Ok(_) => true,
            Err(_) => false,
        }
    }

    /// The value stored under `key`.
    pub fn get(&self, key: &str) -> (r: Option<&V>)
        ensures
            match r {
                Some(v) => self@.contains_key(key@) && v@ == self@[key@],
                None => !self@.contains_key(key@),
            },
    {
        match self.find(key) {
            Ok(i) => Some(&self.entries[i].1),
            Err(_) => None,
        }
    }

    /// The stored key equal to `key`, with its value.
    pub fn get_key_value(&self, key: &str) -> (r: Option<(&String, &V)>)
        ensures
            match r {
                Some(e) => e.0@ == key@ && self@.contains_key(key@) && e.1@ == self@[key@],
                None => !self@.contains_key(key@),
            },
    {
        match self.find(key) {
            Ok(i) => Some((&self.entries[i].0, &self.entries[i].1)),
            Err(_) => None,
        }
    }

    /// Stores `value` under `key`; hands back what the key held before.
    pub fn insert(&mut self, key: String, value: V) -> (r: Option<V>)
        ensures
            final(self)@ == old(self)@.insert(key@, value@),
            match r {
                Some(v) => old(self)@.contains_key(key@) && v@ == old(self)@[key@],
                None => !old(self)@.contains_key(key@),
            },
    {
        proof {
            use_type_invariant(&*self);
        }
        let at = self.find(key.as_str());
        let mut entries: Vec<(String, V)> = Vec::new();
        std::mem::swap(&mut entries, &mut self.entries);
        let ghost e0 = entries@;
        let r = match at {
            Ok(i) => {
                proof {
                    lemma_removed(e0, i as int);
                    let n = e0.remove(i as int);
                    assert forall|j: int| 0 <= j < i implies text_before(
                        (#[trigger] n[j]).0@,
                        key@,
                    ) by {
                        assert(text_before(e0[j].0@, e0[i as int].0@));
                    }
                    assert forall|j: int| i <= j < n.len() implies text_before(
                        key@,
                        (#[trigger] n[j]).0@,
                    ) by {
                        assert(text_before(e0[i as int].0@, e0[j + 1].0@));
                    }
                    lemma_inserted(n, i as int, key, value);
                    assert(map_of(e0).remove(key@).insert(key@, value@) =~= map_of(e0).insert(
                        key@,
                        value@,
                    ));
                }
                let before = entries.remove(i);
                entries.insert(i, (key, value));
                Some(before.1)
            },
            Err(i) => {
                proof {
                    lemma_inserted(e0, i as int, key, value);
                }
                entries.insert(i, (key, value));
                None
            },
        };
        self.entries = entries;
        r
    }

    /// Takes `key` out of the map; hands back what it held.
    pub fn remove(&mut self, key: &str) -> (r: Option<V>)
        ensures
            final(self)@ == old(self)@.remove(key@),
            match r {
                Some(v) => old(self)@.contains_key(key@) && v@ == old(self)@[key@],
                None => !old(self)@.contains_key(key@),
            },
    {
        proof {
            use_type_invariant(&*self);
        }
        match self.find(key) {
            Ok(i) => {
                let mut entries: Vec<(String, V)> = Vec::new();
                std::mem::swap(&mut entries, &mut self.entries);
                proof {
                    lemma_removed(entries@, i as int);
                }
                let e = entries.remove(i);
                self.entries = entries;
                Some(e.1)
            },
            Err(_) => {
                proof {
                    assert(self@.remove(key@) =~= self@);
                }
                None
            },
        }
    }

    /// The key at position `i` of the ascending order, with its value.
    pub fn entry(&self, i: usize) -> (r: (&String, &V))
        requires
            i < self.ordered_keys().len(),
        ensures
            r.0@ == self.ordered_keys()[i as int],
            self@.contains_key(r.0@),
            r.1@ == self@[r.0@],
    {
        proof {
            use_type_invariant(self);
            lemma_removed(self.entries@, i as int);
        }
        (&self.entries[i].0, &self.entries[i].1)
    }
}

impl<V: Duplicate> Duplicate for StringMap<V> {
    fn duplicate(&self) -> (r: Self) {
        proof {
            use_type_invariant(self);
        }
        let mut entries: Vec<(String, V)> = Vec::new();
        let mut i: usize = 0;
        while i < self.entries.len()
            invariant
                i <= self.entries@.len(),
                entries@.len() == i,
                forall|j: int|
                    0 <= j < i ==> (#[trigger] entries@[j]).0@ == self.entries@[j].0@
                        && entries@[j].1@ == self.entries@[j].1@,
            decreases self.entries@.len() - i,
        {
            entries.push((self.entries[i].0.clone(), self.entries[i].1.duplicate()));
            i = i + 1;
        }
        proof {
            let a = entries@;
            let b = self.entries@;
            assert forall|i: int, j: int| 0 <= i < j < a.len() implies text_before(
                (#[trigger] a[i]).0@,
                (#[trigger] a[j]).0@,
            ) by {
                assert(text_before(b[i].0@, b[j].0@));
            }
            assert(map_of(a) =~= map_of(b)) by {
                assert forall|k: Seq<char>| map_of(a).contains_key(k) == map_of(b).contains_key(
                    k,
                ) by {
                    if map_of(a).contains_key(k) {
                        assert(key_of(a, position(a, k), k));
                        assert(key_of(b, position(a, k), k));
                    }
                    if map_of(b).contains_key(k) {
                        assert(key_of(b, position(b, k), k));
                        assert(key_of(a, position(b, k), k));
                    }
                }
                assert forall|k: Seq<char>| map_of(a).contains_key(k) implies map_of(a)[k]
                    == map_of(b)[k] by {
                    let p = position(a, k);
                    assert(key_of(a, p, k));
                    lemma_position(a, p);
                    lemma_position(b, p);
                }
            }
        }
        StringMap { entries }
    }
}

} // verus!

//! A small association list from `u64` keys to values, with distinct keys.
//!
//! Keys keep the order in which they were first inserted, so that walking
//! the map is deterministic. A vector of slots is used rather than a
//! `HashMap`: the scene hands out `&mut` references to single values and to
//! all of them, which vstd specifies for vectors and slices but not for
//! `HashMap` (`get_mut`, `values_mut`), and a `HashMap` walks its keys in an
//! order that no contract can name.
use vstd::prelude::*;

verus! {

/// Every key occurs in at most one slot.
pub open spec fn keys_distinct<V>(s: Seq<(u64, V)>) -> bool {
    forall|i: int, j: int| 0 <= i < s.len() && 0 <= j < s.len() && i != j ==> s[i].0 != s[j].0
}

/// The map that a sequence of slots stands for.
pub open spec fn slots_to_map<V>(s: Seq<(u64, V)>) -> Map<u64, V>
    decreases s.len(),
{
    if s.len() == 0 {
        Map::empty()
    } else {
        slots_to_map(s.drop_last()).insert(s.last().0, s.last().1)
    }
}

/// The keys of a sequence of slots, in slot order.
pub open spec fn slot_keys<V>(s: Seq<(u64, V)>) -> Seq<u64> {
    s.map_values(|p: (u64, V)| p.0)
}

pub proof fn lemma_slots_contains<V>(s: Seq<(u64, V)>, k: u64)
    ensures
        slots_to_map(s).contains_key(k) <==> exists|i: int| 0 <= i < s.len() && s[i].0 == k,
    decreases s.len(),
{
    if s.len() > 0 {
        let t = s.drop_last();
        lemma_slots_contains(t, k);
        if slots_to_map(s).contains_key(k) {
            if k == s.last().0 {
                assert(s[s.len() - 1].0 == k);
            } else {
                let i = choose|i: int| 0 <= i < t.len() && t[i].0 == k;
                assert(s[i].0 == k);
            }
        }
        if exists|i: int| 0 <= i < s.len() && s[i].0 == k {
            let i = choose|i: int| 0 <= i < s.len() && s[i].0 == k;
            if i < s.len() - 1 {
                assert(t[i].0 == k);
            }
        }
    }
}

pub proof fn lemma_slots_value<V>(s: Seq<(u64, V)>, i: int)
    requires
        keys_distinct(s),
        0 <= i < s.len(),
    ensures
        slots_to_map(s).contains_key(s[i].0),
        slots_to_map(s)[s[i].0] == s[i].1,
    decreases s.len(),
{
    if i < s.len() - 1 {
        let t = s.drop_last();
        assert(keys_distinct(t));
        lemma_slots_value(t, i);
        assert(t[i] == s[i]);
        assert(s[i].0 != s[s.len() - 1].0);
    }
}

pub proof fn lemma_slots_finite<V>(s: Seq<(u64, V)>)
    requires
        keys_distinct(s),
    ensures
        slots_to_map(s).dom().finite(),
        slots_to_map(s).len() == s.len(),
    decreases s.len(),
{
    if s.len() > 0 {
        let t = s.drop_last();
        assert(keys_distinct(t));
        lemma_slots_finite(t);
        lemma_slots_contains(t, s.last().0);
        if exists|i: int| 0 <= i < t.len() && t[i].0 == s.last().0 {
            let i = choose|i: int| 0 <= i < t.len() && t[i].0 == s.last().0;
            assert(s[i].0 == s[s.len() - 1].0);
        }
    }
}

pub proof fn lemma_slots_push<V>(s: Seq<(u64, V)>, k: u64, v: V)
    ensures
        slots_to_map(s.push((k, v))) == slots_to_map(s).insert(k, v),
{
    assert(s.push((k, v)).drop_last() == s);
}

pub proof fn lemma_slots_update<V>(s: Seq<(u64, V)>, i: int, v: V)
    requires
        keys_distinct(s),
        0 <= i < s.len(),
    ensures
        slots_to_map(s.update(i, (s[i].0, v))) == slots_to_map(s).insert(s[i].0, v),
    decreases s.len(),
{
    let u = s.update(i, (s[i].0, v));
    let t = s.drop_last();
    if i == s.len() - 1 {
        assert(u.drop_last() == t);
        assert(slots_to_map(u) =~= slots_to_map(s).insert(s[i].0, v));
    } else {
        assert(keys_distinct(t));
        lemma_slots_update(t, i, v);
        assert(u.drop_last() == t.update(i, (t[i].0, v)));
        assert(s[i].0 != s[s.len() - 1].0);
        assert(slots_to_map(u) =~= slots_to_map(s).insert(s[i].0, v));
    }
}

pub proof fn lemma_slots_remove<V>(s: Seq<(u64, V)>, i: int)
    requires
        keys_distinct(s),
        0 <= i < s.len(),
    ensures
        slots_to_map(s.remove(i)) == slots_to_map(s).remove(s[i].0),
        keys_distinct(s.remove(i)),
    decreases s.len(),
{
    let r = s.remove(i);
    let t = s.drop_last();
    assert(keys_distinct(t));
    if i == s.len() - 1 {
        assert(r == t);
        lemma_slots_contains(t, s[i].0);
        if exists|j: int| 0 <= j < t.len() && t[j].0 == s[i].0 {
            let j = choose|j: int| 0 <= j < t.len() && t[j].0 == s[i].0;
            assert(s[j].0 == s[i].0);
        }
        assert(slots_to_map(r) =~= slots_to_map(s).remove(s[i].0));
    } else {
        lemma_slots_remove(t, i);
        assert(r.drop_last() == t.remove(i));
        assert(r.last() == s.last());
        assert(s[i].0 != s[s.len() - 1].0);
        assert(slots_to_map(r) =~= slots_to_map(s).remove(s[i].0));
    }
    assert forall|a: int, b: int| 0 <= a < r.len() && 0 <= b < r.len() && a != b implies r[a].0
        != r[b].0 by {
        let a2 = if a < i { a } else { a + 1 };
        let b2 = if b < i { b } else { b + 1 };
        assert(r[a] == s[a2]);
        assert(r[b] == s[b2]);
    }
}

/// The slot keys enumerate the domain of the map, each once.
pub proof fn lemma_slot_keys<V>(s: Seq<(u64, V)>)
    requires
        keys_distinct(s),
    ensures
        slot_keys(s).no_duplicates(),
        slot_keys(s).len() == s.len(),
        forall|k: u64| slot_keys(s).contains(k) <==> #[trigger] slots_to_map(s).contains_key(k),
{
    let ks = slot_keys(s);
    assert forall|k: u64| ks.contains(k) <==> #[trigger] slots_to_map(s).contains_key(k) by {
        lemma_slots_contains(s, k);
        if ks.contains(k) {
            let i = choose|i: int| 0 <= i < ks.len() && ks[i] == k;
            assert(s[i].0 == k);
        }
        if slots_to_map(s).contains_key(k) {
            let i = choose|i: int| 0 <= i < s.len() && s[i].0 == k;
            assert(ks[i] == k);
        }
    }
}

/// A finite map from `u64` keys to values, kept as a vector of slots.
pub(crate) struct IdMap<V> {
    pub(crate) slots: Vec<(u64, V)>,
}

impl<V> IdMap<V> {
    pub(crate) open spec fn wf(&self) -> bool {
        keys_distinct(self.slots@)
    }

    pub(crate) open spec fn map(&self) -> Map<u64, V> {
        slots_to_map(self.slots@)
    }

    /// Keys in insertion order.
    pub(crate) open spec fn keys(&self) -> Seq<u64> {
        slot_keys(self.slots@)
    }

    pub(crate) fn new() -> (r: Self)
        ensures
            r.wf(),
            r.map() == Map::<u64, V>::empty(),
            r.keys() == Seq::<u64>::empty(),
    {
        let r = IdMap { slots: Vec::new() };
        assert(r.keys() =~= Seq::<u64>::empty());
        r
    }

    /// Index of the slot that holds `k`.
    fn find(&self, k: u64) -> (r: Option<usize>)
        requires
            self.wf(),
        ensures
            match r {
                Some(i) => i < self.slots.len() && self.slots@[i as int].0 == k,
                None => !self.map().contains_key(k),
            },
    {
        let mut i: usize = 0;
        while i < self.slots.len()
            invariant
                i <= self.slots.len(),
                forall|j: int| 0 <= j < i ==> self.slots@[j].0 != k,
            decreases self.slots.len() - i,
        {
            if self.slots[i].0 == k {
                return Some(i);
            }
            i = i + 1;
        }
        proof {
            lemma_slots_contains(self.slots@, k);
        }
        None
    }

    pub(crate) fn contains_key(&self, k: u64) -> (r: bool)
        requires
            self.wf(),
        ensures
            r == self.map().contains_key(k),
    {
        match self.find(k) {
            Some(i) => {
                proof {
                    lemma_slots_value(self.slots@, i as int);
                }
                true
            },
            None => false,
        }
    }

    pub(crate) fn get(&self, k: u64) -> (r: Option<&V>)
        requires
            self.wf(),
        ensures
            r.is_some() == self.map().contains_key(k),
            r.is_some() ==> *r.unwrap() == self.map()[k],
    {
        match self.find(k) {
            Some(i) => {
                proof {
                    lemma_slots_value(self.slots@, i as int);
                }
                Some(&self.slots[i].1)
            },
            None => None,
        }
    }
    pub(crate) fn get_mut(&mut self, k: u64) -> (r: Option<&mut V>)
        requires
            old(self).wf(),
        ensures
            r.is_some() == old(self).map().contains_key(k),
            r.is_some() ==> *r.unwrap() == old(self).map()[k] && final(self).map() == old(
                self,
            ).map().insert(k, *final(r.unwrap())),
            r.is_none() ==> final(self).map() == old(self).map(),
            final(self).wf(),
            final(self).keys() == old(self).keys(),
    {
        match self.find(k) {
            Some(i) => {
                proof {
                    let s = self.slots@;
                    lemma_slots_value(s, i as int);
                    assert forall|v: V|
                        #[trigger] slots_to_map(s.update(i as int, (k, v))) == slots_to_map(
                            s,
                        ).insert(k, v) by {
                        lemma_slots_update(s, i as int, v);
                    }
                    assert forall|v: V| #[trigger]
                        slot_keys(s.update(i as int, (k, v))) == slot_keys(s) by {
                        assert(slot_keys(s.update(i as int, (k, v))) =~= slot_keys(s));
                    }
                    assert forall|v: V| #[trigger]
                        keys_distinct(s.update(i as int, (k, v))) by {
                        assert(forall|j: int|
                            0 <= j < s.len() ==> s.update(i as int, (k, v))[j].0 == s[j].0);
                    }
                }
                let slot = &mut self.slots[i];
                Some(&mut slot.1)
            },
            None => None,
        }
    }

    /// Binds `k` to `v`, in the slot of `k` where there is one, else in a new last slot.
    pub(crate) fn insert(&mut self, k: u64, v: V)
        requires
            old(self).wf(),
        ensures
            final(self).wf(),
            final(self).map() == old(self).map().insert(k, v),
            old(self).map().contains_key(k) ==> final(self).keys() == old(self).keys(),
            !old(self).map().contains_key(k) ==> final(self).keys() == old(self).keys().push(k),
    {
        match self.find(k) {
            Some(i) => {
                proof {
                    lemma_slots_value(self.slots@, i as int);
                    lemma_slots_update(self.slots@, i as int, v);
                }
                self.slots.set(i, (k, v));
                assert(self.keys() =~= old(self).keys());
            },
            None => {
                proof {
                    lemma_slots_push(self.slots@, k, v);
                    lemma_slots_contains(self.slots@, k);
                }
                self.slots.push((k, v));
                assert(self.keys() =~= old(self).keys().push(k));
            },
        }
    }

    pub(crate) fn remove(&mut self, k: u64) -> (r: Option<V>)
        requires
            old(self).wf(),
        ensures
            final(self).wf(),
            r.is_some() == old(self).map().contains_key(k),
            r.is_some() ==> r.unwrap() == old(self).map()[k],
            final(self).map() == old(self).map().remove(k),
            final(self).keys() == without(old(self).keys(), k),
    {
        match self.find(k) {
            Some(i) => {
                proof {
                    lemma_slots_value(self.slots@, i as int);
                    lemma_slots_remove(self.slots@, i as int);
                    lemma_keys_remove(self.slots@, i as int);
                }
                let (_, v) = self.slots.remove(i);
                Some(v)
            },
            None => {
                proof {
                    lemma_slots_contains(self.slots@, k);
                    assert(self.map() =~= old(self).map().remove(k));
                    lemma_without_absent(self.keys(), k);
                }
                None
            },
        }
    }

    pub(crate) fn clear(&mut self)
        ensures
            final(self).wf(),
            final(self).map() == Map::<u64, V>::empty(),
            final(self).keys() == Seq::<u64>::empty(),
    {
        self.slots.clear();
        assert(self.keys() =~= Seq::<u64>::empty());
    }

    /// The value in slot `i`, with its key.
    pub(crate) fn slot(&self, i: usize) -> (r: (u64, &V))
        requires
            self.wf(),
            i < self.slots.len(),
        ensures
            r.0 == self.keys()[i as int],
            self.map().contains_key(r.0),
            *r.1 == self.map()[r.0],
    {
        proof {
            lemma_slots_value(self.slots@, i as int);
        }
        let slot = &self.slots[i];
        (slot.0, &slot.1)
    }
}

/// `ks` with every occurrence of `k` taken out.
pub open spec fn without(ks: Seq<u64>, k: u64) -> Seq<u64>
    decreases ks.len(),
{
    if ks.len() == 0 {
        ks
    } else if ks.last() == k {
        without(ks.drop_last(), k)
    } else {
        without(ks.drop_last(), k).push(ks.last())
    }
}

/// Removing the slot at `i` drops its key from the key sequence, and only it.
pub proof fn lemma_keys_remove<V>(s: Seq<(u64, V)>, i: int)
    requires
        keys_distinct(s),
        0 <= i < s.len(),
    ensures
        slot_keys(s.remove(i)) == without(slot_keys(s), s[i].0),
    decreases s.len(),
{
    let k = s[i].0;
    let t = s.drop_last();
    assert(keys_distinct(t));
    assert(slot_keys(s).drop_last() == slot_keys(t));
    if i == s.len() - 1 {
        assert(s.remove(i) == t);
        assert forall|j: int| 0 <= j < slot_keys(t).len() implies slot_keys(t)[j] != k by {
            assert(s[j].0 != s[i].0);
        }
        lemma_without_absent(slot_keys(t), k);
    } else {
        lemma_keys_remove(t, i);
        assert(s.remove(i).drop_last() == t.remove(i));
        assert(slot_keys(s.remove(i)) == slot_keys(t.remove(i)).push(s.last().0));
        assert(s[i].0 != s[s.len() - 1].0);
    }
}

/// Taking out a key that does not occur changes nothing.
pub proof fn lemma_without_absent(ks: Seq<u64>, k: u64)
    requires
        forall|j: int| 0 <= j < ks.len() ==> ks[j] != k,
    ensures
        without(ks, k) == ks,
    decreases ks.len(),
{
    if ks.len() > 0 {
        lemma_without_absent(ks.drop_last(), k);
        assert(ks.drop_last().push(ks.last()) == ks);
    }
}

/// Mutable references to the values of `s`, in slot order.
fn values_mut_of<'a, V>(s: &'a mut [(u64, V)]) -> (r: Vec<&'a mut V>)
    ensures
        r.len() == old(s)@.len(),
        final(s)@.len() == old(s)@.len(),
        same_keys(final(s)@, old(s)@),
        forall|i: int| 0 <= i < r.len() ==> *r[i] == old(s)@[i].1,
        forall|i: int| 0 <= i < r.len() ==> final(s)@[i] == (old(s)@[i].0, *final(r[i])),
        forall|i: int| #![trigger r[i]] 0 <= i < r.len() ==> final(s)@[i].1 == *final(r[i]),
    decreases old(s)@.len(),
{
    if s.len() == 0 {
        return Vec::new();
    }
    let (head, tail) = s.split_at_mut(1);
    let first = head.first_mut().unwrap();
    let v = &mut first.1;
    let mut rest = values_mut_of(tail);
    rest.insert(0, v);
    rest
}

/// `s2` has the keys of `s`, slot by slot.
pub open spec fn same_keys<V>(s2: Seq<(u64, V)>, s: Seq<(u64, V)>) -> bool {
    s2.len() == s.len() && forall|i: int| 0 <= i < s.len() ==> s2[i].0 == s[i].0
}

/// Slots with the keys of a distinct-keyed sequence map those keys to their values.
pub proof fn lemma_same_keys<V>(s2: Seq<(u64, V)>, s: Seq<(u64, V)>)
    requires
        keys_distinct(s),
        same_keys(s2, s),
    ensures
        keys_distinct(s2),
        slot_keys(s2) == slot_keys(s),
        slots_to_map(s2).dom() == slots_to_map(s).dom(),
        forall|i: int| 0 <= i < s.len() ==> slots_to_map(s2)[s[i].0] == #[trigger] s2[i].1,
{
    assert(slot_keys(s2) =~= slot_keys(s));
    assert forall|i: int| 0 <= i < s.len() implies slots_to_map(s2)[s[i].0] == #[trigger] s2[i].1 by {
        lemma_slots_value(s2, i);
    }
    assert forall|k: u64| slots_to_map(s2).contains_key(k) <==> slots_to_map(s).contains_key(k) by {
        lemma_slots_contains(s2, k);
        lemma_slots_contains(s, k);
        if slots_to_map(s2).contains_key(k) {
            let i = choose|i: int| 0 <= i < s2.len() && s2[i].0 == k;
            assert(s[i].0 == k);
        }
        if slots_to_map(s).contains_key(k) {
            let i = choose|i: int| 0 <= i < s.len() && s[i].0 == k;
            assert(s2[i].0 == k);
        }
    }
    assert(slots_to_map(s2).dom() =~= slots_to_map(s).dom());
}

impl<V> IdMap<V> {
    /// Mutable references to all values, in key order.
    pub(crate) fn values_mut(&mut self) -> (r: Vec<&mut V>)
        requires
            old(self).wf(),
        ensures
            final(self).wf(),
            final(self).keys() == old(self).keys(),
            final(self).map().dom() == old(self).map().dom(),
            r.len() == old(self).keys().len(),
            forall|i: int| 0 <= i < r.len() ==> *r[i] == old(self).map()[old(self).keys()[i]],
            forall|i: int|
                0 <= i < r.len() ==> final(self).map()[old(self).keys()[i]] == *final(r[i]),
    {
        proof {
            let s = self.slots@;
            assert forall|i: int| 0 <= i < s.len() implies slots_to_map(s)[s[i].0] == s[i].1
                && #[trigger] slot_keys(s)[i] == s[i].0 by {
                lemma_slots_value(s, i);
            }
            assert forall|s2: Seq<(u64, V)>| #[trigger] same_keys(s2, s) implies keys_distinct(s2)
                && slot_keys(s2) == slot_keys(s) && slots_to_map(s2).dom() == slots_to_map(s).dom()
                && forall|i: int| 0 <= i < s.len() ==> slots_to_map(s2)[s[i].0] == #[trigger] s2[i].1 by {
                lemma_same_keys(s2, s);
            }
        }
        values_mut_of(self.slots.as_mut_slice())
    }
}

} // verus!

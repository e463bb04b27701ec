//! A finite map keyed by state-action pairs, kept as a list of entries and
//! compared with the environment's own equality of states and actions.

use vstd::prelude::*;

use crate::environment::Environment;

verus! {

/// The key of an entry.
pub open spec fn key_of<S, A, V>(e: (S, A, V)) -> (S, A) {
    (e.0, e.1)
}

/// The value of the first entry of `entries` with key `k`.
pub open spec fn lookup<S, A, V>(entries: Seq<(S, A, V)>, k: (S, A)) -> Option<V>
    decreases entries.len(),
{
    if entries.len() == 0 {
        None
    } else if key_of(entries[0]) == k {
        Some(entries[0].2)
    } else {
        lookup(entries.drop_first(), k)
    }
}

proof fn lemma_lookup_first<S, A, V>(entries: Seq<(S, A, V)>, k: (S, A), i: int)
    requires
        0 <= i < entries.len(),
        key_of(entries[i]) == k,
        forall|j: int| 0 <= j < i ==> key_of(#[trigger] entries[j]) != k,
    ensures
        lookup(entries, k) == Some(entries[i].2),
    decreases i,
{
    if i > 0 {
        let rest = entries.drop_first();
        assert forall|j: int| 0 <= j < i - 1 implies key_of(#[trigger] rest[j]) != k by {
            assert(rest[j] == entries[j + 1]);
        }
        lemma_lookup_first(rest, k, i - 1);
    }
}

proof fn lemma_lookup_absent<S, A, V>(entries: Seq<(S, A, V)>, k: (S, A))
    requires
        forall|j: int| 0 <= j < entries.len() ==> key_of(#[trigger] entries[j]) != k,
    ensures
        lookup(entries, k) is None,
    decreases entries.len(),
{
    if entries.len() > 0 {
        let rest = entries.drop_first();
        assert forall|j: int| 0 <= j < rest.len() implies key_of(#[trigger] rest[j]) != k by {
            assert(rest[j] == entries[j + 1]);
        }
        lemma_lookup_absent(rest, k);
    }
}

proof fn lemma_lookup_update<S, A, V>(entries: Seq<(S, A, V)>, i: int, x: (S, A, V), k: (S, A))
    requires
        0 <= i < entries.len(),
        key_of(entries[i]) == key_of(x),
        key_of(x) != k,
    ensures
        lookup(entries.update(i, x), k) == lookup(entries, k),
    decreases entries.len(),
{
    let updated = entries.update(i, x);
    if i > 0 {
        assert(updated.drop_first() =~= entries.drop_first().update(i - 1, x));
        lemma_lookup_update(entries.drop_first(), i - 1, x, k);
    } else {
        assert(updated.drop_first() =~= entries.drop_first());
    }
}

proof fn lemma_lookup_push<S, A, V>(entries: Seq<(S, A, V)>, x: (S, A, V), k: (S, A))
    ensures
        lookup(entries.push(x), k) == match lookup(entries, k) {
            Some(v) => Some(v),
            None => if key_of(x) == k {
                Some(x.2)
            } else {
                None
            },
        },
    decreases entries.len(),
{
    let pushed = entries.push(x);
    if entries.len() > 0 {
        assert(pushed[0] == entries[0]);
        assert(pushed.drop_first() =~= entries.drop_first().push(x));
        lemma_lookup_push(entries.drop_first(), x, k);
    } else {
        assert(pushed[0] == x);
        assert(pushed.drop_first() =~= Seq::<(S, A, V)>::empty());
        assert(lookup(pushed.drop_first(), k) is None);
    }
}

/// The map that `entries` stand for.
pub open spec fn entries_map<S, A, V>(entries: Seq<(S, A, V)>) -> Map<(S, A), V> {
    Map::new(|k: (S, A)| lookup(entries, k) is Some, |k: (S, A)| lookup(entries, k)->Some_0)
}

/// A map from state-action pairs of `E` to values; each key is listed once.
pub struct PairTable<E: Environment, V> {
    entries: Vec<(E::State, E::Action, V)>,
}

impl<E: Environment, V> View for PairTable<E, V> {
    type V = Map<(E::State, E::Action), V>;

    closed spec fn view(&self) -> Map<(E::State, E::Action), V> {
        entries_map(self.entries@)
    }
}

impl<E: Environment, V: Copy> PairTable<E, V> where E::State: Copy, E::Action: Copy {
    /// The keys in the order in which they were first inserted.
    pub closed spec fn keys(&self) -> Seq<(E::State, E::Action)> {
        self.entries@.map_values(|e: (E::State, E::Action, V)| key_of(e))
    }

    /// Each key is listed once, and the listed keys are those of the map.
    pub open spec fn wf(&self) -> bool {
        &&& self.keys().no_duplicates()
        &&& forall|i: int|
            0 <= i < self.keys().len() ==> self@.contains_key(#[trigger] self.keys()[i])
        &&& forall|k: (E::State, E::Action)| self@.contains_key(k) ==> self.keys().contains(k)
    }

    pub fn new() -> (r: Self)
        ensures
            r@ == Map::<(E::State, E::Action), V>::empty(),
            r.keys() == Seq::<(E::State, E::Action)>::empty(),
            r.wf(),
    {
        let r = PairTable { entries: Vec::new() };
        assert(r@ =~= Map::<(E::State, E::Action), V>::empty());
        assert(r.keys() =~= Seq::<(E::State, E::Action)>::empty());
        r
    }

    /// Number of keys.
    pub fn len(&self) -> (r: usize)
        ensures
            r == self.keys().len(),
    {
        self.entries.len()
    }

    /// The index of the entry with key `(s, a)`.
    fn find(&self, s: &E::State, a: &E::Action) -> (r: Option<usize>)
        ensures
            match r {
                Some(i) => {
                    &&& i < self.entries@.len()
                    &&& key_of(self.entries@[i as int]) == (*s, *a)
                    &&& forall|j: int|
                        0 <= j < i ==> key_of(#[trigger] self.entries@[j]) != (*s, *a)
                },
                None => forall|j: int|
                    0 <= j < self.entries@.len() ==> key_of(#[trigger] self.entries@[j]) != (
                        *s,
                        *a,
                    ),
            },
    {
        let mut i: usize = 0;
        while i < self.entries.len()
            invariant
                i <= self.entries@.len(),
                forall|j: int| 0 <= j < i ==> key_of(#[trigger] self.entries@[j]) != (*s, *a),
            decreases self.entries@.len() - i,
        {
            let e = &self.entries[i];
            if E::same_state(&e.0, s) && E::same_action(&e.1, a) {
                return Some(i);
            }
            i = i + 1;
        }
        None
    }

    /// The value stored for `(s, a)`.
    pub fn get(&self, s: &E::State, a: &E::Action) -> (r: Option<V>)
        ensures
            r is Some <==> self@.contains_key((*s, *a)),
            r matches Some(v) ==> v == self@[(*s, *a)],
    {
        match self.find(s, a) {
            Some(i) => {
                proof {
                    lemma_lookup_first(self.entries@, (*s, *a), i as int);
                }
                Some(self.entries[i].2)
            },
            None => {
                proof {
                    lemma_lookup_absent(self.entries@, (*s, *a));
                }
                None
            },
        }
    }

    /// The `i`-th key, in order of first insertion, with its value.
    pub fn entry(&self, i: usize) -> (r: (E::State, E::Action, V))
        requires
            i < self.keys().len(),
        ensures
            (r.0, r.1) == self.keys()[i as int],
            self.wf() ==> self@.contains_key((r.0, r.1)) && r.2 == self@[(r.0, r.1)],
    {
        let e = self.entries[i];
        proof {
            let k = key_of(self.entries@[i as int]);
            assert(self.keys()[i as int] == k);
            if self.wf() {
                assert forall|j: int|
                    0 <= j < i implies key_of(#[trigger] self.entries@[j]) != k by {
                    assert(self.keys()[j] == key_of(self.entries@[j]));
                }
                lemma_lookup_first(self.entries@, k, i as int);
            }
        }
        e
    }

    /// Sets the value of `(s, a)` to `v`, adding the key if it is new.
    pub fn insert(&mut self, s: E::State, a: E::Action, v: V)
        ensures
            final(self)@ == old(self)@.insert((s, a), v),
            old(self).wf() ==> final(self).wf(),
            old(self)@.contains_key((s, a)) ==> final(self).keys() == old(self).keys(),
            !old(self)@.contains_key((s, a)) ==> final(self).keys() == old(self).keys().push(
                (s, a),
            ),
    {
        let ghost old_entries = self.entries@;
        let x = (s, a, v);
        match self.find(&s, &a) {
            Some(i) => {
                self.entries.set(i, x);
                proof {
                    lemma_lookup_first(old_entries, (s, a), i as int);
                    assert forall|k: (E::State, E::Action)| k != (s, a) implies lookup(
                        self.entries@,
                        k,
                    ) == lookup(old_entries, k) by {
                        lemma_lookup_update(old_entries, i as int, x, k);
                    }
                    assert forall|j: int| 0 <= j < i implies key_of(
                        #[trigger] self.entries@[j],
                    ) != (s, a) by {
                        assert(self.entries@[j] == old_entries[j]);
                    }
                    lemma_lookup_first(self.entries@, (s, a), i as int);
                    assert(self@ =~= old(self)@.insert((s, a), v));
                    assert(self.keys() =~= old(self).keys());
                    assert(old(self)@.contains_key((s, a)));
                    assert(self@.dom() =~= old(self)@.dom());
                    if old(self).wf() {
                        assert forall|j: int|
                            0 <= j < self.keys().len() implies self@.contains_key(
                            #[trigger] self.keys()[j],
                        ) by {
                            assert(old(self)@.contains_key(old(self).keys()[j]));
                        }
                    }
                }
            },
            None => {
                self.entries.push(x);
                proof {
                    lemma_lookup_absent(old_entries, (s, a));
                    assert forall|k: (E::State, E::Action)| #[trigger]
                        lookup(self.entries@, k) == match lookup(old_entries, k) {
                            Some(w) => Some(w),
                            None => if key_of(x) == k {
                                Some(x.2)
                            } else {
                                None
                            },
                        } by {
                        lemma_lookup_push(old_entries, x, k);
                    }
                    assert(self@ =~= old(self)@.insert((s, a), v));
                    assert(self.keys() =~= old(self).keys().push((s, a)));
                    assert(!old(self)@.contains_key((s, a)));
                    assert forall|j: int|
                        0 <= j < old(self).keys().len() implies old(self).keys()[j] != (s, a) by {
                        assert(old(self).keys()[j] == key_of(old_entries[j]));
                    }
                    if old(self).wf() {
                        assert forall|j: int|
                            0 <= j < self.keys().len() implies self@.contains_key(
                            #[trigger] self.keys()[j],
                        ) by {
                            if j < old(self).keys().len() {
                                assert(self.keys()[j] == old(self).keys()[j]);
                                assert(old(self)@.contains_key(old(self).keys()[j]));
                            }
                        }
                        Self::lemma_keys_listed_after_push(*self, *old(self), s, a);
                    }
                }
            },
        }
    }

    proof fn lemma_keys_listed_after_push(after: Self, before: Self, s: E::State, a: E::Action)
        requires
            before.wf(),
            after@ == before@.insert((s, a), after@[(s, a)]),
            after.keys() == before.keys().push((s, a)),
        ensures
            forall|k: (E::State, E::Action)| after@.contains_key(k) ==> after.keys().contains(k),
    {
        assert forall|k: (E::State, E::Action)|
            after@.contains_key(k) implies after.keys().contains(k) by {
            if k != (s, a) {
                assert(before@.contains_key(k));
                assert(before.keys().contains(k));
                let j = choose|j: int| 0 <= j < before.keys().len() && before.keys()[j] == k;
                assert(after.keys()[j] == before.keys()[j]);
                assert(after.keys()[j] == k);
            } else {
                assert(after.keys()[before.keys().len() as int] == k);
            }
        }
    }
}

} // verus!

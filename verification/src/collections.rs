//! Ordered collections keyed by text.

use crate::text::{lemma_text_order, text_less, text_order, TextOrder};
use vstd::prelude::*;

verus! {

/// Keys in strictly increasing order.
pub open spec fn strictly_sorted(keys: Seq<Seq<char>>) -> bool {
    forall|i: int, j: int| 0 <= i < j < keys.len() ==> text_less(#[trigger] keys[i], #[trigger] keys[j])
}

/// A map from text to values, kept in key order.
#[derive(Clone, Debug, PartialEq, Eq)]
pub struct StringMap<V> {
    entries: Vec<(String, V)>,
}

impl<V> View for StringMap<V> {
    type V = Map<Seq<char>, V>;

    open spec fn view(&self) -> Map<Seq<char>, V> {
        Map::new(
            |k: Seq<char>| self.keys().contains(k),
            |k: Seq<char>| self.values()[self.keys().index_of(k)],
        )
    }
}

impl<V> StringMap<V> {
    /// The keys in iteration order.
    pub closed spec fn keys(&self) -> Seq<Seq<char>> {
        Seq::new(self.entries@.len(), |i: int| self.entries@[i].0@)
    }

    /// The values in iteration order.
    pub closed spec fn values(&self) -> Seq<V> {
        Seq::new(self.entries@.len(), |i: int| self.entries@[i].1)
    }

    /// Keys are strictly increasing, so no key occurs twice.
    pub open spec fn wf(&self) -> bool {
        &&& strictly_sorted(self.keys())
        &&& self.keys().len() == self.values().len()
    }

    proof fn lemma_at(&self, i: int)
        requires
            self.wf(),
            0 <= i < self.keys().len(),
        ensures
            self@.contains_key(self.keys()[i]),
            self@[self.keys()[i]] == self.values()[i],
    {
        let k = self.keys()[i];
        assert(self.keys().contains(k));
        let j = self.keys().index_of(k);
        assert(0 <= j < self.keys().len() && self.keys()[j] == k);
        lemma_text_order(k, k, k);
        if i < j {
            assert(text_less(self.keys()[i], self.keys()[j]));
        } else if j < i {
            assert(text_less(self.keys()[j], self.keys()[i]));
        }
    }

    /// Key and value positions agree with the map view.
    pub proof fn lemma_positions(&self)
        requires
            self.wf(),
        ensures
            forall|i: int|
                #![trigger self.keys()[i]]
                0 <= i < self.keys().len() ==> self@.contains_key(self.keys()[i])
                    && self@[self.keys()[i]] == self.values()[i],
            forall|k: Seq<char>| #[trigger]
                self@.contains_key(k) ==> self.keys().contains(k),
    {
        assert forall|i: int|
            #![trigger self.keys()[i]]
            0 <= i < self.keys().len() implies self@.contains_key(self.keys()[i])
            && self@[self.keys()[i]] == self.values()[i] by {
            self.lemma_at(i);
        }
    }

    /// The empty map.
    pub fn new() -> (map: Self)
        ensures
            map.wf(),
            map@ == Map::<Seq<char>, V>::empty(),
            map.keys().len() == 0,
    {
        let map = StringMap { entries: Vec::new() };
        assert(map@ =~= Map::<Seq<char>, V>::empty());
        map
    }

    /// The number of entries.
    pub fn len(&self) -> (n: usize)
        ensures
            n == self.keys().len(),
    {
        self.entries.len()
    }

    /// Whether the map has no entry.
    pub fn is_empty(&self) -> (empty: bool)
        requires
            self.wf(),
        ensures
            empty == (self@.dom() =~= Set::<Seq<char>>::empty()),
            empty == (self.keys().len() == 0),
    {
        let empty = self.entries.len() == 0;
        proof {
            if !empty {
                self.lemma_at(0);
            } else {
                assert(self@.dom() =~= Set::<Seq<char>>::empty());
            }
        }
        empty
    }

    /// The key at a position in key order.
    pub fn key_at(&self, i: usize) -> (key: &String)
        requires
            i < self.keys().len(),
        ensures
            key@ == self.keys()[i as int],
    {
        &self.entries[i].0
    }

    /// The value at a position in key order.
    pub fn value_at(&self, i: usize) -> (value: &V)
        requires
            i < self.keys().len(),
        ensures
            *value == self.values()[i as int],
    {
        &self.entries[i].1
    }

    /// The position of the first key that is not before `key`.
    fn lower_bound(&self, key: &str) -> (res: (usize, bool))
        requires
            self.wf(),
        ensures
            res.0 <= self.keys().len(),
            forall|i: int| 0 <= i < res.0 ==> text_less(#[trigger] self.keys()[i], key@),
            res.1 ==> res.0 < self.keys().len() && self.keys()[res.0 as int] == key@,
            !res.1 ==> (forall|i: int| res.0 <= i < self.keys().len() ==> text_less(key@, #[trigger] self.keys()[i])),
            res.1 == self.keys().contains(key@),
    {
        let mut i: usize = 0;
        while i < self.entries.len()
            invariant
                self.wf(),
                i <= self.keys().len(),
                self.keys().len() == self.entries@.len(),
                forall|k: int| 0 <= k < i ==> text_less(#[trigger] self.keys()[k], key@),
            decreases self.keys().len() - i,
        {
            assert(self.entries@[i as int].0@ == self.keys()[i as int]);
            match text_order(self.entries[i].0.as_str(), key) {
                TextOrder::Before => {
                    i = i + 1;
                },
                TextOrder::Same => {
                    return (i, true);
                },
                TextOrder::After => {
                    proof {
                        lemma_text_order(key@, key@, key@);
                        assert forall|k: int| i <= k < self.keys().len() implies text_less(
                            key@,
                            #[trigger] self.keys()[k],
                        ) by {
                            if k > i {
                                assert(text_less(self.keys()[i as int], self.keys()[k]));
                                lemma_text_order(key@, self.keys()[i as int], self.keys()[k]);
                            }
                        }
                    }
                    return (i, false);
                },
            }
        }
        proof {
            lemma_text_order(key@, key@, key@);
        }
        (i, false)
    }

    /// Looks a key up.
    pub fn get(&self, key: &str) -> (value: Option<&V>)
        requires
            self.wf(),
        ensures
            value matches Some(v) ==> self@.contains_key(key@) && *v == self@[key@],
            value is None ==> !self@.contains_key(key@),
    {
        let (i, found) = self.lower_bound(key);
        if found {
            proof {
                self.lemma_at(i as int);
            }
            Some(&self.entries[i].1)
        } else {
            None
        }
    }

    /// Whether a key is present.
    pub fn contains(&self, key: &str) -> (found: bool)
        requires
            self.wf(),
        ensures
            found == self@.contains_key(key@),
    {
        let (_, found) = self.lower_bound(key);
        found
    }

    /// Inserts or replaces the value of a key.
    pub fn insert(&mut self, key: String, value: V)
        requires
            old(self).wf(),
        ensures
            final(self).wf(),
            final(self)@ == old(self)@.insert(key@, value),
    {
        let (i, found) = self.lower_bound(key.as_str());
        let ghost before = *self;
        let ghost k = key@;
        if found {
            self.entries.set(i, (key, value));
            assert(self.keys() =~= before.keys());
            assert(self.values() =~= before.values().update(i as int, value));
        } else {
            self.entries.insert(i, (key, value));
            assert(self.keys() =~= before.keys().insert(i as int, k));
            assert(self.values() =~= before.values().insert(i as int, value));
            assert forall|a: int, b: int| 0 <= a < b < self.keys().len() implies text_less(
                #[trigger] self.keys()[a],
                #[trigger] self.keys()[b],
            ) by {
                let oa = if a < i { a } else { a - 1 };
                let ob = if b < i { b } else { b - 1 };
                if a != i && b != i {
                    assert(text_less(before.keys()[oa], before.keys()[ob]));
                } else if a == i {
                    assert(text_less(k, before.keys()[ob]));
                } else {
                    assert(text_less(before.keys()[oa], k));
                }
            }
        }
        proof {
            self.lemma_positions();
            before.lemma_positions();
            assert(self.keys()[i as int] == k);
            let want = before@.insert(k, value);
            assert forall|q: Seq<char>| #[trigger] self@.contains_key(q) implies want.contains_key(q)
                && want[q] == self@[q] by {
                let p = self.keys().index_of(q);
                assert(self.keys()[p] == q);
                if found {
                    assert(before.keys()[p] == q);
                    if q == k {
                        self.lemma_at(i as int);
                        assert(self@[k] == value);
                    }
                } else if p == i {
                    self.lemma_at(i as int);
                } else {
                    let op = if p < i { p } else { p - 1 };
                    assert(before.keys()[op] == q);
                    lemma_text_order(k, k, k);
                }
            }
            assert forall|q: Seq<char>| #[trigger] want.contains_key(q) implies self@.contains_key(q) by {
                if q == k {
                    assert(self.keys()[i as int] == q);
                } else {
                    let p = before.keys().index_of(q);
                    assert(before.keys()[p] == q);
                    let np = if found || p < i { p } else { p + 1 };
                    assert(self.keys()[np] == q);
                }
            }
            assert(self@ =~= want);
        }
    }

    /// Removes a key and returns its value.
    pub fn remove(&mut self, key: &str) -> (value: Option<V>)
        requires
            old(self).wf(),
        ensures
            final(self).wf(),
            final(self)@ == old(self)@.remove(key@),
            value matches Some(v) ==> old(self)@.contains_key(key@) && v == old(self)@[key@],
            value is None ==> !old(self)@.contains_key(key@) && final(self)@ == old(self)@,
    {
        let (i, found) = self.lower_bound(key);
        let ghost before = *self;
        if found {
            let (_, value) = self.entries.remove(i);
            assert(self.keys() =~= before.keys().remove(i as int));
            assert(self.values() =~= before.values().remove(i as int));
            assert forall|a: int, b: int| 0 <= a < b < self.keys().len() implies text_less(
                #[trigger] self.keys()[a],
                #[trigger] self.keys()[b],
            ) by {
                let oa = if a < i { a } else { a + 1 };
                let ob = if b < i { b } else { b + 1 };
                assert(text_less(before.keys()[oa], before.keys()[ob]));
            }
            proof {
                before.lemma_at(i as int);
                self.lemma_positions();
                before.lemma_positions();
                lemma_text_order(key@, key@, key@);
                let want = before@.remove(key@);
                assert forall|q: Seq<char>| #[trigger] self@.contains_key(q) implies want.contains_key(q)
                    && want[q] == self@[q] by {
                    let p = self.keys().index_of(q);
                    assert(self.keys()[p] == q);
                    let op = if p < i { p } else { p + 1 };
                    assert(before.keys()[op] == q);
                    if op < i {
                        assert(text_less(before.keys()[op], before.keys()[i as int]));
                    } else {
                        assert(text_less(before.keys()[i as int], before.keys()[op]));
                    }
                }
                assert forall|q: Seq<char>| #[trigger] want.contains_key(q) implies self@.contains_key(q) by {
                    let p = before.keys().index_of(q);
                    assert(before.keys()[p] == q);
                    let np = if p < i { p } else { p - 1 };
                    assert(self.keys()[np] == q);
                }
                assert(self@ =~= want);
            }
            Some(value)
        } else {
            assert(self@ =~= before@.remove(key@));
            None
        }
    }
}

/// A set of texts, kept in order.
#[derive(Clone, Debug, PartialEq, Eq)]
pub struct StringSet {
    members: StringMap<bool>,
}

impl View for StringSet {
    type V = Set<Seq<char>>;

    closed spec fn view(&self) -> Set<Seq<char>> {
        self.members@.dom()
    }
}

impl StringSet {
    /// Members are in order and distinct.
    pub closed spec fn wf(&self) -> bool {
        self.members.wf()
    }

    /// The members in order.
    pub closed spec fn items(&self) -> Seq<Seq<char>> {
        self.members.keys()
    }

    /// The members are in order, each once.
    pub proof fn lemma_sorted(&self)
        requires
            self.wf(),
        ensures
            strictly_sorted(self.items()),
    {
    }

    /// The empty set.
    pub fn new() -> (set: Self)
        ensures
            set.wf(),
            set@ == Set::<Seq<char>>::empty(),
            set.items().len() == 0,
    {
        let set = StringSet { members: StringMap::new() };
        assert(set@ =~= Set::<Seq<char>>::empty());
        set
    }

    /// The number of members.
    pub fn len(&self) -> (n: usize)
        ensures
            n == self.items().len(),
    {
        self.members.len()
    }

    /// Whether the set has no member.
    pub fn is_empty(&self) -> (empty: bool)
        requires
            self.wf(),
        ensures
            empty == (self@ =~= Set::<Seq<char>>::empty()),
    {
        self.members.is_empty()
    }

    /// Whether a text is a member.
    pub fn contains(&self, key: &str) -> (found: bool)
        requires
            self.wf(),
        ensures
            found == self@.contains(key@),
    {
        self.members.contains(key)
    }

    /// The member at a position in order.
    pub fn item_at(&self, i: usize) -> (key: &String)
        requires
            i < self.items().len(),
        ensures
            key@ == self.items()[i as int],
    {
        self.members.key_at(i)
    }

    /// Adds a member.
    pub fn insert(&mut self, key: String)
        requires
            old(self).wf(),
        ensures
            final(self).wf(),
            final(self)@ == old(self)@.insert(key@),
    {
        let ghost k = key@;
        self.members.insert(key, true);
        assert(self@ =~= old(self)@.insert(k));
    }

    /// Removes a member; tells whether it was there.
    pub fn remove(&mut self, key: &str) -> (removed: bool)
        requires
            old(self).wf(),
        ensures
            final(self).wf(),
            final(self)@ == old(self)@.remove(key@),
            removed == old(self)@.contains(key@),
    {
        let removed = self.members.remove(key).is_some();
        assert(self@ =~= old(self)@.remove(key@));
        removed
    }

    /// Removes every member.
    pub fn clear(&mut self)
        ensures
            final(self).wf(),
            final(self)@ == Set::<Seq<char>>::empty(),
    {
        self.members = StringMap::new();
        assert(self@ =~= Set::<Seq<char>>::empty());
    }
}

// ---------------------------------------------------------------------------
// Small tables keyed by number

/// The value that a table has for a number.
pub open spec fn lookup<V>(entries: Seq<(u64, V)>, id: u64) -> Option<V>
    decreases entries.len(),
{
    if entries.len() == 0 {
        None
    } else if entries.last().0 == id {
        Some(entries.last().1)
    } else {
        lookup(entries.drop_last(), id)
    }
}

/// The table without a number; the other entries keep their order.
pub open spec fn without<V>(entries: Seq<(u64, V)>, id: u64) -> Seq<(u64, V)>
    decreases entries.len(),
{
    if entries.len() == 0 {
        entries
    } else if entries.last().0 == id {
        without(entries.drop_last(), id)
    } else {
        without(entries.drop_last(), id).push(entries.last())
    }
}

/// The table with a value for a number, as its latest entry.
pub open spec fn with<V>(entries: Seq<(u64, V)>, id: u64, value: V) -> Seq<(u64, V)> {
    without(entries, id).push((id, value))
}

/// Removing a number from a table affects no other number.
pub proof fn lemma_without<V>(entries: Seq<(u64, V)>, id: u64, other: u64)
    ensures
        lookup(without(entries, id), other) == (if other == id {
            None::<V>
        } else {
            lookup(entries, other)
        }),
        without(entries, id).len() <= entries.len(),
        lookup(entries, id) is None ==> without(entries, id) == entries,
    decreases entries.len(),
{
    if entries.len() > 0 {
        let rest = entries.drop_last();
        lemma_without(rest, id, other);
        if entries.last().0 != id {
            let kept = without(rest, id).push(entries.last());
            assert(kept.drop_last() =~= without(rest, id));
            if lookup(entries, id) is None {
                assert(rest.push(entries.last()) =~= entries);
            }
        }
    }
}

/// Setting a number in a table affects no other number.
pub proof fn lemma_with<V>(entries: Seq<(u64, V)>, id: u64, value: V, other: u64)
    ensures
        lookup(with(entries, id, value), other) == (if other == id {
            Some(value)
        } else {
            lookup(entries, other)
        }),
{
    lemma_without(entries, id, other);
    assert(with(entries, id, value).drop_last() =~= without(entries, id));
}

/// A table from numbers to values that remembers the order in which entries were set.
#[derive(Clone, Debug, PartialEq, Eq)]
pub struct IdMap<V> {
    entries: Vec<(u64, V)>,
}

impl<V> View for IdMap<V> {
    type V = Seq<(u64, V)>;

    closed spec fn view(&self) -> Seq<(u64, V)> {
        self.entries@
    }
}

impl<V> IdMap<V> {
    /// The empty table.
    pub fn new() -> (map: Self)
        ensures
            map@ == Seq::<(u64, V)>::empty(),
    {
        IdMap { entries: Vec::new() }
    }

    /// The number of entries.
    pub fn len(&self) -> (n: usize)
        ensures
            n == self@.len(),
    {
        self.entries.len()
    }

    /// The number of the entry at a position.
    pub fn id_at(&self, i: usize) -> (id: u64)
        requires
            i < self@.len(),
        ensures
            id == self@[i as int].0,
    {
        self.entries[i].0
    }

    /// The value of the entry at a position.
    pub fn value_at(&self, i: usize) -> (value: &V)
        requires
            i < self@.len(),
        ensures
            *value == self@[i as int].1,
    {
        &self.entries[i].1
    }

    /// Looks a number up.
    pub fn get(&self, id: u64) -> (value: Option<&V>)
        ensures
            match value {
                Some(v) => lookup(self@, id) == Some(*v),
                None => lookup(self@, id) is None,
            },
    {
        let mut i: usize = self.entries.len();
        assert(self@.take(i as int) =~= self@);
        while i > 0
            invariant
                i <= self@.len(),
                self@ == self.entries@,
                lookup(self@, id) == lookup(self@.take(i as int), id),
            decreases i,
        {
            assert(self@.take(i as int).drop_last() =~= self@.take(i - 1));
            assert(self@.take(i as int).last() == self@[i - 1]);
            if self.entries[i - 1].0 == id {
                return Some(&self.entries[i - 1].1);
            }
            i = i - 1;
        }
        None
    }

    /// Removes a number; returns one value that it had.
    pub fn remove(&mut self, id: u64) -> (value: Option<V>)
        ensures
            final(self)@ == without(old(self)@, id),
            value == lookup(old(self)@, id),
    {
        let ghost all = self@;
        let mut kept: Vec<(u64, V)> = Vec::new();
        let mut found: Option<V> = None;
        let mut rest: Vec<(u64, V)> = Vec::new();
        std::mem::swap(&mut rest, &mut self.entries);
        // Entries are moved over from the back, so they arrive in reverse.
        let mut reversed: Vec<(u64, V)> = Vec::new();
        assert(rest@ =~= all);
        let ghost mut n: int = all.len() as int;
        assert(all.take(n) =~= all);
        assert(reversed@ =~= all.skip(n).reverse());
        loop
            invariant
                0 <= n <= all.len(),
                rest@ == all.take(n),
                reversed@ == all.skip(n).reverse(),
            ensures
                n == 0,
            decreases n,
        {
            match rest.pop() {
                Some(entry) => {
                    assert(entry == all[n - 1]);
                    reversed.push(entry);
                    proof {
                        n = n - 1;
                        assert(rest@ =~= all.take(n));
                        assert(reversed@ =~= all.skip(n).reverse());
                    }
                },
                None => {
                    break;
                },
            }
        }
        assert(all.skip(0) =~= all);
        let ghost mut m: int = 0;
        assert(all.take(0) =~= Seq::<(u64, V)>::empty());
        loop
            invariant
                0 <= m <= all.len(),
                reversed@ == all.skip(m).reverse(),
                kept@ == without(all.take(m), id),
                found == lookup(all.take(m), id),
            ensures
                m == all.len(),
            decreases all.len() - m,
        {
            match reversed.pop() {
                Some(entry) => {
                    assert(all.skip(m).reverse().last() == all[m]);
                    assert(entry == all[m]);
                    assert(all.take(m + 1).drop_last() =~= all.take(m));
                    assert(all.take(m + 1).last() == entry);
                    assert(all.skip(m + 1).reverse() =~= all.skip(m).reverse().drop_last());
                    let (key, value) = entry;
                    if key == id {
                        found = Some(value);
                    } else {
                        kept.push((key, value));
                    }
                    proof {
                        m = m + 1;
                    }
                },
                None => {
                    assert(all.skip(m).len() == 0) by {
                        assert(all.skip(m).reverse().len() == all.skip(m).len());
                    }
                    break;
                },
            }
        }
        assert(all.take(m) =~= all);
        self.entries = kept;
        found
    }

    /// Sets the value of a number.
    pub fn insert(&mut self, id: u64, value: V)
        ensures
            final(self)@ == with(old(self)@, id, value),
    {
        let _ = self.remove(id);
        self.entries.push((id, value));
    }

    /// Keeps the entries whose flag is set.
    pub fn retain_flagged(&mut self, flags: &Vec<bool>)
        requires
            flags@.len() == old(self)@.len(),
        ensures
            final(self)@ == flagged(old(self)@, flags@),
    {
        let ghost all = self@;
        let mut i: usize = self.entries.len();
        assert(all.skip(i as int) =~= Seq::<(u64, V)>::empty());
        assert(flags@.skip(i as int) =~= Seq::<bool>::empty());
        assert(all.take(i as int) =~= all);
        assert(all =~= all.take(i as int) + flagged(all.skip(i as int), flags@.skip(i as int)));
        while i > 0
            invariant
                i <= all.len(),
                flags@.len() == all.len(),
                self.entries@ == all.take(i as int) + flagged(all.skip(i as int), flags@.skip(i as int)),
            decreases i,
        {
            i = i - 1;
            let ghost tail = flagged(all.skip(i + 1), flags@.skip(i + 1));
            assert(all.skip(i as int).drop_first() =~= all.skip(i + 1));
            assert(flags@.skip(i as int).drop_first() =~= flags@.skip(i + 1));
            assert(all.skip(i as int)[0] == all[i as int]);
            assert(flags@.skip(i as int)[0] == flags@[i as int]);
            if !flags[i] {
                let _ = self.entries.remove(i);
                assert(self.entries@ =~= all.take(i as int) + tail);
            } else {
                assert(self.entries@ =~= all.take(i as int) + (seq![all[i as int]] + tail));
            }
        }
        assert(all.skip(0) =~= all);
        assert(flags@.skip(0) =~= flags@);
        assert(self.entries@ =~= flagged(all, flags@));
    }
}

/// The elements whose flag is set, in order.
pub open spec fn flagged<A>(items: Seq<A>, flags: Seq<bool>) -> Seq<A>
    decreases items.len(),
{
    if items.len() == 0 {
        Seq::empty()
    } else if flags[0] {
        seq![items[0]] + flagged(items.drop_first(), flags.drop_first())
    } else {
        flagged(items.drop_first(), flags.drop_first())
    }
}

} // verus!

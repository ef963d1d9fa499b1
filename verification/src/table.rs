//! A map that is held as a list of entries, one for each key.

use vstd::prelude::*;

verus! {

/// A type whose values can be told apart by what they stand for.
pub trait Key: DeepView + Sized {
    /// Whether both stand for the same thing.
    fn same(&self, other: &Self) -> (b: bool)
        ensures
            b == (self.deep_view() == other.deep_view()),
    ;

    /// Another value that stands for the same thing.
    fn duplicate(&self) -> (r: Self)
        ensures
            r.deep_view() == self.deep_view(),
    ;
}

/// A map from keys to values. No two entries have the same key.
pub struct Table<K: DeepView, V: DeepView> {
    entries: Vec<(K, V)>,
}

/// The map that a list of entries stands for.
pub open spec fn entries_map<A, B>(entries: Seq<(A, B)>) -> Map<A, B>
    decreases entries.len(),
{
    if entries.len() == 0 {
        Map::empty()
    } else {
        entries_map(entries.drop_last()).insert(entries.last().0, entries.last().1)
    }
}

/// No two entries have the same key.
pub open spec fn distinct_keys<A, B>(entries: Seq<(A, B)>) -> bool {
    forall|i: int, j: int|
        0 <= i < j < entries.len() ==> (#[trigger] entries[i]).0 != (#[trigger] entries[j]).0
}

/// The list that `m` has for `k`, which is empty where it has none.
pub open spec fn list_at<A, B>(m: Map<A, Seq<B>>, k: A) -> Seq<B> {
    if m.contains_key(k) {
        m[k]
    } else {
        Seq::empty()
    }
}

/// How long the lists of `m` are together.
pub open spec fn total_len<A, B>(m: Map<A, Seq<B>>) -> nat
    decreases m.dom().len(),
{
    if m.dom().finite() && m.dom().len() > 0 {
        let k = m.dom().choose();
        m[k].len() + total_len(m.remove(k))
    } else {
        0
    }
}

impl<K: DeepView, V: DeepView> View for Table<K, V> {
    type V = Map<K::V, V::V>;

    closed spec fn view(&self) -> Map<K::V, V::V> {
        entries_map(self.entries.deep_view())
    }
}

impl<K: DeepView, V: DeepView> Table<K, V> {
    #[verifier::type_invariant]
    spec fn well_formed(self) -> bool {
        distinct_keys(self.entries.deep_view())
    }

    /// The entries, in the order in which they are listed.
    pub closed spec fn listed(self) -> Seq<(K::V, V::V)> {
        self.entries.deep_view()
    }

    /// A table without entries.
    pub fn new() -> (r: Table<K, V>)
        ensures
            r@ == Map::<K::V, V::V>::empty(),
    {
        Table { entries: Vec::new() }
    }

    /// How many entries there are.
    pub fn len(&self) -> (n: usize)
        ensures
            n == self.listed().len(),
            distinct_keys(self.listed()),
            self@ == entries_map(self.listed()),
    {
        proof {
            use_type_invariant(self);
        }
        self.entries.len()
    }

    /// The entry at a place in the list of entries.
    pub fn at(&self, i: usize) -> (r: (&K, &V))
        requires
            i < self.listed().len(),
        ensures
            (r.0.deep_view(), r.1.deep_view()) == self.listed()[i as int],
    {
        let entry = &self.entries[i];
        (&entry.0, &entry.1)
    }
}

impl<K: Key, V: DeepView> Table<K, V> {
    /// The value for `key`, where there is one.
    pub fn get(&self, key: &K) -> (r: Option<&V>)
        ensures
            match r {
                Some(v) => self@.contains_key(key.deep_view()) && self@[key.deep_view()]
                    == v.deep_view(),
                None => !self@.contains_key(key.deep_view()),
            },
    {
        proof {
            use_type_invariant(self);
        }
        match find(&self.entries, key) {
            Some(i) => {
                proof {
                    lemma_entry_at(self.entries.deep_view(), i as int);
                }
                Some(&self.entries[i].1)
            },
            None => {
                proof {
                    lemma_has_key(self.entries.deep_view(), key.deep_view());
                }
                None
            },
        }
    }

    /// Makes `value` the value for `key`, in place of any it had.
    pub fn insert(&mut self, key: K, value: V)
        ensures
            final(self)@ == old(self)@.insert(key.deep_view(), value.deep_view()),
    {
        proof {
            use_type_invariant(&*self);
        }
        let mut entries: Vec<(K, V)> = Vec::new();
        std::mem::swap(&mut entries, &mut self.entries);
        let ghost before = entries.deep_view();
        match find(&entries, &key) {
            Some(i) => {
                proof {
                    lemma_update_entry(before, i as int, value.deep_view());
                }
                entries[i].1 = value;
                assert(entries.deep_view() =~= before.update(
                    i as int,
                    (before[i as int].0, value.deep_view()),
                ));
            },
            None => {
                proof {
                    lemma_push_entry(before, (key.deep_view(), value.deep_view()));
                }
                let ghost entry = (key.deep_view(), value.deep_view());
                entries.push((key, value));
                assert(entries.deep_view() =~= before.push(entry));
            },
        }
        self.entries = entries;
    }
}

impl<K: Key, T: DeepView> Table<K, Vec<T>> {
    /// Adds `items` at the end of the list for `key`, which starts out empty.
    pub fn append_to(&mut self, key: K, items: Vec<T>)
        ensures
            final(self)@ == old(self)@.insert(
                key.deep_view(),
                list_at(old(self)@, key.deep_view()) + items.deep_view(),
            ),
    {
        proof {
            use_type_invariant(&*self);
        }
        let mut items = items;
        let ghost added = items.deep_view();
        let mut entries: Vec<(K, Vec<T>)> = Vec::new();
        std::mem::swap(&mut entries, &mut self.entries);
        let ghost before = entries.deep_view();
        match find(&entries, &key) {
            Some(i) => {
                let ghost list = before[i as int].1 + added;
                proof {
                    lemma_entry_at(before, i as int);
                    lemma_update_entry(before, i as int, list);
                }
                entries[i].1.append(&mut items);
                assert(entries[i as int].1.deep_view() =~= list);
                assert(entries.deep_view() =~= before.update(i as int, (before[i as int].0, list)));
            },
            None => {
                proof {
                    lemma_has_key(before, key.deep_view());
                    lemma_push_entry(before, (key.deep_view(), added));
                    assert(Seq::<T::V>::empty() + added =~= added);
                }
                let ghost entry = (key.deep_view(), added);
                entries.push((key, items));
                assert(entries.deep_view() =~= before.push(entry));
            },
        }
        self.entries = entries;
    }

    /// Adds `item` at the end of the list for `key`, which starts out empty.
    pub fn push_to(&mut self, key: K, item: T)
        ensures
            final(self)@ == old(self)@.insert(
                key.deep_view(),
                list_at(old(self)@, key.deep_view()).push(item.deep_view()),
            ),
    {
        let ghost list = list_at(self@, key.deep_view());
        let ghost last = item.deep_view();
        let mut items: Vec<T> = Vec::new();
        items.push(item);
        assert(list + items.deep_view() =~= list.push(last));
        self.append_to(key, items);
    }
}

/// Where the entry for `key` is, if there is one.
fn find<K: Key, V: DeepView>(entries: &Vec<(K, V)>, key: &K) -> (r: Option<usize>)
    ensures
        match r {
            Some(i) => i < entries.len() && entries.deep_view()[i as int].0 == key.deep_view(),
            None => forall|i: int|
                0 <= i < entries.len() ==> (#[trigger] entries.deep_view()[i]).0 != key.deep_view(),
        },
{
    let mut i: usize = 0;
    while i < entries.len()
        invariant
            i <= entries.len(),
            forall|j: int| 0 <= j < i ==> (#[trigger] entries.deep_view()[j]).0 != key.deep_view(),
        decreases entries.len() - i,
    {
        if entries[i].0.same(key) {
            return Some(i);
        }
        i = i + 1;
    }
    None
}

/// The map has the keys of the entries.
pub proof fn lemma_has_key<A, B>(entries: Seq<(A, B)>, k: A)
    ensures
        entries_map(entries).contains_key(k) <==> exists|i: int|
            0 <= i < entries.len() && (#[trigger] entries[i]).0 == k,
    decreases entries.len(),
{
    if entries.len() > 0 {
        let rest = entries.drop_last();
        lemma_has_key(rest, k);
        if entries_map(rest).contains_key(k) {
            let i = choose|i: int| 0 <= i < rest.len() && (#[trigger] rest[i]).0 == k;
            assert(entries[i].0 == k);
        }
        if entries.last().0 == k {
            assert(entries[entries.len() - 1].0 == k);
        }
        if exists|i: int| 0 <= i < entries.len() && (#[trigger] entries[i]).0 == k {
            let i = choose|i: int| 0 <= i < entries.len() && (#[trigger] entries[i]).0 == k;
            if i < rest.len() {
                assert(rest[i].0 == k);
            }
        }
    }
}

/// The map has the value of each entry.
pub proof fn lemma_entry_at<A, B>(entries: Seq<(A, B)>, i: int)
    requires
        distinct_keys(entries),
        0 <= i < entries.len(),
    ensures
        entries_map(entries).contains_key(entries[i].0),
        entries_map(entries)[entries[i].0] == entries[i].1,
    decreases entries.len(),
{
    let rest = entries.drop_last();
    if i < rest.len() {
        assert forall|a: int, b: int| 0 <= a < b < rest.len() implies (#[trigger] rest[a]).0 != (
        #[trigger] rest[b]).0 by {
            assert(entries[a].0 != entries[b].0);
        }
        lemma_entry_at(rest, i);
        assert(rest[i] == entries[i]);
        assert(entries[i].0 != entries[entries.len() - 1].0);
    }
}

proof fn lemma_push_entry<A, B>(entries: Seq<(A, B)>, entry: (A, B))
    requires
        distinct_keys(entries),
        forall|i: int| 0 <= i < entries.len() ==> (#[trigger] entries[i]).0 != entry.0,
    ensures
        distinct_keys(entries.push(entry)),
        entries_map(entries.push(entry)) == entries_map(entries).insert(entry.0, entry.1),
{
    assert(entries.push(entry).drop_last() =~= entries);
}

proof fn lemma_update_entry<A, B>(entries: Seq<(A, B)>, i: int, value: B)
    requires
        distinct_keys(entries),
        0 <= i < entries.len(),
    ensures
        distinct_keys(entries.update(i, (entries[i].0, value))),
        entries_map(entries.update(i, (entries[i].0, value))) == entries_map(entries).insert(
            entries[i].0,
            value,
        ),
{
    let now = entries.update(i, (entries[i].0, value));
    assert forall|a: int, b: int| 0 <= a < b < now.len() implies (#[trigger] now[a]).0 != (
    #[trigger] now[b]).0 by {
        assert(entries[a].0 != entries[b].0);
    }
    let old_map = entries_map(entries).insert(entries[i].0, value);
    let new_map = entries_map(now);
    assert forall|k: A| #[trigger] old_map.contains_key(k) <==> new_map.contains_key(k) by {
        lemma_has_key(entries, k);
        lemma_has_key(now, k);
        if old_map.contains_key(k) {
            let j = if k == entries[i].0 {
                i
            } else {
                choose|j: int| 0 <= j < entries.len() && (#[trigger] entries[j]).0 == k
            };
            assert(now[j].0 == k);
        }
        if new_map.contains_key(k) {
            let j = choose|j: int| 0 <= j < now.len() && (#[trigger] now[j]).0 == k;
            assert(entries[j].0 == k);
        }
    }
    assert forall|k: A| #[trigger] old_map.contains_key(k) implies old_map[k] == new_map[k] by {
        lemma_has_key(now, k);
        let j = choose|j: int| 0 <= j < now.len() && (#[trigger] now[j]).0 == k;
        lemma_entry_at(now, j);
        lemma_entry_at(entries, j);
    }
    assert(old_map =~= new_map);
}

/// The map of a list of entries has finitely many keys.
pub proof fn lemma_finite_keys<A, B>(entries: Seq<(A, B)>)
    ensures
        entries_map(entries).dom().finite(),
    decreases entries.len(),
{
    if entries.len() > 0 {
        lemma_finite_keys(entries.drop_last());
    }
}

/// Each list counts once towards the total.
pub proof fn lemma_total_of_key<A, B>(m: Map<A, Seq<B>>, k: A)
    requires
        m.dom().finite(),
        m.contains_key(k),
    ensures
        total_len(m) == m[k].len() + total_len(m.remove(k)),
    decreases m.dom().len(),
{
    let c = m.dom().choose();
    if c != k {
        lemma_total_of_key(m.remove(c), k);
        lemma_total_of_key(m.remove(k), c);
        assert(m.remove(c).remove(k) =~= m.remove(k).remove(c));
    }
}

/// Giving a key another list changes the total by the difference of the lists.
pub proof fn lemma_total_after_insert<A, B>(m: Map<A, Seq<B>>, k: A, list: Seq<B>)
    requires
        m.dom().finite(),
    ensures
        total_len(m.insert(k, list)) + list_at(m, k).len() == total_len(m) + list.len(),
{
    let now = m.insert(k, list);
    lemma_total_of_key(now, k);
    assert(now.remove(k) =~= m.remove(k));
    if m.contains_key(k) {
        lemma_total_of_key(m, k);
    } else {
        assert(m.remove(k) =~= m);
    }
}

/// Without entries the map is empty, and one more entry gives its key the value
/// of that entry, in place of any it had.
pub proof fn lemma_later_entry_counts<A, B>(entries: Seq<(A, B)>, k: A, value: B, other: A)
    ensures
        !entries_map(Seq::<(A, B)>::empty()).contains_key(k),
        entries_map(entries.push((k, value))).contains_key(k),
        entries_map(entries.push((k, value)))[k] == value,
        other != k ==> {
            let (before, after) = (entries_map(entries), entries_map(entries.push((k, value))));
            &&& after.contains_key(other) <==> before.contains_key(other)
            &&& after.contains_key(other) ==> after[other] == before[other]
        },
{
    assert(entries.push((k, value)).drop_last() =~= entries);
}

/// A key has the list that the map has for it, and no items where it has none.
pub proof fn lemma_list_of_key<A, B>(m: Map<A, Seq<B>>, k: A)
    ensures
        m.contains_key(k) ==> list_at(m, k) == m[k],
        !m.contains_key(k) ==> list_at(m, k).len() == 0,
{
}

/// No lists have no length together, and a list for another key adds its length.
pub proof fn lemma_total_adds_up<A, B>(m: Map<A, Seq<B>>, k: A, list: Seq<B>)
    requires
        m.dom().finite(),
        !m.contains_key(k),
    ensures
        total_len(Map::<A, Seq<B>>::empty()) == 0,
        total_len(m.insert(k, list)) == total_len(m) + list.len(),
{
    lemma_total_after_insert(m, k, list);
}

/// The last entry with a key gives the key its value.
pub proof fn lemma_last_entry_counts<A, B>(entries: Seq<(A, B)>, i: int)
    requires
        0 <= i < entries.len(),
        forall|j: int| i < j < entries.len() ==> (#[trigger] entries[j]).0 != entries[i].0,
    ensures
        entries_map(entries).contains_key(entries[i].0),
        entries_map(entries)[entries[i].0] == entries[i].1,
    decreases entries.len(),
{
    if i < entries.len() - 1 {
        let rest = entries.drop_last();
        assert forall|j: int| i < j < rest.len() implies (#[trigger] rest[j]).0 != rest[i].0 by {
            assert(entries[j].0 != entries[i].0);
        }
        lemma_last_entry_counts(rest, i);
        assert(entries[entries.len() - 1].0 != entries[i].0);
    }
}

} // verus!

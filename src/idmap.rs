//! A map from keys to values, kept as a vector of entries with distinct
//! keys. It stands for the durable key-value stores of the service.
use vstd::prelude::*;

verus! {

/// A key type whose equality can be tested in executable code.
pub trait MapKey: Copy {
    /// Whether two keys are equal.
    fn same(&self, other: &Self) -> (r: bool)
        ensures
            r == (*self == *other),
    ;
}

impl MapKey for u64 {
    fn same(&self, other: &u64) -> (r: bool) {
        *self == *other
    }
}

impl MapKey for [u8; 48] {
    fn same(&self, other: &[u8; 48]) -> (r: bool) {
        let mut i: usize = 0;
        while i < 48
            invariant
                i <= 48,
                forall|k: int| 0 <= k < i ==> self@[k] == other@[k],
            decreases 48 - i,
        {
            if self[i] != other[i] {
                return false;
            }
            i = i + 1;
        }
        assert(self@ =~= other@);
        proof {
            vstd::array::axiom_array_ext_equal(*self, *other);
        }
        true
    }
}

/// One entry of an `IdMap`.
pub struct Entry<K, V> {
    pub id: K,
    pub value: V,
}

/// A finite map from ids to values.
pub struct IdMap<K, V> {
    entries: Vec<Entry<K, V>>,
}

/// Whether the ids of `s` are pairwise distinct.
pub open spec fn ids_distinct<K, V>(s: Seq<Entry<K, V>>) -> bool {
    forall|i: int, j: int| 0 <= i < j < s.len() ==> s[i].id != s[j].id
}

/// Whether `id` occurs in `s`.
pub open spec fn has_id<K, V>(s: Seq<Entry<K, V>>, id: K) -> bool {
    exists|i: int| 0 <= i < s.len() && s[i].id == id
}

/// The map that the entries `s` stand for.
pub open spec fn map_of<K, V>(s: Seq<Entry<K, V>>) -> Map<K, V> {
    Map::new(
        |id: K| has_id(s, id),
        |id: K| s[choose|i: int| 0 <= i < s.len() && s[i].id == id].value,
    )
}

/// With distinct ids, the map holds each entry's value under its id.
pub proof fn lemma_map_of_at<K, V>(s: Seq<Entry<K, V>>, k: int)
    requires
        ids_distinct(s),
        0 <= k < s.len(),
    ensures
        map_of(s).contains_key(s[k].id),
        map_of(s)[s[k].id] == s[k].value,
{
    let id = s[k].id;
    assert(has_id(s, id));
    let c = choose|i: int| 0 <= i < s.len() && s[i].id == id;
    assert(c == k);
}

/// Replacing the entry at `k` by one with the same id updates that id.
proof fn lemma_map_of_update<K, V>(s: Seq<Entry<K, V>>, k: int, e: Entry<K, V>)
    requires
        ids_distinct(s),
        0 <= k < s.len(),
        e.id == s[k].id,
    ensures
        ids_distinct(s.update(k, e)),
        map_of(s.update(k, e)) == map_of(s).insert(e.id, e.value),
{
    let t = s.update(k, e);
    assert forall|id: K| has_id(t, id) == (has_id(s, id) || id == e.id) by {
        if has_id(s, id) {
            let i = choose|i: int| 0 <= i < s.len() && s[i].id == id;
            assert(t[i].id == id);
        }
        if has_id(t, id) {
            let i = choose|i: int| 0 <= i < t.len() && t[i].id == id;
            assert(s[i].id == id);
        }
    }
    assert forall|id: K| #[trigger] map_of(t).contains_key(id) implies map_of(t)[id] == map_of(
        s,
    ).insert(e.id, e.value)[id] by {
        let i = choose|i: int| 0 <= i < t.len() && t[i].id == id;
        lemma_map_of_at(t, i);
        if id != e.id {
            lemma_map_of_at(s, i);
        }
    }
    assert(map_of(t) =~= map_of(s).insert(e.id, e.value));
}

/// Appending an entry with a new id inserts it.
proof fn lemma_map_of_push<K, V>(s: Seq<Entry<K, V>>, e: Entry<K, V>)
    requires
        ids_distinct(s),
        !has_id(s, e.id),
    ensures
        ids_distinct(s.push(e)),
        map_of(s.push(e)) == map_of(s).insert(e.id, e.value),
{
    let t = s.push(e);
    assert forall|id: K| has_id(t, id) == (has_id(s, id) || id == e.id) by {
        if has_id(s, id) {
            let i = choose|i: int| 0 <= i < s.len() && s[i].id == id;
            assert(t[i].id == id);
        }
        if id == e.id {
            assert(t[s.len() as int].id == id);
        }
        if has_id(t, id) && id != e.id {
            let i = choose|i: int| 0 <= i < t.len() && t[i].id == id;
            assert(s[i].id == id);
        }
    }
    assert forall|id: K| #[trigger] map_of(t).contains_key(id) implies map_of(t)[id] == map_of(
        s,
    ).insert(e.id, e.value)[id] by {
        let i = choose|i: int| 0 <= i < t.len() && t[i].id == id;
        lemma_map_of_at(t, i);
        if id != e.id {
            lemma_map_of_at(s, i);
        }
    }
    assert(map_of(t) =~= map_of(s).insert(e.id, e.value));
}

/// Removing the entry at `k` removes its id.
proof fn lemma_map_of_remove<K, V>(s: Seq<Entry<K, V>>, k: int)
    requires
        ids_distinct(s),
        0 <= k < s.len(),
    ensures
        ids_distinct(s.remove(k)),
        map_of(s.remove(k)) == map_of(s).remove(s[k].id),
{
    let t = s.remove(k);
    let gone = s[k].id;
    assert forall|i: int, j: int| 0 <= i < j < t.len() implies t[i].id != t[j].id by {
        let si = if i < k { i } else { i + 1 };
        let sj = if j < k { j } else { j + 1 };
        assert(s[si].id != s[sj].id);
    }
    assert forall|id: K| has_id(t, id) == (has_id(s, id) && id != gone) by {
        if has_id(s, id) && id != gone {
            let i = choose|i: int| 0 <= i < s.len() && s[i].id == id;
            if i < k {
                assert(t[i].id == id);
            } else {
                assert(t[i - 1].id == id);
            }
        }
        if has_id(t, id) {
            let i = choose|i: int| 0 <= i < t.len() && t[i].id == id;
            let si = if i < k { i } else { i + 1 };
            assert(s[si].id == id);
        }
    }
    assert forall|id: K| #[trigger] map_of(t).contains_key(id) implies map_of(t)[id] == map_of(
        s,
    )[id] by {
        let i = choose|i: int| 0 <= i < t.len() && t[i].id == id;
        lemma_map_of_at(t, i);
        let si = if i < k { i } else { i + 1 };
        lemma_map_of_at(s, si);
    }
    assert(map_of(t) =~= map_of(s).remove(gone));
}

impl<K: MapKey, V> IdMap<K, V> {
    /// The map these entries stand for.
    pub closed spec fn view(&self) -> Map<K, V> {
        map_of(self.entries@)
    }

    /// Whether the entries have distinct ids.
    pub closed spec fn wf(&self) -> bool {
        ids_distinct(self.entries@)
    }

    /// The empty map.
    pub fn new() -> (r: IdMap<K, V>)
        ensures
            r.wf(),
            r.view() == Map::<K, V>::empty(),
    {
        let r = IdMap { entries: Vec::new() };
        assert(r.view() =~= Map::<K, V>::empty());
        r
    }

    /// The number of entries.
    pub fn len(&self) -> (r: usize)
        requires
            self.wf(),
        ensures
            r == self.view().len(),
    {
        proof {
            self.lemma_len();
        }
        self.entries.len()
    }

    proof fn lemma_len(&self)
        requires
            self.wf(),
        ensures
            self.view().len() == self.entries@.len(),
        decreases self.entries@.len(),
    {
        let s = self.entries@;
        let ids = Seq::new(s.len(), |i: int| s[i].id);
        assert(self.view().dom() =~= ids.to_set()) by {
            assert forall|id: K| self.view().dom().contains(id) implies ids.to_set().contains(
                id,
            ) by {
                let i = choose|i: int| 0 <= i < s.len() && s[i].id == id;
                assert(ids[i] == id);
            }
            assert forall|id: K| ids.to_set().contains(id) implies self.view().dom().contains(
                id,
            ) by {
                let i = choose|i: int| 0 <= i < ids.len() && ids[i] == id;
                assert(s[i].id == id);
            }
        }
        assert(ids.no_duplicates());
        ids.unique_seq_to_set();
    }

    fn index_of(&self, id: K) -> (r: Option<usize>)
        requires
            self.wf(),
        ensures
            r matches Some(i) ==> i < self.entries@.len() && self.entries@[i as int].id == id,
            r is None ==> !self.view().contains_key(id),
    {
        let mut i: usize = 0;
        while i < self.entries.len()
            invariant
                i <= self.entries@.len(),
                forall|k: int| 0 <= k < i ==> self.entries@[k].id != id,
            decreases self.entries@.len() - i,
        {
            if self.entries[i].id.same(&id) {
                return Some(i);
            }
            i = i + 1;
        }
        None
    }

    /// Whether `id` has a value.
    pub fn contains(&self, id: K) -> (r: bool)
        requires
            self.wf(),
        ensures
            r == self.view().contains_key(id),
    {
        match self.index_of(id) {
            Some(i) => {
                proof {
                    lemma_map_of_at(self.entries@, i as int);
                }
                true
            },
            None => false,
        }
    }

    /// The value held for `id`.
    pub fn get(&self, id: K) -> (r: Option<&V>)
        requires
            self.wf(),
        ensures
            r matches Some(v) ==> self.view().contains_key(id) && *v == self.view()[id],
            r is None ==> !self.view().contains_key(id),
    {
        match self.index_of(id) {
            Some(i) => {
                proof {
                    lemma_map_of_at(self.entries@, i as int);
                }
                Some(&self.entries[i].value)
            },
            None => None,
        }
    }

    /// Sets the value for `id`, replacing any earlier one.
    pub fn insert(&mut self, id: K, value: V)
        requires
            old(self).wf(),
        ensures
            final(self).wf(),
            final(self).view() == old(self).view().insert(id, value),
    {
        match self.index_of(id) {
            Some(i) => {
                proof {
                    lemma_map_of_update(self.entries@, i as int, Entry { id, value });
                }
                self.entries.set(i, Entry { id, value });
            },
            None => {
                proof {
                    if has_id(self.entries@, id) {
                        let k = choose|k: int|
                            0 <= k < self.entries@.len() && self.entries@[k].id == id;
                        lemma_map_of_at(self.entries@, k);
                    }
                    lemma_map_of_push(self.entries@, Entry { id, value });
                }
                self.entries.push(Entry { id, value });
            },
        }
    }

    /// Removes the value for `id` and returns it.
    pub fn remove(&mut self, id: K) -> (r: Option<V>)
        requires
            old(self).wf(),
        ensures
            final(self).wf(),
            final(self).view() == old(self).view().remove(id),
            r matches Some(v) ==> old(self).view().contains_key(id) && v == old(self).view()[id],
            r is None ==> !old(self).view().contains_key(id),
    {
        match self.index_of(id) {
            Some(i) => {
                proof {
                    lemma_map_of_at(self.entries@, i as int);
                    lemma_map_of_remove(self.entries@, i as int);
                }
                let e = self.entries.remove(i);
                Some(e.value)
            },
            None => {
                assert(old(self).view().remove(id) =~= old(self).view());
                None
            },
        }
    }

    /// Removes every entry for which `expired` returns true, keeping the others.
    pub fn remove_where<F: Fn(&V) -> bool>(&mut self, expired: F)
        requires
            old(self).wf(),
            forall|v: &V| #[trigger] expired.requires((v,)),
        ensures
            final(self).wf(),
            forall|id: K| #[trigger]
                final(self).view().contains_key(id) ==> old(self).view().contains_key(id)
                    && final(self).view()[id] == old(self).view()[id] && expired.ensures(
                    (&old(self).view()[id],),
                    false,
                ),
            forall|id: K| #[trigger]
                old(self).view().contains_key(id) ==> final(self).view().contains_key(id)
                    || expired.ensures((&old(self).view()[id],), true),
    {
        let ghost orig = old(self).view();
        let mut i: usize = 0;
        while i < self.entries.len()
            invariant
                self.wf(),
                i <= self.entries@.len(),
                forall|v: &V| #[trigger] expired.requires((v,)),
                forall|k: int|
                    0 <= k < i ==> expired.ensures((&#[trigger] self.entries@[k].value,), false),
                forall|id: K| #[trigger]
                    self.view().contains_key(id) ==> orig.contains_key(id) && self.view()[id]
                        == orig[id],
                forall|id: K| #[trigger]
                    orig.contains_key(id) ==> self.view().contains_key(id) || expired.ensures(
                        (&orig[id],),
                        true,
                    ),
            decreases self.entries@.len() - i,
        {
            let gone = expired(&self.entries[i].value);
            if gone {
                let ghost before = self.view();
                let ghost s = self.entries@;
                proof {
                    lemma_map_of_at(s, i as int);
                    lemma_map_of_remove(s, i as int);
                }
                self.entries.remove(i);
                proof {
                    assert(self.entries@ == s.remove(i as int));
                    assert forall|k: int| 0 <= k < i implies expired.ensures(
                        (&#[trigger] self.entries@[k].value,),
                        false,
                    ) by {
                        assert(self.entries@[k] == s[k]);
                    }
                    assert forall|id: K| #[trigger]
                        self.view().contains_key(id) implies orig.contains_key(id)
                        && self.view()[id] == orig[id] by {
                        assert(before.contains_key(id));
                    }
                    assert forall|id: K| #[trigger]
                        orig.contains_key(id) implies self.view().contains_key(id)
                        || expired.ensures((&orig[id],), true) by {
                        if before.contains_key(id) && id != s[i as int].id {
                            assert(self.view().contains_key(id));
                        }
                    }
                }
            } else {
                i = i + 1;
            }
        }
        assert forall|id: K| #[trigger] self.view().contains_key(id) implies expired.ensures(
            (&orig[id],),
            false,
        ) by {
            let k = choose|k: int| 0 <= k < self.entries@.len() && self.entries@[k].id == id;
            lemma_map_of_at(self.entries@, k);
        }
    }
}

} // verus!

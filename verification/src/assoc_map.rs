use vstd::prelude::*;

verus! {

/// Keys that can be compared for equality of their views.
pub trait KeyEq: View + Sized {
    fn key_eq(&self, other: &Self) -> (r: bool)
        ensures
            r == (self@ == other@),
    ;
}

impl KeyEq for Vec<u8> {
    fn key_eq(&self, other: &Self) -> (r: bool) {
        bytes_eq(self.as_slice(), other.as_slice())
    }
}

impl KeyEq for String {
    fn key_eq(&self, other: &Self) -> (r: bool) {
        self.eq(other)
    }
}

/// Whether two byte slices hold the same bytes.
pub fn bytes_eq(a: &[u8], b: &[u8]) -> (r: bool)
    ensures
        r == (a@ == b@),
{
    if a.len() != b.len() {
        return false;
    }
    let n = a.len();
    let mut i: usize = 0;
    while i < n
        invariant
            n == a@.len(),
            n == b@.len(),
            i <= n,
            forall|j: int| 0 <= j < i ==> a@[j] == b@[j],
        decreases n - i,
    {
        if a[i] != b[i] {
            return false;
        }
        i = i + 1;
    }
    assert(a@ =~= b@);
    true
}

/// Whether no two entries of `s` have keys with the same view.
pub open spec fn keys_distinct<K: View, V>(s: Seq<(K, V)>) -> bool {
    forall|i: int, j: int|
        0 <= i < s.len() && 0 <= j < s.len() && i != j ==> #[trigger] s[i].0@ != #[trigger] s[j].0@
}

/// The map that a list of entries stands for: each key's view maps to the value of its entry.
pub open spec fn seq_to_map<K: View, V>(s: Seq<(K, V)>) -> Map<K::V, V>
    decreases s.len(),
{
    if s.len() == 0 {
        Map::empty()
    } else {
        seq_to_map(s.drop_last()).insert(s.last().0@, s.last().1)
    }
}

/// A key is in the map of a list of entries exactly when some entry has it.
pub proof fn lemma_seq_to_map_dom<K: View, V>(s: Seq<(K, V)>, k: K::V)
    ensures
        seq_to_map(s).dom().contains(k) <==> exists|i: int| 0 <= i < s.len() && #[trigger] s[i].0@ == k,
    decreases s.len(),
{
    if s.len() > 0 {
        lemma_seq_to_map_dom(s.drop_last(), k);
        if seq_to_map(s).dom().contains(k) {
            if k != s.last().0@ {
                let i = choose|i: int| 0 <= i < s.drop_last().len() && #[trigger] s.drop_last()[i].0@ == k;
                assert(s[i].0@ == k);
            } else {
                assert(s[s.len() - 1].0@ == k);
            }
        }
        if exists|i: int| 0 <= i < s.len() && #[trigger] s[i].0@ == k {
            let i = choose|i: int| 0 <= i < s.len() && #[trigger] s[i].0@ == k;
            if i < s.len() - 1 {
                assert(s.drop_last()[i].0@ == k);
            }
        }
    }
}

/// The map of a list of entries has finitely many keys.
pub proof fn lemma_seq_to_map_finite<K: View, V>(s: Seq<(K, V)>)
    ensures
        seq_to_map(s).dom().finite(),
    decreases s.len(),
{
    if s.len() > 0 {
        lemma_seq_to_map_finite(s.drop_last());
    }
}

/// Where keys are distinct, each entry's key maps to that entry's value.
pub proof fn lemma_seq_to_map_value<K: View, V>(s: Seq<(K, V)>, i: int)
    requires
        keys_distinct(s),
        0 <= i < s.len(),
    ensures
        seq_to_map(s).dom().contains(s[i].0@),
        seq_to_map(s)[s[i].0@] == s[i].1,
    decreases s.len(),
{
    if i < s.len() - 1 {
        let t = s.drop_last();
        assert(t[i] == s[i]);
        assert(keys_distinct(t)) by {
            assert forall|a: int, b: int| 0 <= a < t.len() && 0 <= b < t.len() && a != b implies
                #[trigger] t[a].0@ != #[trigger] t[b].0@ by {
                assert(t[a] == s[a] && t[b] == s[b]);
            }
        }
        lemma_seq_to_map_value(t, i);
        assert(s[i].0@ != s[s.len() - 1].0@);
    }
}

/// Where keys are distinct, the map has as many keys as there are entries.
pub proof fn lemma_seq_to_map_len<K: View, V>(s: Seq<(K, V)>)
    requires
        keys_distinct(s),
    ensures
        seq_to_map(s).dom().len() == s.len(),
    decreases s.len(),
{
    if s.len() > 0 {
        let t = s.drop_last();
        assert(keys_distinct(t)) by {
            assert forall|a: int, b: int| 0 <= a < t.len() && 0 <= b < t.len() && a != b implies
                #[trigger] t[a].0@ != #[trigger] t[b].0@ by {
                assert(t[a] == s[a] && t[b] == s[b]);
            }
        }
        lemma_seq_to_map_len(t);
        lemma_seq_to_map_finite(t);
        lemma_seq_to_map_dom(t, s.last().0@);
        if seq_to_map(t).dom().contains(s.last().0@) {
            let i = choose|i: int| 0 <= i < t.len() && #[trigger] t[i].0@ == s.last().0@;
            assert(s[i].0@ == s[s.len() - 1].0@);
        }
    }
}

/// Replacing an entry by one with the same key stores the new value under that key.
pub proof fn lemma_seq_to_map_update<K: View, V>(s: Seq<(K, V)>, i: int, e: (K, V))
    requires
        keys_distinct(s),
        0 <= i < s.len(),
        e.0@ == s[i].0@,
    ensures
        seq_to_map(s.update(i, e)) == seq_to_map(s).insert(e.0@, e.1),
        keys_distinct(s.update(i, e)),
    decreases s.len(),
{
    let u = s.update(i, e);
    assert(keys_distinct(u)) by {
        assert forall|a: int, b: int| 0 <= a < u.len() && 0 <= b < u.len() && a != b implies
            #[trigger] u[a].0@ != #[trigger] u[b].0@ by {
            assert(u[a].0@ == s[a].0@ && u[b].0@ == s[b].0@);
        }
    }
    let t = s.drop_last();
    assert(keys_distinct(t)) by {
        assert forall|a: int, b: int| 0 <= a < t.len() && 0 <= b < t.len() && a != b implies
            #[trigger] t[a].0@ != #[trigger] t[b].0@ by {
            assert(t[a] == s[a] && t[b] == s[b]);
        }
    }
    if i == s.len() - 1 {
        assert(u.drop_last() =~= t);
        assert(seq_to_map(u) =~= seq_to_map(s).insert(e.0@, e.1));
    } else {
        lemma_seq_to_map_update(t, i, e);
        assert(u.drop_last() =~= t.update(i, e));
        assert(s.last().0@ != e.0@) by {
            assert(s[s.len() - 1].0@ != s[i].0@);
        }
        assert(seq_to_map(u) =~= seq_to_map(s).insert(e.0@, e.1));
    }
}

/// Removing an entry removes its key from the map, where keys are distinct.
pub proof fn lemma_seq_to_map_remove<K: View, V>(s: Seq<(K, V)>, i: int)
    requires
        keys_distinct(s),
        0 <= i < s.len(),
    ensures
        seq_to_map(s.remove(i)) == seq_to_map(s).remove(s[i].0@),
        keys_distinct(s.remove(i)),
    decreases s.len(),
{
    let r = s.remove(i);
    assert(keys_distinct(r)) by {
        assert forall|a: int, b: int| 0 <= a < r.len() && 0 <= b < r.len() && a != b implies
            #[trigger] r[a].0@ != #[trigger] r[b].0@ by {
            let sa = if a < i { a } else { a + 1 };
            let sb = if b < i { b } else { b + 1 };
            assert(r[a] == s[sa] && r[b] == s[sb]);
        }
    }
    let t = s.drop_last();
    assert(keys_distinct(t)) by {
        assert forall|a: int, b: int| 0 <= a < t.len() && 0 <= b < t.len() && a != b implies
            #[trigger] t[a].0@ != #[trigger] t[b].0@ by {
            assert(t[a] == s[a] && t[b] == s[b]);
        }
    }
    let k = s[i].0@;
    if i == s.len() - 1 {
        assert(r =~= t);
        lemma_seq_to_map_dom(t, k);
        if seq_to_map(t).dom().contains(k) {
            let j = choose|j: int| 0 <= j < t.len() && #[trigger] t[j].0@ == k;
            assert(s[j].0@ == k);
        }
        assert(seq_to_map(r) =~= seq_to_map(s).remove(k));
    } else {
        lemma_seq_to_map_remove(t, i);
        assert(r.drop_last() =~= t.remove(i));
        assert(r.last() == s.last());
        assert(s.last().0@ != k) by {
            assert(s[s.len() - 1].0@ != s[i].0@);
        }
        assert(t[i] == s[i]);
        assert(seq_to_map(r) =~= seq_to_map(s).remove(k));
    }
}

/// A map kept as a list of entries whose keys are all distinct.
#[derive(Debug, Clone, PartialEq, Eq)]
pub struct AssocMap<K, V> {
    entries: Vec<(K, V)>,
}

impl<K: View, V> View for AssocMap<K, V> {
    type V = Map<K::V, V>;

    closed spec fn view(&self) -> Map<K::V, V> {
        seq_to_map(self.entries@)
    }
}

impl<K: KeyEq, V> AssocMap<K, V> {
    /// Whether the entries have distinct keys.
    pub closed spec fn wf(&self) -> bool {
        keys_distinct(self.entries@)
    }

    /// The entries, in the order in which the map keeps them.
    pub closed spec fn entry_seq(&self) -> Seq<(K, V)> {
        self.entries@
    }

    /// The map is the one that its entries stand for, and it is well formed exactly when
    /// their keys are distinct.
    pub proof fn lemma_view(&self)
        ensures
            self@ == seq_to_map(self.entry_seq()),
            self.wf() <==> keys_distinct(self.entry_seq()),
    {
    }

    /// An empty map.
    pub fn new() -> (r: Self)
        ensures
            r.wf(),
            r@ == Map::<K::V, V>::empty(),
    {
        AssocMap { entries: Vec::new() }
    }

    /// The position of the entry with the given key, if there is one.
    fn find(&self, key: &K) -> (r: Option<usize>)
        ensures
            r matches Some(i) ==> i < self.entries@.len() && self.entries@[i as int].0@ == key@,
            r is None ==> forall|i: int| 0 <= i < self.entries@.len() ==> #[trigger] self.entries@[i].0@ != key@,
    {
        let n = self.entries.len();
        let mut i: usize = 0;
        while i < n
            invariant
                n == self.entries@.len(),
                i <= n,
                forall|j: int| 0 <= j < i ==> #[trigger] self.entries@[j].0@ != key@,
            decreases n - i,
        {
            if self.entries[i].0.key_eq(key) {
                return Some(i);
            }
            i = i + 1;
        }
        None
    }

    /// Whether the map holds the key.
    pub fn contains_key(&self, key: &K) -> (r: bool)
        ensures
            r == self@.dom().contains(key@),
    {
        proof { lemma_seq_to_map_dom(self.entries@, key@); }
        self.find(key).is_some()
    }

    /// The value stored under the key, if any.
    pub fn get(&self, key: &K) -> (r: Option<&V>)
        requires
            self.wf(),
        ensures
            match r {
                Some(v) => self@.dom().contains(key@) && *v == self@[key@],
                None => !self@.dom().contains(key@),
            },
    {
        proof { lemma_seq_to_map_dom(self.entries@, key@); }
        match self.find(key) {
            Some(i) => {
                proof { lemma_seq_to_map_value(self.entries@, i as int); }
                Some(&self.entries[i].1)
            },
            None => None,
        }
    }

    /// The number of keys in the map.
    pub fn len(&self) -> (r: usize)
        requires
            self.wf(),
        ensures
            r == self@.dom().len(),
    {
        proof { lemma_seq_to_map_len(self.entries@); }
        self.entries.len()
    }

    /// Stores `value` under `key`, replacing any value stored there before.
    pub fn insert(&mut self, key: K, value: V)
        requires
            old(self).wf(),
        ensures
            final(self).wf(),
            final(self)@ == old(self)@.insert(key@, value),
    {
        match self.find(&key) {
            Some(i) => {
                proof { lemma_seq_to_map_update(self.entries@, i as int, (key, value)); }
                self.entries.set(i, (key, value));
            },
            None => {
                let ghost s = self.entries@;
                let ghost k = key@;
                assert(forall|i: int| 0 <= i < s.len() ==> #[trigger] s[i].0@ != k);
                self.entries.push((key, value));
                proof {
                    let t = self.entries@;
                    assert(t.drop_last() =~= s);
                    assert(t[s.len() as int].0@ == k);
                    assert forall|a: int, b: int| 0 <= a < t.len() && 0 <= b < t.len() && a != b implies
                        #[trigger] t[a].0@ != #[trigger] t[b].0@ by {
                        if a < s.len() && b < s.len() {
                            assert(t[a] == s[a]);
                            assert(t[b] == s[b]);
                        } else if a < s.len() {
                            assert(t[a] == s[a]);
                            assert(s[a].0@ != k);
                        } else {
                            assert(t[b] == s[b]);
                            assert(s[b].0@ != k);
                        }
                    }
                    assert(keys_distinct(t));
                }
            },
        }
    }

    /// Removes the entry with the given key and gives back its value, if there was one.
    pub fn remove(&mut self, key: &K) -> (r: Option<V>)
        requires
            old(self).wf(),
        ensures
            final(self).wf(),
            final(self)@ == old(self)@.remove(key@),
            match r {
                Some(v) => old(self)@.dom().contains(key@) && v == old(self)@[key@],
                None => !old(self)@.dom().contains(key@),
            },
    {
        proof { lemma_seq_to_map_dom(self.entries@, key@); }
        match self.find(key) {
            Some(i) => {
                proof {
                    lemma_seq_to_map_value(self.entries@, i as int);
                    lemma_seq_to_map_remove(self.entries@, i as int);
                }
                let (_, v) = self.entries.remove(i);
                Some(v)
            },
            None => {
                proof {
                    assert(old(self)@.remove(key@) =~= old(self)@);
                }
                None
            },
        }
    }

    /// A copy of the map, for maps whose keys and values are plain copyable data.
    pub fn duplicate(&self) -> (r: Self)
        where K: Copy, V: Copy,
        ensures
            r@ == self@,
            r.wf() == self.wf(),
            r.entry_seq() == self.entry_seq(),
    {
        let mut entries: Vec<(K, V)> = Vec::new();
        let n = self.entries.len();
        let mut i: usize = 0;
        while i < n
            invariant
                n == self.entries@.len(),
                i <= n,
                entries@ == self.entries@.take(i as int),
            decreases n - i,
        {
            let e = self.entries[i];
            entries.push(e);
            i = i + 1;
            assert(entries@ =~= self.entries@.take(i as int));
        }
        assert(entries@ =~= self.entries@);
        AssocMap { entries }
    }

    /// The map whose entries, in this order, are `entries`; their keys must be distinct.
    pub fn from_entries(entries: Vec<(K, V)>) -> (r: Self)
        requires
            keys_distinct(entries@),
        ensures
            r.wf(),
            r.entry_seq() == entries@,
            r@ == seq_to_map(entries@),
    {
        AssocMap { entries }
    }

    /// The entries, in the order in which the map keeps them.
    pub fn into_entries(self) -> (r: Vec<(K, V)>)
        ensures
            r@ == self.entry_seq(),
    {
        self.entries
    }

    /// The entry at a position, for walking the map.
    pub fn entry_at(&self, i: usize) -> (r: &(K, V))
        requires
            i < self.entry_seq().len(),
        ensures
            *r == self.entry_seq()[i as int],
    {
        &self.entries[i]
    }

    /// The number of entries, for walking the map.
    pub fn entry_count(&self) -> (r: usize)
        ensures
            r == self.entry_seq().len(),
    {
        self.entries.len()
    }
}

} // verus!

//! A map keyed by strings, kept as a vector of entries with distinct keys.
//! It stands for the `HashMap<String, _>` and `BTreeMap<String, _>` fields of
//! the Kubernetes objects (labels, properties, back-off tables).

use vstd::prelude::*;

verus! {

pub open spec fn keys_distinct<V>(s: Seq<(String, V)>) -> bool {
    forall|i: int, j: int|
        0 <= i < s.len() && 0 <= j < s.len() && i != j ==> #[trigger] s[i].0@ != #[trigger] s[j].0@
}

/// The map that a sequence of entries denotes (a later entry wins).
pub open spec fn map_of<V: View>(s: Seq<(String, V)>) -> Map<Seq<char>, V::V>
    decreases s.len(),
{
    if s.len() == 0 {
        Map::empty()
    } else {
        map_of(s.drop_last()).insert(s.last().0@, s.last().1@)
    }
}

pub proof fn lemma_map_of_dom<V: View>(s: Seq<(String, V)>, k: Seq<char>)
    ensures
        map_of(s).contains_key(k) <==> exists|i: int| 0 <= i < s.len() && #[trigger] s[i].0@ == k,
    decreases s.len(),
{
    if s.len() > 0 {
        lemma_map_of_dom(s.drop_last(), k);
        if map_of(s).contains_key(k) && s.last().0@ != k {
            let i = choose|i: int| 0 <= i < s.drop_last().len() && #[trigger] s.drop_last()[i].0@ == k;
            assert(s[i].0@ == k);
        }
        if exists|i: int| 0 <= i < s.len() && #[trigger] s[i].0@ == k {
            let i = choose|i: int| 0 <= i < s.len() && #[trigger] s[i].0@ == k;
            if i < s.len() - 1 {
                assert(s.drop_last()[i].0@ == k);
            }
        }
    }
}

pub proof fn lemma_map_of_index<V: View>(s: Seq<(String, V)>, i: int)
    requires
        keys_distinct(s),
        0 <= i < s.len(),
    ensures
        map_of(s).contains_key(s[i].0@),
        map_of(s)[s[i].0@] == s[i].1@,
    decreases s.len(),
{
    if i < s.len() - 1 {
        let t = s.drop_last();
        assert(t[i] == s[i]);
        assert(s.last().0@ != s[i].0@);
        assert(keys_distinct(t)) by {
            assert forall|a: int, b: int|
                0 <= a < t.len() && 0 <= b < t.len() && a != b implies #[trigger] t[a].0@
                != #[trigger] t[b].0@ by {
                assert(t[a] == s[a] && t[b] == s[b]);
            }
        }
        lemma_map_of_index(t, i);
    }
}

pub proof fn lemma_map_of_update<V: View>(s: Seq<(String, V)>, i: int, e: (String, V))
    requires
        keys_distinct(s),
        0 <= i < s.len(),
        s[i].0@ == e.0@,
    ensures
        keys_distinct(s.update(i, e)),
        map_of(s.update(i, e)) == map_of(s).insert(e.0@, e.1@),
{
    let t = s.update(i, e);
    assert(keys_distinct(t)) by {
        assert forall|a: int, b: int|
            0 <= a < t.len() && 0 <= b < t.len() && a != b implies #[trigger] t[a].0@
            != #[trigger] t[b].0@ by {
            assert(t[a].0@ == s[a].0@);
            assert(t[b].0@ == s[b].0@);
        }
    }
    assert forall|k: Seq<char>| #[trigger]
        map_of(t).contains_key(k) == map_of(s).insert(e.0@, e.1@).contains_key(k) by {
        lemma_map_of_dom(t, k);
        lemma_map_of_dom(s, k);
        if exists|j: int| 0 <= j < s.len() && #[trigger] s[j].0@ == k {
            let j = choose|j: int| 0 <= j < s.len() && #[trigger] s[j].0@ == k;
            assert(t[j].0@ == k);
        }
        if exists|j: int| 0 <= j < t.len() && #[trigger] t[j].0@ == k {
            let j = choose|j: int| 0 <= j < t.len() && #[trigger] t[j].0@ == k;
            assert(s[j].0@ == k);
        }
    }
    assert forall|k: Seq<char>| #[trigger] map_of(t).contains_key(k) implies map_of(t)[k]
        == map_of(s).insert(e.0@, e.1@)[k] by {
        lemma_map_of_dom(t, k);
        let j = choose|j: int| 0 <= j < t.len() && #[trigger] t[j].0@ == k;
        lemma_map_of_index(t, j);
        if j != i {
            assert(t[j] == s[j]);
            lemma_map_of_index(s, j);
        }
    }
    assert(map_of(t) =~= map_of(s).insert(e.0@, e.1@));
}

/// A finite map from strings to values, with at most one entry per key.
pub struct StrMap<V: View> {
    entries: Vec<(String, V)>,
}

/// Labels, annotations and properties of Kubernetes objects.
pub type StringMap = StrMap<String>;

impl<V: View> View for StrMap<V> {
    type V = Map<Seq<char>, V::V>;

    closed spec fn view(&self) -> Map<Seq<char>, V::V> {
        map_of(self.entries@)
    }
}

impl<V: View> StrMap<V> {
    #[verifier::type_invariant]
    closed spec fn wf(self) -> bool {
        keys_distinct(self.entries@)
    }

    /// The entries in the order in which their keys were first inserted.
    pub closed spec fn entry_seq(&self) -> Seq<(String, V)> {
        self.entries@
    }

    pub fn new() -> (m: Self)
        ensures
            m@ == Map::<Seq<char>, V::V>::empty(),
            m.entry_seq().len() == 0,
    {
        StrMap { entries: Vec::new() }
    }

    pub fn len(&self) -> (n: usize)
        ensures
            n == self.entry_seq().len(),
            n == self@.dom().len(),
            self@.dom().finite(),
            forall|k: Seq<char>|
                self@.contains_key(k) <==> exists|i: int|
                    0 <= i < n && #[trigger] self.entry_seq()[i].0@ == k,
            keys_distinct(self.entry_seq()),
    {
        proof {
            use_type_invariant(self);
            self.lemma_len();
            assert forall|k: Seq<char>|
                self@.contains_key(k) <==> exists|i: int|
                    0 <= i < self.entries@.len() && #[trigger] self.entry_seq()[i].0@ == k by {
                lemma_map_of_dom(self.entries@, k);
                if exists|i: int| 0 <= i < self.entries@.len() && #[trigger] self.entries@[i].0@ == k {
                    let i = choose|i: int| 0 <= i < self.entries@.len() && #[trigger] self.entries@[i].0@ == k;
                    assert(self.entry_seq()[i].0@ == k);
                }
            }
        }
        self.entries.len()
    }

    proof fn lemma_len(&self)
        requires
            keys_distinct(self.entries@),
        ensures
            self@.dom().len() == self.entries@.len(),
            self@.dom().finite(),
    {
        lemma_map_of_len(self.entries@);
    }

    /// The key and value of the entry at position `i`.
    pub fn entry(&self, i: usize) -> (e: (&String, &V))
        requires
            i < self.entry_seq().len(),
        ensures
            *e.0 == self.entry_seq()[i as int].0,
            *e.1 == self.entry_seq()[i as int].1,
            self@.contains_key(e.0@),
            self@[e.0@] == e.1@,
    {
        proof {
            use_type_invariant(self);
            lemma_map_of_index(self.entries@, i as int);
        }
        let e = &self.entries[i];
        (&e.0, &e.1)
    }

    fn find(&self, key: &String) -> (r: Option<usize>)
        requires
            keys_distinct(self.entries@),
        ensures
            match r {
                Some(i) => i < self.entries@.len() && self.entries@[i as int].0@ == key@,
                None => !self@.contains_key(key@),
            },
    {
        let mut i: usize = 0;
        while i < self.entries.len()
            invariant
                i <= self.entries@.len(),
                forall|j: int| 0 <= j < i ==> #[trigger] self.entries@[j].0@ != key@,
            decreases self.entries@.len() - i,
        {
            if self.entries[i].0 == *key {
                return Some(i);
            }
            i = i + 1;
        }
        proof {
            lemma_map_of_dom(self.entries@, key@);
        }
        None
    }

    pub fn contains_key(&self, key: &String) -> (b: bool)
        ensures
            b == self@.contains_key(key@),
    {
        proof {
            use_type_invariant(self);
        }
        match self.find(key) {
            Some(i) => {
                proof {
                    lemma_map_of_index(self.entries@, i as int);
                }
                true
            },
            None => false,
        }
    }

    pub fn get(&self, key: &String) -> (r: Option<&V>)
        ensures
            r is Some == self@.contains_key(key@),
            r matches Some(v) ==> v@ == self@[key@],
    {
        proof {
            use_type_invariant(self);
        }
        match self.find(key) {
            Some(i) => {
                proof {
                    lemma_map_of_index(self.entries@, i as int);
                }
                Some(&self.entries[i].1)
            },
            None => None,
        }
    }

    pub fn insert(&mut self, key: String, value: V)
        ensures
            final(self)@ == old(self)@.insert(key@, value@),
    {
        proof {
            use_type_invariant(&*self);
        }
        let found = self.find(&key);
        let mut entries: Vec<(String, V)> = Vec::new();
        std::mem::swap(&mut entries, &mut self.entries);
        let ghost s = entries@;
        match found {
            Some(i) => {
                proof {
                    lemma_map_of_update(s, i as int, (key, value));
                }
                entries.set(i, (key, value));
            },
            None => {
                proof {
                    lemma_map_of_dom(s, key@);
                }
                entries.push((key, value));
                assert(entries@.drop_last() =~= s);
                assert(keys_distinct(entries@)) by {
                    assert forall|a: int, b: int|
                        0 <= a < entries@.len() && 0 <= b < entries@.len() && a != b
                        implies #[trigger] entries@[a].0@ != #[trigger] entries@[b].0@ by {
                        if a < s.len() && b < s.len() {
                            assert(entries@[a] == s[a] && entries@[b] == s[b]);
                        } else if a < s.len() {
                            assert(entries@[a] == s[a]);
                        } else {
                            assert(entries@[b] == s[b]);
                        }
                    }
                }
            },
        }
        self.entries = entries;
    }
}

impl<V: View> StrMap<V> {
    /// Removes the entry of `key`, if any, and hands back its value.
    pub fn remove(&mut self, key: &String) -> (r: Option<V>)
        ensures
            final(self)@ == old(self)@.remove(key@),
            r is Some == old(self)@.contains_key(key@),
            r matches Some(v) ==> v@ == old(self)@[key@],
    {
        proof {
            use_type_invariant(&*self);
        }
        let found = self.find(key);
        match found {
            None => {
                assert(self@ =~= self@.remove(key@));
                None
            },
            Some(i) => {
                let mut entries: Vec<(String, V)> = Vec::new();
                std::mem::swap(&mut entries, &mut self.entries);
                let ghost s = entries@;
                proof {
                    lemma_map_of_index(s, i as int);
                }
                let (_k, v) = entries.remove(i);
                proof {
                    lemma_map_of_remove(s, i as int);
                }
                self.entries = entries;
                Some(v)
            },
        }
    }
}

pub proof fn lemma_map_of_remove<V: View>(s: Seq<(String, V)>, i: int)
    requires
        keys_distinct(s),
        0 <= i < s.len(),
    ensures
        keys_distinct(s.remove(i)),
        map_of(s.remove(i)) == map_of(s).remove(s[i].0@),
{
    let t = s.remove(i);
    let k = s[i].0@;
    assert forall|a: int| 0 <= a < t.len() implies #[trigger] t[a] == s[if a < i { a } else { a + 1 }] by {}
    assert(keys_distinct(t)) by {
        assert forall|a: int, b: int|
            0 <= a < t.len() && 0 <= b < t.len() && a != b implies #[trigger] t[a].0@
            != #[trigger] t[b].0@ by {
            let a2 = if a < i { a } else { a + 1 };
            let b2 = if b < i { b } else { b + 1 };
            assert(t[a] == s[a2] && t[b] == s[b2]);
        }
    }
    assert forall|kk: Seq<char>| #[trigger]
        map_of(t).contains_key(kk) == map_of(s).remove(k).contains_key(kk) by {
        lemma_map_of_dom(t, kk);
        lemma_map_of_dom(s, kk);
        if exists|j: int| 0 <= j < s.len() && #[trigger] s[j].0@ == kk {
            let j = choose|j: int| 0 <= j < s.len() && #[trigger] s[j].0@ == kk;
            if j < i {
                assert(t[j] == s[j]);
            } else if j > i {
                assert(t[j - 1] == s[j]);
            }
        }
        if exists|j: int| 0 <= j < t.len() && #[trigger] t[j].0@ == kk {
            let j = choose|j: int| 0 <= j < t.len() && #[trigger] t[j].0@ == kk;
            let j2 = if j < i { j } else { j + 1 };
            assert(t[j] == s[j2]);
        }
    }
    assert forall|kk: Seq<char>| #[trigger] map_of(t).contains_key(kk) implies map_of(t)[kk]
        == map_of(s).remove(k)[kk] by {
        lemma_map_of_dom(t, kk);
        let j = choose|j: int| 0 <= j < t.len() && #[trigger] t[j].0@ == kk;
        let j2 = if j < i { j } else { j + 1 };
        assert(t[j] == s[j2]);
        lemma_map_of_index(t, j);
        lemma_map_of_index(s, j2);
    }
    assert(map_of(t) =~= map_of(s).remove(k));
}

pub proof fn lemma_map_of_len<V: View>(s: Seq<(String, V)>)
    requires
        keys_distinct(s),
    ensures
        map_of(s).dom().finite(),
        map_of(s).dom().len() == s.len(),
    decreases s.len(),
{
    if s.len() > 0 {
        let t = s.drop_last();
        assert(keys_distinct(t)) by {
            assert forall|a: int, b: int|
                0 <= a < t.len() && 0 <= b < t.len() && a != b implies #[trigger] t[a].0@
                != #[trigger] t[b].0@ by {
                assert(t[a] == s[a] && t[b] == s[b]);
            }
        }
        lemma_map_of_len(t);
        lemma_map_of_dom(t, s.last().0@);
        if map_of(t).contains_key(s.last().0@) {
            let i = choose|i: int| 0 <= i < t.len() && #[trigger] t[i].0@ == s.last().0@;
            assert(s[i].0@ == s[s.len() - 1].0@);
        }
    }
}

impl StrMap<String> {
    pub fn clone_map(&self) -> (m: Self)
        ensures
            m@ == self@,
            m.entry_seq() == self.entry_seq(),
    {
        proof {
            use_type_invariant(self);
        }
        let mut entries: Vec<(String, String)> = Vec::new();
        let mut i: usize = 0;
        while i < self.entries.len()
            invariant
                i <= self.entries@.len(),
                entries@.len() == i,
                forall|j: int| 0 <= j < i ==> #[trigger] entries@[j] == self.entries@[j],
            decreases self.entries@.len() - i,
        {
            let k = self.entries[i].0.clone();
            let v = self.entries[i].1.clone();
            entries.push((k, v));
            i = i + 1;
        }
        assert(entries@ =~= self.entries@);
        StrMap { entries }
    }

    /// Inserts every entry of `other`, whose values win over those of `self`.
    pub fn extend(&mut self, other: &StringMap)
        ensures
            final(self)@ == old(self)@.union_prefer_right(other@),
    {
        proof {
            use_type_invariant(other);
        }
        let ghost start = self@;
        let mut i: usize = 0;
        while i < other.entries.len()
            invariant
                i <= other.entries@.len(),
                keys_distinct(other.entries@),
                self@ == start.union_prefer_right(map_of(other.entries@.take(i as int))),
            decreases other.entries@.len() - i,
        {
            let k = other.entries[i].0.clone();
            let v = other.entries[i].1.clone();
            let ghost before = self@;
            self.insert(k, v);
            proof {
                let t = other.entries@.take(i + 1);
                assert(t.drop_last() =~= other.entries@.take(i as int));
                assert(self@ =~= start.union_prefer_right(map_of(t)));
            }
            i = i + 1;
        }
        assert(other.entries@.take(other.entries@.len() as int) =~= other.entries@);
    }
}

} // verus!

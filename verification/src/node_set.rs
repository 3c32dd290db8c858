//! A finite set of node names.

use vstd::prelude::*;
use crate::string_map::StrMap;

verus! {

/// A set of node names, each held once.
pub struct NodeSet {
    m: StrMap<()>,
}

impl View for NodeSet {
    type V = Set<Seq<char>>;

    closed spec fn view(&self) -> Set<Seq<char>> {
        self.m@.dom()
    }
}

impl NodeSet {
    pub fn new() -> (s: NodeSet)
        ensures
            s@ == Set::<Seq<char>>::empty(),
    {
        let s = NodeSet { m: StrMap::new() };
        assert(s@ =~= Set::<Seq<char>>::empty());
        s
    }

    pub fn contains(&self, node: &String) -> (b: bool)
        ensures
            b == self@.contains(node@),
    {
        self.m.contains_key(node)
    }

    pub fn insert(&mut self, node: String)
        ensures
            final(self)@ == old(self)@.insert(node@),
    {
        self.m.insert(node, ());
        assert(self@ =~= old(self)@.insert(node@));
    }

    /// Adds every name of `nodes`.
    pub fn insert_all(&mut self, nodes: &Vec<String>)
        ensures
            final(self)@ == old(self)@ + nodes.deep_view().to_set(),
    {
        let ghost start = self@;
        let mut i: usize = 0;
        while i < nodes.len()
            invariant
                i <= nodes@.len(),
                self@ == start + nodes.deep_view().take(i as int).to_set(),
            decreases nodes@.len() - i,
        {
            self.insert(nodes[i].clone());
            proof {
                let t = nodes.deep_view().take(i + 1);
                assert(t =~= nodes.deep_view().take(i as int).push(nodes@[i as int]@));
                assert(self@ =~= start + t.to_set()) by {
                    assert forall|x: Seq<char>| #[trigger] t.to_set().contains(x)
                        == (nodes.deep_view().take(i as int).to_set().contains(x) || x
                        == nodes@[i as int]@) by {
                        if t.contains(x) && x != nodes@[i as int]@ {
                            let j = choose|j: int| 0 <= j < t.len() && t[j] == x;
                            assert(nodes.deep_view().take(i as int)[j] == x);
                        }
                        if nodes.deep_view().take(i as int).contains(x) {
                            let j = choose|j: int|
                                0 <= j < i && nodes.deep_view().take(i as int)[j] == x;
                            assert(t[j] == x);
                        }
                        if x == nodes@[i as int]@ {
                            assert(t[i as int] == x);
                        }
                    }
                }
            }
            i = i + 1;
        }
        assert(nodes.deep_view().take(nodes@.len() as int) =~= nodes.deep_view());
    }

    pub fn from_strings(nodes: &Vec<String>) -> (s: NodeSet)
        ensures
            s@ == nodes.deep_view().to_set(),
    {
        let mut s = NodeSet::new();
        s.insert_all(nodes);
        assert(s@ =~= nodes.deep_view().to_set());
        s
    }

    /// The names of `self` that `other` lacks.
    pub fn difference(&self, other: &NodeSet) -> (d: NodeSet)
        ensures
            d@ == self@.difference(other@),
    {
        let n = self.m.len();
        let mut d = NodeSet::new();
        let mut i: usize = 0;
        while i < n
            invariant
                i <= n,
                n == self.m.entry_seq().len(),
                forall|k: Seq<char>|
                    self.m@.contains_key(k) <==> exists|j: int|
                        0 <= j < n && #[trigger] self.m.entry_seq()[j].0@ == k,
                forall|k: Seq<char>|
                    d@.contains(k) <==> (!other@.contains(k) && exists|j: int|
                        0 <= j < i && #[trigger] self.m.entry_seq()[j].0@ == k),
            decreases n - i,
        {
            let (k, _) = self.m.entry(i);
            if !other.contains(k) {
                d.insert(k.clone());
            }
            proof {
                assert forall|kk: Seq<char>|
                    d@.contains(kk) <==> (!other@.contains(kk) && exists|j: int|
                        0 <= j < i + 1 && #[trigger] self.m.entry_seq()[j].0@ == kk) by {
                    if exists|j: int| 0 <= j < i + 1 && #[trigger] self.m.entry_seq()[j].0@ == kk {
                        let j = choose|j: int|
                            0 <= j < i + 1 && #[trigger] self.m.entry_seq()[j].0@ == kk;
                        if j < i {
                            assert(exists|j2: int|
                                0 <= j2 < i && #[trigger] self.m.entry_seq()[j2].0@ == kk);
                        }
                    }
                    if exists|j: int| 0 <= j < i && #[trigger] self.m.entry_seq()[j].0@ == kk {
                        let j = choose|j: int| 0 <= j < i && #[trigger] self.m.entry_seq()[j].0@ == kk;
                        assert(0 <= j < i + 1);
                    }
                }
            }
            i = i + 1;
        }
        assert(d@ =~= self@.difference(other@));
        d
    }

    /// The names, each once, in the order they were first added.
    pub fn to_vec(&self) -> (v: Vec<String>)
        ensures
            v.deep_view().to_set() == self@,
            v.deep_view().no_duplicates(),
    {
        let n = self.m.len();
        let mut v: Vec<String> = Vec::new();
        let mut i: usize = 0;
        while i < n
            invariant
                i <= n,
                n == self.m.entry_seq().len(),
                v@.len() == i,
                crate::string_map::keys_distinct(self.m.entry_seq()),
                forall|k: Seq<char>|
                    self.m@.contains_key(k) <==> exists|j: int|
                        0 <= j < n && #[trigger] self.m.entry_seq()[j].0@ == k,
                forall|j: int| 0 <= j < i ==> #[trigger] v@[j]@ == self.m.entry_seq()[j].0@,
                forall|j: int| 0 <= j < i ==> self@.contains(#[trigger] v@[j]@),
                forall|a: int, b: int| 0 <= a < b < i ==> #[trigger] v@[a]@ != #[trigger] v@[b]@,
            decreases n - i,
        {
            let (k, _) = self.m.entry(i);
            proof {
                assert forall|a: int| 0 <= a < i implies #[trigger] v@[a]@ != k@ by {
                    assert(v@[a]@ == self.m.entry_seq()[a].0@);
                }
            }
            v.push(k.clone());
            i = i + 1;
        }
        assert forall|x: Seq<char>| #[trigger] v.deep_view().to_set().contains(x) == self@.contains(
            x,
        ) by {
            if self@.contains(x) {
                let j = choose|j: int| 0 <= j < n && #[trigger] self.m.entry_seq()[j].0@ == x;
                assert(v.deep_view()[j] == x);
            }
            if v.deep_view().contains(x) {
                let j = choose|j: int| 0 <= j < v.deep_view().len() && v.deep_view()[j] == x;
                assert(v@[j]@ == x);
            }
        }
        assert(v.deep_view().to_set() =~= self@);
        assert forall|a: int, b: int|
            0 <= a < v.deep_view().len() && 0 <= b < v.deep_view().len() && a != b implies v.deep_view()[a]
            != v.deep_view()[b] by {
            if a < b {
                assert(v@[a]@ != v@[b]@);
            } else {
                assert(v@[b]@ != v@[a]@);
            }
        }
        v
    }
}

} // verus!

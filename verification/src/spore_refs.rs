//! References to Spores, and which Spores watch which DiscoveryConfiguration.

use vstd::prelude::*;
use crate::string_map::StrMap;
use crate::strings::{clone_opt_string, opt_str_view, opt_string_eq};

verus! {

/// A namespaced reference to a Spore (an `ObjectRef<Spore>`; two references
/// are equal when name and namespace are).
pub struct SporeRef {
    pub namespace: Option<String>,
    pub name: String,
}

pub type SporeRefView = (Option<Seq<char>>, Seq<char>);

impl View for SporeRef {
    type V = SporeRefView;

    open spec fn view(&self) -> SporeRefView {
        (opt_str_view(self.namespace), self.name@)
    }
}

impl SporeRef {
    pub fn clone_ref(&self) -> (r: SporeRef)
        ensures
            r@ == self@,
    {
        SporeRef { namespace: clone_opt_string(&self.namespace), name: self.name.clone() }
    }

    pub fn same_as(&self, other: &SporeRef) -> (b: bool)
        ensures
            b == (self@ == other@),
    {
        opt_string_eq(&self.namespace, &other.namespace) && self.name == other.name
    }
}

pub open spec fn refs_distinct(s: Seq<SporeRef>) -> bool {
    forall|i: int, j: int| 0 <= i < s.len() && 0 <= j < s.len() && i != j ==> #[trigger] s[i]@ != #[trigger] s[j]@
}

pub open spec fn refs_set(s: Seq<SporeRef>) -> Set<SporeRefView> {
    s.map_values(|r: SporeRef| r@).to_set()
}

/// A set of Spore references, each held once.
pub struct SporeRefSet {
    refs: Vec<SporeRef>,
}

impl View for SporeRefSet {
    type V = Set<SporeRefView>;

    closed spec fn view(&self) -> Set<SporeRefView> {
        refs_set(self.refs@)
    }
}

proof fn lemma_refs_set_contains(s: Seq<SporeRef>, x: SporeRefView)
    ensures
        refs_set(s).contains(x) <==> exists|i: int| 0 <= i < s.len() && #[trigger] s[i]@ == x,
{
    let m = s.map_values(|r: SporeRef| r@);
    if refs_set(s).contains(x) {
        let i = choose|i: int| 0 <= i < m.len() && m[i] == x;
        assert(s[i]@ == x);
    }
    if exists|i: int| 0 <= i < s.len() && #[trigger] s[i]@ == x {
        let i = choose|i: int| 0 <= i < s.len() && #[trigger] s[i]@ == x;
        assert(m[i] == x);
    }
}

impl SporeRefSet {
    #[verifier::type_invariant]
    closed spec fn wf(self) -> bool {
        refs_distinct(self.refs@)
    }

    pub fn new() -> (s: SporeRefSet)
        ensures
            s@ == Set::<SporeRefView>::empty(),
    {
        let s = SporeRefSet { refs: Vec::new() };
        assert(s@ =~= Set::<SporeRefView>::empty());
        s
    }

    fn find(&self, r: &SporeRef) -> (p: Option<usize>)
        ensures
            match p {
                Some(i) => i < self.refs@.len() && self.refs@[i as int]@ == r@,
                None => !self@.contains(r@),
            },
    {
        let mut i: usize = 0;
        while i < self.refs.len()
            invariant
                i <= self.refs@.len(),
                forall|j: int| 0 <= j < i ==> #[trigger] self.refs@[j]@ != r@,
            decreases self.refs@.len() - i,
        {
            if self.refs[i].same_as(r) {
                return Some(i);
            }
            i = i + 1;
        }
        proof {
            lemma_refs_set_contains(self.refs@, r@);
        }
        None
    }

    pub fn contains(&self, r: &SporeRef) -> (b: bool)
        ensures
            b == self@.contains(r@),
    {
        match self.find(r) {
            Some(i) => {
                proof {
                    lemma_refs_set_contains(self.refs@, r@);
                }
                true
            },
            None => false,
        }
    }

    pub fn is_empty(&self) -> (b: bool)
        ensures
            b == (self@ == Set::<SporeRefView>::empty()),
    {
        if self.refs.len() == 0 {
            assert(self@ =~= Set::<SporeRefView>::empty());
            true
        } else {
            assert(self@.contains(self.refs@[0]@)) by {
                lemma_refs_set_contains(self.refs@, self.refs@[0]@);
            }
            false
        }
    }

    pub fn insert(&mut self, r: SporeRef)
        ensures
            final(self)@ == old(self)@.insert(r@),
    {
        proof {
            use_type_invariant(&*self);
        }
        if self.find(&r).is_some() {
            proof {
                lemma_refs_set_contains(self.refs@, r@);
            }
            assert(self@ =~= old(self)@.insert(r@));
            return;
        }
        let mut refs: Vec<SporeRef> = Vec::new();
        std::mem::swap(&mut refs, &mut self.refs);
        let ghost s = refs@;
        proof {
            lemma_refs_set_contains(s, r@);
        }
        refs.push(r);
        assert(refs_distinct(refs@)) by {
            assert forall|a: int, b: int|
                0 <= a < refs@.len() && 0 <= b < refs@.len() && a != b implies #[trigger] refs@[a]@
                != #[trigger] refs@[b]@ by {
                if a < s.len() && b < s.len() {
                    assert(refs@[a] == s[a] && refs@[b] == s[b]);
                } else if a < s.len() {
                    assert(refs@[a] == s[a]);
                } else {
                    assert(refs@[b] == s[b]);
                }
            }
        }
        assert forall|x: SporeRefView| #[trigger] refs_set(refs@).contains(x) == refs_set(
            s,
        ).insert(r@).contains(x) by {
            lemma_refs_set_contains(refs@, x);
            lemma_refs_set_contains(s, x);
            if exists|i: int| 0 <= i < s.len() && #[trigger] s[i]@ == x {
                let i = choose|i: int| 0 <= i < s.len() && #[trigger] s[i]@ == x;
                assert(refs@[i] == s[i]);
            }
            if exists|i: int| 0 <= i < refs@.len() && #[trigger] refs@[i]@ == x {
                let i = choose|i: int| 0 <= i < refs@.len() && #[trigger] refs@[i]@ == x;
                if i < s.len() {
                    assert(refs@[i] == s[i]);
                }
            }
            assert(refs@[s.len() as int]@ == r@);
        }
        assert(refs_set(refs@) =~= refs_set(s).insert(r@));
        self.refs = refs;
    }

    pub fn remove(&mut self, r: &SporeRef)
        ensures
            final(self)@ == old(self)@.remove(r@),
    {
        proof {
            use_type_invariant(&*self);
        }
        match self.find(r) {
            None => {
                assert(self@ =~= old(self)@.remove(r@));
            },
            Some(i) => {
                let mut refs: Vec<SporeRef> = Vec::new();
                std::mem::swap(&mut refs, &mut self.refs);
                let ghost s = refs@;
                refs.remove(i);
                let ghost t = refs@;
                assert forall|a: int| 0 <= a < t.len() implies #[trigger] t[a] == s[
                    if a < i {
                        a
                    } else {
                        a + 1
                    }
                ] by {}
                assert(refs_distinct(t)) by {
                    assert forall|a: int, b: int|
                        0 <= a < t.len() && 0 <= b < t.len() && a != b implies #[trigger] t[a]@
                        != #[trigger] t[b]@ by {
                        let a2 = if a < i { a } else { a + 1 };
                        let b2 = if b < i { b } else { b + 1 };
                        assert(t[a] == s[a2] && t[b] == s[b2]);
                    }
                }
                assert forall|x: SporeRefView| #[trigger] refs_set(t).contains(x) == refs_set(
                    s,
                ).remove(r@).contains(x) by {
                    lemma_refs_set_contains(t, x);
                    lemma_refs_set_contains(s, x);
                    if exists|j: int| 0 <= j < s.len() && #[trigger] s[j]@ == x {
                        let j = choose|j: int| 0 <= j < s.len() && #[trigger] s[j]@ == x;
                        if j < i {
                            assert(t[j] == s[j]);
                        } else if j > i {
                            assert(t[j - 1] == s[j]);
                        }
                    }
                    if exists|j: int| 0 <= j < t.len() && #[trigger] t[j]@ == x {
                        let j = choose|j: int| 0 <= j < t.len() && #[trigger] t[j]@ == x;
                        let j2 = if j < i { j } else { j + 1 };
                        assert(t[j] == s[j2]);
                        assert(j2 != i);
                    }
                }
                assert(refs_set(t) =~= refs_set(s).remove(r@));
                self.refs = refs;
            },
        }
    }

    /// The references, each once.
    pub fn to_vec(&self) -> (v: Vec<SporeRef>)
        ensures
            refs_set(v@) == self@,
            refs_distinct(v@),
    {
        proof {
            use_type_invariant(self);
        }
        let mut v: Vec<SporeRef> = Vec::new();
        let mut i: usize = 0;
        while i < self.refs.len()
            invariant
                i <= self.refs@.len(),
                v@.len() == i,
                forall|j: int| 0 <= j < i ==> #[trigger] v@[j]@ == self.refs@[j]@,
            decreases self.refs@.len() - i,
        {
            v.push(self.refs[i].clone_ref());
            i = i + 1;
        }
        assert(v@.map_values(|r: SporeRef| r@) =~= self.refs@.map_values(|r: SporeRef| r@));
        assert(refs_distinct(v@)) by {
            assert forall|a: int, b: int|
                0 <= a < v@.len() && 0 <= b < v@.len() && a != b implies #[trigger] v@[a]@
                != #[trigger] v@[b]@ by {
                assert(v@[a]@ == self.refs@[a]@ && v@[b]@ == self.refs@[b]@);
            }
        }
        v
    }
}

/// The configuration-to-Spores registry after `watch`.
pub open spec fn spec_watch(
    m: Map<Seq<char>, Set<SporeRefView>>,
    config: Seq<char>,
    r: SporeRefView,
) -> Map<Seq<char>, Set<SporeRefView>> {
    let before = if m.contains_key(config) {
        m[config]
    } else {
        Set::empty()
    };
    m.insert(config, before.insert(r))
}

/// The registry after `unwatch`: a configuration whose last Spore leaves is
/// dropped.
pub open spec fn spec_unwatch(
    m: Map<Seq<char>, Set<SporeRefView>>,
    config: Seq<char>,
    r: SporeRefView,
) -> Map<Seq<char>, Set<SporeRefView>> {
    if m.contains_key(config) {
        if m[config].remove(r) == Set::<SporeRefView>::empty() {
            m.remove(config)
        } else {
            m.insert(config, m[config].remove(r))
        }
    } else {
        m
    }
}

/// No configuration is watched by an empty set of Spores.
pub open spec fn no_empty_entries(m: Map<Seq<char>, Set<SporeRefView>>) -> bool {
    forall|c: Seq<char>| #[trigger] m.contains_key(c) ==> m[c] != Set::<SporeRefView>::empty()
}

/// Which Spores watch the Instances of which DiscoveryConfiguration, so
/// that a change of an Instance reconciles them.
pub struct WatchedConfigurations {
    m: StrMap<SporeRefSet>,
}

impl View for WatchedConfigurations {
    type V = Map<Seq<char>, Set<SporeRefView>>;

    closed spec fn view(&self) -> Map<Seq<char>, Set<SporeRefView>> {
        self.m@
    }
}

impl WatchedConfigurations {
    #[verifier::type_invariant]
    closed spec fn wf(self) -> bool {
        no_empty_entries(self.m@)
    }

    pub fn new() -> (w: WatchedConfigurations)
        ensures
            w@ == Map::<Seq<char>, Set<SporeRefView>>::empty(),
    {
        WatchedConfigurations { m: StrMap::new() }
    }

    /// Records that Spore `r` watches configuration `config`.
    pub fn watch(&mut self, config: &String, r: SporeRef)
        ensures
            final(self)@ == spec_watch(old(self)@, config@, r@),
    {
        proof {
            use_type_invariant(&*self);
        }
        let mut m: StrMap<SporeRefSet> = StrMap::new();
        std::mem::swap(&mut m, &mut self.m);
        let ghost before = m@;
        let mut set = match m.remove(config) {
            Some(s) => s,
            None => SporeRefSet::new(),
        };
        let ghost r_view = r@;
        set.insert(r);
        m.insert(config.clone(), set);
        assert(m@ =~= spec_watch(before, config@, r_view));
        assert(no_empty_entries(m@)) by {
            assert forall|c: Seq<char>| #[trigger] m@.contains_key(c) implies m@[c]
                != Set::<SporeRefView>::empty() by {
                if c == config@ {
                    assert(m@[c].contains(r_view));
                }
            }
        }
        self.m = m;
    }

    /// Records that Spore `r` no longer watches `config`.
    pub fn unwatch(&mut self, config: &String, r: &SporeRef)
        ensures
            final(self)@ == spec_unwatch(old(self)@, config@, r@),
    {
        proof {
            use_type_invariant(&*self);
        }
        let mut m: StrMap<SporeRefSet> = StrMap::new();
        std::mem::swap(&mut m, &mut self.m);
        let ghost before = m@;
        match m.remove(config) {
            Some(mut set) => {
                set.remove(r);
                if !set.is_empty() {
                    m.insert(config.clone(), set);
                    assert(m@ =~= spec_unwatch(before, config@, r@));
                } else {
                    assert(m@ =~= spec_unwatch(before, config@, r@));
                }
            },
            None => {
                assert(m@ =~= before);
            },
        }
        assert(no_empty_entries(m@));
        self.m = m;
    }

    /// The Spores that watch `config`.
    pub fn spores_of(&self, config: &String) -> (v: Vec<SporeRef>)
        ensures
            refs_distinct(v@),
            refs_set(v@) == (if self@.contains_key(config@) {
                self@[config@]
            } else {
                Set::<SporeRefView>::empty()
            }),
    {
        match self.m.get(config) {
            Some(set) => set.to_vec(),
            None => {
                let v: Vec<SporeRef> = Vec::new();
                assert(refs_set(v@) =~= Set::<SporeRefView>::empty());
                v
            },
        }
    }
}

/// Watching and then unwatching a configuration with a Spore that did not
/// watch it leaves the registry as it was.
pub proof fn law_watch_unwatch(
    m: Map<Seq<char>, Set<SporeRefView>>,
    config: Seq<char>,
    r: SporeRefView,
)
    requires
        no_empty_entries(m),
        !(m.contains_key(config) && m[config].contains(r)),
    ensures
        spec_unwatch(spec_watch(m, config, r), config, r) == m,
{
    let w = spec_watch(m, config, r);
    if m.contains_key(config) {
        assert(w[config].remove(r) =~= m[config]);
        assert(spec_unwatch(w, config, r) =~= m);
    } else {
        assert(w[config].remove(r) =~= Set::<SporeRefView>::empty());
        assert(spec_unwatch(w, config, r) =~= m);
    }
}

/// Watching and unwatching never leave a configuration with no Spore.
pub proof fn law_registry_has_no_empty_entry(
    m: Map<Seq<char>, Set<SporeRefView>>,
    config: Seq<char>,
    r: SporeRefView,
)
    requires
        no_empty_entries(m),
    ensures
        no_empty_entries(spec_watch(m, config, r)),
        no_empty_entries(spec_unwatch(m, config, r)),
{
    let w = spec_watch(m, config, r);
    assert forall|c: Seq<char>| #[trigger] w.contains_key(c) implies w[c]
        != Set::<SporeRefView>::empty() by {
        if c == config {
            assert(w[c].contains(r));
        }
    }
}

/// After a Spore watches a configuration, the Spores of that configuration
/// include it, and no other configuration changes.
pub proof fn law_watch_records(
    m: Map<Seq<char>, Set<SporeRefView>>,
    config: Seq<char>,
    r: SporeRefView,
    other: Seq<char>,
)
    requires
        other != config,
    ensures
        spec_watch(m, config, r).contains_key(config),
        spec_watch(m, config, r)[config].contains(r),
        spec_watch(m, config, r).contains_key(other) == m.contains_key(other),
        m.contains_key(other) ==> spec_watch(m, config, r)[other] == m[other],
{
}

/// After a Spore stops watching a configuration, the Spores of that
/// configuration no longer include it, and no other configuration changes.
pub proof fn law_unwatch_forgets(
    m: Map<Seq<char>, Set<SporeRefView>>,
    config: Seq<char>,
    r: SporeRefView,
    other: Seq<char>,
)
    requires
        other != config,
    ensures
        spec_unwatch(m, config, r).contains_key(config) ==> !spec_unwatch(m, config, r)[config].contains(r),
        spec_unwatch(m, config, r).contains_key(other) == m.contains_key(other),
        m.contains_key(other) ==> spec_unwatch(m, config, r)[other] == m[other],
{
}

} // verus!

//! Decisions of the agent's DiscoveryConfiguration controller: error
//! back-off, what becomes of discovered and vanished Instances.

use vstd::prelude::*;
use crate::action::{Action, Duration, MAX_DURATION_NANOS, NANOS_PER_MILLI, NANOS_PER_SEC};
use crate::discovery_configuration::DiscoveryConfiguration;
use crate::instance::{Instance, InstanceSpecView, InstanceView};
use crate::meta::{OwnerReference, OwnerReferenceView};
use crate::string_map::StrMap;
use crate::strings::contains_string;

verus! {

/// The back-off of a configuration that has not failed since its last success.
pub open spec fn initial_backoff() -> u128 {
    (500 * NANOS_PER_MILLI) as u128
}

/// The back-off that the table holds for `name`, or the initial one.
pub open spec fn previous_backoff(m: Map<Seq<char>, u128>, name: Seq<char>) -> u128 {
    if m.contains_key(name) {
        m[name]
    } else {
        initial_backoff()
    }
}

/// The delay before a configuration is reconciled again after an error,
/// kept per configuration name.
pub struct ErrorBackoffs {
    table: StrMap<Duration>,
}

impl View for ErrorBackoffs {
    type V = Map<Seq<char>, u128>;

    closed spec fn view(&self) -> Map<Seq<char>, u128> {
        self.table@
    }
}

impl ErrorBackoffs {
    pub fn new() -> (b: ErrorBackoffs)
        ensures
            b@ == Map::<Seq<char>, u128>::empty(),
    {
        ErrorBackoffs { table: StrMap::new() }
    }

    fn previous(&self, name: &String) -> (d: Duration)
        ensures
            d@ == previous_backoff(self@, name@),
    {
        match self.table.get(name) {
            Some(d) => *d,
            None => Duration::from_millis(500),
        }
    }

    /// Whether the next back-off of `name` stays within `Duration`'s range.
    pub fn can_back_off(&self, name: &String) -> (b: bool)
        ensures
            b == (2 * previous_backoff(self@, name@) <= MAX_DURATION_NANOS),
    {
        self.previous(name).can_double()
    }

    /// Forgets the back-off of `name` (after a successful reconciliation).
    pub fn forget(&mut self, name: &String)
        ensures
            final(self)@ == old(self)@.remove(name@),
    {
        self.table.remove(name);
    }
}

/// After a failed reconciliation: the configuration is requeued after twice
/// its previous back-off (500 ms when it has none), which is remembered.
pub fn error_policy(dc: &DiscoveryConfiguration, backoffs: &mut ErrorBackoffs) -> (a: Action)
    requires
        2 * previous_backoff(old(backoffs)@, dc@.metadata.name_any()) <= MAX_DURATION_NANOS,
    ensures
        final(backoffs)@ == old(backoffs)@.insert(
            dc@.metadata.name_any(),
            (2 * previous_backoff(old(backoffs)@, dc@.metadata.name_any())) as u128,
        ),
        a.requeue_after matches Some(d) && d@ == 2 * previous_backoff(
            old(backoffs)@,
            dc@.metadata.name_any(),
        ),
{
    let name = dc.metadata.name_any();
    let next = backoffs.previous(&name).double();
    backoffs.table.insert(name, next);
    Action::requeue(next)
}

/// The back-off table after `n` failed reconciliations in a row of the
/// configuration `name`.
pub open spec fn after_errors(m: Map<Seq<char>, u128>, name: Seq<char>, n: nat) -> Map<
    Seq<char>,
    u128,
>
    decreases n,
{
    if n == 0 {
        m
    } else {
        let before = after_errors(m, name, (n - 1) as nat);
        before.insert(name, (2 * previous_backoff(before, name)) as u128)
    }
}

/// Starting without a back-off, `n` failures in a row leave a back-off of
/// 500 ms times 2 to the `n`, and no other configuration's back-off changes.
pub proof fn law_backoff_doubles(m: Map<Seq<char>, u128>, name: Seq<char>, n: nat)
    requires
        !m.contains_key(name),
        initial_backoff() * vstd::arithmetic::power2::pow2(n) <= MAX_DURATION_NANOS,
    ensures
        previous_backoff(after_errors(m, name, n), name) == initial_backoff()
            * vstd::arithmetic::power2::pow2(n),
        forall|other: Seq<char>|
            other != name ==> #[trigger] after_errors(m, name, n).contains_key(other)
                == m.contains_key(other) && (m.contains_key(other) ==> after_errors(m, name, n)[other]
                == m[other]),
    decreases n,
{
    vstd::arithmetic::power2::lemma_pow2_pos(n);
    if n == 0 {
        vstd::arithmetic::power2::lemma2_to64();
    } else {
        vstd::arithmetic::power2::lemma_pow2_unfold(n);
        let k = (n - 1) as nat;
        vstd::arithmetic::power2::lemma_pow2_pos(k);
        assert(initial_backoff() * vstd::arithmetic::power2::pow2(k) <= initial_backoff()
            * vstd::arithmetic::power2::pow2(n)) by (nonlinear_arith)
            requires
                vstd::arithmetic::power2::pow2(n) == 2 * vstd::arithmetic::power2::pow2(k),
                vstd::arithmetic::power2::pow2(k) > 0,
        ;
        law_backoff_doubles(m, name, k);
        assert(2 * (initial_backoff() * vstd::arithmetic::power2::pow2(k)) == initial_backoff()
            * vstd::arithmetic::power2::pow2(n)) by (nonlinear_arith)
            requires
                vstd::arithmetic::power2::pow2(n) == 2 * vstd::arithmetic::power2::pow2(k),
        ;
        let before = after_errors(m, name, k);
        assert forall|other: Seq<char>| other != name implies #[trigger] after_errors(
            m,
            name,
            n,
        ).contains_key(other) == m.contains_key(other) && (m.contains_key(other) ==> after_errors(
            m,
            name,
            n,
        )[other] == m[other]) by {
            assert(before.contains_key(other) == m.contains_key(other));
        }
    }
}

/// After a success the next failure is requeued after one second again.
pub proof fn law_success_resets_backoff(m: Map<Seq<char>, u128>, name: Seq<char>)
    ensures
        2 * previous_backoff(m.remove(name), name) == NANOS_PER_SEC,
{
}

/// After a successful reconciliation: the back-off is forgotten and the
/// configuration is reconciled again in ten minutes.
pub fn reconcile_done(dc: &DiscoveryConfiguration, backoffs: &mut ErrorBackoffs) -> (a: Action)
    ensures
        final(backoffs)@ == old(backoffs)@.remove(dc@.metadata.name_any()),
        a.requeue_after matches Some(d) && d@ == 600 * NANOS_PER_SEC,
{
    let name = dc.metadata.name_any();
    backoffs.forget(&name);
    Action::requeue(Duration::from_secs(600))
}

/// How a reconciliation begins.
pub enum ReconcileStart {
    /// The configuration is being deleted: stop its discovery request, drop
    /// this agent's finalizer, then answer with `action`.
    Terminate { action: Action },
    /// Reconcile, after adding this agent's finalizer when it lacks one.
    Proceed { add_finalizer: bool },
}

pub fn reconcile_start(dc: &DiscoveryConfiguration, agent_instance_name: &String) -> (r:
    ReconcileStart)
    ensures
        match r {
            ReconcileStart::Terminate { action } => {
                &&& dc@.metadata.deletion_timestamp is Some
                &&& action.requeue_after is None
            },
            ReconcileStart::Proceed { add_finalizer } => {
                &&& dc@.metadata.deletion_timestamp is None
                &&& add_finalizer == !dc@.metadata.finalizers.contains(agent_instance_name@)
            },
        },
{
    if dc.metadata.is_deleting() {
        ReconcileStart::Terminate { action: Action::await_change() }
    } else {
        ReconcileStart::Proceed {
            add_finalizer: !dc.metadata.has_finalizer(agent_instance_name),
        }
    }
}

/// A discovered device as this agent publishes it: seen by this node only,
/// owned by the configuration, with the configuration's capacity.
pub open spec fn spec_discovered_instance(
    i: InstanceView,
    agent: Seq<char>,
    owner: OwnerReferenceView,
    capacity: usize,
) -> InstanceView {
    InstanceView {
        metadata: crate::meta::ObjectMetaView {
            owner_references: i.metadata.owner_references.push(owner),
            ..i.metadata
        },
        spec: InstanceSpecView { nodes: seq![agent], capacity, ..i.spec },
    }
}

pub fn discovered_instance(
    instance: Instance,
    agent_instance_name: &String,
    owner: &OwnerReference,
    capacity: usize,
) -> (r: Instance)
    ensures
        r@ == spec_discovered_instance(instance@, agent_instance_name@, owner@, capacity),
{
    let ghost before = instance@;
    let ghost refs_before = instance.metadata.owner_references@;
    let mut instance = instance;
    let mut nodes: Vec<String> = Vec::new();
    nodes.push(agent_instance_name.clone());
    instance.spec.nodes = nodes;
    instance.metadata.owner_references.push(owner.clone_ref());
    instance.spec.capacity = capacity;
    assert(instance.spec.nodes.deep_view() =~= seq![agent_instance_name@]);
    assert(crate::meta::owner_refs_view(instance.metadata.owner_references@)
        =~= before.metadata.owner_references.push(owner@)) by {
        assert(instance.metadata.owner_references@.drop_last() =~= refs_before);
    }
    instance
}

/// Every discovered device, prepared by `discovered_instance`, in order.
pub fn discovered_instances(
    found: Vec<Instance>,
    agent_instance_name: &String,
    owner: &OwnerReference,
    capacity: usize,
) -> (r: Vec<Instance>)
    ensures
        r@.len() == found@.len(),
        forall|i: int|
            0 <= i < r@.len() ==> #[trigger] r@[i]@ == spec_discovered_instance(
                found@[i]@,
                agent_instance_name@,
                owner@,
                capacity,
            ),
{
    let ghost before = found@;
    let mut found = found;
    let mut reversed: Vec<Instance> = Vec::new();
    while found.len() > 0
        invariant
            found@.len() + reversed@.len() == before.len(),
            found@ == before.take(found@.len() as int),
            forall|i: int|
                0 <= i < reversed@.len() ==> #[trigger] reversed@[i]@ == spec_discovered_instance(
                    before[before.len() - 1 - i]@,
                    agent_instance_name@,
                    owner@,
                    capacity,
                ),
        decreases found@.len(),
    {
        let ghost before = found@;
        let last = found.pop().unwrap();
        assert(found@ =~= before.take(found@.len() as int));
        reversed.push(discovered_instance(last, agent_instance_name, owner, capacity));
    }
    let mut r: Vec<Instance> = Vec::new();
    while reversed.len() > 0
        invariant
            r@.len() + reversed@.len() == before.len(),
            forall|i: int|
                0 <= i < reversed@.len() ==> #[trigger] reversed@[i]@ == spec_discovered_instance(
                    before[before.len() - 1 - i]@,
                    agent_instance_name@,
                    owner@,
                    capacity,
                ),
            forall|i: int|
                0 <= i < r@.len() ==> #[trigger] r@[i]@ == spec_discovered_instance(
                    before[i]@,
                    agent_instance_name@,
                    owner@,
                    capacity,
                ),
        decreases reversed@.len(),
    {
        let x = reversed.pop().unwrap();
        r.push(x);
    }
    r
}

/// A cached Instance of the configuration that discovery no longer reports.
pub open spec fn is_stale(
    i: InstanceView,
    owner: OwnerReferenceView,
    discovered: Seq<InstanceView>,
) -> bool {
    &&& i.metadata.owner_references.contains(owner)
    &&& forall|j: int|
        0 <= j < discovered.len() ==> #[trigger] discovered[j].metadata.name_any()
            != i.metadata.name_any()
}

pub open spec fn instances_view(v: Seq<Instance>) -> Seq<InstanceView> {
    v.map_values(|i: Instance| i@)
}

fn is_discovered(instance: &Instance, discovered: &Vec<Instance>) -> (b: bool)
    ensures
        b == exists|j: int|
            0 <= j < discovered@.len() && #[trigger] instances_view(discovered@)[j].metadata.name_any()
                == instance@.metadata.name_any(),
{
    let name = instance.name_any();
    let mut j: usize = 0;
    while j < discovered.len()
        invariant
            j <= discovered@.len(),
            name@ == instance@.metadata.name_any(),
            forall|k: int|
                0 <= k < j ==> #[trigger] instances_view(discovered@)[k].metadata.name_any()
                    != name@,
        decreases discovered@.len() - j,
    {
        if discovered[j].name_any() == name {
            assert(instances_view(discovered@)[j as int] == discovered@[j as int]@);
            return true;
        }
        assert(instances_view(discovered@)[j as int] == discovered@[j as int]@);
        j = j + 1;
    }
    false
}

/// The positions, in increasing order, of the cached Instances that the
/// configuration owns and that discovery no longer reports.
pub fn stale_instances(
    cache: &Vec<Instance>,
    owner: &OwnerReference,
    discovered: &Vec<Instance>,
) -> (r: Vec<usize>)
    ensures
        forall|k: int|
            0 <= k < r@.len() ==> #[trigger] r@[k] < cache@.len() && is_stale(
                cache@[r@[k] as int]@,
                owner@,
                instances_view(discovered@),
            ),
        forall|k1: int, k2: int| 0 <= k1 < k2 < r@.len() ==> #[trigger] r@[k1] < #[trigger] r@[k2],
        forall|i: int|
            0 <= i < cache@.len() && is_stale(cache@[i]@, owner@, instances_view(discovered@))
                ==> r@.contains(i as usize),
{
    let mut r: Vec<usize> = Vec::new();
    let mut i: usize = 0;
    while i < cache.len()
        invariant
            i <= cache@.len(),
            forall|k: int|
                0 <= k < r@.len() ==> #[trigger] r@[k] < i && is_stale(
                    cache@[r@[k] as int]@,
                    owner@,
                    instances_view(discovered@),
                ),
            forall|k1: int, k2: int|
                0 <= k1 < k2 < r@.len() ==> #[trigger] r@[k1] < #[trigger] r@[k2],
            forall|c: int|
                0 <= c < i && is_stale(cache@[c]@, owner@, instances_view(discovered@))
                    ==> r@.contains(c as usize),
        decreases cache@.len() - i,
    {
        let owned = cache[i].metadata.has_owner_reference(owner);
        let seen = is_discovered(&cache[i], discovered);
        if owned && !seen {
            let ghost before = r@;
            r.push(i);
            assert forall|c: int|
                0 <= c < i + 1 && is_stale(
                    cache@[c]@,
                    owner@,
                    instances_view(discovered@),
                ) implies r@.contains(c as usize) by {
                if c < i {
                    let k = choose|k: int| 0 <= k < before.len() && before[k] == c as usize;
                    assert(r@[k] == c as usize);
                } else {
                    assert(r@[r@.len() - 1] == c as usize);
                }
            }
        } else {
            assert(!is_stale(cache@[i as int]@, owner@, instances_view(discovered@)));
        }
        i = i + 1;
    }
    r
}

/// What this agent does with an Instance that discovery no longer reports.
pub enum InstanceCleanup {
    /// The Instance is not on this node: leave it alone.
    Keep,
    /// This node was the only one to see it: delete the Instance by name.
    Delete(String),
    /// Other nodes saw it too: apply this copy, whose node list is emptied.
    Release(Instance),
}

/// The Instance with its node list emptied.
pub open spec fn spec_released(i: InstanceView) -> InstanceView {
    InstanceView { spec: InstanceSpecView { nodes: Seq::empty(), ..i.spec }, ..i }
}

/// Decides how a vanished Instance is cleaned up by this agent.
pub fn delete_instance(instance: &Instance, agent_instance_name: &String) -> (r: InstanceCleanup)
    ensures
        match r {
            InstanceCleanup::Keep => !instance@.spec.nodes.contains(agent_instance_name@),
            InstanceCleanup::Delete(name) => {
                &&& instance@.spec.nodes.contains(agent_instance_name@)
                &&& instance@.spec.nodes.len() == 1
                &&& name@ == instance@.metadata.name_any()
            },
            InstanceCleanup::Release(i) => {
                &&& instance@.spec.nodes.contains(agent_instance_name@)
                &&& instance@.spec.nodes.len() != 1
                &&& i@ == spec_released(instance@)
            },
        },
{
    if contains_string(&instance.spec.nodes, agent_instance_name) {
        if instance.spec.nodes.len() == 1 {
            return InstanceCleanup::Delete(instance.name_any());
        }
        let mut new_instance = instance.clone_instance();
        new_instance.spec.nodes = Vec::new();
        assert(new_instance.spec.nodes.deep_view() =~= Seq::<Seq<char>>::empty());
        InstanceCleanup::Release(new_instance)
    } else {
        InstanceCleanup::Keep
    }
}

} // verus!

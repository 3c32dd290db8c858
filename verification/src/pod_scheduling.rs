//! Decisions of the driver controller for claims that wait for their first
//! consumer: which claims of a pod are Akri's, on which nodes each can be
//! served, and the allocation on the node the scheduler selected.

use vstd::prelude::*;
use vstd::string::*;
use crate::action::{Action, Duration, NANOS_PER_SEC};
use crate::allocation::{
    best_instance, is_best_by, lemma_best_of_listed, lists_exactly, views, within_capacity,
};
use crate::claim_controller::{Error, DRIVER_NAME, IMMEDIATE};
use crate::instance::{Instance, InstanceView};
use crate::instance_filter::{filter_matches, InstanceFilter, InstanceFilterRequirementView};
use crate::meta::ObjectMeta;
use crate::node_set::NodeSet;
use crate::resource::{ClaimHandle, ResourceClaim, ResourceClaimView, ResourceClass, ResourceClassView};
use crate::strings::{clone_opt_string, opt_str_view};

verus! {

/// Where a pod's resource claim comes from.
pub struct ClaimSource {
    pub resource_claim_name: Option<String>,
    pub resource_claim_template_name: Option<String>,
}

/// A resource claim entry of a pod spec.
pub struct PodResourceClaim {
    pub name: String,
    pub source: Option<ClaimSource>,
}

/// The status entry that names the claim generated from a template.
pub struct PodResourceClaimStatus {
    pub name: String,
    pub resource_claim_name: Option<String>,
}

/// The parts of a pod that the controller reads.
pub struct Pod {
    pub metadata: ObjectMeta,
    pub resource_claims: Vec<PodResourceClaim>,
    pub resource_claim_statuses: Vec<PodResourceClaimStatus>,
}

/// The parts of a PodSchedulingContext that the controller reads.
pub struct PodSchedulingContext {
    pub metadata: ObjectMeta,
    pub selected_node: Option<String>,
    pub potential_nodes: Vec<String>,
}

/// The claim name recorded by the first status entry called `name`, if
/// there is such an entry.
pub open spec fn first_status(statuses: Seq<PodResourceClaimStatus>, name: Seq<char>) -> Option<Option<Seq<char>>>
    decreases statuses.len(),
{
    if statuses.len() == 0 {
        None
    } else if statuses[0].name@ == name {
        Some(opt_str_view(statuses[0].resource_claim_name))
    } else {
        first_status(statuses.drop_first(), name)
    }
}

/// The name of the ResourceClaim a pod claim refers to: the one it names,
/// else, for a template, the one the first status entry of the same name
/// records; `None` otherwise.
pub open spec fn spec_claim_reference(prc: PodResourceClaim, statuses: Seq<PodResourceClaimStatus>) -> Option<Seq<char>> {
    match prc.source {
        None => None,
        Some(src) => match src.resource_claim_name {
            Some(n) => Some(n@),
            None => if src.resource_claim_template_name is Some {
                match first_status(statuses, prc.name@) {
                    Some(found) => found,
                    None => None,
                }
            } else {
                None
            },
        },
    }
}

/// The name of the ResourceClaim (in the pod's namespace) that the pod's
/// claim entry `prc` stands for.
pub fn claim_reference(prc: &PodResourceClaim, pod: &Pod) -> (r: Option<String>)
    ensures
        opt_str_view(r) == spec_claim_reference(*prc, pod.resource_claim_statuses@),
{
    let src = prc.source.as_ref()?;
    if let Some(name) = &src.resource_claim_name {
        return Some(name.clone());
    }
    if src.resource_claim_template_name.is_none() {
        return None;
    }
    let statuses = &pod.resource_claim_statuses;
    let mut k: usize = 0;
    assert(statuses@.skip(0) =~= statuses@);
    while k < statuses.len()
        invariant
            k <= statuses@.len(),
            prc.source is Some,
            prc.source->0.resource_claim_name is None,
            prc.source->0.resource_claim_template_name is Some,
            statuses@ == pod.resource_claim_statuses@,
            first_status(statuses@, prc.name@) == first_status(statuses@.skip(k as int), prc.name@),
        decreases statuses@.len() - k,
    {
        assert(statuses@.skip(k as int)[0] == statuses@[k as int]);
        if statuses[k].name == prc.name {
            assert(first_status(statuses@.skip(k as int), prc.name@) == Some(
                opt_str_view(statuses@[k as int].resource_claim_name),
            ));
            return clone_opt_string(&statuses[k].resource_claim_name);
        }
        assert(statuses@.skip(k as int).drop_first() =~= statuses@.skip(k + 1));
        k = k + 1;
    }
    None
}

/// The configuration a claim is served from, when the claim is Akri's and
/// still to be allocated for its first consumer.
pub open spec fn spec_claim_is_ours(claim: ResourceClaimView, class: Option<ResourceClassView>) -> Option<Seq<char>> {
    if claim.allocation_mode == Some(IMMEDIATE@) {
        None
    } else if claim.allocated {
        None
    } else {
        match class {
            None => None,
            Some(c) => if c.driver_name == DRIVER_NAME@ {
                c.parameters_ref
            } else {
                None
            },
        }
    }
}

/// A claim is handled by the pod scheduling controller only while it waits
/// for its consumer: an allocated claim, or one allocated on creation, is
/// never Akri's to allocate here, whatever its class; a claim that is gets
/// the configuration named by an Akri class.
pub proof fn law_claim_selection(claim: ResourceClaimView, class: Option<ResourceClassView>)
    ensures
        claim.allocated ==> spec_claim_is_ours(claim, class) is None,
        claim.allocation_mode == Some(IMMEDIATE@) ==> spec_claim_is_ours(claim, class) is None,
        spec_claim_is_ours(claim, class) is Some ==> class is Some && class->0.driver_name
            == DRIVER_NAME@ && spec_claim_is_ours(claim, class) == class->0.parameters_ref,
        !claim.allocated && claim.allocation_mode != Some(IMMEDIATE@) && class is Some
            && class->0.driver_name == DRIVER_NAME@ ==> spec_claim_is_ours(claim, class)
            == class->0.parameters_ref,
{
}

/// Whether the claim is one this controller allocates, given the class it
/// names (when found); gives the name of the class's configuration.
pub fn claim_is_ours(claim: &ResourceClaim, class: Option<&ResourceClass>) -> (r: Option<String>)
    ensures
        opt_str_view(r) == spec_claim_is_ours(
            claim@,
            match class {
                Some(c) => Some(c@),
                None => None,
            },
        ),
        claim@.allocated ==> r is None,
        claim@.allocation_mode == Some(IMMEDIATE@) ==> r is None,
        r is Some ==> class is Some && class->0.driver_name@ == DRIVER_NAME@ && opt_str_view(r)
            == opt_str_view(class->0.parameters_ref),
{
    if let Some(m) = &claim.spec.allocation_mode {
        if *m == String::from_str(IMMEDIATE) {
            return None;
        }
    }
    if claim.is_allocated() {
        return None;
    }
    let class = class?;
    if class.driver_name == String::from_str(DRIVER_NAME) {
        clone_opt_string(&class.parameters_ref)
    } else {
        None
    }
}

/// An Instance that may serve a waiting claim: of the claim's
/// configuration, passing its filter (when one was found), with a free slot.
pub open spec fn is_eligible(
    i: InstanceView,
    config: Seq<char>,
    filter: Option<Seq<Seq<InstanceFilterRequirementView>>>,
) -> bool {
    &&& i.spec.configuration_name == config
    &&& match filter {
        Some(t) => filter_matches(t, i.spec.broker_properties),
        None => true,
    }
    &&& i.spec.capacity > i.spec.active_claims.len()
}

pub open spec fn eligible_pred(
    config: Seq<char>,
    filter: Option<Seq<Seq<InstanceFilterRequirementView>>>,
) -> spec_fn(InstanceView) -> bool {
    |i: InstanceView| is_eligible(i, config, filter)
}

pub open spec fn on_node_pred(
    config: Seq<char>,
    filter: Option<Seq<Seq<InstanceFilterRequirementView>>>,
    node: Seq<char>,
) -> spec_fn(InstanceView) -> bool {
    |i: InstanceView| is_eligible(i, config, filter) && i.spec.nodes.contains(node)
}

pub open spec fn filter_terms(f: Option<&InstanceFilter>) -> Option<Seq<Seq<InstanceFilterRequirementView>>> {
    match f {
        Some(f) => Some(f@.spec),
        None => None,
    }
}

fn eligible(instance: &Instance, config: &String, filter: Option<&InstanceFilter>) -> (b: bool)
    ensures
        b == is_eligible(instance@, config@, filter_terms(filter)),
{
    instance.spec.configuration_name == *config && match filter {
        Some(f) => f.matches(instance),
        None => true,
    } && instance.spec.capacity > instance.spec.active_claims.len()
}

/// The positions, in increasing order, of the Instances eligible for a claim
/// of configuration `config`; with `node`, only those seen by that node.
pub fn eligible_instances(
    instances: &Vec<Instance>,
    config: &String,
    filter: Option<&InstanceFilter>,
    node: Option<&String>,
) -> (r: Vec<usize>)
    ensures
        match node {
            None => lists_exactly(instances@, r@, eligible_pred(config@, filter_terms(filter))),
            Some(n) => lists_exactly(
                instances@,
                r@,
                on_node_pred(config@, filter_terms(filter), n@),
            ),
        },
{
    let ghost pred = match node {
        None => eligible_pred(config@, filter_terms(filter)),
        Some(n) => on_node_pred(config@, filter_terms(filter), n@),
    };
    let mut r: Vec<usize> = Vec::new();
    let mut i: usize = 0;
    while i < instances.len()
        invariant
            i <= instances@.len(),
            pred == (match node {
                None => eligible_pred(config@, filter_terms(filter)),
                Some(n) => on_node_pred(config@, filter_terms(filter), n@),
            }),
            forall|k: int|
                0 <= k < r@.len() ==> #[trigger] r@[k] < i && pred(instances@[r@[k] as int]@),
            forall|k1: int, k2: int|
                0 <= k1 < k2 < r@.len() ==> #[trigger] r@[k1] < #[trigger] r@[k2],
            forall|c: int| 0 <= c < i && pred(#[trigger] instances@[c]@) ==> r@.contains(c as usize),
        decreases instances@.len() - i,
    {
        let mut ok = eligible(&instances[i], config, filter);
        if let Some(n) = node {
            ok = ok && crate::strings::contains_string(&instances[i].spec.nodes, n);
        }
        if ok {
            let ghost before = r@;
            r.push(i);
            assert forall|c: int| 0 <= c < i + 1 && pred(#[trigger] instances@[c]@) implies r@.contains(
                c as usize,
            ) by {
                if c < i {
                    let k = choose|k: int| 0 <= k < before.len() && before[k] == c as usize;
                    assert(r@[k] == c as usize);
                } else {
                    assert(r@[r@.len() - 1] == c as usize);
                }
            }
        } else {
            assert(!pred(instances@[i as int]@));
        }
        i = i + 1;
    }
    r
}

/// The nodes on which some of the listed Instances is seen.
pub fn suitable_nodes(instances: &Vec<Instance>, listed: &Vec<usize>) -> (s: NodeSet)
    requires
        forall|k: int| 0 <= k < listed@.len() ==> #[trigger] listed@[k] < instances@.len(),
    ensures
        forall|n: Seq<char>|
            s@.contains(n) <==> exists|k: int|
                0 <= k < listed@.len() && #[trigger] instances@[listed@[k] as int]@.spec.nodes.contains(n),
{
    let mut s = NodeSet::new();
    let mut k: usize = 0;
    while k < listed.len()
        invariant
            k <= listed@.len(),
            forall|j: int| 0 <= j < listed@.len() ==> #[trigger] listed@[j] < instances@.len(),
            forall|n: Seq<char>|
                s@.contains(n) <==> exists|j: int|
                    0 <= j < k && #[trigger] instances@[listed@[j] as int]@.spec.nodes.contains(n),
        decreases listed@.len() - k,
    {
        let ghost before = s@;
        s.insert_all(&instances[listed[k]].spec.nodes);
        assert forall|n: Seq<char>|
            s@.contains(n) <==> exists|j: int|
                0 <= j < k + 1 && #[trigger] instances@[listed@[j] as int]@.spec.nodes.contains(n) by {
            let nodes = instances@[listed@[k as int] as int]@.spec.nodes;
            assert(nodes == instances@[listed@[k as int] as int].spec.nodes.deep_view());
            if nodes.to_set().contains(n) {
                assert(nodes.contains(n));
            }
            if exists|j: int|
                0 <= j < k + 1 && #[trigger] instances@[listed@[j] as int]@.spec.nodes.contains(n) {
                let j = choose|j: int|
                    0 <= j < k + 1 && #[trigger] instances@[listed@[j] as int]@.spec.nodes.contains(n);
                if j == k {
                    assert(nodes.to_set().contains(n));
                } else {
                    assert(before.contains(n));
                }
            }
        }
        k = k + 1;
    }
    s
}

/// The nodes the scheduler considers: the potential ones and the selected one.
pub fn potential_nodes(psc: &PodSchedulingContext) -> (s: NodeSet)
    ensures
        s@ == match psc.selected_node {
            Some(n) => psc.potential_nodes.deep_view().to_set().insert(n@),
            None => psc.potential_nodes.deep_view().to_set(),
        },
{
    let mut s = NodeSet::from_strings(&psc.potential_nodes);
    if let Some(n) = &psc.selected_node {
        s.insert(n.clone());
    }
    s
}

/// The selected node suits every claim.
pub fn node_suits_all(node: &String, suitable: &Vec<NodeSet>) -> (b: bool)
    ensures
        b == forall|k: int| 0 <= k < suitable@.len() ==> #[trigger] suitable@[k]@.contains(node@),
{
    let mut k: usize = 0;
    while k < suitable.len()
        invariant
            k <= suitable@.len(),
            forall|j: int| 0 <= j < k ==> #[trigger] suitable@[j]@.contains(node@),
        decreases suitable@.len() - k,
    {
        if !suitable[k].contains(node) {
            return false;
        }
        k = k + 1;
    }
    true
}

/// The nodes a claim cannot use: those considered and not suitable.
pub fn unsuitable_nodes(potential: &NodeSet, suitable: &NodeSet) -> (s: NodeSet)
    ensures
        s@ == potential@.difference(suitable@),
{
    potential.difference(suitable)
}

/// The allocation on the selected node, with the handle of the chosen
/// Instance.
pub struct NodeAllocation {
    pub handle: ClaimHandle,
    pub node: String,
    pub instance_resource_version: Option<String>,
}

/// Chooses, for a claim of configuration `config`, the eligible Instance
/// seen by `node` with the most free slots (the first among equals).
/// It fails with `NoMatchingInstance` exactly when no eligible Instance is
/// seen by that node, that is when the node is not among the claim's
/// suitable nodes.
pub fn allocate_on_node(
    instances: &Vec<Instance>,
    config: &String,
    filter: Option<&InstanceFilter>,
    node: &String,
) -> (r: Result<NodeAllocation, Error>)
    ensures
        match r {
            Ok(a) => {
                &&& a.node@ == node@
                &&& exists|k: int|
                    is_best_by(
                        views(instances@),
                        on_node_pred(config@, filter_terms(filter), node@),
                        k,
                    ) && a.handle@.cdi_name == #[trigger] views(instances@)[k].spec.cdi_name
                        && a.handle@.instance_name == views(instances@)[k].metadata.name_any()
                        && opt_str_view(a.instance_resource_version)
                        == views(instances@)[k].metadata.resource_version
            },
            Err(e) => {
                &&& e is NoMatchingInstance
                &&& forall|j: int|
                    0 <= j < instances@.len() ==> !#[trigger] on_node_pred(
                        config@,
                        filter_terms(filter),
                        node@,
                    )(instances@[j]@)
            },
        },
{
    let ghost pred = on_node_pred(config@, filter_terms(filter), node@);
    let cand = eligible_instances(instances, config, filter, Some(node));
    assert forall|k: int| 0 <= k < cand@.len() implies #[trigger] cand@[k] < instances@.len()
        && within_capacity(instances@[cand@[k] as int]@) by {
        assert(pred(instances@[cand@[k] as int]@));
    }
    match best_instance(instances, &cand) {
        Some(p) => {
            proof {
                assert(instances@.len() == instances.len());
                lemma_best_of_listed(instances@, cand@, pred, p as int);
            }
            let inst = &instances[cand[p]];
            let ghost k = cand@[p as int] as int;
            assert(views(instances@)[k] == instances@[k]@);
            let a = NodeAllocation {
                handle: ClaimHandle {
                    cdi_name: inst.spec.cdi_name.clone(),
                    instance_name: inst.name_any(),
                },
                node: node.clone(),
                instance_resource_version: clone_opt_string(&inst.metadata.resource_version),
            };
            assert(is_best_by(views(instances@), pred, k) && a.handle@.cdi_name
                == views(instances@)[k].spec.cdi_name && a.handle@.instance_name == views(
                instances@,
            )[k].metadata.name_any() && opt_str_view(a.instance_resource_version) == views(
                instances@,
            )[k].metadata.resource_version);
            Ok(a)
        },
        None => {
            assert forall|j: int| 0 <= j < instances@.len() implies !#[trigger] pred(
                instances@[j]@,
            ) by {
                if pred(instances@[j]@) {
                    assert(instances@.len() == instances.len());
                    assert(cand@.contains(j as usize));
                    let q = choose|q: int| 0 <= q < cand@.len() && cand@[q] == j as usize;
                    assert(cand@[q] as int == j);
                    assert(crate::allocation::free_at(instances@, cand@, q) == 0);
                }
            }
            Err(Error::NoMatchingInstance)
        },
    }
}

/// A claim of the pod that this controller allocates, with the nodes on
/// which it can be served.
pub struct ClaimNodes {
    pub name: String,
    pub suitable: NodeSet,
}

/// The scheduling status of one claim: the considered nodes it cannot use.
pub struct ClaimSchedulingStatus {
    pub name: String,
    pub unsuitable_nodes: NodeSet,
}

/// Position `j` holds the last claim of its name.
pub open spec fn is_last_of_name(claims: Seq<ClaimNodes>, j: int) -> bool {
    &&& 0 <= j < claims.len()
    &&& forall|k: int| j < k < claims.len() ==> #[trigger] claims[k].name@ != claims[j].name@
}

fn find_status(entries: &Vec<ClaimSchedulingStatus>, name: &String) -> (r: Option<usize>)
    ensures
        match r {
            Some(e) => e < entries@.len() && entries@[e as int].name@ == name@,
            None => forall|e: int| 0 <= e < entries@.len() ==> #[trigger] entries@[e].name@ != name@,
        },
{
    let mut e: usize = 0;
    while e < entries.len()
        invariant
            e <= entries@.len(),
            forall|f: int| 0 <= f < e ==> #[trigger] entries@[f].name@ != name@,
        decreases entries@.len() - e,
    {
        if entries[e].name == *name {
            return Some(e);
        }
        e = e + 1;
    }
    None
}

/// The scheduling status of a pod's claims, and the controller's answer.
pub struct SchedulingStatus {
    pub statuses: Vec<ClaimSchedulingStatus>,
    pub action: Action,
}

/// Entry `s` reports claim `j`, the last claim of its name: the considered
/// nodes that the claim cannot use.
pub open spec fn reports_last(
    claims: Seq<ClaimNodes>,
    potential: Set<Seq<char>>,
    s: ClaimSchedulingStatus,
    j: int,
) -> bool {
    &&& is_last_of_name(claims, j)
    &&& s.name@ == claims[j].name@
    &&& s.unsuitable_nodes@ == potential.difference(claims[j].suitable@)
}

/// Entry `s` reports claim `j`, which is not before position `lo`.
pub open spec fn reports_from(
    claims: Seq<ClaimNodes>,
    potential: Set<Seq<char>>,
    s: ClaimSchedulingStatus,
    j: int,
    lo: int,
) -> bool {
    lo <= j && reports_last(claims, potential, s, j)
}

/// Entry `s` reports one of the claims.
pub open spec fn reported(claims: Seq<ClaimNodes>, potential: Set<Seq<char>>, s: ClaimSchedulingStatus) -> bool {
    exists|j: int| #[trigger] reports_last(claims, potential, s, j)
}

/// Some entry is that of claim `name`.
pub open spec fn has_entry(statuses: Seq<ClaimSchedulingStatus>, name: Seq<char>) -> bool {
    exists|e: int| 0 <= e < statuses.len() && #[trigger] statuses[e].name@ == name
}

/// The status the controller writes for a pod's claims, and its answer:
/// one entry per claim name (the last claim of a name counts), listing the
/// considered nodes on which that claim cannot be served; the context is
/// reconciled again after an hour.
pub fn scheduling_status(claims: &Vec<ClaimNodes>, potential: &NodeSet) -> (r: SchedulingStatus)
    ensures
        forall|a: int, b: int|
            0 <= a < r.statuses@.len() && 0 <= b < r.statuses@.len() && a != b
                ==> #[trigger] r.statuses@[a].name@ != #[trigger] r.statuses@[b].name@,
        forall|e: int|
            0 <= e < r.statuses@.len() ==> #[trigger] reported(claims@, potential@, r.statuses@[e]),
        forall|j: int|
            0 <= j < claims@.len() ==> #[trigger] has_entry(r.statuses@, claims@[j].name@),
        r.action.requeue_after matches Some(d) && d@ == 3600 * NANOS_PER_SEC,
{
    let n = claims.len();
    let mut entries: Vec<ClaimSchedulingStatus> = Vec::new();
    // For each entry, the claim it reports; for each claim seen, its entry.
    let ghost mut src: Seq<int> = Seq::empty();
    let ghost mut pos: Seq<int> = Seq::new(n as nat, |j: int| 0);
    let mut i: usize = n;
    while i > 0
        invariant
            i <= n,
            n == claims@.len(),
            src.len() == entries@.len(),
            pos.len() == n,
            forall|a: int, b: int|
                0 <= a < entries@.len() && 0 <= b < entries@.len() && a != b
                    ==> #[trigger] entries@[a].name@ != #[trigger] entries@[b].name@,
            forall|e: int|
                #![trigger entries@[e]]
                0 <= e < entries@.len() ==> reports_from(claims@, potential@, entries@[e], src[e], i as int),
            forall|j: int|
                #![trigger pos[j]]
                i <= j < n ==> 0 <= pos[j] < entries@.len() && entries@[pos[j]].name@
                    == claims@[j].name@,
        decreases i,
    {
        i = i - 1;
        let c = &claims[i];
        match find_status(&entries, &c.name) {
            Some(e) => {
                proof {
                    let old_pos = pos;
                    pos = pos.update(i as int, e as int);
                    assert forall|j: int| #![trigger pos[j]] i <= j < n implies 0 <= pos[j]
                        < entries@.len() && entries@[pos[j]].name@ == claims@[j].name@ by {
                        if j != i {
                            assert(pos[j] == old_pos[j]);
                        }
                    }
                }
            },
            None => {
                let ghost before = entries@;
                assert(is_last_of_name(claims@, i as int)) by {
                    assert forall|k: int| i < k < claims@.len() implies #[trigger] claims@[k].name@
                        != claims@[i as int].name@ by {
                        assert(entries@[pos[k]].name@ == claims@[k].name@);
                    }
                }
                entries.push(
                    ClaimSchedulingStatus {
                        name: c.name.clone(),
                        unsuitable_nodes: potential.difference(&c.suitable),
                    },
                );
                proof {
                    let old_src = src;
                    let old_pos = pos;
                    src = src.push(i as int);
                    pos = pos.update(i as int, before.len() as int);
                    assert(reports_from(claims@, potential@, entries@[before.len() as int], i as int, i as int));
                    assert forall|e: int| #![trigger entries@[e]] 0 <= e < entries@.len() implies reports_from(
                        claims@,
                        potential@,
                        entries@[e],
                        src[e],
                        i as int,
                    ) by {
                        if e < before.len() {
                            assert(entries@[e] == before[e]);
                            assert(src[e] == old_src[e]);
                        }
                    }
                    assert forall|j: int| #![trigger pos[j]] i <= j < n implies 0 <= pos[j]
                        < entries@.len() && entries@[pos[j]].name@ == claims@[j].name@ by {
                        if j != i {
                            assert(pos[j] == old_pos[j]);
                            assert(entries@[old_pos[j]] == before[old_pos[j]]);
                        }
                    }
                    assert forall|a: int, b: int|
                        0 <= a < entries@.len() && 0 <= b < entries@.len() && a != b
                            implies #[trigger] entries@[a].name@ != #[trigger] entries@[b].name@ by {
                        if a < before.len() && b < before.len() {
                            assert(entries@[a] == before[a] && entries@[b] == before[b]);
                        } else if a < before.len() {
                            assert(entries@[a] == before[a]);
                        } else if b < before.len() {
                            assert(entries@[b] == before[b]);
                        }
                    }
                }
            },
        }
    }
    let ghost ev = entries@;
    assert forall|e: int| 0 <= e < ev.len() implies #[trigger] reported(claims@, potential@, ev[e]) by {
        assert(reports_last(claims@, potential@, ev[e], src[e]));
    }
    assert forall|j: int| 0 <= j < claims@.len() implies #[trigger] has_entry(ev, claims@[j].name@) by {
        assert(ev[pos[j]].name@ == claims@[j].name@);
    }
    SchedulingStatus { statuses: entries, action: Action::requeue(Duration::from_secs(3600)) }
}

/// After a failed reconciliation, the context is reconciled again in a
/// minute.
pub fn error_policy() -> (a: Action)
    ensures
        a.requeue_after matches Some(d) && d@ == 60 * NANOS_PER_SEC,
{
    Action::requeue(Duration::from_secs(60))
}

/// A node among a claim's suitable nodes always gets an allocation: the
/// suitable nodes are those of the eligible Instances, and an eligible
/// Instance has a free slot.
pub proof fn law_suitable_node_allocates(
    instances: Seq<Instance>,
    listed: Seq<usize>,
    config: Seq<char>,
    filter: Option<Seq<Seq<InstanceFilterRequirementView>>>,
    node: Seq<char>,
)
    requires
        lists_exactly(instances, listed, eligible_pred(config, filter)),
        exists|k: int|
            0 <= k < listed.len() && #[trigger] instances[listed[k] as int]@.spec.nodes.contains(node),
    ensures
        exists|j: int|
            0 <= j < instances.len() && #[trigger] on_node_pred(config, filter, node)(instances[j]@),
{
    let k = choose|k: int|
        0 <= k < listed.len() && #[trigger] instances[listed[k] as int]@.spec.nodes.contains(node);
    let j = listed[k] as int;
    assert(eligible_pred(config, filter)(instances[j]@));
    assert(on_node_pred(config, filter, node)(instances[j]@));
}

/// A node is reported unsuitable for a claim exactly when the scheduler
/// considers it and no eligible Instance of the claim is seen by it.
pub proof fn law_unsuitable_nodes(
    instances: Seq<Instance>,
    listed: Seq<usize>,
    config: Seq<char>,
    filter: Option<Seq<Seq<InstanceFilterRequirementView>>>,
    potential: Set<Seq<char>>,
    suitable: Set<Seq<char>>,
    node: Seq<char>,
)
    requires
        instances.len() <= usize::MAX,
        lists_exactly(instances, listed, eligible_pred(config, filter)),
        forall|n: Seq<char>|
            suitable.contains(n) <==> exists|k: int|
                0 <= k < listed.len() && #[trigger] instances[listed[k] as int]@.spec.nodes.contains(n),
    ensures
        potential.difference(suitable).contains(node) <==> (potential.contains(node) && forall|j: int|
            0 <= j < instances.len() ==> !#[trigger] on_node_pred(config, filter, node)(instances[j]@)),
{
    if exists|j: int| 0 <= j < instances.len() && #[trigger] on_node_pred(config, filter, node)(instances[j]@) {
        let j = choose|j: int|
            0 <= j < instances.len() && #[trigger] on_node_pred(config, filter, node)(instances[j]@);
        assert(eligible_pred(config, filter)(instances[j]@));
        assert(listed.contains(j as usize));
        let k = choose|k: int| 0 <= k < listed.len() && listed[k] == j as usize;
        assert(instances[listed[k] as int]@.spec.nodes.contains(node));
    }
    if suitable.contains(node) {
        let k = choose|k: int|
            0 <= k < listed.len() && #[trigger] instances[listed[k] as int]@.spec.nodes.contains(node);
        let j = listed[k] as int;
        assert(eligible_pred(config, filter)(instances[j]@));
        assert(on_node_pred(config, filter, node)(instances[j]@));
    }
}

} // verus!

//! Decisions of the driver controller for resource claims allocated as soon
//! as they are created (`Immediate` mode), and for their deallocation.

use vstd::prelude::*;
use vstd::string::*;
use crate::action::{Action, Duration, NANOS_PER_SEC};
use crate::allocation::{best_instance, is_best_by, lemma_best_of_listed, lemma_none_free_of_listed, lists_exactly, views, within_capacity};
use crate::instance::{Instance, InstanceView};
use crate::instance_filter::{filter_matches, InstanceFilter, InstanceFilterRequirementView};
use crate::resource::{ClaimHandle, ResourceClaim, ResourceClaimView, ResourceClass, ResourceClassView};
use crate::strings::{clone_opt_string, clone_strings, opt_str_view};

verus! {

/// The driver name of the resource classes that Akri serves.
pub const DRIVER_NAME: &'static str = "akri.sh";

/// The finalizer the driver controller puts on the claims it allocated.
pub const DRIVER_FINALIZER: &'static str = "akri.sh/driver-controller";

/// The allocation mode of claims allocated on creation.
pub const IMMEDIATE: &'static str = "Immediate";

/// The field manager under which the claim with uid `claim_uid` holds the
/// Instance that serves it: `akri.sh/driver-controller=<uid>`.
pub fn claim_field_manager(claim_uid: &String) -> (r: String)
    ensures
        r@ == DRIVER_FINALIZER@ + "="@ + claim_uid@,
{
    String::from_str(DRIVER_FINALIZER).concat("=").concat(claim_uid.as_str())
}

/// A server-side apply of the active claims of an Instance, under the
/// field manager of one claim.
pub struct ActiveClaimsPatch {
    pub instance_name: String,
    /// The resource version the apply is guarded by, if any.
    pub resource_version: Option<String>,
    pub active_claims: Vec<String>,
    pub field_manager: String,
}

/// Reserving an Instance for the claim with uid `claim_uid`: guarded by the
/// resource version on which the Instance was chosen (so that its capacity
/// is not exceeded by a concurrent allocation), the claim becomes the
/// Instance's active claim.
pub fn reserve_patch(instance_name: &String, resource_version: &String, claim_uid: &String) -> (p:
    ActiveClaimsPatch)
    ensures
        p.instance_name@ == instance_name@,
        opt_str_view(p.resource_version) == Some(resource_version@),
        p.active_claims.deep_view() == seq![claim_uid@],
        p.field_manager@ == DRIVER_FINALIZER@ + "="@ + claim_uid@,
{
    let mut active_claims: Vec<String> = Vec::new();
    active_claims.push(claim_uid.clone());
    assert(active_claims.deep_view() =~= seq![claim_uid@]);
    ActiveClaimsPatch {
        instance_name: instance_name.clone(),
        resource_version: Some(resource_version.clone()),
        active_claims,
        field_manager: claim_field_manager(claim_uid),
    }
}

/// Releasing the Instance held by the claim with uid `claim_uid`, on its
/// deallocation or when writing its allocation failed: the claim's manager
/// applies no active claim, unguarded.
pub fn release_patch(instance_name: &String, claim_uid: &String) -> (p: ActiveClaimsPatch)
    ensures
        p.instance_name@ == instance_name@,
        p.resource_version is None,
        p.active_claims@.len() == 0,
        p.field_manager@ == DRIVER_FINALIZER@ + "="@ + claim_uid@,
{
    ActiveClaimsPatch {
        instance_name: instance_name.clone(),
        resource_version: None,
        active_claims: Vec::new(),
        field_manager: claim_field_manager(claim_uid),
    }
}

/// Once its allocation is written, a claim is reconciled again in five
/// minutes, as an allocated claim is.
pub fn allocated_action() -> (a: Action)
    ensures
        a.requeue_after matches Some(d) && d@ == 300 * NANOS_PER_SEC,
{
    Action::requeue(Duration::from_secs(300))
}

/// After a failed reconciliation, the claim is reconciled again in a minute.
pub fn error_policy() -> (a: Action)
    ensures
        a.requeue_after matches Some(d) && d@ == 60 * NANOS_PER_SEC,
{
    Action::requeue(Duration::from_secs(60))
}

/// Why a claim could not be handled.
#[derive(Debug)]
pub enum Error {
    InvalidObject,
    ClassNotFound,
    FilterNotFound,
    NoMatchingInstance,
    /// A Kubernetes API call failed, with its message.
    KubeError(String),
}

/// A claim is deallocated by this controller when it is being deleted or
/// deallocation was asked, and it carries the driver's finalizer.
pub open spec fn spec_needs_deallocation(claim: ResourceClaimView) -> bool {
    &&& (claim.metadata.deletion_timestamp is Some || claim.deallocation_requested)
    &&& claim.metadata.finalizers.contains(DRIVER_FINALIZER@)
}

/// Only a claim that carries the driver's finalizer (one this controller
/// allocated) is ever deallocated, and only once it is being deleted or its
/// deallocation was asked; such a claim always is.
pub proof fn law_only_own_claims_are_deallocated(claim: ResourceClaimView)
    ensures
        spec_needs_deallocation(claim) ==> claim.metadata.finalizers.contains(DRIVER_FINALIZER@),
        !claim.metadata.finalizers.contains(DRIVER_FINALIZER@) ==> !spec_needs_deallocation(claim),
        claim.metadata.deletion_timestamp is None && !claim.deallocation_requested
            ==> !spec_needs_deallocation(claim),
        claim.metadata.finalizers.contains(DRIVER_FINALIZER@) && (claim.metadata.deletion_timestamp is Some
            || claim.deallocation_requested) ==> spec_needs_deallocation(claim),
{
}

pub fn needs_deallocation(claim: &ResourceClaim) -> (b: bool)
    ensures
        b == spec_needs_deallocation(claim@),
        b ==> claim@.metadata.finalizers.contains(DRIVER_FINALIZER@),
        b ==> claim@.metadata.deletion_timestamp is Some || claim@.deallocation_requested,
{
    (claim.metadata.is_deleting() || claim.deallocation_requested())
        && claim.metadata.has_finalizer(&String::from_str(DRIVER_FINALIZER))
}

/// The serialised handle of the allocation to release; `InvalidObject` when
/// the claim has no status, no allocation, no handle or no data.
pub fn deallocation_handle(claim: &ResourceClaim) -> (r: Result<&String, Error>)
    ensures
        match r {
            Ok(d) => claim@.first_handle_data == Some(d@),
            Err(e) => claim@.first_handle_data is None && e is InvalidObject,
        },
{
    match claim.first_handle_data() {
        Some(d) => Ok(d),
        None => Err(Error::InvalidObject),
    }
}

/// An Instance that may serve a claim: it belongs to the class's
/// configuration and passes the claim's filter.
pub open spec fn is_candidate(
    i: InstanceView,
    config: Seq<char>,
    terms: Seq<Seq<InstanceFilterRequirementView>>,
) -> bool {
    i.spec.configuration_name == config && filter_matches(terms, i.spec.broker_properties)
}

/// The predicate `is_candidate` for a configuration and filter terms.
pub open spec fn candidate_pred(
    config: Seq<char>,
    terms: Seq<Seq<InstanceFilterRequirementView>>,
) -> spec_fn(InstanceView) -> bool {
    |i: InstanceView| is_candidate(i, config, terms)
}

/// The positions, in increasing order, of the Instances that satisfy
/// `is_candidate`.
pub fn candidates(
    instances: &Vec<Instance>,
    config: &String,
    filter: &InstanceFilter,
) -> (r: Vec<usize>)
    ensures
        forall|k: int|
            0 <= k < r@.len() ==> #[trigger] r@[k] < instances@.len() && is_candidate(
                instances@[r@[k] as int]@,
                config@,
                filter@.spec,
            ),
        forall|k1: int, k2: int| 0 <= k1 < k2 < r@.len() ==> #[trigger] r@[k1] < #[trigger] r@[k2],
        forall|i: int|
            0 <= i < instances@.len() && is_candidate(instances@[i]@, config@, filter@.spec)
                ==> r@.contains(i as usize),
{
    let mut r: Vec<usize> = Vec::new();
    let mut i: usize = 0;
    while i < instances.len()
        invariant
            i <= instances@.len(),
            forall|k: int|
                0 <= k < r@.len() ==> #[trigger] r@[k] < i && is_candidate(
                    instances@[r@[k] as int]@,
                    config@,
                    filter@.spec,
                ),
            forall|k1: int, k2: int|
                0 <= k1 < k2 < r@.len() ==> #[trigger] r@[k1] < #[trigger] r@[k2],
            forall|c: int|
                0 <= c < i && is_candidate(instances@[c]@, config@, filter@.spec) ==> r@.contains(
                    c as usize,
                ),
        decreases instances@.len() - i,
    {
        if instances[i].spec.configuration_name == *config && filter.matches(&instances[i]) {
            let ghost before = r@;
            r.push(i);
            assert forall|c: int|
                0 <= c < i + 1 && is_candidate(
                    instances@[c]@,
                    config@,
                    filter@.spec,
                ) implies r@.contains(c as usize) by {
                if c < i {
                    let k = choose|k: int| 0 <= k < before.len() && before[k] == c as usize;
                    assert(r@[k] == c as usize);
                } else {
                    assert(r@[r@.len() - 1] == c as usize);
                }
            }
        }
        i = i + 1;
    }
    r
}

/// What the allocation of a claim writes: the handle, the nodes on which the
/// claim is available, and the resource version that guards the Instance
/// update.
pub struct Allocation {
    pub handle: ClaimHandle,
    pub nodes: Vec<String>,
    pub instance_resource_version: Option<String>,
}

/// The allocation a chosen Instance gives.
pub open spec fn spec_allocation_of(a: Allocation, i: InstanceView) -> bool {
    &&& a.handle@.cdi_name == i.spec.cdi_name
    &&& a.handle@.instance_name == i.metadata.name_any()
    &&& a.nodes.deep_view() == i.spec.nodes
    &&& opt_str_view(a.instance_resource_version) == i.metadata.resource_version
}

pub fn allocation_of(instance: &Instance) -> (a: Allocation)
    ensures
        spec_allocation_of(a, instance@),
{
    Allocation {
        handle: ClaimHandle {
            cdi_name: instance.spec.cdi_name.clone(),
            instance_name: instance.name_any(),
        },
        nodes: clone_strings(&instance.spec.nodes),
        instance_resource_version: clone_opt_string(&instance.metadata.resource_version),
    }
}

/// The outcome of a claim's reconciliation, short of its API calls.
pub enum ClaimDecision {
    /// Nothing to allocate: answer the runtime with this action.
    Done(Action),
    /// Reserve the Instance and write this allocation.
    Allocate(Allocation),
}

/// The filter terms a claim applies: those of its InstanceFilter, or none.
pub open spec fn claim_terms(
    claim: ResourceClaimView,
    filter: Option<Seq<Seq<InstanceFilterRequirementView>>>,
) -> Seq<Seq<InstanceFilterRequirementView>> {
    if claim.parameters_ref is Some && filter is Some {
        filter->0
    } else {
        Seq::empty()
    }
}

/// The claim gets as far as choosing an Instance of configuration `config`.
pub open spec fn reaches_choice(
    claim: ResourceClaimView,
    class: Option<ResourceClassView>,
    filter: Option<Seq<Seq<InstanceFilterRequirementView>>>,
    config: Seq<char>,
) -> bool {
    &&& !claim.allocated
    &&& claim.allocation_mode == Some(IMMEDIATE@)
    &&& class is Some
    &&& class->0.driver_name == DRIVER_NAME@
    &&& class->0.parameters_ref == Some(config)
    &&& (claim.parameters_ref is Some ==> filter is Some)
}

/// Every candidate of the chosen configuration holds no more claims than its
/// capacity: its free slots are computed by a subtraction that must not
/// underflow.
pub open spec fn choice_within_capacity(
    claim: ResourceClaimView,
    class: Option<ResourceClassView>,
    filter: Option<Seq<Seq<InstanceFilterRequirementView>>>,
    instances: Seq<InstanceView>,
) -> bool {
    class is Some && class->0.parameters_ref is Some && reaches_choice(
        claim,
        class,
        filter,
        class->0.parameters_ref->0,
    ) ==> forall|j: int|
        0 <= j < instances.len() && is_candidate(
            #[trigger] instances[j],
            class->0.parameters_ref->0,
            claim_terms(claim, filter),
        ) ==> within_capacity(instances[j])
}

pub open spec fn class_view(c: Option<&ResourceClass>) -> Option<ResourceClassView> {
    match c {
        Some(c) => Some(c@),
        None => None,
    }
}

pub open spec fn filter_view(f: Option<&InstanceFilter>) -> Option<
    Seq<Seq<InstanceFilterRequirementView>>,
> {
    match f {
        Some(f) => Some(f@.spec),
        None => None,
    }
}

/// The whole decision for a claim in `Immediate` mode, given its class and
/// the InstanceFilter found under its parameters reference.
pub open spec fn decision_ok(
    claim: ResourceClaimView,
    class: Option<ResourceClassView>,
    filter: Option<Seq<Seq<InstanceFilterRequirementView>>>,
    instances: Seq<InstanceView>,
    r: Result<ClaimDecision, Error>,
) -> bool {
    if claim.allocated {
        r matches Ok(ClaimDecision::Done(a)) && a.requeue_after matches Some(d) && d@ == 300
            * NANOS_PER_SEC
    } else if claim.allocation_mode != Some(IMMEDIATE@) {
        r matches Ok(ClaimDecision::Done(a)) && a.requeue_after is None
    } else if class is None {
        r matches Err(Error::ClassNotFound)
    } else if class->0.driver_name != DRIVER_NAME@ {
        r matches Ok(ClaimDecision::Done(a)) && a.requeue_after is None
    } else if class->0.parameters_ref is None {
        r matches Err(Error::ClassNotFound)
    } else if claim.parameters_ref is Some && filter is None {
        r matches Err(Error::FilterNotFound)
    } else {
        let config = class->0.parameters_ref->0;
        let terms = claim_terms(claim, filter);
        match r {
            Ok(ClaimDecision::Allocate(a)) => exists|k: int|
                is_best_by(instances, candidate_pred(config, terms), k) && spec_allocation_of(
                    a,
                    #[trigger] instances[k],
                ),
            Err(Error::NoMatchingInstance) => forall|j: int|
                0 <= j < instances.len() && is_candidate(#[trigger] instances[j], config, terms)
                    ==> instances[j].spec.free_slots() == 0,
            _ => false,
        }
    }
}

/// An allocation is only ever made on an Instance of the class's
/// configuration, passing the claim's filter, that has a free slot: taking
/// the claim keeps the Instance within its capacity.
pub proof fn law_allocation_keeps_capacity(
    claim: ResourceClaimView,
    class: Option<ResourceClassView>,
    filter: Option<Seq<Seq<InstanceFilterRequirementView>>>,
    instances: Seq<InstanceView>,
    a: Allocation,
)
    requires
        decision_ok(claim, class, filter, instances, Ok(ClaimDecision::Allocate(a))),
    ensures
        class is Some && class->0.parameters_ref is Some,
        exists|k: int|
            0 <= k < instances.len() && spec_allocation_of(a, #[trigger] instances[k]) && is_candidate(
                instances[k],
                class->0.parameters_ref->0,
                claim_terms(claim, filter),
            ) && instances[k].spec.active_claims.len() + 1 <= instances[k].spec.capacity,
{
    let config = class->0.parameters_ref->0;
    let terms = claim_terms(claim, filter);
    let k = choose|k: int|
        is_best_by(instances, candidate_pred(config, terms), k) && spec_allocation_of(
            a,
            #[trigger] instances[k],
        );
    assert(candidate_pred(config, terms)(instances[k]));
}

/// Whether the free slots of every candidate Instance can be computed: when
/// the claim gets as far as choosing an Instance, each candidate holds no
/// more claims than its capacity.
pub fn candidates_within_capacity(
    claim: &ResourceClaim,
    class: Option<&ResourceClass>,
    filter: Option<&InstanceFilter>,
    instances: &Vec<Instance>,
) -> (b: bool)
    ensures
        b == choice_within_capacity(claim@, class_view(class), filter_view(filter), views(instances@)),
{
    let Some(cls) = class else { return true };
    let Some(config_name) = &cls.parameters_ref else { return true };
    let immediate = match &claim.spec.allocation_mode {
        Some(m) => *m == String::from_str(IMMEDIATE),
        None => false,
    };
    if claim.is_allocated() || !immediate || cls.driver_name != String::from_str(DRIVER_NAME) {
        return true;
    }
    let default_filter = InstanceFilter::accept_all();
    let chosen: &InstanceFilter = match &claim.spec.parameters_ref {
        Some(_) => match filter {
            Some(f) => f,
            None => return true,
        },
        None => &default_filter,
    };
    let ghost config = config_name@;
    let ghost terms = claim_terms(claim@, filter_view(filter));
    assert(chosen@.spec == terms) by {
        if claim@.parameters_ref is None {
            assert(chosen@.spec =~= Seq::<Seq<InstanceFilterRequirementView>>::empty());
        }
    }
    assert(reaches_choice(claim@, class_view(class), filter_view(filter), config));
    let cand = candidates(instances, config_name, chosen);
    let mut k: usize = 0;
    while k < cand.len()
        invariant
            k <= cand@.len(),
            chosen@.spec == terms,
            terms == claim_terms(claim@, filter_view(filter)),
            class == Some(cls),
            class_view(class)->0.parameters_ref == Some(config),
            reaches_choice(claim@, class_view(class), filter_view(filter), config),
            forall|m: int|
                0 <= m < cand@.len() ==> #[trigger] cand@[m] < instances@.len() && is_candidate(
                    instances@[cand@[m] as int]@,
                    config,
                    terms,
                ),
            forall|i: int|
                0 <= i < instances@.len() && is_candidate(instances@[i]@, config, terms)
                    ==> cand@.contains(i as usize),
            forall|m: int| 0 <= m < k ==> within_capacity(instances@[#[trigger] cand@[m] as int]@),
        decreases cand@.len() - k,
    {
        let i = &instances[cand[k]];
        if i.spec.active_claims.len() > i.spec.capacity {
            let ghost j = cand@[k as int] as int;
            assert(views(instances@)[j] == instances@[j]@);
            assert(0 <= j < views(instances@).len());
            assert(is_candidate(views(instances@)[j], config, terms));
            assert(!within_capacity(views(instances@)[j]));
            assert(!choice_within_capacity(claim@, class_view(class), filter_view(filter), views(instances@)));
            return false;
        }
        k = k + 1;
    }
    assert forall|j: int|
        0 <= j < views(instances@).len() && is_candidate(
            #[trigger] views(instances@)[j],
            config,
            terms,
        ) implies within_capacity(views(instances@)[j]) by {
        assert(instances@.len() == instances.len());
        assert(views(instances@)[j] == instances@[j]@);
        assert(is_candidate(instances@[j]@, config, terms));
        assert(cand@.contains(j as usize));
        let m = choose|m: int| 0 <= m < cand@.len() && cand@[m] == j as usize;
        assert(within_capacity(instances@[cand@[m] as int]@));
    }
    true
}

/// Decides what the reconciliation of a claim does after any deallocation:
/// requeue it when allocated, ignore it unless it is `Immediate` and of an
/// Akri class, else allocate the Instance of the class's configuration that
/// passes the claim's filter and has the most free slots.
pub fn allocation_decision(
    claim: &ResourceClaim,
    class: Option<&ResourceClass>,
    filter: Option<&InstanceFilter>,
    instances: &Vec<Instance>,
) -> (r: Result<ClaimDecision, Error>)
    requires
        choice_within_capacity(claim@, class_view(class), filter_view(filter), views(instances@)),
    ensures
        decision_ok(claim@, class_view(class), filter_view(filter), views(instances@), r),
{
    if claim.is_allocated() {
        return Ok(ClaimDecision::Done(Action::requeue(Duration::from_secs(300))));
    }
    let immediate = match &claim.spec.allocation_mode {
        Some(m) => *m == String::from_str(IMMEDIATE),
        None => false,
    };
    if !immediate {
        return Ok(ClaimDecision::Done(Action::await_change()));
    }
    let Some(class) = class else { return Err(Error::ClassNotFound) };
    if class.driver_name != String::from_str(DRIVER_NAME) {
        return Ok(ClaimDecision::Done(Action::await_change()));
    }
    let Some(config_name) = &class.parameters_ref else { return Err(Error::ClassNotFound) };
    let default_filter = InstanceFilter::accept_all();
    let filter: &InstanceFilter = match &claim.spec.parameters_ref {
        Some(_) => match filter {
            Some(f) => f,
            None => return Err(Error::FilterNotFound),
        },
        None => &default_filter,
    };
    let ghost config = config_name@;
    let ghost terms = claim_terms(claim@, filter_view(Some(filter)));
    assert(filter@.spec == terms) by {
        if claim@.parameters_ref is None {
            assert(filter@.spec =~= Seq::<Seq<InstanceFilterRequirementView>>::empty());
        }
    }
    assert(reaches_choice(claim@, class_view(Some(class)), filter_view(Some(filter)), config));
    let cand = candidates(instances, config_name, filter);
    assert forall|k: int| 0 <= k < cand@.len() implies #[trigger] cand@[k] < instances@.len()
        && within_capacity(instances@[cand@[k] as int]@) by {
        let j = cand@[k] as int;
        assert(views(instances@)[j] == instances@[j]@);
    }
    match best_instance(instances, &cand) {
        Some(p) => {
            proof {
                assert(instances@.len() == instances.len());
                assert(lists_exactly(instances@, cand@, candidate_pred(config, terms)));
                lemma_best_of_listed(instances@, cand@, candidate_pred(config, terms), p as int);
            }
            let a = allocation_of(&instances[cand[p]]);
            assert(views(instances@)[cand@[p as int] as int] == instances@[cand@[p as int] as int]@);
            Ok(ClaimDecision::Allocate(a))
        },
        None => {
            assert(instances@.len() == instances.len());
            assert(lists_exactly(instances@, cand@, candidate_pred(config, terms)));
            proof {
                lemma_none_free_of_listed(instances@, cand@, candidate_pred(config, terms));
            }
            assert forall|j: int|
                0 <= j < views(instances@).len() && is_candidate(
                    #[trigger] views(instances@)[j],
                    config,
                    terms,
                ) implies views(instances@)[j].spec.free_slots() == 0 by {
                assert(candidate_pred(config, terms)(views(instances@)[j]));
            }
            Err(Error::NoMatchingInstance)
        },
    }
}

} // verus!

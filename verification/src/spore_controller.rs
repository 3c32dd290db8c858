//! Decisions of the Spore controller: which Instances a Spore follows, what
//! a reconciliation deploys or removes, and how errors are retried.

use vstd::prelude::*;
use vstd::string::*;
use crate::action::{Action, Duration, NANOS_PER_SEC};
use crate::allocation::views;
use crate::discovery_configuration::{DISCOVERY_CONFIGURATION_API_VERSION, DISCOVERY_CONFIGURATION_KIND};
use crate::instance::{Instance, InstanceView};
use crate::meta::{OwnerReference, OwnerReferenceView, spec_controller_owner_ref};
use crate::spore::{Spore, SporeView, SPORE_API_VERSION, SPORE_KIND};
use crate::spore_refs::{SporeRef, WatchedConfigurations, spec_unwatch, spec_watch, refs_set, refs_distinct, SporeRefView};
use crate::string_map::StringMap;
use crate::strings::opt_str_view;

verus! {

/// The finalizer the controller puts on the Spores it handles.
pub const SPORE_FINALIZER: &'static str = "akri.sh/spore_controller";

/// The prefix of the finalizer a Spore puts on the Instances it follows.
pub const SPORE_INSTANCE_FINALIZER_PREFIX: &'static str = "akri.sh/spore_instance_";

pub const MANAGED_BY_LABEL: &'static str = "app.kubernetes.io/managed-by";

pub const MANAGED_BY: &'static str = "akri";

pub const SPORE_LABEL: &'static str = "akri.sh/spore";

pub const INSTANCE_LABEL: &'static str = "akri.sh/instance";

/// The field manager of the objects the controller applies.
pub const FIELD_MANAGER: &'static str = "akri-spore-controller";

/// Why a Spore reconciliation failed.
#[derive(Debug)]
pub enum Error {
    /// A call failed; assumed temporary.
    Anyhow(String),
    /// An object template could not be rendered.
    Template(String),
    /// An object template is not a valid object.
    InvalidObject(String),
    /// The Spore lacks what the API server always sets.
    Never,
}

pub open spec fn is_permanent(e: Error) -> bool {
    !(e is Anyhow)
}

/// Permanent errors are retried after 300 seconds, temporary ones after 5.
pub fn error_policy(err: &Error) -> (a: Action)
    ensures
        a.requeue_after matches Some(d) && d@ == (if is_permanent(*err) {
            300 * NANOS_PER_SEC
        } else {
            5 * NANOS_PER_SEC
        }),
{
    match err {
        Error::Never | Error::Template(_) | Error::InvalidObject(_) => Action::requeue(
            Duration::from_secs(300),
        ),
        Error::Anyhow(_) => Action::requeue(Duration::from_secs(5)),
    }
}

/// An owner reference that designates the DiscoveryConfiguration `name`.
pub open spec fn designates_configuration(o: OwnerReferenceView, name: Seq<char>) -> bool {
    &&& o.api_version == DISCOVERY_CONFIGURATION_API_VERSION@
    &&& o.kind == DISCOVERY_CONFIGURATION_KIND@
    &&& o.name == name
}

/// The Instance was discovered by the DiscoveryConfiguration `name`.
pub open spec fn is_linked(i: InstanceView, name: Seq<char>) -> bool {
    exists|k: int|
        0 <= k < i.metadata.owner_references.len() && designates_configuration(
            #[trigger] i.metadata.owner_references[k],
            name,
        )
}

pub fn instance_is_linked(instance: &Instance, selector: &String) -> (b: bool)
    ensures
        b == is_linked(instance@, selector@),
{
    let refs = &instance.metadata.owner_references;
    let api_version = String::from_str(DISCOVERY_CONFIGURATION_API_VERSION);
    let kind = String::from_str(DISCOVERY_CONFIGURATION_KIND);
    let mut k: usize = 0;
    while k < refs.len()
        invariant
            k <= refs@.len(),
            refs@ == instance.metadata.owner_references@,
            api_version@ == DISCOVERY_CONFIGURATION_API_VERSION@,
            kind@ == DISCOVERY_CONFIGURATION_KIND@,
            forall|j: int|
                0 <= j < k ==> !designates_configuration(
                    #[trigger] instance@.metadata.owner_references[j],
                    selector@,
                ),
        decreases refs@.len() - k,
    {
        assert(instance@.metadata.owner_references[k as int] == refs@[k as int]@);
        if refs[k].api_version == api_version && refs[k].kind == kind && refs[k].name == *selector {
            return true;
        }
        k = k + 1;
    }
    false
}

/// The Instances discovered by the Spore's DiscoveryConfiguration, in order.
pub fn linked_instances(instances: &Vec<Instance>, spore: &Spore) -> (r: Vec<Instance>)
    ensures
        views(r@) == views(instances@).filter(|i: InstanceView| is_linked(i, spore@.selector)),
{
    let ghost pred = |i: InstanceView| is_linked(i, spore@.selector);
    let mut r: Vec<Instance> = Vec::new();
    let mut k: usize = 0;
    while k < instances.len()
        invariant
            k <= instances@.len(),
            pred == (|i: InstanceView| is_linked(i, spore@.selector)),
            views(r@) == views(instances@).take(k as int).filter(pred),
        decreases instances@.len() - k,
    {
        let ghost before = r@;
        let keep = instance_is_linked(&instances[k], &spore.spec.discovery_selector.name);
        proof {
            let t = views(instances@).take(k + 1);
            assert(t.drop_last() =~= views(instances@).take(k as int));
            assert(t.last() == instances@[k as int]@);
            reveal(Seq::filter);
        }
        if keep {
            r.push(instances[k].clone_instance());
            assert(views(r@) =~= views(before).push(instances@[k as int]@));
        } else {
            assert(views(r@) =~= views(before));
        }
        k = k + 1;
    }
    assert(views(instances@).take(instances@.len() as int) =~= views(instances@));
    r
}

/// The Spores to reconcile when an Instance with these owner references
/// changes: those that watch the configuration of its first owner.
pub fn spores_to_reconcile(
    watched: &WatchedConfigurations,
    owner_references: &Vec<OwnerReference>,
) -> (v: Vec<SporeRef>)
    ensures
        refs_distinct(v@),
        refs_set(v@) == ({
            let config = if owner_references@.len() > 0 {
                owner_references@[0].name@
            } else {
                Seq::<char>::empty()
            };
            if watched@.contains_key(config) {
                watched@[config]
            } else {
                Set::<SporeRefView>::empty()
            }
        }),
{
    let config = if owner_references.len() > 0 {
        owner_references[0].name.clone()
    } else {
        String::new()
    };
    watched.spores_of(&config)
}

/// What a Spore reconciliation does, step by step, with the Instances it
/// follows (positions in the list of linked Instances).
pub enum SporeStep {
    RemoveInstanceFinalizer(usize),
    RemoveSporeFinalizer,
    AddSporeFinalizer,
    /// Delete the Spore's once-objects.
    DeleteOnce,
    /// Apply the Spore's once-objects, with these labels.
    ApplyOnce(StringMap),
    AddInstanceFinalizer(usize),
    /// Delete the device objects of the Instance.
    DeleteDevice(usize),
    /// Apply the device objects of the Instance, with these labels.
    ApplyDevice(usize, StringMap),
}

pub enum SporeStepView {
    RemoveInstanceFinalizer(int),
    RemoveSporeFinalizer,
    AddSporeFinalizer,
    DeleteOnce,
    ApplyOnce(Map<Seq<char>, Seq<char>>),
    AddInstanceFinalizer(int),
    DeleteDevice(int),
    ApplyDevice(int, Map<Seq<char>, Seq<char>>),
}

impl View for SporeStep {
    type V = SporeStepView;

    open spec fn view(&self) -> SporeStepView {
        match self {
            SporeStep::RemoveInstanceFinalizer(i) => SporeStepView::RemoveInstanceFinalizer(*i as int),
            SporeStep::RemoveSporeFinalizer => SporeStepView::RemoveSporeFinalizer,
            SporeStep::AddSporeFinalizer => SporeStepView::AddSporeFinalizer,
            SporeStep::DeleteOnce => SporeStepView::DeleteOnce,
            SporeStep::ApplyOnce(l) => SporeStepView::ApplyOnce(l@),
            SporeStep::AddInstanceFinalizer(i) => SporeStepView::AddInstanceFinalizer(*i as int),
            SporeStep::DeleteDevice(i) => SporeStepView::DeleteDevice(*i as int),
            SporeStep::ApplyDevice(i, l) => SporeStepView::ApplyDevice(*i as int, l@),
        }
    }
}

pub open spec fn steps_view(s: Seq<SporeStep>) -> Seq<SporeStepView> {
    s.map_values(|st: SporeStep| st@)
}

/// The labels every deployed object gets.
pub open spec fn base_labels(spore_name: Seq<char>) -> Map<Seq<char>, Seq<char>> {
    Map::<Seq<char>, Seq<char>>::empty().insert(MANAGED_BY_LABEL@, MANAGED_BY@).insert(
        SPORE_LABEL@,
        spore_name,
    )
}

/// When the Spore is deleted: release every Instance, then the Spore.
pub open spec fn teardown_steps(n: nat) -> Seq<SporeStepView> {
    Seq::new(n, |i: int| SporeStepView::RemoveInstanceFinalizer(i)).push(
        SporeStepView::RemoveSporeFinalizer,
    )
}

/// The once-objects exist while some followed Instance is not being deleted.
pub open spec fn once_steps(instances: Seq<InstanceView>, labels: Map<Seq<char>, Seq<char>>) -> Seq<
    SporeStepView,
> {
    if instances.len() == 0 {
        Seq::empty()
    } else if forall|k: int|
        0 <= k < instances.len() ==> (#[trigger] instances[k]).metadata.deletion_timestamp is Some {
        seq![SporeStepView::DeleteOnce]
    } else {
        seq![SporeStepView::ApplyOnce(labels)]
    }
}

/// Per Instance: remove its objects and release it when it is being
/// deleted, else hold it and apply its objects.
pub open spec fn instance_steps(i: InstanceView, k: int, labels: Map<Seq<char>, Seq<char>>) -> Seq<
    SporeStepView,
> {
    if i.metadata.deletion_timestamp is Some {
        seq![SporeStepView::DeleteDevice(k), SporeStepView::RemoveInstanceFinalizer(k)]
    } else {
        seq![
            SporeStepView::AddInstanceFinalizer(k),
            SporeStepView::ApplyDevice(k, labels.insert(INSTANCE_LABEL@, i.metadata.name_any())),
        ]
    }
}

pub open spec fn device_steps(instances: Seq<InstanceView>, labels: Map<Seq<char>, Seq<char>>) -> Seq<
    SporeStepView,
>
    decreases instances.len(),
{
    if instances.len() == 0 {
        Seq::empty()
    } else {
        device_steps(instances.drop_last(), labels) + instance_steps(
            instances.last(),
            instances.len() - 1,
            labels,
        )
    }
}

/// The device steps of Instance `k` sit at positions `2k` and `2k + 1`.
proof fn lemma_device_steps_at(instances: Seq<InstanceView>, labels: Map<Seq<char>, Seq<char>>)
    ensures
        device_steps(instances, labels).len() == 2 * instances.len(),
        forall|k: int|
            0 <= k < instances.len() ==> device_steps(instances, labels)[2 * k] == instance_steps(
                #[trigger] instances[k],
                k,
                labels,
            )[0] && device_steps(instances, labels)[2 * k + 1] == instance_steps(
                instances[k],
                k,
                labels,
            )[1],
    decreases instances.len(),
{
    if instances.len() > 0 {
        let init = instances.drop_last();
        lemma_device_steps_at(init, labels);
        assert forall|k: int| 0 <= k < instances.len() implies device_steps(instances, labels)[2 * k]
            == instance_steps(#[trigger] instances[k], k, labels)[0] && device_steps(
            instances,
            labels,
        )[2 * k + 1] == instance_steps(instances[k], k, labels)[1] by {
            if k < instances.len() - 1 {
                assert(init[k] == instances[k]);
            }
        }
    }
}

/// The once-objects are applied while some followed Instance is not being
/// deleted, deleted once every followed Instance is, and left alone when the
/// Spore follows no Instance.
pub proof fn law_once_steps(instances: Seq<InstanceView>, labels: Map<Seq<char>, Seq<char>>)
    ensures
        instances.len() == 0 ==> once_steps(instances, labels) == Seq::<SporeStepView>::empty(),
        (exists|k: int|
            0 <= k < instances.len() && (#[trigger] instances[k]).metadata.deletion_timestamp is None)
            ==> once_steps(instances, labels) == seq![SporeStepView::ApplyOnce(labels)],
        instances.len() > 0 && (forall|k: int|
            0 <= k < instances.len() ==> (#[trigger] instances[k]).metadata.deletion_timestamp is Some)
            ==> once_steps(instances, labels) == seq![SporeStepView::DeleteOnce],
{
}

/// Every followed Instance is handled, whatever the others' states: one
/// that is not being deleted is held (its finalizer added) and gets its
/// device objects, with the Instance's label; one being deleted has its
/// device objects removed and is released.
pub proof fn law_device_steps(instances: Seq<InstanceView>, labels: Map<Seq<char>, Seq<char>>, k: int)
    requires
        0 <= k < instances.len(),
    ensures
        device_steps(instances, labels).len() == 2 * instances.len(),
        instances[k].metadata.deletion_timestamp is None ==> device_steps(instances, labels)[2 * k]
            == SporeStepView::AddInstanceFinalizer(k) && device_steps(instances, labels)[2 * k + 1]
            == SporeStepView::ApplyDevice(
            k,
            labels.insert(INSTANCE_LABEL@, instances[k].metadata.name_any()),
        ),
        instances[k].metadata.deletion_timestamp is Some ==> device_steps(instances, labels)[2 * k]
            == SporeStepView::DeleteDevice(k) && device_steps(instances, labels)[2 * k + 1]
            == SporeStepView::RemoveInstanceFinalizer(k),
{
    lemma_device_steps_at(instances, labels);
    assert(device_steps(instances, labels)[2 * k] == instance_steps(instances[k], k, labels)[0]);
}

/// What the plan of a Spore that is not being deleted does with the
/// once-objects and with each followed Instance.
pub open spec fn live_plan_handles(
    instances: Seq<InstanceView>,
    labels: Map<Seq<char>, Seq<char>>,
    steps: Seq<SporeStepView>,
) -> bool {
    &&& (exists|k: int|
        0 <= k < instances.len() && (#[trigger] instances[k]).metadata.deletion_timestamp is None)
        ==> steps[1] == SporeStepView::ApplyOnce(labels)
    &&& instances.len() > 0 && (forall|k: int|
        0 <= k < instances.len() ==> (#[trigger] instances[k]).metadata.deletion_timestamp is Some)
        ==> steps[1] == SporeStepView::DeleteOnce
    &&& forall|k: int|
        0 <= k < instances.len() && (#[trigger] instances[k]).metadata.deletion_timestamp is None
            ==> steps.contains(SporeStepView::AddInstanceFinalizer(k)) && steps.contains(
            SporeStepView::ApplyDevice(k, labels.insert(INSTANCE_LABEL@, instances[k].metadata.name_any())),
        )
    &&& forall|k: int|
        0 <= k < instances.len() && (#[trigger] instances[k]).metadata.deletion_timestamp is Some
            ==> steps.contains(SporeStepView::DeleteDevice(k)) && steps.contains(
            SporeStepView::RemoveInstanceFinalizer(k),
        )
}

proof fn lemma_live_plan(
    instances: Seq<InstanceView>,
    labels: Map<Seq<char>, Seq<char>>,
    steps: Seq<SporeStepView>,
)
    requires
        steps == seq![SporeStepView::AddSporeFinalizer] + once_steps(instances, labels)
            + device_steps(instances, labels),
    ensures
        live_plan_handles(instances, labels, steps),
{
    law_once_steps(instances, labels);
    let o = once_steps(instances, labels).len();
    lemma_device_steps_at(instances, labels);
    assert forall|k: int|
        0 <= k < instances.len() && (#[trigger] instances[k]).metadata.deletion_timestamp is None
            implies steps.contains(SporeStepView::AddInstanceFinalizer(k)) && steps.contains(
        SporeStepView::ApplyDevice(k, labels.insert(INSTANCE_LABEL@, instances[k].metadata.name_any())),
    ) by {
        law_device_steps(instances, labels, k);
        assert(steps[1 + o + 2 * k] == device_steps(instances, labels)[2 * k]);
        assert(steps[1 + o + 2 * k + 1] == device_steps(instances, labels)[2 * k + 1]);
    }
    assert forall|k: int|
        0 <= k < instances.len() && (#[trigger] instances[k]).metadata.deletion_timestamp is Some
            implies steps.contains(SporeStepView::DeleteDevice(k)) && steps.contains(
        SporeStepView::RemoveInstanceFinalizer(k),
    ) by {
        law_device_steps(instances, labels, k);
        assert(steps[1 + o + 2 * k] == device_steps(instances, labels)[2 * k]);
        assert(steps[1 + o + 2 * k + 1] == device_steps(instances, labels)[2 * k + 1]);
    }
}

/// The plan of a reconciliation: its steps, the finalizer that marks the
/// followed Instances, the owner and namespace of the deployed objects, and
/// the answer once every step succeeded.
pub struct SporePlan {
    pub namespace: String,
    pub instance_finalizer: String,
    pub owner: OwnerReference,
    pub steps: Vec<SporeStep>,
    pub action: Action,
}

/// The namespace of a Spore, which the API server always sets.
pub fn reconcile_namespace(spore: &Spore) -> (r: Result<String, Error>)
    ensures
        match r {
            Ok(ns) => spore@.metadata.namespace == Some(ns@),
            Err(e) => spore@.metadata.namespace is None && e is Never,
        },
{
    match &spore.metadata.namespace {
        Some(ns) => Ok(ns.clone()),
        None => Err(Error::Never),
    }
}

/// `ObjectRef::from_obj`: the namespace and name of the Spore.
pub fn spore_ref(spore: &Spore) -> (r: SporeRef)
    requires
        spore@.metadata.name is Some,
    ensures
        r@ == (spore@.metadata.namespace, spore@.metadata.name->0),
{
    SporeRef {
        namespace: crate::strings::clone_opt_string(&spore.metadata.namespace),
        name: spore.metadata.name.as_ref().unwrap().clone(),
    }
}

/// Plans the reconciliation of a Spore that follows `instances` (its linked
/// Instances), and records in `watched` whether it still watches its
/// configuration.
pub fn reconcile_plan(
    spore: &Spore,
    instances: &Vec<Instance>,
    watched: &mut WatchedConfigurations,
) -> (r: Result<SporePlan, Error>)
    requires
        spore@.metadata.namespace is Some && spore@.metadata.uid is Some
            ==> spore@.metadata.name is Some,
    ensures
        match r {
            Err(e) => {
                &&& e is Never
                &&& (spore@.metadata.namespace is None || spore@.metadata.uid is None)
                &&& final(watched)@ == old(watched)@
            },
            Ok(plan) => {
                let s = spore@;
                let r = (s.metadata.namespace, s.metadata.name->0);
                &&& s.metadata.namespace == Some(plan.namespace@)
                &&& s.metadata.uid is Some
                &&& plan.instance_finalizer@ == SPORE_INSTANCE_FINALIZER_PREFIX@ + s.metadata.uid->0
                &&& spec_controller_owner_ref(s.metadata, SPORE_API_VERSION@, SPORE_KIND@) == Some(
                    plan.owner@,
                )
                &&& if s.metadata.deletion_timestamp is Some {
                    &&& final(watched)@ == spec_unwatch(old(watched)@, s.selector, r)
                    &&& steps_view(plan.steps@) == teardown_steps(instances@.len())
                    &&& plan.action.requeue_after is None
                } else {
                    &&& final(watched)@ == spec_watch(old(watched)@, s.selector, r)
                    &&& steps_view(plan.steps@) == seq![SporeStepView::AddSporeFinalizer]
                        + once_steps(views(instances@), base_labels(s.metadata.name_any()))
                        + device_steps(views(instances@), base_labels(s.metadata.name_any()))
                    &&& live_plan_handles(
                        views(instances@),
                        base_labels(s.metadata.name_any()),
                        steps_view(plan.steps@),
                    )
                    &&& plan.action.requeue_after matches Some(d) && d@ == 300 * NANOS_PER_SEC
                }
            },
        },
{
    let namespace = reconcile_namespace(spore)?;
    let uid = match &spore.metadata.uid {
        Some(u) => u.clone(),
        None => return Err(Error::Never),
    };
    let instance_finalizer = String::from_str(SPORE_INSTANCE_FINALIZER_PREFIX).concat(uid.as_str());
    let owner = spore.controller_owner_ref().unwrap();
    let this = spore_ref(spore);
    let selector = &spore.spec.discovery_selector.name;
    let mut steps: Vec<SporeStep> = Vec::new();
    if spore.metadata.is_deleting() {
        watched.unwatch(selector, &this);
        let mut k: usize = 0;
        while k < instances.len()
            invariant
                k <= instances@.len(),
                steps@.len() == k,
                steps_view(steps@) == Seq::new(
                    k as nat,
                    |i: int| SporeStepView::RemoveInstanceFinalizer(i),
                ),
            decreases instances@.len() - k,
        {
            let ghost before = steps@;
            steps.push(SporeStep::RemoveInstanceFinalizer(k));
            assert forall|i: int| 0 <= i < k + 1 implies steps_view(steps@)[i]
                == SporeStepView::RemoveInstanceFinalizer(i) by {
                if i < k {
                    assert(steps@[i] == before[i]);
                    assert(steps_view(before)[i] == SporeStepView::RemoveInstanceFinalizer(i));
                }
            }
            assert(steps_view(steps@) =~= Seq::new(
                (k + 1) as nat,
                |i: int| SporeStepView::RemoveInstanceFinalizer(i),
            ));
            k = k + 1;
        }
        steps.push(SporeStep::RemoveSporeFinalizer);
        assert(steps_view(steps@) =~= teardown_steps(instances@.len()));
        return Ok(
            SporePlan {
                namespace,
                instance_finalizer,
                owner,
                steps,
                action: Action::await_change(),
            },
        );
    }
    watched.watch(selector, this);
    steps.push(SporeStep::AddSporeFinalizer);
    let mut labels = StringMap::new();
    labels.insert(String::from_str(MANAGED_BY_LABEL), String::from_str(MANAGED_BY));
    labels.insert(String::from_str(SPORE_LABEL), spore.metadata.name_any());
    assert(labels@ == base_labels(spore@.metadata.name_any()));
    let ghost base = labels@;
    let ghost v = views(instances@);
    if instances.len() > 0 {
        let mut all_deleting = true;
        let mut k: usize = 0;
        while k < instances.len()
            invariant
                k <= instances@.len(),
                v == views(instances@),
                all_deleting == forall|j: int|
                    0 <= j < k ==> (#[trigger] v[j]).metadata.deletion_timestamp is Some,
            decreases instances@.len() - k,
        {
            assert(v[k as int] == instances@[k as int]@);
            all_deleting = all_deleting && instances[k].metadata.is_deleting();
            k = k + 1;
        }
        if all_deleting {
            steps.push(SporeStep::DeleteOnce);
        } else {
            steps.push(SporeStep::ApplyOnce(labels.clone_map()));
        }
    }
    let ghost prefix = steps_view(steps@);
    assert(prefix =~= seq![SporeStepView::AddSporeFinalizer] + once_steps(v, base));
    let mut k: usize = 0;
    assert(v.take(0) =~= Seq::<InstanceView>::empty());
    while k < instances.len()
        invariant
            k <= instances@.len(),
            v == views(instances@),
            labels@ == base,
            steps_view(steps@) == prefix + device_steps(v.take(k as int), base),
        decreases instances@.len() - k,
    {
        let ghost before = steps_view(steps@);
        assert(v[k as int] == instances@[k as int]@);
        if instances[k].metadata.is_deleting() {
            steps.push(SporeStep::DeleteDevice(k));
            steps.push(SporeStep::RemoveInstanceFinalizer(k));
        } else {
            steps.push(SporeStep::AddInstanceFinalizer(k));
            let mut instance_labels = labels.clone_map();
            instance_labels.insert(String::from_str(INSTANCE_LABEL), instances[k].name_any());
            steps.push(SporeStep::ApplyDevice(k, instance_labels));
        }
        proof {
            let t = v.take(k + 1);
            assert(t.drop_last() =~= v.take(k as int));
            assert(t.last() == v[k as int]);
            assert(steps_view(steps@) =~= before + instance_steps(v[k as int], k as int, base));
            assert(steps_view(steps@) =~= prefix + device_steps(t, base));
        }
        k = k + 1;
    }
    assert(v.take(instances@.len() as int) =~= v);
    proof {
        lemma_live_plan(v, base, steps_view(steps@));
    }
    Ok(
        SporePlan {
            namespace,
            instance_finalizer,
            owner,
            steps,
            action: Action::requeue(Duration::from_secs(300)),
        },
    )
}

/// What the object templates of a Spore see of one Instance: its name, the
/// nodes that see it and its broker properties.
pub struct InstanceTemplateData {
    pub name: String,
    pub nodes: Vec<String>,
    pub properties: StringMap,
}

/// The data holds the name, nodes and properties of the Instance.
pub open spec fn describes_instance(d: InstanceTemplateData, i: InstanceView) -> bool {
    &&& d.name@ == i.metadata.name_any()
    &&& d.nodes.deep_view() == i.spec.nodes
    &&& d.properties@ == i.spec.broker_properties
}

/// The variables of the once-object templates: `LABEL_SELECTOR`, the label
/// of the Spore's objects, and `INSTANCES`, each followed Instance.
pub struct OnceTemplateData {
    pub label_selector: StringMap,
    pub instances: Vec<InstanceTemplateData>,
}

/// The variables of the device-object templates of one Instance:
/// `LABEL_SELECTOR`, the labels of the Spore's and the Instance's objects,
/// and `INSTANCE_NAME`, `INSTANCE_NODES`, `INSTANCE_PROPERTIES`.
pub struct DeviceTemplateData {
    pub label_selector: StringMap,
    pub instance: InstanceTemplateData,
}

fn instance_template_data(instance: &Instance) -> (d: InstanceTemplateData)
    ensures
        describes_instance(d, instance@),
{
    InstanceTemplateData {
        name: instance.name_any(),
        nodes: crate::strings::clone_strings(&instance.spec.nodes),
        properties: instance.spec.broker_properties.clone_map(),
    }
}

/// The once-object variables of the Spore named `spore_name` following
/// `instances`.
pub fn once_template_data(spore_name: &String, instances: &Vec<Instance>) -> (d: OnceTemplateData)
    ensures
        d.label_selector@ == Map::<Seq<char>, Seq<char>>::empty().insert(SPORE_LABEL@, spore_name@),
        d.instances@.len() == instances@.len(),
        forall|k: int|
            0 <= k < instances@.len() ==> describes_instance(
                #[trigger] d.instances@[k],
                instances@[k]@,
            ),
{
    let mut label_selector = StringMap::new();
    label_selector.insert(String::from_str(SPORE_LABEL), spore_name.clone());
    let mut data: Vec<InstanceTemplateData> = Vec::new();
    let mut k: usize = 0;
    while k < instances.len()
        invariant
            k <= instances@.len(),
            data@.len() == k,
            forall|j: int| 0 <= j < k ==> describes_instance(#[trigger] data@[j], instances@[j]@),
        decreases instances@.len() - k,
    {
        data.push(instance_template_data(&instances[k]));
        k = k + 1;
    }
    OnceTemplateData { label_selector, instances: data }
}

/// The device-object variables of `instance` for the Spore named
/// `spore_name`.
pub fn device_template_data(spore_name: &String, instance: &Instance) -> (d: DeviceTemplateData)
    ensures
        d.label_selector@ == Map::<Seq<char>, Seq<char>>::empty().insert(SPORE_LABEL@, spore_name@).insert(
            INSTANCE_LABEL@,
            instance@.metadata.name_any(),
        ),
        describes_instance(d.instance, instance@),
{
    let mut label_selector = StringMap::new();
    label_selector.insert(String::from_str(SPORE_LABEL), spore_name.clone());
    label_selector.insert(String::from_str(INSTANCE_LABEL), instance.name_any());
    DeviceTemplateData { label_selector, instance: instance_template_data(instance) }
}

/// The type of an object template (`apiVersion` and `kind`).
pub struct TypeMeta {
    pub api_version: String,
    pub kind: String,
}

impl View for TypeMeta {
    type V = (Seq<char>, Seq<char>);

    open spec fn view(&self) -> (Seq<char>, Seq<char>) {
        (self.api_version@, self.kind@)
    }
}

impl TypeMeta {
    pub fn clone_type(&self) -> (t: TypeMeta)
        ensures
            t@ == self@,
    {
        TypeMeta { api_version: self.api_version.clone(), kind: self.kind.clone() }
    }
}

/// The type of a template to apply, which must be given.
pub fn template_type(types: &Option<TypeMeta>) -> (r: Result<&TypeMeta, Error>)
    ensures
        match r {
            Ok(t) => *types == Some(*t),
            Err(e) => {
                &&& types is None
                &&& e matches Error::InvalidObject(m) && m@ == "No valid type in object"@
            },
        },
{
    match types {
        Some(t) => Ok(t),
        None => Err(Error::InvalidObject(String::from_str("No valid type in object"))),
    }
}

/// The object types whose changes already trigger Spore reconciliations.
pub struct WatchedTypes {
    types: Vec<TypeMeta>,
}

impl View for WatchedTypes {
    type V = Set<(Seq<char>, Seq<char>)>;

    closed spec fn view(&self) -> Set<(Seq<char>, Seq<char>)> {
        self.types@.map_values(|t: TypeMeta| t@).to_set()
    }
}

impl WatchedTypes {
    pub fn new() -> (w: WatchedTypes)
        ensures
            w@ == Set::<(Seq<char>, Seq<char>)>::empty(),
    {
        let w = WatchedTypes { types: Vec::new() };
        assert(w@ =~= Set::<(Seq<char>, Seq<char>)>::empty());
        w
    }

    /// Whether changes of objects of this type are already watched.
    pub fn contains(&self, t: &TypeMeta) -> (b: bool)
        ensures
            b == self@.contains(t@),
    {
        let mut i: usize = 0;
        while i < self.types.len()
            invariant
                i <= self.types@.len(),
                forall|j: int| 0 <= j < i ==> #[trigger] self.types@[j]@ != t@,
            decreases self.types@.len() - i,
        {
            if self.types[i].api_version == t.api_version && self.types[i].kind == t.kind {
                assert(self.types@.map_values(|t: TypeMeta| t@)[i as int] == t@);
                return true;
            }
            i = i + 1;
        }
        let ghost m = self.types@.map_values(|t: TypeMeta| t@);
        assert forall|j: int| 0 <= j < m.len() implies #[trigger] m[j] != t@ by {
            assert(m[j] == self.types@[j]@);
        }
        false
    }

    /// Records that objects of this type are watched.
    pub fn insert(&mut self, t: TypeMeta)
        ensures
            final(self)@ == old(self)@.insert(t@),
    {
        let ghost before = self.types@;
        self.types.push(t);
        assert(self.types@.map_values(|t: TypeMeta| t@) =~= before.map_values(|t: TypeMeta| t@).push(
            t@,
        ));
        assert(self@ =~= old(self)@.insert(t@)) by {
            assert forall|x: (Seq<char>, Seq<char>)| #[trigger] self@.contains(x) == old(
                self,
            )@.insert(t@).contains(x) by {
                let a = before.map_values(|t: TypeMeta| t@);
                let b = self.types@.map_values(|t: TypeMeta| t@);
                if b.contains(x) && x != t@ {
                    let j = choose|j: int| 0 <= j < b.len() && b[j] == x;
                    assert(a[j] == x);
                }
                if a.contains(x) {
                    let j = choose|j: int| 0 <= j < a.len() && a[j] == x;
                    assert(b[j] == x);
                }
                if x == t@ {
                    assert(b[b.len() - 1] == x);
                }
            }
        }
    }
}

/// Readies the metadata of a rendered template for applying: the Spore
/// becomes an owner, the labels are added (overriding those of the same key)
/// and the object goes to the Spore's namespace.
pub fn decorate_for_apply(
    meta: &mut crate::meta::ObjectMeta,
    owner: &OwnerReference,
    labels: &StringMap,
    namespace: &String,
)
    ensures
        final(meta)@ == (crate::meta::ObjectMetaView {
            owner_references: old(meta)@.owner_references.push(owner@),
            labels: old(meta)@.labels.union_prefer_right(labels@),
            namespace: Some(namespace@),
            ..old(meta)@
        }),
{
    let ghost refs = meta.owner_references@;
    meta.owner_references.push(owner.clone_ref());
    meta.labels.extend(labels);
    meta.namespace = Some(namespace.clone());
    assert(meta.owner_references@.drop_last() =~= refs);
    assert(crate::meta::owner_refs_view(meta.owner_references@) =~= crate::meta::owner_refs_view(
        refs,
    ).push(owner@));
}

/// Readies the metadata of a rendered template for deleting: the object is
/// looked up in the Spore's namespace.
pub fn decorate_for_delete(meta: &mut crate::meta::ObjectMeta, namespace: &String)
    ensures
        final(meta)@ == (crate::meta::ObjectMetaView { namespace: Some(namespace@), ..old(meta)@ }),
{
    meta.namespace = Some(namespace.clone());
}

} // verus!

//! The `InstanceFilter` resource: which Instances a resource claim accepts.

use vstd::prelude::*;
use crate::instance::Instance;
use crate::meta::{ObjectMeta, ObjectMetaView};
use crate::parse::{parse_i64, spec_parse_i64};
use crate::strings::contains_string;

verus! {

#[derive(Clone, Copy, Debug, PartialEq, Eq, Structural)]
pub enum InstanceFilterOperator {
    In,
    NotIn,
    Exists,
    NotExists,
    Gt,
    Lt,
}

pub struct InstanceFilterRequirementView {
    pub key: Seq<char>,
    pub value: Option<Seq<Seq<char>>>,
    pub operator: InstanceFilterOperator,
}

/// One condition on an Instance's broker properties.
pub struct InstanceFilterRequirement {
    pub key: String,
    pub value: Option<Vec<String>>,
    pub operator: InstanceFilterOperator,
}

impl View for InstanceFilterRequirement {
    type V = InstanceFilterRequirementView;

    open spec fn view(&self) -> InstanceFilterRequirementView {
        InstanceFilterRequirementView {
            key: self.key@,
            value: match self.value {
                Some(v) => Some(v.deep_view()),
                None => None,
            },
            operator: self.operator,
        }
    }
}

/// A conjunction of requirements.
pub struct InstanceFilterTerm {
    pub match_properties: Vec<InstanceFilterRequirement>,
}

impl View for InstanceFilterTerm {
    type V = Seq<InstanceFilterRequirementView>;

    open spec fn view(&self) -> Seq<InstanceFilterRequirementView> {
        self.match_properties@.map_values(|r: InstanceFilterRequirement| r@)
    }
}

/// A disjunction of terms; no term at all accepts every Instance.
pub struct InstanceFilterSpec {
    pub terms: Vec<InstanceFilterTerm>,
}

impl View for InstanceFilterSpec {
    type V = Seq<Seq<InstanceFilterRequirementView>>;

    open spec fn view(&self) -> Seq<Seq<InstanceFilterRequirementView>> {
        self.terms@.map_values(|t: InstanceFilterTerm| t@)
    }
}

/// An InstanceFilter object.
pub struct InstanceFilter {
    pub metadata: ObjectMeta,
    pub spec: InstanceFilterSpec,
}

pub struct InstanceFilterView {
    pub metadata: ObjectMetaView,
    pub spec: Seq<Seq<InstanceFilterRequirementView>>,
}

impl View for InstanceFilter {
    type V = InstanceFilterView;

    open spec fn view(&self) -> InstanceFilterView {
        InstanceFilterView { metadata: self.metadata@, spec: self.spec@ }
    }
}

/// The listed values of a requirement, none when the list is absent.
pub open spec fn requirement_values(r: InstanceFilterRequirementView) -> Seq<Seq<char>> {
    match r.value {
        Some(v) => v,
        None => Seq::empty(),
    }
}

/// Compares the property, read as an `i64`, with the first listed value.
pub open spec fn integer_comparison(
    r: InstanceFilterRequirementView,
    props: Map<Seq<char>, Seq<char>>,
    greater: bool,
) -> bool {
    let values = requirement_values(r);
    &&& props.contains_key(r.key)
    &&& spec_parse_i64(props[r.key]) is Some
    &&& values.len() > 0
    &&& spec_parse_i64(values[0]) is Some
    &&& if greater {
        spec_parse_i64(props[r.key])->0 > spec_parse_i64(values[0])->0
    } else {
        spec_parse_i64(props[r.key])->0 < spec_parse_i64(values[0])->0
    }
}

/// Whether broker properties `props` meet requirement `r`.
pub open spec fn requirement_matches(
    r: InstanceFilterRequirementView,
    props: Map<Seq<char>, Seq<char>>,
) -> bool {
    match r.operator {
        InstanceFilterOperator::Exists => props.contains_key(r.key),
        InstanceFilterOperator::NotExists => !props.contains_key(r.key),
        InstanceFilterOperator::In => props.contains_key(r.key) && requirement_values(r).contains(
            props[r.key],
        ),
        InstanceFilterOperator::NotIn => props.contains_key(r.key) && !requirement_values(
            r,
        ).contains(props[r.key]),
        InstanceFilterOperator::Gt => integer_comparison(r, props, true),
        InstanceFilterOperator::Lt => integer_comparison(r, props, false),
    }
}

pub open spec fn term_matches(
    t: Seq<InstanceFilterRequirementView>,
    props: Map<Seq<char>, Seq<char>>,
) -> bool {
    forall|i: int| 0 <= i < t.len() ==> requirement_matches(#[trigger] t[i], props)
}

/// An empty filter accepts everything; otherwise some term must hold.
pub open spec fn filter_matches(
    terms: Seq<Seq<InstanceFilterRequirementView>>,
    props: Map<Seq<char>, Seq<char>>,
) -> bool {
    terms.len() == 0 || exists|i: int| 0 <= i < terms.len() && term_matches(#[trigger] terms[i], props)
}

/// A filter without terms accepts every Instance.
pub proof fn law_empty_filter_matches_all(props: Map<Seq<char>, Seq<char>>)
    ensures
        filter_matches(Seq::empty(), props),
{
}

/// `Exists` holds exactly when the key is among the properties and
/// `NotExists` exactly when it is not, whatever the property's value and the
/// listed values.
pub proof fn law_exists_is_presence(
    key: Seq<char>,
    value: Option<Seq<Seq<char>>>,
    props: Map<Seq<char>, Seq<char>>,
)
    ensures
        requirement_matches(
            InstanceFilterRequirementView { key, value, operator: InstanceFilterOperator::Exists },
            props,
        ) == props.contains_key(key),
        requirement_matches(
            InstanceFilterRequirementView { key, value, operator: InstanceFilterOperator::NotExists },
            props,
        ) == !props.contains_key(key),
{
}

/// `In` holds exactly when the property is set to one of the listed values,
/// `NotIn` exactly when it is set to none of them.
pub proof fn law_in_is_membership(
    key: Seq<char>,
    values: Seq<Seq<char>>,
    props: Map<Seq<char>, Seq<char>>,
)
    ensures
        requirement_matches(
            InstanceFilterRequirementView { key, value: Some(values), operator: InstanceFilterOperator::In },
            props,
        ) == (props.contains_key(key) && exists|i: int| 0 <= i < values.len() && values[i] == props[key]),
        requirement_matches(
            InstanceFilterRequirementView { key, value: Some(values), operator: InstanceFilterOperator::NotIn },
            props,
        ) == (props.contains_key(key) && forall|i: int| 0 <= i < values.len() ==> values[i] != props[key]),
{
}

/// A requirement of the same key and values holds with `Exists` exactly when
/// it fails with `NotExists`.
pub proof fn law_exists_complements_not_exists(
    key: Seq<char>,
    value: Option<Seq<Seq<char>>>,
    props: Map<Seq<char>, Seq<char>>,
)
    ensures
        requirement_matches(
            InstanceFilterRequirementView { key, value, operator: InstanceFilterOperator::Exists },
            props,
        ) != requirement_matches(
            InstanceFilterRequirementView { key, value, operator: InstanceFilterOperator::NotExists },
            props,
        ),
{
}

/// `In` and `NotIn` with the same key and values: when the property is set,
/// exactly one holds; when it is not, neither does.
pub proof fn law_in_not_in(
    key: Seq<char>,
    value: Option<Seq<Seq<char>>>,
    props: Map<Seq<char>, Seq<char>>,
)
    ensures
        props.contains_key(key) ==> requirement_matches(
            InstanceFilterRequirementView { key, value, operator: InstanceFilterOperator::In },
            props,
        ) != requirement_matches(
            InstanceFilterRequirementView { key, value, operator: InstanceFilterOperator::NotIn },
            props,
        ),
        !props.contains_key(key) ==> !requirement_matches(
            InstanceFilterRequirementView { key, value, operator: InstanceFilterOperator::In },
            props,
        ) && !requirement_matches(
            InstanceFilterRequirementView { key, value, operator: InstanceFilterOperator::NotIn },
            props,
        ),
{
}

/// A property is never both greater and less than the same bound.
pub proof fn law_gt_lt_exclusive(
    key: Seq<char>,
    value: Option<Seq<Seq<char>>>,
    props: Map<Seq<char>, Seq<char>>,
)
    ensures
        !(requirement_matches(
            InstanceFilterRequirementView { key, value, operator: InstanceFilterOperator::Gt },
            props,
        ) && requirement_matches(
            InstanceFilterRequirementView { key, value, operator: InstanceFilterOperator::Lt },
            props,
        )),
{
}

/// Adding a term to a filter that has terms never rejects an Instance that
/// it accepted.
pub proof fn law_more_terms_accept_more(
    terms: Seq<Seq<InstanceFilterRequirementView>>,
    t: Seq<InstanceFilterRequirementView>,
    props: Map<Seq<char>, Seq<char>>,
)
    requires
        terms.len() > 0,
        filter_matches(terms, props),
    ensures
        filter_matches(terms.push(t), props),
{
    let i = choose|i: int| 0 <= i < terms.len() && term_matches(#[trigger] terms[i], props);
    assert(terms.push(t)[i] == terms[i]);
}

impl InstanceFilterRequirement {
    fn compare_integers(&self, instance: &Instance, greater: bool) -> (b: bool)
        ensures
            b == integer_comparison(self@, instance@.spec.broker_properties, greater),
    {
        let Some(val) = instance.spec.broker_properties.get(&self.key) else { return false };
        let Some(integer_val) = parse_i64(val.as_str()) else { return false };
        let Some(values) = &self.value else { return false };
        if values.len() == 0 {
            return false;
        }
        assert(values.deep_view()[0] == values@[0]@);
        let Some(other_integer) = parse_i64(values[0].as_str()) else { return false };
        if greater {
            integer_val > other_integer
        } else {
            integer_val < other_integer
        }
    }

    /// Whether the Instance's broker properties meet this requirement.
    pub fn matches(&self, instance: &Instance) -> (b: bool)
        ensures
            b == requirement_matches(self@, instance@.spec.broker_properties),
            self.operator == InstanceFilterOperator::Exists ==> b
                == instance@.spec.broker_properties.contains_key(self.key@),
            self.operator == InstanceFilterOperator::NotExists ==> b
                == !instance@.spec.broker_properties.contains_key(self.key@),
    {
        let props = &instance.spec.broker_properties;
        let val = props.get(&self.key);
        match self.operator {
            InstanceFilterOperator::Exists => val.is_some(),
            InstanceFilterOperator::NotExists => val.is_none(),
            InstanceFilterOperator::In => match val {
                Some(v) => match &self.value {
                    Some(values) => contains_string(values, v),
                    None => false,
                },
                None => false,
            },
            InstanceFilterOperator::NotIn => match val {
                Some(v) => match &self.value {
                    Some(values) => !contains_string(values, v),
                    None => true,
                },
                None => false,
            },
            InstanceFilterOperator::Gt => self.compare_integers(instance, true),
            InstanceFilterOperator::Lt => self.compare_integers(instance, false),
        }
    }
}

impl InstanceFilterTerm {
    /// Whether every requirement of the term holds.
    pub fn matches(&self, instance: &Instance) -> (b: bool)
        ensures
            b == term_matches(self@, instance@.spec.broker_properties),
    {
        let mut i: usize = 0;
        while i < self.match_properties.len()
            invariant
                i <= self.match_properties@.len(),
                forall|j: int|
                    0 <= j < i ==> requirement_matches(
                        #[trigger] self.match_properties@[j]@,
                        instance@.spec.broker_properties,
                    ),
            decreases self.match_properties@.len() - i,
        {
            if !self.match_properties[i].matches(instance) {
                assert(self@[i as int] == self.match_properties@[i as int]@);
                return false;
            }
            i = i + 1;
        }
        assert forall|j: int| 0 <= j < self@.len() implies requirement_matches(
            #[trigger] self@[j],
            instance@.spec.broker_properties,
        ) by {
            assert(self@[j] == self.match_properties@[j]@);
        }
        true
    }
}

impl InstanceFilter {
    /// Whether the Instance passes the filter: no term at all, or one term
    /// whose requirements all hold.
    pub fn matches(&self, instance: &Instance) -> (b: bool)
        ensures
            b == filter_matches(self@.spec, instance@.spec.broker_properties),
    {
        if self.spec.terms.len() == 0 {
            return true;
        }
        let mut matches = false;
        let mut i: usize = 0;
        while i < self.spec.terms.len()
            invariant
                i <= self.spec.terms@.len(),
                self.spec.terms@.len() > 0,
                matches == exists|j: int|
                    0 <= j < i && term_matches(
                        #[trigger] self.spec.terms@[j]@,
                        instance@.spec.broker_properties,
                    ),
            decreases self.spec.terms@.len() - i,
        {
            let m = self.spec.terms[i].matches(instance);
            matches = matches || m;
            i = i + 1;
        }
        proof {
            if matches {
                let j = choose|j: int|
                    0 <= j < i && term_matches(
                        #[trigger] self.spec.terms@[j]@,
                        instance@.spec.broker_properties,
                    );
                assert(self@.spec[j] == self.spec.terms@[j]@);
            } else {
                assert forall|j: int| 0 <= j < self@.spec.len() implies !term_matches(
                    #[trigger] self@.spec[j],
                    instance@.spec.broker_properties,
                ) by {
                    assert(self@.spec[j] == self.spec.terms@[j]@);
                }
            }
        }
        matches
    }

    /// A filter with no terms, which accepts every Instance, and with empty
    /// metadata (the default InstanceFilter).
    pub fn accept_all() -> (f: InstanceFilter)
        ensures
            f@.spec.len() == 0,
            f@.metadata.name is None,
            f@.metadata.generate_name is None,
            f@.metadata.namespace is None,
            f@.metadata.uid is None,
            f@.metadata.resource_version is None,
            f@.metadata.labels == Map::<Seq<char>, Seq<char>>::empty(),
            f@.metadata.owner_references.len() == 0,
            f@.metadata.finalizers.len() == 0,
            f@.metadata.deletion_timestamp is None,
    {
        let f = InstanceFilter {
            metadata: ObjectMeta::new(),
            spec: InstanceFilterSpec { terms: Vec::new() },
        };
        assert(f@.spec =~= Seq::<Seq<InstanceFilterRequirementView>>::empty());
        f
    }
}

} // verus!

//! The parts of Kubernetes object metadata that the controllers read and
//! write, held as plain values.

use vstd::prelude::*;
use vstd::string::*;
use crate::strings::{clone_opt_string, clone_strings, contains_string, opt_str_view};
use crate::string_map::StringMap;

verus! {

pub struct OwnerReferenceView {
    pub api_version: Seq<char>,
    pub kind: Seq<char>,
    pub name: Seq<char>,
    pub uid: Seq<char>,
    pub controller: Option<bool>,
    pub block_owner_deletion: Option<bool>,
}

/// A reference from a dependent object to its owner.
pub struct OwnerReference {
    pub api_version: String,
    pub kind: String,
    pub name: String,
    pub uid: String,
    pub controller: Option<bool>,
    pub block_owner_deletion: Option<bool>,
}

impl View for OwnerReference {
    type V = OwnerReferenceView;

    open spec fn view(&self) -> OwnerReferenceView {
        OwnerReferenceView {
            api_version: self.api_version@,
            kind: self.kind@,
            name: self.name@,
            uid: self.uid@,
            controller: self.controller,
            block_owner_deletion: self.block_owner_deletion,
        }
    }
}

impl OwnerReference {
    pub fn clone_ref(&self) -> (r: OwnerReference)
        ensures
            r@ == self@,
    {
        OwnerReference {
            api_version: self.api_version.clone(),
            kind: self.kind.clone(),
            name: self.name.clone(),
            uid: self.uid.clone(),
            controller: self.controller,
            block_owner_deletion: self.block_owner_deletion,
        }
    }

    /// Field-by-field equality, as the derived `PartialEq` of the Kubernetes type.
    pub fn same_as(&self, other: &OwnerReference) -> (b: bool)
        ensures
            b == (self@ == other@),
    {
        self.api_version == other.api_version && self.kind == other.kind && self.name
            == other.name && self.uid == other.uid && self.controller == other.controller
            && self.block_owner_deletion == other.block_owner_deletion
    }
}

pub open spec fn owner_refs_view(v: Seq<OwnerReference>) -> Seq<OwnerReferenceView> {
    v.map_values(|o: OwnerReference| o@)
}

/// Whether `refs` holds a reference equal to `owner`.
pub fn contains_owner_ref(refs: &Vec<OwnerReference>, owner: &OwnerReference) -> (b: bool)
    ensures
        b == owner_refs_view(refs@).contains(owner@),
{
    let mut i: usize = 0;
    while i < refs.len()
        invariant
            i <= refs@.len(),
            forall|j: int| 0 <= j < i ==> #[trigger] refs@[j]@ != owner@,
        decreases refs@.len() - i,
    {
        if refs[i].same_as(owner) {
            assert(owner_refs_view(refs@)[i as int] == owner@);
            return true;
        }
        i = i + 1;
    }
    assert forall|j: int| 0 <= j < owner_refs_view(refs@).len() implies #[trigger] owner_refs_view(
        refs@,
    )[j] != owner@ by {
        assert(owner_refs_view(refs@)[j] == refs@[j]@);
    }
    false
}

pub struct ObjectMetaView {
    pub name: Option<Seq<char>>,
    pub generate_name: Option<Seq<char>>,
    pub namespace: Option<Seq<char>>,
    pub uid: Option<Seq<char>>,
    pub resource_version: Option<Seq<char>>,
    pub labels: Map<Seq<char>, Seq<char>>,
    pub owner_references: Seq<OwnerReferenceView>,
    pub finalizers: Seq<Seq<char>>,
    pub deletion_timestamp: Option<Seq<char>>,
}

/// Object metadata; absent lists and maps are empty.
pub struct ObjectMeta {
    pub name: Option<String>,
    pub generate_name: Option<String>,
    pub namespace: Option<String>,
    pub uid: Option<String>,
    pub resource_version: Option<String>,
    pub labels: StringMap,
    pub owner_references: Vec<OwnerReference>,
    pub finalizers: Vec<String>,
    /// The deletion timestamp as RFC 3339 text, set once deletion was asked.
    pub deletion_timestamp: Option<String>,
}

impl View for ObjectMeta {
    type V = ObjectMetaView;

    open spec fn view(&self) -> ObjectMetaView {
        ObjectMetaView {
            name: opt_str_view(self.name),
            generate_name: opt_str_view(self.generate_name),
            namespace: opt_str_view(self.namespace),
            uid: opt_str_view(self.uid),
            resource_version: opt_str_view(self.resource_version),
            labels: self.labels@,
            owner_references: owner_refs_view(self.owner_references@),
            finalizers: self.finalizers.deep_view(),
            deletion_timestamp: opt_str_view(self.deletion_timestamp),
        }
    }
}

impl ObjectMetaView {
    /// The name, else the generate-name prefix, else the empty string.
    pub open spec fn name_any(self) -> Seq<char> {
        match self.name {
            Some(n) => n,
            None => match self.generate_name {
                Some(g) => g,
                None => Seq::empty(),
            },
        }
    }
}

impl ObjectMeta {
    pub fn new() -> (m: ObjectMeta)
        ensures
            m@.name is None,
            m@.generate_name is None,
            m@.namespace is None,
            m@.uid is None,
            m@.resource_version is None,
            m@.labels == Map::<Seq<char>, Seq<char>>::empty(),
            m@.owner_references.len() == 0,
            m@.finalizers.len() == 0,
            m@.deletion_timestamp is None,
    {
        let m = ObjectMeta {
            name: None,
            generate_name: None,
            namespace: None,
            uid: None,
            resource_version: None,
            labels: StringMap::new(),
            owner_references: Vec::new(),
            finalizers: Vec::new(),
            deletion_timestamp: None,
        };
        assert(m@.finalizers =~= Seq::<Seq<char>>::empty());
        m
    }

    pub fn named(name: String) -> (m: ObjectMeta)
        ensures
            m@.name == Some(name@),
            m@.generate_name is None,
            m@.namespace is None,
            m@.uid is None,
            m@.resource_version is None,
            m@.labels == Map::<Seq<char>, Seq<char>>::empty(),
            m@.owner_references.len() == 0,
            m@.finalizers.len() == 0,
            m@.deletion_timestamp is None,
    {
        let mut m = ObjectMeta::new();
        m.name = Some(name);
        m
    }

    /// `ResourceExt::name_any`: the name, else the generate-name, else "".
    pub fn name_any(&self) -> (r: String)
        ensures
            r@ == self@.name_any(),
    {
        match &self.name {
            Some(n) => n.clone(),
            None => match &self.generate_name {
                Some(g) => g.clone(),
                None => String::new(),
            },
        }
    }

    pub fn clone_meta(&self) -> (m: ObjectMeta)
        ensures
            m@ == self@,
    {
        let mut refs: Vec<OwnerReference> = Vec::new();
        let mut i: usize = 0;
        while i < self.owner_references.len()
            invariant
                i <= self.owner_references@.len(),
                refs@.len() == i,
                forall|j: int| 0 <= j < i ==> #[trigger] refs@[j]@ == self.owner_references@[j]@,
            decreases self.owner_references@.len() - i,
        {
            refs.push(self.owner_references[i].clone_ref());
            i = i + 1;
        }
        assert(owner_refs_view(refs@) =~= owner_refs_view(self.owner_references@));
        ObjectMeta {
            name: clone_opt_string(&self.name),
            generate_name: clone_opt_string(&self.generate_name),
            namespace: clone_opt_string(&self.namespace),
            uid: clone_opt_string(&self.uid),
            resource_version: clone_opt_string(&self.resource_version),
            labels: self.labels.clone_map(),
            owner_references: refs,
            finalizers: clone_strings(&self.finalizers),
            deletion_timestamp: clone_opt_string(&self.deletion_timestamp),
        }
    }

    pub fn is_deleting(&self) -> (b: bool)
        ensures
            b == self@.deletion_timestamp is Some,
    {
        self.deletion_timestamp.is_some()
    }

    pub fn has_finalizer(&self, finalizer: &String) -> (b: bool)
        ensures
            b == self@.finalizers.contains(finalizer@),
    {
        contains_string(&self.finalizers, finalizer)
    }

    pub fn has_owner_reference(&self, owner: &OwnerReference) -> (b: bool)
        ensures
            b == self@.owner_references.contains(owner@),
    {
        contains_owner_ref(&self.owner_references, owner)
    }
}

/// The owner reference `Resource::controller_owner_ref` builds for an object
/// of the given type: its name and uid, `controller` set; `None` when the name
/// or the uid is missing.
pub open spec fn spec_controller_owner_ref(
    meta: ObjectMetaView,
    api_version: Seq<char>,
    kind: Seq<char>,
) -> Option<OwnerReferenceView> {
    match (meta.name, meta.uid) {
        (Some(name), Some(uid)) => Some(
            OwnerReferenceView {
                api_version,
                kind,
                name,
                uid,
                controller: Some(true),
                block_owner_deletion: None,
            },
        ),
        _ => None,
    }
}

pub fn controller_owner_ref(meta: &ObjectMeta, api_version: &str, kind: &str) -> (r: Option<
    OwnerReference,
>)
    ensures
        match r {
            Some(o) => spec_controller_owner_ref(meta@, api_version@, kind@) == Some(o@),
            None => spec_controller_owner_ref(meta@, api_version@, kind@) is None,
        },
{
    match (&meta.name, &meta.uid) {
        (Some(name), Some(uid)) => Some(
            OwnerReference {
                api_version: String::from_str(api_version),
                kind: String::from_str(kind),
                name: name.clone(),
                uid: uid.clone(),
                controller: Some(true),
                block_owner_deletion: None,
            },
        ),
        _ => None,
    }
}

} // verus!

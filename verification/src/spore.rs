//! The `Spore` resource: which objects to deploy for the devices that a
//! DiscoveryConfiguration discovers.

use vstd::prelude::*;
use vstd::string::*;
use crate::meta::{ObjectMeta, ObjectMetaView, OwnerReference, controller_owner_ref, spec_controller_owner_ref};

verus! {

/// The `apiVersion` of Spore objects.
pub const SPORE_API_VERSION: &'static str = "akri.sh/v1";

/// The `kind` of Spore objects.
pub const SPORE_KIND: &'static str = "Spore";

/// Identifies the linked Discovery Configuration by name.
pub struct SporeDiscoverySelector {
    pub name: String,
}

/// What the controller reads of a Spore's specification; the object
/// templates (`deviceSpore`, `onceSpore`) are carried beside it.
pub struct SporeSpec {
    pub discovery_selector: SporeDiscoverySelector,
}

pub struct Spore {
    pub metadata: ObjectMeta,
    pub spec: SporeSpec,
}

pub struct SporeView {
    pub metadata: ObjectMetaView,
    pub selector: Seq<char>,
}

impl View for Spore {
    type V = SporeView;

    open spec fn view(&self) -> SporeView {
        SporeView { metadata: self.metadata@, selector: self.spec.discovery_selector.name@ }
    }
}

/// How a Spore is named in messages: `Spore<namespace::name (uid)>`.
pub open spec fn spec_describe(m: ObjectMetaView) -> Seq<char> {
    "Spore<"@ + (match m.namespace {
        Some(ns) => ns,
        None => Seq::empty(),
    }) + "::"@ + m.name_any() + " ("@ + (match m.uid {
        Some(u) => u,
        None => Seq::empty(),
    }) + ")>"@
}

impl Spore {
    /// The text of the Spore's `Display`.
    pub fn describe(&self) -> (s: String)
        ensures
            s@ == spec_describe(self.metadata@),
    {
        let ns = match &self.metadata.namespace {
            Some(n) => n.clone(),
            None => String::new(),
        };
        let uid = match &self.metadata.uid {
            Some(u) => u.clone(),
            None => String::new(),
        };
        let name = self.metadata.name_any();
        String::from_str("Spore<").concat(ns.as_str()).concat("::").concat(name.as_str()).concat(
            " (",
        ).concat(uid.as_str()).concat(")>")
    }

    /// The owner reference that marks the objects deployed for this Spore.
    pub fn controller_owner_ref(&self) -> (r: Option<OwnerReference>)
        ensures
            match r {
                Some(o) => spec_controller_owner_ref(self.metadata@, SPORE_API_VERSION@, SPORE_KIND@)
                    == Some(o@),
                None => spec_controller_owner_ref(
                    self.metadata@,
                    SPORE_API_VERSION@,
                    SPORE_KIND@,
                ) is None,
            },
    {
        controller_owner_ref(&self.metadata, SPORE_API_VERSION, SPORE_KIND)
    }
}

} // verus!

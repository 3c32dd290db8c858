//! The `DiscoveryConfiguration` resource: which discovery handler an agent
//! runs, and with what settings.

use vstd::prelude::*;
use vstd::string::*;
use crate::meta::{ObjectMeta, ObjectMetaView, OwnerReference, controller_owner_ref, spec_controller_owner_ref};
use crate::string_map::StringMap;

verus! {

/// The `apiVersion` of DiscoveryConfiguration objects.
pub const DISCOVERY_CONFIGURATION_API_VERSION: &'static str = "akri.sh/v1alpha1";

/// The `kind` of DiscoveryConfiguration objects.
pub const DISCOVERY_CONFIGURATION_KIND: &'static str = "DiscoveryConfiguration";

/// Selects a key from a ConfigMap or Secret
pub struct DiscoveryPropertyKeySelector {
    /// The key to select.
    pub key: String,
    /// Name of the referent.
    pub name: String,
    /// Namespace of the referent
    pub namespace: String,
    /// Specify whether the referent or its key must be defined
    pub optional: Option<bool>,
}

/// The namespace of a key selector that names none.
pub fn default_namespace() -> (s: String)
    ensures
        s@ == "default"@,
{
    String::from_str("default")
}

/// This defines kinds of discovery property source
pub enum DiscoveryPropertySource {
    /// Source is a key of a ConfigMap.
    ConfigMapKeyRef(DiscoveryPropertyKeySelector),
    /// Source is a key of a Secret.
    SecretKeyRef(DiscoveryPropertyKeySelector),
}

/// DiscoveryProperty represents a property for discovery devices
pub struct DiscoveryProperty {
    /// Name of the discovery property
    pub name: String,
    /// value of the discovery property
    pub value: Option<String>,
    /// Source for the discovery property value. Ignored if value is not empty.
    pub value_from: Option<DiscoveryPropertySource>,
}

pub struct DiscoveryConfigurationSpec {
    /// The name of the Discovery Handler
    pub discovery_handler_name: String,
    /// A set of extra properties the Discovery Handler may need, these can be
    /// pulled from ConfigMaps or Secrets
    pub discovery_properties: Option<Vec<DiscoveryProperty>>,
    /// A string that a Discovery Handler knows how to parse to obtain
    /// necessary discovery details
    pub discovery_details: String,
    /// The number of slots for a device instance
    pub instances_capacity: usize,
    /// A set of extra properties that will get added to the Instance
    /// properties and forwarded to workloads using the device
    pub extra_instances_properties: StringMap,
}

/// The number of slots of an Instance when the configuration names none.
pub fn default_capacity() -> (n: usize)
    ensures
        n == 1,
{
    1
}

/// A DiscoveryConfiguration object.
pub struct DiscoveryConfiguration {
    pub metadata: ObjectMeta,
    pub spec: DiscoveryConfigurationSpec,
}

impl DiscoveryConfiguration {
    /// The owner reference that marks objects this configuration controls;
    /// `None` when it has no name or no uid.
    pub fn controller_owner_ref(&self) -> (r: Option<OwnerReference>)
        ensures
            match r {
                Some(o) => spec_controller_owner_ref(
                    self.metadata@,
                    DISCOVERY_CONFIGURATION_API_VERSION@,
                    DISCOVERY_CONFIGURATION_KIND@,
                ) == Some(o@),
                None => spec_controller_owner_ref(
                    self.metadata@,
                    DISCOVERY_CONFIGURATION_API_VERSION@,
                    DISCOVERY_CONFIGURATION_KIND@,
                ) is None,
            },
    {
        controller_owner_ref(
            &self.metadata,
            DISCOVERY_CONFIGURATION_API_VERSION,
            DISCOVERY_CONFIGURATION_KIND,
        )
    }
}

pub struct DiscoveryConfigurationView {
    pub metadata: ObjectMetaView,
    pub instances_capacity: usize,
}

impl View for DiscoveryConfiguration {
    type V = DiscoveryConfigurationView;

    open spec fn view(&self) -> DiscoveryConfigurationView {
        DiscoveryConfigurationView {
            metadata: self.metadata@,
            instances_capacity: self.spec.instances_capacity,
        }
    }
}

} // verus!

//! The Akri `Instance` resource: one discovered device, shared by nodes.

use vstd::prelude::*;
use crate::meta::{ObjectMeta, ObjectMetaView};
use crate::string_map::StringMap;
use crate::strings::clone_strings;

verus! {

pub struct InstanceSpecView {
    pub configuration_name: Seq<char>,
    pub cdi_name: Seq<char>,
    pub capacity: usize,
    pub broker_properties: Map<Seq<char>, Seq<char>>,
    pub shared: bool,
    pub nodes: Seq<Seq<char>>,
    pub device_usage: Map<Seq<char>, Seq<char>>,
    pub active_claims: Seq<Seq<char>>,
}

/// Defines the information in the Instance CRD.
pub struct InstanceSpec {
    /// The name of the DiscoveryConfiguration that discovered this device.
    pub configuration_name: String,
    /// The fully qualified CDI name of the device.
    pub cdi_name: String,
    /// How many claims may use the device at the same time.
    pub capacity: usize,
    /// Properties handed to the brokers (and matched by filters).
    pub broker_properties: StringMap,
    /// Whether the device is visible from several nodes.
    pub shared: bool,
    /// The nodes that can see this device.
    pub nodes: Vec<String>,
    /// Usage slots of the device.
    pub device_usage: StringMap,
    /// The uids of the resource claims that currently hold the device.
    pub active_claims: Vec<String>,
}

impl View for InstanceSpec {
    type V = InstanceSpecView;

    open spec fn view(&self) -> InstanceSpecView {
        InstanceSpecView {
            configuration_name: self.configuration_name@,
            cdi_name: self.cdi_name@,
            capacity: self.capacity,
            broker_properties: self.broker_properties@,
            shared: self.shared,
            nodes: self.nodes.deep_view(),
            device_usage: self.device_usage@,
            active_claims: self.active_claims.deep_view(),
        }
    }
}

pub struct InstanceView {
    pub metadata: ObjectMetaView,
    pub spec: InstanceSpecView,
}

/// An Akri Instance object.
pub struct Instance {
    pub metadata: ObjectMeta,
    pub spec: InstanceSpec,
}

impl View for Instance {
    type V = InstanceView;

    open spec fn view(&self) -> InstanceView {
        InstanceView { metadata: self.metadata@, spec: self.spec@ }
    }
}

impl InstanceSpecView {
    /// Slots not taken by active claims (claims beyond capacity leave none).
    pub open spec fn free_slots(self) -> int {
        if self.active_claims.len() <= self.capacity {
            self.capacity - self.active_claims.len()
        } else {
            0
        }
    }
}

impl InstanceSpec {
    pub fn clone_spec(&self) -> (s: InstanceSpec)
        ensures
            s@ == self@,
    {
        InstanceSpec {
            configuration_name: self.configuration_name.clone(),
            cdi_name: self.cdi_name.clone(),
            capacity: self.capacity,
            broker_properties: self.broker_properties.clone_map(),
            shared: self.shared,
            nodes: clone_strings(&self.nodes),
            device_usage: self.device_usage.clone_map(),
            active_claims: clone_strings(&self.active_claims),
        }
    }

    /// The number of claims the device can still take.
    pub fn free_slots(&self) -> (n: usize)
        ensures
            n == self@.free_slots(),
    {
        if self.active_claims.len() <= self.capacity {
            self.capacity - self.active_claims.len()
        } else {
            0
        }
    }
}

impl Instance {
    pub fn clone_instance(&self) -> (i: Instance)
        ensures
            i@ == self@,
    {
        Instance { metadata: self.metadata.clone_meta(), spec: self.spec.clone_spec() }
    }

    /// The name of the Instance (`ResourceExt::name_any`).
    pub fn name_any(&self) -> (s: String)
        ensures
            s@ == self@.metadata.name_any(),
    {
        self.metadata.name_any()
    }
}

} // verus!

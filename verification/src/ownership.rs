//! Ownership information: which Kubernetes object another object depends on.

use vstd::prelude::*;
use vstd::string::*;

verus! {

/// The API group of the Akri resources.
pub const API_NAMESPACE: &'static str = "akri.sh";

/// The API version of the Akri Instance and Configuration resources.
pub const API_VERSION: &'static str = "v0";

/// OwnershipType defines what type of Kubernetes object an object is dependent on
#[derive(Clone, Copy, Debug, PartialEq, Eq, Structural)]
pub enum OwnershipType {
    Configuration,
    Instance,
    Pod,
    Service,
}

/// OwnershipInfo provides enough information to identify the Kubernetes
/// object an object depends on
pub struct OwnershipInfo {
    object_type: OwnershipType,
    object_uid: String,
    object_name: String,
}

pub open spec fn spec_api_version(t: OwnershipType) -> Seq<char> {
    match t {
        OwnershipType::Instance | OwnershipType::Configuration => API_NAMESPACE@ + "/"@
            + API_VERSION@,
        OwnershipType::Pod | OwnershipType::Service => "core/v1"@,
    }
}

pub open spec fn spec_kind(t: OwnershipType) -> Seq<char> {
    match t {
        OwnershipType::Instance => "Instance"@,
        OwnershipType::Configuration => "Configuration"@,
        OwnershipType::Pod => "Pod"@,
        OwnershipType::Service => "Service"@,
    }
}

impl OwnershipInfo {
    pub closed spec fn object_type(&self) -> OwnershipType {
        self.object_type
    }

    pub closed spec fn name(&self) -> Seq<char> {
        self.object_name@
    }

    pub closed spec fn uid(&self) -> Seq<char> {
        self.object_uid@
    }

    pub fn new(object_type: OwnershipType, object_name: String, object_uid: String) -> (o: Self)
        ensures
            o.object_type() == object_type,
            o.name() == object_name@,
            o.uid() == object_uid@,
    {
        OwnershipInfo { object_type, object_uid, object_name }
    }

    /// `akri.sh/v0` for Akri objects, `core/v1` for Pods and Services.
    pub fn get_api_version(&self) -> (s: String)
        ensures
            s@ == spec_api_version(self.object_type()),
    {
        match self.object_type {
            OwnershipType::Instance | OwnershipType::Configuration => {
                String::from_str(API_NAMESPACE).concat("/").concat(API_VERSION)
            },
            OwnershipType::Pod | OwnershipType::Service => String::from_str("core/v1"),
        }
    }

    pub fn get_kind(&self) -> (s: String)
        ensures
            s@ == spec_kind(self.object_type()),
    {
        match self.object_type {
            OwnershipType::Instance => String::from_str("Instance"),
            OwnershipType::Configuration => String::from_str("Configuration"),
            OwnershipType::Pod => String::from_str("Pod"),
            OwnershipType::Service => String::from_str("Service"),
        }
    }

    pub fn get_controller(&self) -> (c: Option<bool>)
        ensures
            c == Some(true),
    {
        Some(true)
    }

    pub fn get_block_owner_deletion(&self) -> (b: Option<bool>)
        ensures
            b == Some(true),
    {
        Some(true)
    }

    pub fn get_name(&self) -> (s: String)
        ensures
            s@ == self.name(),
    {
        self.object_name.clone()
    }

    pub fn get_uid(&self) -> (s: String)
        ensures
            s@ == self.uid(),
    {
        self.object_uid.clone()
    }
}

} // verus!

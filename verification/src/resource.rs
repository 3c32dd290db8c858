//! The parts of the DRA resource objects (ResourceClaim, ResourceClass and
//! the allocation written back) that the driver controller reads.

use vstd::prelude::*;
use crate::meta::{ObjectMeta, ObjectMetaView};
use crate::strings::opt_str_view;

verus! {

/// What a resource handle of an allocation carries: the CDI device and the
/// Instance that serves the claim.
pub struct ClaimHandle {
    pub cdi_name: String,
    pub instance_name: String,
}

pub struct ClaimHandleView {
    pub cdi_name: Seq<char>,
    pub instance_name: Seq<char>,
}

impl View for ClaimHandle {
    type V = ClaimHandleView;

    open spec fn view(&self) -> ClaimHandleView {
        ClaimHandleView { cdi_name: self.cdi_name@, instance_name: self.instance_name@ }
    }
}

/// One resource handle of an allocation.
pub struct ResourceHandle {
    /// The serialised `ClaimHandle`.
    pub data: Option<String>,
    pub driver_name: Option<String>,
}

/// The allocation of a claim, as far as the controllers read it.
pub struct AllocationResult {
    pub resource_handles: Option<Vec<ResourceHandle>>,
}

pub struct ResourceClaimStatus {
    pub allocation: Option<AllocationResult>,
    pub deallocation_requested: Option<bool>,
}

pub struct ResourceClaimSpec {
    /// `Immediate` or `WaitForFirstConsumer`.
    pub allocation_mode: Option<String>,
    pub resource_class_name: String,
    /// The name of the InstanceFilter the claim asks for.
    pub parameters_ref: Option<String>,
}

pub struct ResourceClaim {
    pub metadata: ObjectMeta,
    pub spec: ResourceClaimSpec,
    pub status: Option<ResourceClaimStatus>,
}

pub struct ResourceClaimView {
    pub metadata: ObjectMetaView,
    pub allocation_mode: Option<Seq<char>>,
    pub resource_class_name: Seq<char>,
    pub parameters_ref: Option<Seq<char>>,
    /// The status exists and holds an allocation.
    pub allocated: bool,
    pub deallocation_requested: bool,
    /// The data of the first resource handle of the allocation, if any.
    pub first_handle_data: Option<Seq<char>>,
}

pub open spec fn first_handle_data(status: Option<ResourceClaimStatus>) -> Option<Seq<char>> {
    match status {
        Some(st) => match st.allocation {
            Some(a) => match a.resource_handles {
                Some(h) => if h@.len() > 0 {
                    opt_str_view(h@[0].data)
                } else {
                    None
                },
                None => None,
            },
            None => None,
        },
        None => None,
    }
}

impl View for ResourceClaim {
    type V = ResourceClaimView;

    open spec fn view(&self) -> ResourceClaimView {
        ResourceClaimView {
            metadata: self.metadata@,
            allocation_mode: opt_str_view(self.spec.allocation_mode),
            resource_class_name: self.spec.resource_class_name@,
            parameters_ref: opt_str_view(self.spec.parameters_ref),
            allocated: match self.status {
                Some(st) => st.allocation is Some,
                None => false,
            },
            deallocation_requested: match self.status {
                Some(st) => st.deallocation_requested == Some(true),
                None => false,
            },
            first_handle_data: first_handle_data(self.status),
        }
    }
}

impl ResourceClaim {
    pub fn is_allocated(&self) -> (b: bool)
        ensures
            b == self@.allocated,
    {
        match &self.status {
            Some(st) => st.allocation.is_some(),
            None => false,
        }
    }

    pub fn deallocation_requested(&self) -> (b: bool)
        ensures
            b == self@.deallocation_requested,
    {
        match &self.status {
            Some(st) => st.deallocation_requested == Some(true),
            None => false,
        }
    }

    /// The data of the first resource handle of the allocation.
    pub fn first_handle_data(&self) -> (r: Option<&String>)
        ensures
            match r {
                Some(d) => self@.first_handle_data == Some(d@),
                None => self@.first_handle_data is None,
            },
    {
        let st = self.status.as_ref()?;
        let a = st.allocation.as_ref()?;
        let h = a.resource_handles.as_ref()?;
        if h.len() == 0 {
            return None;
        }
        h[0].data.as_ref()
    }
}

pub struct ResourceClass {
    pub metadata: ObjectMeta,
    pub driver_name: String,
    /// The name of the DiscoveryConfiguration whose Instances serve the class.
    pub parameters_ref: Option<String>,
}

pub struct ResourceClassView {
    pub driver_name: Seq<char>,
    pub parameters_ref: Option<Seq<char>>,
}

impl View for ResourceClass {
    type V = ResourceClassView;

    open spec fn view(&self) -> ResourceClassView {
        ResourceClassView {
            driver_name: self.driver_name@,
            parameters_ref: opt_str_view(self.parameters_ref),
        }
    }
}

} // verus!

//! The answers of the agent's DRA kubelet plugin to prepare and unprepare
//! requests.

use vstd::prelude::*;
use vstd::string::*;
use crate::resource::ClaimHandle;

verus! {

/// The error reported for a claim whose CDI device this node lacks.
pub const DEVICE_NOT_FOUND: &'static str = "CDI device not found on node";

/// The answer for one claim of a prepare request.
pub struct NodePrepareResourceResponse {
    /// The CDI devices the kubelet makes available to the containers.
    pub cdi_devices: Vec<String>,
    /// If non-empty, preparing the claim failed.
    pub error: String,
}

/// The answer for one claim of an unprepare request.
pub struct NodeUnprepareResourceResponse {
    /// If non-empty, unpreparing the claim failed.
    pub error: String,
}

/// The answer for a claim whose resource handle was read as `handle` (or
/// could not be read, with that message); `device_found` tells whether this
/// node has the handle's CDI device.
pub fn prepare_response(handle: Result<ClaimHandle, String>, device_found: bool) -> (r:
    NodePrepareResourceResponse)
    ensures
        match handle {
            Ok(h) => if device_found {
                r.cdi_devices.deep_view() == seq![h.cdi_name@] && r.error@ == Seq::<char>::empty()
            } else {
                r.cdi_devices@.len() == 0 && r.error@ == DEVICE_NOT_FOUND@
            },
            Err(msg) => r.cdi_devices@.len() == 0 && r.error@ == msg@,
        },
{
    match handle {
        Ok(h) => {
            if device_found {
                let mut devices: Vec<String> = Vec::new();
                devices.push(h.cdi_name);
                assert(devices.deep_view() =~= seq![h.cdi_name@]);
                NodePrepareResourceResponse { cdi_devices: devices, error: String::new() }
            } else {
                NodePrepareResourceResponse {
                    cdi_devices: Vec::new(),
                    error: String::from_str(DEVICE_NOT_FOUND),
                }
            }
        },
        Err(msg) => NodePrepareResourceResponse { cdi_devices: Vec::new(), error: msg },
    }
}

/// Unpreparing a claim always succeeds.
pub fn unprepare_response() -> (r: NodeUnprepareResourceResponse)
    ensures
        r.error@ == Seq::<char>::empty(),
{
    NodeUnprepareResourceResponse { error: String::new() }
}

} // verus!

//! Live update broadcast policy: the message shapes pushed to
//! connected clients and the builder for the periodic topology update.
//!
//! The I/O shell runs the periodic loop; on every tick it aggregates a
//! fresh listing and sends the message built here. A failed send ends
//! that client's loop.

use vstd::prelude::*;

use crate::models::{ContainerInfo, SystemTopology};

verus! {

/// A push-channel message, one of three tagged variants. Only
/// `TopologyUpdate` is emitted by the periodic loop.
#[derive(Clone, Debug)]
pub enum WsMessage {
    /// Full container listing.
    ContainerUpdate { containers: Vec<ContainerInfo>, timestamp: String },
    /// Compact topology summary, sent every tick.
    TopologyUpdate {
        total_containers: usize,
        running_containers: usize,
        healthy_containers: usize,
        unhealthy_containers: usize,
        timestamp: String,
    },
    /// Keep-alive.
    Heartbeat { timestamp: String },
}

/// Build the periodic topology update from a snapshot: the four counts
/// are copied unchanged and the timestamp is carried verbatim.
pub fn topology_update_message(t: &SystemTopology, timestamp: String) -> (r: WsMessage)
    ensures
        r matches WsMessage::TopologyUpdate {
            total_containers,
            running_containers,
            healthy_containers,
            unhealthy_containers,
            timestamp: ts,
        } && {
            &&& total_containers == t.total_containers
            &&& running_containers == t.running_containers
            &&& healthy_containers == t.healthy_containers
            &&& unhealthy_containers == t.unhealthy_containers
            &&& ts == timestamp
        },
{
    WsMessage::TopologyUpdate {
        total_containers: t.total_containers,
        running_containers: t.running_containers,
        healthy_containers: t.healthy_containers,
        unhealthy_containers: t.unhealthy_containers,
        timestamp,
    }
}

} // verus!

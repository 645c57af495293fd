//! Records that the kernel probes emit, field for field, and how a flow
//! record's kind decides its direction, protocol and ports.
//!
//! Addresses are in network order (see `ipv4`); other integers are in host
//! order.
use vstd::prelude::*;

verus! {

pub const KIND_EGRESS_TCP: u16 = 1;
pub const KIND_INGRESS_TCP: u16 = 2;
pub const KIND_EGRESS_UDP: u16 = 3;

/// The longest HTTP payload that the HTTP probe copies.
pub const MAX_HTTP_DATA_LEN: usize = 256;

/// An allowed L4 flow seen by the network probe.
#[derive(Clone, Copy, Debug)]
pub struct NetworkEventData {
    pub inum: u64,
    pub saddr: u32,
    pub sport: u16,
    pub daddr: u32,
    pub dport: u16,
    pub kind: u16,
}

/// A flow that a network policy dropped, seen by the policy-drop probe.
#[derive(Clone, Copy, Debug)]
pub struct PolicyDropEvent {
    pub timestamp: u64,
    pub inum: u64,
    pub saddr: u32,
    pub daddr: u32,
    pub sport: u16,
    pub dport: u16,
    pub protocol: u8,
    pub _pad: u8,
    pub syn_retries: u32,
}

/// A packet dropped in the kernel, seen by the packet-drop probe.
#[derive(Clone, Copy, Debug)]
pub struct PacketDropEvent {
    pub timestamp: u64,
    pub inum: u64,
    pub saddr: u32,
    pub daddr: u32,
    pub sport: u16,
    pub dport: u16,
    pub protocol: u8,
    pub drop_location: u64,
}

/// The start of an HTTP message seen by the HTTP probe. Ports are in
/// network order too.
#[derive(Clone, Copy, Debug)]
pub struct HttpEventData {
    pub inum: u64,
    pub saddr: u32,
    pub daddr: u32,
    pub sport: u16,
    pub dport: u16,
    pub is_request: u8,
    pub _pad: u8,
    pub data_len: u32,
    pub data: [u8; 256],
}

/// Direction of a flow, seen from the pod.
#[derive(Clone, Copy, Debug, PartialEq, Eq)]
pub enum Direction {
    Ingress,
    Egress,
}

/// L4 protocol of an allowed flow.
#[derive(Clone, Copy, Debug, PartialEq, Eq)]
pub enum FlowProtocol {
    Tcp,
    Udp,
}

/// What a flow record's kind says: direction, protocol, and whether the
/// pod's port is the source port (ingress) or the remote port is the
/// destination port (egress). The other port is recorded as 0.
#[derive(Clone, Copy, Debug, PartialEq, Eq)]
pub struct FlowShape {
    pub direction: Direction,
    pub protocol: FlowProtocol,
}

/// The shape of each known kind; other kinds have none.
pub open spec fn kind_shape(kind: u16) -> Option<FlowShape> {
    if kind == KIND_EGRESS_TCP {
        Some(FlowShape { direction: Direction::Egress, protocol: FlowProtocol::Tcp })
    } else if kind == KIND_INGRESS_TCP {
        Some(FlowShape { direction: Direction::Ingress, protocol: FlowProtocol::Tcp })
    } else if kind == KIND_EGRESS_UDP {
        Some(FlowShape { direction: Direction::Egress, protocol: FlowProtocol::Udp })
    } else {
        None
    }
}

/// The shape of a flow record's kind.
pub fn classify_kind(kind: u16) -> (r: Option<FlowShape>)
    ensures
        r == kind_shape(kind),
{
    if kind == KIND_EGRESS_TCP {
        Some(FlowShape { direction: Direction::Egress, protocol: FlowProtocol::Tcp })
    } else if kind == KIND_INGRESS_TCP {
        Some(FlowShape { direction: Direction::Ingress, protocol: FlowProtocol::Tcp })
    } else if kind == KIND_EGRESS_UDP {
        Some(FlowShape { direction: Direction::Egress, protocol: FlowProtocol::Udp })
    } else {
        None
    }
}

} // verus!

//! The records that the agent keeps and sends, and that the broker stores.
//!
//! A time stamp is a count of microseconds since the Unix epoch, in UTC.
use vstd::prelude::*;

verus! {

/// A text field that may be absent, seen as characters.
pub open spec fn opt_text(o: Option<String>) -> Option<Seq<char>> {
    match o {
        Some(s) => Some(s@),
        None => None,
    }
}

/// What the agent knows of a pod: its name, namespace and IP.
#[derive(Clone, Debug, Default)]
pub struct PodInfo {
    pub pod_name: String,
    pub pod_namespace: Option<String>,
    pub pod_ip: String,
}

/// A pod as the workload correlator holds it, with what was learned of its
/// first running container.
#[derive(Clone, Debug, Default)]
pub struct PodInspect {
    pub status: PodInfo,
    pub container_id: Option<String>,
    pub pid: Option<u32>,
    pub inode_num: Option<u64>,
}

impl PodInspect {
    /// The same pod, with `container_id` as its container.
    pub fn set_container_id(self, container_id: String) -> (r: Self)
        ensures
            r.status == self.status,
            r.container_id == Some(container_id),
            r.pid == self.pid,
            r.inode_num == self.inode_num,
    {
        let mut s = self;
        s.container_id = Some(container_id);
        s
    }
}

/// One observed flow, as the broker stores it in its traffic table.
#[derive(Clone, Debug)]
pub struct PodTraffic {
    pub uuid: String,
    pub pod_name: String,
    pub pod_namespace: Option<String>,
    pub pod_ip: String,
    pub pod_port: Option<String>,
    pub traffic_in_out_ip: Option<String>,
    pub traffic_in_out_port: Option<String>,
    pub traffic_type: Option<String>,
    pub ip_protocol: Option<String>,
    pub decision: Option<String>,
    pub time_stamp: i64,
}

/// One packet that a network policy dropped.
#[derive(Clone, Debug)]
pub struct PodPacketDrop {
    pub uuid: String,
    pub pod_name: String,
    pub pod_namespace: Option<String>,
    pub pod_ip: String,
    pub pod_port: Option<String>,
    pub traffic_in_out_ip: Option<String>,
    pub traffic_in_out_port: Option<String>,
    pub traffic_type: Option<String>,
    pub drop_reason: Option<String>,
    pub ip_protocol: Option<String>,
    pub time_stamp: i64,
}

/// A pod as the broker stores it; the pod name is its identity.
#[derive(Clone, Debug)]
pub struct PodDetail {
    pub pod_ip: String,
    pub pod_name: String,
    pub pod_namespace: Option<String>,
    /// The pod object as JSON text.
    pub pod_obj: Option<String>,
    pub time_stamp: i64,
    pub node_name: String,
    pub is_dead: bool,
    pub pod_identity: Option<String>,
    pub workload_selector_labels: Option<Vec<(String, String)>>,
}

/// A service as the broker stores it; the service IP is its identity.
#[derive(Clone, Debug)]
pub struct SvcDetail {
    pub svc_ip: String,
    pub svc_name: String,
    pub svc_namespace: Option<String>,
    /// The service object as JSON text.
    pub service_spec: Option<String>,
    pub time_stamp: i64,
}

/// The syscall numbers that one pod made on one architecture, as the agent
/// sends them.
#[derive(Clone, Debug)]
pub struct PodInputSyscalls {
    pub pod_name: String,
    pub pod_namespace: String,
    pub syscalls: Vec<String>,
    pub arch: String,
    pub time_stamp: i64,
}

/// The syscall numbers of one pod on one architecture, as the broker stores
/// them: joined by commas.
#[derive(Clone, Debug)]
pub struct PodSyscalls {
    pub pod_name: String,
    pub pod_namespace: String,
    pub syscalls: String,
    pub arch: String,
    pub time_stamp: i64,
}

/// The body of a request that marks a pod dead.
#[derive(Clone, Debug)]
pub struct MarkDeadRequest {
    pub pod_name: String,
}

/// A copy of a text field that may be absent.
pub fn copy_opt(o: &Option<String>) -> (r: Option<String>)
    ensures
        r == *o,
{
    match o {
        Some(s) => Some(s.clone()),
        None => None,
    }
}

/// A copy of a pod record.
pub fn copy_pod(p: &PodInspect) -> (r: PodInspect)
    ensures
        r == *p,
{
    PodInspect {
        status: PodInfo {
            pod_name: p.status.pod_name.clone(),
            pod_namespace: copy_opt(&p.status.pod_namespace),
            pod_ip: p.status.pod_ip.clone(),
        },
        container_id: copy_opt(&p.container_id),
        pid: p.pid,
        inode_num: p.inode_num,
    }
}

} // verus!

//! The workload correlator: which pod owns each network namespace, by the
//! namespace's inode number. Pod watchers write it and event pipelines read
//! it at the same time.
use vstd::prelude::*;
use crate::model::{copy_pod, PodInspect};

verus! {

#[verifier::external_type_specification]
#[verifier::external_body]
#[verifier::reject_recursive_types(K)]
#[verifier::reject_recursive_types(V)]
#[verifier::reject_recursive_types(S)]
pub struct ExDashMap<K, V, S>(dashmap::DashMap<K, V, S>);

/// A pod as published to the correlator: its IP is never empty.
pub(crate) struct PublishedPod {
    pod: PodInspect,
}

impl PublishedPod {
    #[verifier::type_invariant]
    spec fn inv(self) -> bool {
        self.pod.status.pod_ip@.len() > 0
    }

    /// A copy of the published pod.
    fn duplicate(&self) -> (r: Self)
        ensures
            r.pod == self.pod,
    {
        proof {
            use_type_invariant(self);
        }
        PublishedPod { pod: copy_pod(&self.pod) }
    }

    fn into_pod(self) -> (r: PodInspect)
        ensures
            r.status.pod_ip@.len() > 0,
    {
        proof {
            use_type_invariant(&self);
        }
        self.pod
    }
}

/// Relies on dashmap::DashMap::new: an empty map.
#[verifier::external_body]
fn new_map() -> (r: dashmap::DashMap<u64, PublishedPod>) {
    dashmap::DashMap::new()
}

/// Relies on dashmap::DashMap::get: a copy of the entry for `inum`, if
/// there is one. Other threads write the map, so nothing is promised of
/// which entry that is.
#[verifier::external_body]
fn map_get(m: &dashmap::DashMap<u64, PublishedPod>, inum: u64) -> (r: Option<PublishedPod>) {
    m.get(&inum).map(|e| e.value().duplicate())
}

/// Relies on dashmap::DashMap::insert: stores `pod` under `inum`, replacing
/// any entry there.
#[verifier::external_body]
fn map_insert(m: &dashmap::DashMap<u64, PublishedPod>, inum: u64, pod: PublishedPod) {
    m.insert(inum, pod);
}

/// Pods by the inode number of their network namespace. Only pods with a
/// non-empty IP, whose namespace inode is known, are published.
pub struct Correlator {
    map: dashmap::DashMap<u64, PublishedPod>,
}

impl Correlator {
    pub fn new() -> (r: Self) {
        Correlator { map: new_map() }
    }

    /// The pod that owns namespace `inum`, as it stands now. Which pod that
    /// is depends on concurrent writers; any pod found has a non-empty IP.
    pub fn lookup(&self, inum: u64) -> (r: Option<PodInspect>)
        ensures
            r matches Some(p) ==> p.status.pod_ip@.len() > 0,
    {
        match map_get(&self.map, inum) {
            Some(p) => Some(p.into_pod()),
            None => None,
        }
    }

    /// Publishes `pod` as the owner of namespace `inum`, replacing an earlier
    /// owner.
    pub fn publish(&self, inum: u64, pod: PodInspect)
        requires
            pod.status.pod_ip@.len() > 0,
            pod.inode_num == Some(inum),
    {
        map_insert(&self.map, inum, PublishedPod { pod })
    }
}

} // verus!

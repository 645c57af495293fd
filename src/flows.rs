//! From probe records to flow and drop records: enrichment with the owning
//! pod, the self-traffic filter, deduplication and batching.
use vstd::prelude::*;
use crate::batch::{Batcher, holds_dup, no_dups, no_self_flows, sent};
use crate::broker::{duplicate_of, is_duplicate, opt_text_eq};
use crate::dedup::{DedupCache, DedupKey, Keyed};
use crate::events::{
    classify_kind, kind_shape, Direction, FlowProtocol, NetworkEventData, PacketDropEvent,
    PolicyDropEvent,
};
use crate::ipv4::{dotted, host_order, ipv4_to_string, swap_octets};
use crate::model::{copy_opt, opt_text, PodInfo, PodInspect, PodPacketDrop, PodTraffic};
use crate::proto::{drop_reason, get_drop_reason, proto_name, proto_to_string, same_text};
use crate::text::{decimal, decimal_string};

verus! {

/// Records per batch.
pub const BATCH_SIZE: usize = 100;

/// Keys that a deduplication cache holds.
pub const DEDUP_CAPACITY: u64 = 10000;

/// How long a batch of allowed flows may wait, in milliseconds.
pub const NETWORK_BATCH_TIMEOUT_MS: u64 = 1000;

/// How long a batch of dropped flows may wait, in milliseconds.
pub const DROP_BATCH_TIMEOUT_MS: u64 = 2000;

pub open spec fn direction_name(d: Direction) -> Seq<char> {
    match d {
        Direction::Ingress => "INGRESS"@,
        Direction::Egress => "EGRESS"@,
    }
}

pub open spec fn flow_protocol_name(p: FlowProtocol) -> Seq<char> {
    match p {
        FlowProtocol::Tcp => "TCP"@,
        FlowProtocol::Udp => "UDP"@,
    }
}

/// The remote address of a probe record, as text.
pub open spec fn remote_ip_text(daddr: u32) -> Seq<char> {
    dotted(swap_octets(daddr))
}

pub open spec fn text_or_empty(o: Option<String>) -> Seq<char> {
    match o {
        Some(s) => s@,
        None => Seq::empty(),
    }
}

/// An allowed flow gives a record: its kind is known and its remote address
/// is not the pod's own.
pub open spec fn allowed_flow(data: NetworkEventData, pod: PodInfo) -> bool {
    kind_shape(data.kind) is Some && remote_ip_text(data.daddr) != pod.pod_ip@
}

/// A dropped flow gives a record when its remote address is not the pod's own.
pub open spec fn foreign_remote(daddr: u32, pod: PodInfo) -> bool {
    remote_ip_text(daddr) != pod.pod_ip@
}

/// `t` carries `pod` and the tuple fields of allowed flow `data`.
pub open spec fn is_traffic_record(t: PodTraffic, data: NetworkEventData, pod: PodInfo) -> bool {
    let shape = kind_shape(data.kind)->0;
    let ingress = shape.direction == Direction::Ingress;
    &&& t.pod_name@ == pod.pod_name@
    &&& opt_text(t.pod_namespace) == opt_text(pod.pod_namespace)
    &&& t.pod_ip@ == pod.pod_ip@
    &&& opt_text(t.pod_port) == Some(
        decimal(
            (if ingress {
                data.sport
            } else {
                0
            }) as nat,
        ),
    )
    &&& opt_text(t.traffic_in_out_ip) == Some(remote_ip_text(data.daddr))
    &&& opt_text(t.traffic_in_out_port) == Some(
        decimal(
            (if ingress {
                0
            } else {
                data.dport
            }) as nat,
        ),
    )
    &&& opt_text(t.traffic_type) == Some(direction_name(shape.direction))
    &&& opt_text(t.ip_protocol) == Some(flow_protocol_name(shape.protocol))
    &&& opt_text(t.decision) == Some("ALLOW"@)
}

/// `d` carries `pod`, the tuple fields of policy-dropped flow `data` with
/// pod port 0, and the reason for the drop.
pub open spec fn is_egress_drop_record(d: PodPacketDrop, data: PolicyDropEvent, pod: PodInfo) -> bool {
    &&& d.pod_name@ == pod.pod_name@
    &&& opt_text(d.pod_namespace) == opt_text(pod.pod_namespace)
    &&& d.pod_ip@ == pod.pod_ip@
    &&& opt_text(d.pod_port) == Some(decimal(0))
    &&& opt_text(d.traffic_in_out_ip) == Some(remote_ip_text(data.daddr))
    &&& opt_text(d.traffic_in_out_port) == Some(decimal(data.dport as nat))
    &&& opt_text(d.traffic_type) == Some("EGRESS"@)
    &&& opt_text(d.drop_reason) == Some(drop_reason(data.protocol, data.syn_retries))
    &&& opt_text(d.ip_protocol) == Some(proto_name(data.protocol))
}

/// `d` carries `pod`, the tuple fields of policy-dropped flow `data`, and
/// the reason for the drop.
pub open spec fn is_policy_drop_record(d: PodPacketDrop, data: PolicyDropEvent, pod: PodInfo) -> bool {
    &&& d.pod_name@ == pod.pod_name@
    &&& opt_text(d.pod_namespace) == opt_text(pod.pod_namespace)
    &&& d.pod_ip@ == pod.pod_ip@
    &&& opt_text(d.pod_port) == Some(decimal(data.sport as nat))
    &&& opt_text(d.traffic_in_out_ip) == Some(remote_ip_text(data.daddr))
    &&& opt_text(d.traffic_in_out_port) == Some(decimal(data.dport as nat))
    &&& opt_text(d.traffic_type) == Some("EGRESS"@)
    &&& opt_text(d.drop_reason) == Some(drop_reason(data.protocol, data.syn_retries))
    &&& opt_text(d.ip_protocol) == Some(proto_name(data.protocol))
}

/// `d` carries `pod` and the tuple fields of dropped packet `data`.
pub open spec fn is_packet_drop_record(d: PodPacketDrop, data: PacketDropEvent, pod: PodInfo) -> bool {
    &&& d.pod_name@ == pod.pod_name@
    &&& opt_text(d.pod_namespace) == opt_text(pod.pod_namespace)
    &&& d.pod_ip@ == pod.pod_ip@
    &&& opt_text(d.pod_port) == Some(decimal(0))
    &&& opt_text(d.traffic_in_out_ip) == Some(remote_ip_text(data.daddr))
    &&& opt_text(d.traffic_in_out_port) == Some(decimal(data.dport as nat))
    &&& opt_text(d.traffic_type) == Some("EGRESS"@)
    &&& opt_text(d.drop_reason) == Some("Network Policy"@)
    &&& opt_text(d.ip_protocol) == Some(proto_name(data.protocol))
}

impl Keyed for PodTraffic {
    /// Pod IP, pod port, direction, remote IP, remote port, decision and
    /// protocol.
    open spec fn key_view(&self) -> Seq<Seq<char>> {
        seq![
            self.pod_ip@,
            text_or_empty(self.pod_port),
            text_or_empty(self.traffic_type),
            text_or_empty(self.traffic_in_out_ip),
            text_or_empty(self.traffic_in_out_port),
            text_or_empty(self.decision),
            text_or_empty(self.ip_protocol),
        ]
    }

    open spec fn is_self_flow(&self) -> bool {
        opt_text(self.traffic_in_out_ip) == Some(self.pod_ip@)
    }

    /// Two records of one protocol that the broker's duplicate predicate
    /// matches: equal tuples, where a UDP record may differ in either port.
    open spec fn dup_of(&self, other: &Self) -> bool {
        opt_text(self.ip_protocol) == opt_text(other.ip_protocol) && duplicate_of(*self, *other)
    }

    fn is_dup_of(&self, other: &Self) -> (r: bool) {
        opt_text_eq(&self.ip_protocol, &other.ip_protocol) && is_duplicate(self, other)
    }

    fn dedup_key(&self) -> (k: DedupKey) {
        let k = DedupKey {
            fields: vec![
                self.pod_ip.clone(),
                text_of(&self.pod_port),
                text_of(&self.traffic_type),
                text_of(&self.traffic_in_out_ip),
                text_of(&self.traffic_in_out_port),
                text_of(&self.decision),
                text_of(&self.ip_protocol),
            ],
        };
        assert(k@ =~= self.key_view());
        k
    }
}

impl Keyed for PodPacketDrop {
    /// Pod IP, direction, remote IP, remote port and protocol.
    open spec fn key_view(&self) -> Seq<Seq<char>> {
        seq![
            self.pod_ip@,
            text_or_empty(self.traffic_type),
            text_or_empty(self.traffic_in_out_ip),
            text_or_empty(self.traffic_in_out_port),
            text_or_empty(self.ip_protocol),
        ]
    }

    open spec fn is_self_flow(&self) -> bool {
        opt_text(self.traffic_in_out_ip) == Some(self.pod_ip@)
    }

    /// Same pod IP, direction, remote IP, remote port and protocol.
    open spec fn dup_of(&self, other: &Self) -> bool {
        &&& self.pod_ip@ == other.pod_ip@
        &&& opt_text(self.traffic_type) == opt_text(other.traffic_type)
        &&& opt_text(self.traffic_in_out_ip) == opt_text(other.traffic_in_out_ip)
        &&& opt_text(self.traffic_in_out_port) == opt_text(other.traffic_in_out_port)
        &&& opt_text(self.ip_protocol) == opt_text(other.ip_protocol)
    }

    fn is_dup_of(&self, other: &Self) -> (r: bool) {
        same_text(self.pod_ip.as_str(), other.pod_ip.as_str()) && opt_text_eq(
            &self.traffic_type,
            &other.traffic_type,
        ) && opt_text_eq(&self.traffic_in_out_ip, &other.traffic_in_out_ip) && opt_text_eq(
            &self.traffic_in_out_port,
            &other.traffic_in_out_port,
        ) && opt_text_eq(&self.ip_protocol, &other.ip_protocol)
    }

    fn dedup_key(&self) -> (k: DedupKey) {
        let k = DedupKey {
            fields: vec![
                self.pod_ip.clone(),
                text_of(&self.traffic_type),
                text_of(&self.traffic_in_out_ip),
                text_of(&self.traffic_in_out_port),
                text_of(&self.ip_protocol),
            ],
        };
        assert(k@ =~= self.key_view());
        k
    }
}

/// The text of a field that may be absent; empty where it is.
pub(crate) fn text_of(o: &Option<String>) -> (r: String)
    ensures
        r@ == text_or_empty(*o),
{
    match o {
        Some(s) => s.clone(),
        None => String::new(),
    }
}

/// The record of an allowed flow, with identity `uuid` and time `time_stamp`;
/// none where the kind is unknown or the remote address is the pod's own.
pub fn build_traffic_event(
    data: &NetworkEventData,
    pod_data: &PodInspect,
    uuid: String,
    time_stamp: i64,
) -> (r: Option<PodTraffic>)
    ensures
        r is Some <==> allowed_flow(*data, pod_data.status),
        r matches Some(t) ==> is_traffic_record(t, *data, pod_data.status) && t.uuid == uuid
            && t.time_stamp == time_stamp,
        r matches Some(t) ==> opt_text(t.traffic_in_out_ip) != Some(t.pod_ip@),
{
    let shape = match classify_kind(data.kind) {
        Some(s) => s,
        None => return None,
    };
    let remote = ipv4_to_string(host_order(data.daddr));
    if same_text(pod_data.status.pod_ip.as_str(), remote.as_str()) {
        return None;
    }
    let ingress = match shape.direction {
        Direction::Ingress => true,
        Direction::Egress => false,
    };
    let pod_port = if ingress { data.sport } else { 0 };
    let remote_port = if ingress { 0 } else { data.dport };
    let traffic_type = if ingress {
        String::from_str("INGRESS")
    } else {
        String::from_str("EGRESS")
    };
    let protocol = match shape.protocol {
        FlowProtocol::Tcp => String::from_str("TCP"),
        FlowProtocol::Udp => String::from_str("UDP"),
    };
    Some(
        PodTraffic {
            uuid,
            pod_name: pod_data.status.pod_name.clone(),
            pod_namespace: copy_opt(&pod_data.status.pod_namespace),
            pod_ip: pod_data.status.pod_ip.clone(),
            pod_port: Some(decimal_string(pod_port as u64)),
            traffic_in_out_ip: Some(remote),
            traffic_in_out_port: Some(decimal_string(remote_port as u64)),
            traffic_type: Some(traffic_type),
            ip_protocol: Some(protocol),
            decision: Some(String::from_str("ALLOW")),
            time_stamp,
        },
    )
}

/// The drop record, with pod port 0 and the reason for the drop, of a flow
/// that a network policy dropped; none where the remote address is the
/// pod's own.
pub fn build_policy_drop_event(
    data: &PolicyDropEvent,
    pod_data: &PodInspect,
    uuid: String,
    time_stamp: i64,
) -> (r: Option<PodPacketDrop>)
    ensures
        r is Some <==> foreign_remote(data.daddr, pod_data.status),
        r matches Some(d) ==> is_egress_drop_record(d, *data, pod_data.status) && d.uuid == uuid
            && d.time_stamp == time_stamp,
        r matches Some(d) ==> opt_text(d.traffic_in_out_ip) != Some(d.pod_ip@),
{
    let remote = ipv4_to_string(host_order(data.daddr));
    if same_text(pod_data.status.pod_ip.as_str(), remote.as_str()) {
        return None;
    }
    Some(
        PodPacketDrop {
            uuid,
            pod_name: pod_data.status.pod_name.clone(),
            pod_namespace: copy_opt(&pod_data.status.pod_namespace),
            pod_ip: pod_data.status.pod_ip.clone(),
            pod_port: Some(decimal_string(0)),
            traffic_in_out_ip: Some(remote),
            traffic_in_out_port: Some(decimal_string(data.dport as u64)),
            traffic_type: Some(String::from_str("EGRESS")),
            drop_reason: Some(get_drop_reason(data.protocol, data.syn_retries)),
            ip_protocol: Some(proto_to_string(data.protocol)),
            time_stamp,
        },
    )
}

/// The drop record, with its reason, of a flow that a network policy
/// dropped; none where the remote address is the pod's own.
pub fn build_netpolicy_drop_event(
    data: &PolicyDropEvent,
    pod_data: &PodInspect,
    uuid: String,
    time_stamp: i64,
) -> (r: Option<PodPacketDrop>)
    ensures
        r is Some <==> foreign_remote(data.daddr, pod_data.status),
        r matches Some(d) ==> is_policy_drop_record(d, *data, pod_data.status) && d.uuid == uuid
            && d.time_stamp == time_stamp,
        r matches Some(d) ==> opt_text(d.traffic_in_out_ip) != Some(d.pod_ip@),
{
    let remote = ipv4_to_string(host_order(data.daddr));
    if same_text(pod_data.status.pod_ip.as_str(), remote.as_str()) {
        return None;
    }
    Some(
        PodPacketDrop {
            uuid,
            pod_name: pod_data.status.pod_name.clone(),
            pod_namespace: copy_opt(&pod_data.status.pod_namespace),
            pod_ip: pod_data.status.pod_ip.clone(),
            pod_port: Some(decimal_string(data.sport as u64)),
            traffic_in_out_ip: Some(remote),
            traffic_in_out_port: Some(decimal_string(data.dport as u64)),
            traffic_type: Some(String::from_str("EGRESS")),
            drop_reason: Some(get_drop_reason(data.protocol, data.syn_retries)),
            ip_protocol: Some(proto_to_string(data.protocol)),
            time_stamp,
        },
    )
}

/// The drop record of a packet dropped in the kernel; none where the remote
/// address is the pod's own.
pub fn build_packet_drop_event(
    data: &PacketDropEvent,
    pod_data: &PodInspect,
    uuid: String,
    time_stamp: i64,
) -> (r: Option<PodPacketDrop>)
    ensures
        r is Some <==> foreign_remote(data.daddr, pod_data.status),
        r matches Some(d) ==> is_packet_drop_record(d, *data, pod_data.status) && d.uuid == uuid
            && d.time_stamp == time_stamp,
        r matches Some(d) ==> opt_text(d.traffic_in_out_ip) != Some(d.pod_ip@),
{
    let remote = ipv4_to_string(host_order(data.daddr));
    if same_text(pod_data.status.pod_ip.as_str(), remote.as_str()) {
        return None;
    }
    Some(
        PodPacketDrop {
            uuid,
            pod_name: pod_data.status.pod_name.clone(),
            pod_namespace: copy_opt(&pod_data.status.pod_namespace),
            pod_ip: pod_data.status.pod_ip.clone(),
            pod_port: Some(decimal_string(0)),
            traffic_in_out_ip: Some(remote),
            traffic_in_out_port: Some(decimal_string(data.dport as u64)),
            traffic_type: Some(String::from_str("EGRESS")),
            drop_reason: Some(String::from_str("Network Policy")),
            ip_protocol: Some(proto_to_string(data.protocol)),
            time_stamp,
        },
    )
}

/// The state of one pipeline: the keys already emitted and the batch being
/// filled.
pub struct FlowPipeline<T> {
    cache: DedupCache,
    batch: Batcher<T>,
}

/// What accepting `rec` at `now_ms` does, from waiting records `pending`,
/// seen keys `seen` and last batch at `last`, with batches of `cap`: a record
/// whose key was already emitted changes nothing; another is remembered
/// (surely, while the cache is below its capacity),
/// and joins the batch unless a waiting record and it are duplicates; a full
/// batch goes out at once.
pub open spec fn accept_outcome<T: Keyed>(
    pending: Seq<T>,
    seen: Set<Seq<Seq<char>>>,
    last: nat,
    cap: nat,
    f: FlowPipeline<T>,
    rec: T,
    r: Option<Vec<T>>,
    now_ms: u64,
) -> bool {
    if seen.contains(rec.key_view()) {
        r is None && f.pending() == pending && f.seen() == seen && f.last_flush() == last
    } else {
        &&& f.seen().subset_of(seen.insert(rec.key_view()))
        &&& seen.finite() && seen.len() < DEDUP_CAPACITY ==> f.seen() == seen.insert(rec.key_view())
        &&& if holds_dup(pending, rec) {
            r is None && f.pending() == pending && f.last_flush() == last
        } else if pending.len() + 1 == cap {
            sent(r, pending.push(rec)) && f.pending() == Seq::<T>::empty() && f.last_flush()
                == now_ms
        } else {
            r is None && f.pending() == pending.push(rec) && f.last_flush() == last
        }
    }
}

/// What one event does at `now_ms`, with the record it gave, if any: a due
/// batch goes out first, then the record is accepted.
pub open spec fn step_outcome<T: Keyed>(
    o: FlowPipeline<T>,
    f: FlowPipeline<T>,
    rec: Option<T>,
    r: Option<Vec<T>>,
    now_ms: u64,
) -> bool {
    if o.due(now_ms) {
        &&& sent(r, o.pending())
        &&& match rec {
            None => f.pending() == Seq::<T>::empty() && f.seen() == o.seen() && f.last_flush()
                == now_ms,
            Some(t) => accept_outcome(
                Seq::<T>::empty(),
                o.seen(),
                now_ms as nat,
                o.capacity(),
                f,
                t,
                None,
                now_ms,
            ),
        }
    } else {
        match rec {
            None => r is None && f == o,
            Some(t) => accept_outcome(o.pending(), o.seen(), o.last_flush(), o.capacity(), f, t, r, now_ms),
        }
    }
}

impl<T: Keyed> FlowPipeline<T> {
    /// Records waiting to be sent, oldest first.
    pub closed spec fn pending(&self) -> Seq<T> {
        self.batch.pending()
    }

    /// Keys of records already emitted that the cache still holds.
    pub closed spec fn seen(&self) -> Set<Seq<Seq<char>>> {
        self.cache.keys()
    }

    pub closed spec fn capacity(&self) -> nat {
        self.batch.capacity()
    }

    pub closed spec fn timeout(&self) -> nat {
        self.batch.timeout()
    }

    pub closed spec fn last_flush(&self) -> nat {
        self.batch.last_flush()
    }

    /// Something waits and the timeout has passed since the last batch.
    pub open spec fn due(&self, now_ms: u64) -> bool {
        self.pending().len() > 0 && now_ms >= self.last_flush() + self.timeout()
    }

    /// How many keys the cache was built to hold.
    pub closed spec fn seen_capacity(&self) -> nat {
        self.cache.capacity()
    }

    pub open spec fn well_formed(&self) -> bool {
        &&& self.capacity() == BATCH_SIZE
        &&& self.pending().len() < self.capacity()
        &&& no_dups(self.pending())
        &&& no_self_flows(self.pending())
        &&& self.seen_capacity() == DEDUP_CAPACITY
        &&& self.seen().finite()
    }

    /// A pipeline with nothing seen and nothing waiting, whose batches hold
    /// `BATCH_SIZE` records and wait at most `timeout_ms`, started at `now_ms`.
    pub fn new(timeout_ms: u64, now_ms: u64) -> (r: Self)
        ensures
            r.well_formed(),
            r.pending() == Seq::<T>::empty(),
            r.seen() == Set::<Seq<Seq<char>>>::empty(),
            r.capacity() == BATCH_SIZE,
            r.timeout() == timeout_ms,
            r.last_flush() == now_ms,
    {
        FlowPipeline {
            cache: DedupCache::new(DEDUP_CAPACITY),
            batch: Batcher::new(BATCH_SIZE, timeout_ms, now_ms),
        }
    }

    /// Accepts a record built from an event at `now_ms`; a full batch comes
    /// back to be sent.
    pub fn accept(&mut self, rec: T, now_ms: u64) -> (r: Option<Vec<T>>)
        requires
            old(self).well_formed(),
            !rec.is_self_flow(),
        ensures
            final(self).well_formed(),
            final(self).capacity() == old(self).capacity(),
            final(self).timeout() == old(self).timeout(),
            accept_outcome(
                old(self).pending(),
                old(self).seen(),
                old(self).last_flush(),
                old(self).capacity(),
                *final(self),
                rec,
                r,
                now_ms,
            ),
            r matches Some(b) ==> no_dups(b@) && no_self_flows(b@),
    {
        let key = rec.dedup_key();
        if self.cache.contains(&key) {
            return None;
        }
        self.cache.insert(key);
        self.batch.push(rec, now_ms)
    }

    /// One event at `now_ms`, with the record it gave, if any: a due batch
    /// goes out, then the record is accepted. At most one batch comes back.
    pub fn step(&mut self, rec: Option<T>, now_ms: u64) -> (r: Option<Vec<T>>)
        requires
            old(self).well_formed(),
            rec matches Some(t) ==> !t.is_self_flow(),
        ensures
            final(self).well_formed(),
            final(self).capacity() == old(self).capacity(),
            final(self).timeout() == old(self).timeout(),
            step_outcome(*old(self), *final(self), rec, r, now_ms),
            r matches Some(b) ==> no_dups(b@) && no_self_flows(b@),
    {
        let flushed = self.batch.tick(now_ms);
        match rec {
            None => flushed,
            Some(t) => {
                let accepted = self.accept(t, now_ms);
                match flushed {
                    Some(b) => Some(b),
                    None => accepted,
                }
            },
        }
    }

    /// At `now_ms`, with no event: the batch comes back to be sent if it is
    /// due.
    pub fn tick(&mut self, now_ms: u64) -> (r: Option<Vec<T>>)
        requires
            old(self).well_formed(),
        ensures
            final(self).well_formed(),
            final(self).capacity() == old(self).capacity(),
            final(self).timeout() == old(self).timeout(),
            step_outcome(*old(self), *final(self), None, r, now_ms),
            r matches Some(b) ==> no_dups(b@) && no_self_flows(b@),
    {
        self.batch.tick(now_ms)
    }

    /// The stream of events has ended: what waits comes back to be sent.
    pub fn close(&mut self, now_ms: u64) -> (r: Option<Vec<T>>)
        requires
            old(self).well_formed(),
        ensures
            final(self).well_formed(),
            final(self).pending() == Seq::<T>::empty(),
            old(self).pending().len() > 0 ==> sent(r, old(self).pending()),
            old(self).pending().len() == 0 ==> r is None,
            r matches Some(b) ==> no_dups(b@) && no_self_flows(b@),
    {
        self.batch.close(now_ms)
    }
}

/// Handles an allowed flow whose namespace belongs to `pod`, or to no known
/// pod. A batch that is due or full comes back to be sent.
pub fn on_network_event(
    p: &mut FlowPipeline<PodTraffic>,
    data: &NetworkEventData,
    pod: Option<&PodInspect>,
    uuid: String,
    time_stamp: i64,
    now_ms: u64,
) -> (r: Option<Vec<PodTraffic>>)
    requires
        old(p).well_formed(),
    ensures
        final(p).well_formed(),
        final(p).capacity() == old(p).capacity(),
        final(p).timeout() == old(p).timeout(),
        match pod {
            Some(q) if allowed_flow(*data, q.status) => exists|t: PodTraffic|
                #[trigger] is_traffic_record(t, *data, q.status) && t.uuid == uuid && t.time_stamp
                    == time_stamp && step_outcome(*old(p), *final(p), Some(t), r, now_ms),
            _ => step_outcome(*old(p), *final(p), None, r, now_ms),
        },
        r matches Some(b) ==> no_dups(b@) && no_self_flows(b@),
{
    let rec = match pod {
        None => None,
        Some(q) => build_traffic_event(data, q, uuid, time_stamp),
    };
    let ghost g = rec;
    let r = p.step(rec, now_ms);
    proof {
        if let Some(q) = pod {
            if allowed_flow(*data, q.status) {
                assert(is_traffic_record(g->0, *data, q.status));
            }
        }
    }
    r
}

/// Handles a flow that a network policy dropped, as a drop record with pod
/// port 0 and the reason for the drop.
pub fn on_policy_drop_event(
    p: &mut FlowPipeline<PodPacketDrop>,
    data: &PolicyDropEvent,
    pod: Option<&PodInspect>,
    uuid: String,
    time_stamp: i64,
    now_ms: u64,
) -> (r: Option<Vec<PodPacketDrop>>)
    requires
        old(p).well_formed(),
    ensures
        final(p).well_formed(),
        final(p).capacity() == old(p).capacity(),
        final(p).timeout() == old(p).timeout(),
        match pod {
            Some(q) if foreign_remote(data.daddr, q.status) => exists|d: PodPacketDrop|
                #[trigger] is_egress_drop_record(d, *data, q.status) && d.uuid == uuid
                    && d.time_stamp == time_stamp && step_outcome(*old(p), *final(p), Some(d), r, now_ms),
            _ => step_outcome(*old(p), *final(p), None, r, now_ms),
        },
        r matches Some(b) ==> no_dups(b@) && no_self_flows(b@),
{
    let rec = match pod {
        None => None,
        Some(q) => build_policy_drop_event(data, q, uuid, time_stamp),
    };
    let ghost g = rec;
    let r = p.step(rec, now_ms);
    proof {
        if let Some(q) = pod {
            if foreign_remote(data.daddr, q.status) {
                assert(is_egress_drop_record(g->0, *data, q.status));
            }
        }
    }
    r
}

/// Handles a flow that a network policy dropped, as a drop record with the
/// source port and the reason for the drop.
pub fn on_netpolicy_drop_event(
    p: &mut FlowPipeline<PodPacketDrop>,
    data: &PolicyDropEvent,
    pod: Option<&PodInspect>,
    uuid: String,
    time_stamp: i64,
    now_ms: u64,
) -> (r: Option<Vec<PodPacketDrop>>)
    requires
        old(p).well_formed(),
    ensures
        final(p).well_formed(),
        final(p).capacity() == old(p).capacity(),
        final(p).timeout() == old(p).timeout(),
        match pod {
            Some(q) if foreign_remote(data.daddr, q.status) => exists|d: PodPacketDrop|
                #[trigger] is_policy_drop_record(d, *data, q.status) && d.uuid == uuid
                    && d.time_stamp == time_stamp && step_outcome(*old(p), *final(p), Some(d), r, now_ms),
            _ => step_outcome(*old(p), *final(p), None, r, now_ms),
        },
        r matches Some(b) ==> no_dups(b@) && no_self_flows(b@),
{
    let rec = match pod {
        None => None,
        Some(q) => build_netpolicy_drop_event(data, q, uuid, time_stamp),
    };
    let ghost g = rec;
    let r = p.step(rec, now_ms);
    proof {
        if let Some(q) = pod {
            if foreign_remote(data.daddr, q.status) {
                assert(is_policy_drop_record(g->0, *data, q.status));
            }
        }
    }
    r
}

/// Handles a packet dropped in the kernel.
pub fn on_packet_drop_event(
    p: &mut FlowPipeline<PodPacketDrop>,
    data: &PacketDropEvent,
    pod: Option<&PodInspect>,
    uuid: String,
    time_stamp: i64,
    now_ms: u64,
) -> (r: Option<Vec<PodPacketDrop>>)
    requires
        old(p).well_formed(),
    ensures
        final(p).well_formed(),
        final(p).capacity() == old(p).capacity(),
        final(p).timeout() == old(p).timeout(),
        match pod {
            Some(q) if foreign_remote(data.daddr, q.status) => exists|d: PodPacketDrop|
                #[trigger] is_packet_drop_record(d, *data, q.status) && d.uuid == uuid
                    && d.time_stamp == time_stamp && step_outcome(*old(p), *final(p), Some(d), r, now_ms),
            _ => step_outcome(*old(p), *final(p), None, r, now_ms),
        },
        r matches Some(b) ==> no_dups(b@) && no_self_flows(b@),
{
    let rec = match pod {
        None => None,
        Some(q) => build_packet_drop_event(data, q, uuid, time_stamp),
    };
    let ghost g = rec;
    let r = p.step(rec, now_ms);
    proof {
        if let Some(q) = pod {
            if foreign_remote(data.daddr, q.status) {
                assert(is_packet_drop_record(g->0, *data, q.status));
            }
        }
    }
    r
}

/// The direction and protocol of an allowed flow's record follow its kind:
/// 1 is egress TCP, 2 ingress TCP, 3 egress UDP.
pub proof fn lemma_kind_table(t: PodTraffic, data: NetworkEventData, pod: PodInfo)
    requires
        allowed_flow(data, pod),
        is_traffic_record(t, data, pod),
    ensures
        data.kind == 1 || data.kind == 2 || data.kind == 3,
        data.kind == 1 ==> opt_text(t.traffic_type) == Some("EGRESS"@) && opt_text(t.ip_protocol)
            == Some("TCP"@),
        data.kind == 2 ==> opt_text(t.traffic_type) == Some("INGRESS"@) && opt_text(t.ip_protocol)
            == Some("TCP"@),
        data.kind == 3 ==> opt_text(t.traffic_type) == Some("EGRESS"@) && opt_text(t.ip_protocol)
            == Some("UDP"@),
{
}

/// Records built from the same event and pod agree in every field but
/// their identity and time, so they have the same key.
pub proof fn lemma_traffic_record_deterministic(
    t1: PodTraffic,
    t2: PodTraffic,
    data: NetworkEventData,
    pod: PodInfo,
)
    requires
        is_traffic_record(t1, data, pod),
        is_traffic_record(t2, data, pod),
    ensures
        t1.pod_name@ == t2.pod_name@,
        opt_text(t1.pod_namespace) == opt_text(t2.pod_namespace),
        t1.key_view() == t2.key_view(),
{
    assert(text_or_empty(t1.pod_port) == text_or_empty(t2.pod_port));
    assert(text_or_empty(t1.traffic_type) == text_or_empty(t2.traffic_type));
    assert(text_or_empty(t1.traffic_in_out_ip) == text_or_empty(t2.traffic_in_out_ip));
    assert(text_or_empty(t1.traffic_in_out_port) == text_or_empty(t2.traffic_in_out_port));
    assert(text_or_empty(t1.decision) == text_or_empty(t2.decision));
    assert(text_or_empty(t1.ip_protocol) == text_or_empty(t2.ip_protocol));
}

/// A record new to a pipeline that already holds 99 waiting records makes a
/// batch of 100, which goes out at once; with 98 waiting it joins them, and
/// the 99 wait for the timeout.
pub proof fn lemma_batch_boundary<T: Keyed>(
    o: FlowPipeline<T>,
    f: FlowPipeline<T>,
    rec: T,
    r: Option<Vec<T>>,
    now_ms: u64,
)
    requires
        o.well_formed(),
        accept_outcome(o.pending(), o.seen(), o.last_flush(), o.capacity(), f, rec, r, now_ms),
        !o.seen().contains(rec.key_view()),
        !holds_dup(o.pending(), rec),
    ensures
        o.pending().len() == 99 ==> (r matches Some(b) && b@.len() == 100) && f.pending().len() == 0,
        o.pending().len() == 98 ==> r is None && f.pending().len() == 99,
{
}

} // verus!

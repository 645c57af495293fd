use kguardian::events::{
    classify_kind, Direction, FlowProtocol, NetworkEventData, PacketDropEvent, PolicyDropEvent,
};
use kguardian::flows::{
    build_netpolicy_drop_event, build_packet_drop_event, build_policy_drop_event,
    build_traffic_event, on_netpolicy_drop_event, on_network_event, FlowPipeline, BATCH_SIZE,
    NETWORK_BATCH_TIMEOUT_MS,
};
use kguardian::model::{PodInfo, PodInspect, PodPacketDrop, PodTraffic};
use kguardian::stamp::new_stamp;

fn pod(ip: &str) -> PodInspect {
    PodInspect {
        status: PodInfo {
            pod_name: "pod-a".to_string(),
            pod_namespace: Some("default".to_string()),
            pod_ip: ip.to_string(),
        },
        container_id: None,
        pid: None,
        inode_num: Some(100),
    }
}

fn net_event(daddr: u32, sport: u16, dport: u16, kind: u16) -> NetworkEventData {
    NetworkEventData { inum: 100, saddr: 0x0100000A, sport, daddr, dport, kind }
}

fn some(s: &str) -> Option<String> {
    Some(s.to_string())
}

#[test]
fn ingress_tcp_record() {
    let e = net_event(0x0200000A, 8080, 55555, 2);
    let t = build_traffic_event(&e, &pod("10.0.0.1"), "u1".to_string(), 42).unwrap();
    assert_eq!(t.uuid, "u1");
    assert_eq!(t.time_stamp, 42);
    assert_eq!(t.pod_name, "pod-a");
    assert_eq!(t.pod_namespace, some("default"));
    assert_eq!(t.pod_ip, "10.0.0.1");
    assert_eq!(t.pod_port, some("8080"));
    assert_eq!(t.traffic_in_out_ip, some("10.0.0.2"));
    assert_eq!(t.traffic_in_out_port, some("0"));
    assert_eq!(t.traffic_type, some("INGRESS"));
    assert_eq!(t.ip_protocol, some("TCP"));
    assert_eq!(t.decision, some("ALLOW"));
}

#[test]
fn self_traffic_is_suppressed() {
    let e = net_event(0x0100000A, 8080, 55555, 2);
    assert!(build_traffic_event(&e, &pod("10.0.0.1"), "u".to_string(), 0).is_none());
}

#[test]
fn kinds_follow_the_table() {
    let p = pod("10.0.0.1");
    let t1 = build_traffic_event(&net_event(0x0200000A, 40000, 443, 1), &p, "a".into(), 0).unwrap();
    assert_eq!((t1.traffic_type.as_deref(), t1.ip_protocol.as_deref()), (Some("EGRESS"), Some("TCP")));
    assert_eq!((t1.pod_port.as_deref(), t1.traffic_in_out_port.as_deref()), (Some("0"), Some("443")));
    let t3 = build_traffic_event(&net_event(0x0200000A, 40000, 53, 3), &p, "b".into(), 0).unwrap();
    assert_eq!((t3.traffic_type.as_deref(), t3.ip_protocol.as_deref()), (Some("EGRESS"), Some("UDP")));
    assert_eq!(t3.traffic_in_out_port.as_deref(), Some("53"));
    assert!(build_traffic_event(&net_event(0x0200000A, 1, 2, 0), &p, "c".into(), 0).is_none());
    assert!(build_traffic_event(&net_event(0x0200000A, 1, 2, 4), &p, "d".into(), 0).is_none());
    let s = classify_kind(2).unwrap();
    assert_eq!((s.direction, s.protocol), (Direction::Ingress, FlowProtocol::Tcp));
    assert!(classify_kind(7).is_none());
}

#[test]
fn records_are_deterministic_but_for_identity_and_time() {
    let e = net_event(0x0300000A, 1234, 80, 1);
    let a = build_traffic_event(&e, &pod("10.0.0.1"), "x".into(), 1).unwrap();
    let b = build_traffic_event(&e, &pod("10.0.0.1"), "y".into(), 2).unwrap();
    assert_eq!(a.pod_port, b.pod_port);
    assert_eq!(a.traffic_in_out_ip, b.traffic_in_out_ip);
    assert_eq!(a.traffic_in_out_port, b.traffic_in_out_port);
    assert_eq!(a.traffic_type, b.traffic_type);
    assert_eq!(a.ip_protocol, b.ip_protocol);
    assert_eq!(a.decision, b.decision);
}

fn drop_event(daddr: u32, protocol: u8, syn_retries: u32) -> PolicyDropEvent {
    PolicyDropEvent {
        timestamp: 0,
        inum: 100,
        saddr: 0x0100000A,
        daddr,
        sport: 40000,
        dport: 443,
        protocol,
        _pad: 0,
        syn_retries,
    }
}

#[test]
fn policy_drop_with_retries() {
    let d = build_netpolicy_drop_event(&drop_event(0x0200000A, 6, 3), &pod("10.0.0.1"), "u".into(), 5)
        .unwrap();
    assert_eq!(d.drop_reason, some("Network Policy (Connection Timeout - 3 SYN retries)"));
    assert_eq!(d.traffic_type, some("EGRESS"));
    assert_eq!(d.ip_protocol, some("TCP"));
    assert_eq!(d.traffic_in_out_port, some("443"));
    assert_eq!(d.pod_port, some("40000"));
    assert_eq!(d.traffic_in_out_ip, some("10.0.0.2"));
    assert!(build_netpolicy_drop_event(&drop_event(0x0100000A, 6, 3), &pod("10.0.0.1"), "u".into(), 5)
        .is_none());
}

#[test]
fn policy_drop_record_with_reason() {
    let t = build_policy_drop_event(&drop_event(0x0200000A, 17, 0), &pod("10.0.0.1"), "u".into(), 5)
        .unwrap();
    assert_eq!(t.drop_reason, some("Network Policy (UDP Drop)"));
    assert_eq!(t.pod_port, some("0"));
    assert_eq!(t.ip_protocol, some("UDP"));
    assert_eq!(t.traffic_type, some("EGRESS"));
    let r = build_policy_drop_event(&drop_event(0x0200000A, 6, 2), &pod("10.0.0.1"), "u".into(), 5)
        .unwrap();
    assert_eq!(r.drop_reason, some("Network Policy (Connection Timeout - 2 SYN retries)"));
}

#[test]
fn packet_drop_record() {
    let e = PacketDropEvent {
        timestamp: 0,
        inum: 100,
        saddr: 0x0100000A,
        daddr: 0x0200000A,
        sport: 1,
        dport: 22,
        protocol: 9,
        drop_location: 0xdead,
    };
    let d = build_packet_drop_event(&e, &pod("10.0.0.1"), "u".into(), 5).unwrap();
    assert_eq!(d.drop_reason, some("Network Policy"));
    assert_eq!(d.ip_protocol, some("UNKNOWN(9)"));
    assert_eq!(d.pod_port, some("0"));
    assert_eq!(d.traffic_in_out_port, some("22"));
}

#[test]
fn unknown_namespace_is_dropped_without_change() {
    let mut p: FlowPipeline<PodTraffic> = FlowPipeline::new(NETWORK_BATCH_TIMEOUT_MS, 0);
    let e = net_event(0x0200000A, 8080, 55555, 2);
    assert!(on_network_event(&mut p, &e, None, "u".into(), 0, 1).is_none());
    // The same event for a known pod is still new: nothing was remembered.
    assert!(on_network_event(&mut p, &e, Some(&pod("10.0.0.1")), "u".into(), 0, 2).is_none());
    let out = p.close(3).unwrap();
    assert_eq!(out.len(), 1);
}

#[test]
fn repeated_flow_is_emitted_once() {
    let mut p: FlowPipeline<PodTraffic> = FlowPipeline::new(NETWORK_BATCH_TIMEOUT_MS, 0);
    let e = net_event(0x0200000A, 8080, 55555, 2);
    let q = pod("10.0.0.1");
    for i in 0..5 {
        assert!(on_network_event(&mut p, &e, Some(&q), format!("u{i}"), 0, 1).is_none());
    }
    let out = p.close(2).unwrap();
    assert_eq!(out.len(), 1);
    assert_eq!(out[0].uuid, "u0");
    assert!(p.close(3).is_none());
}

#[test]
fn full_batch_flushes_at_once() {
    let mut p: FlowPipeline<PodTraffic> = FlowPipeline::new(NETWORK_BATCH_TIMEOUT_MS, 0);
    let q = pod("10.0.0.1");
    for port in 0..(BATCH_SIZE as u16 - 1) {
        let e = net_event(0x0200000A, 1000 + port, 80, 2);
        assert!(on_network_event(&mut p, &e, Some(&q), "u".into(), 0, 10).is_none());
    }
    // 99 records wait for the timeout.
    assert!(p.tick(NETWORK_BATCH_TIMEOUT_MS - 1).is_none());
    let e = net_event(0x0200000A, 5000, 80, 2);
    let batch = on_network_event(&mut p, &e, Some(&q), "u".into(), 0, 20).unwrap();
    assert_eq!(batch.len(), 100);
    assert_eq!(batch[0].pod_port.as_deref(), Some("1000"));
    assert_eq!(batch[99].pod_port.as_deref(), Some("5000"));
    assert!(p.close(30).is_none());
}

#[test]
fn waiting_batch_flushes_after_timeout() {
    let mut p: FlowPipeline<PodTraffic> = FlowPipeline::new(NETWORK_BATCH_TIMEOUT_MS, 0);
    let q = pod("10.0.0.1");
    let e = net_event(0x0200000A, 8080, 55555, 2);
    assert!(on_network_event(&mut p, &e, Some(&q), "u".into(), 0, 100).is_none());
    assert!(p.tick(999).is_none());
    let out = p.tick(1000).unwrap();
    assert_eq!(out.len(), 1);
    assert!(p.tick(5000).is_none());
}

#[test]
fn batch_keys_are_unique() {
    let mut p: FlowPipeline<PodTraffic> = FlowPipeline::new(NETWORK_BATCH_TIMEOUT_MS, 0);
    let q = pod("10.0.0.1");
    for i in 0..50u16 {
        let e = net_event(0x0200000A + ((i as u32 % 7) << 24), 9000, 53, 3);
        on_network_event(&mut p, &e, Some(&q), "u".into(), 0, 1);
    }
    let out = p.close(2).unwrap();
    assert_eq!(out.len(), 7);
    for i in 0..out.len() {
        for j in 0..out.len() {
            if i != j {
                assert_ne!(out[i].traffic_in_out_ip, out[j].traffic_in_out_ip);
            }
        }
    }
}

#[test]
fn drop_pipeline_batches_drop_records() {
    let mut p: FlowPipeline<PodPacketDrop> = FlowPipeline::new(2000, 0);
    let q = pod("10.0.0.1");
    on_netpolicy_drop_event(&mut p, &drop_event(0x0200000A, 6, 3), Some(&q), "a".into(), 0, 1);
    on_netpolicy_drop_event(&mut p, &drop_event(0x0200000A, 6, 0), Some(&q), "b".into(), 0, 1);
    assert!(p.tick(1999).is_none());
    let out = p.tick(2000).unwrap();
    assert_eq!(out.len(), 1);
    assert_eq!(out[0].uuid, "a");
}

#[test]
fn stamps_are_fresh_uuids() {
    let a = new_stamp();
    let b = new_stamp();
    assert_eq!(a.uuid.len(), 36);
    assert_ne!(a.uuid, b.uuid);
    assert!(a.time_stamp > 1_600_000_000_000_000);
}

#[test]
fn udp_duplicates_share_no_batch() {
    let mut p: FlowPipeline<PodTraffic> = FlowPipeline::new(NETWORK_BATCH_TIMEOUT_MS, 0);
    let q = pod("10.0.0.1");
    assert!(on_network_event(&mut p, &net_event(0x0200000A, 1, 53, 3), Some(&q), "a".into(), 0, 1).is_none());
    assert!(on_network_event(&mut p, &net_event(0x0200000A, 1, 54, 3), Some(&q), "b".into(), 0, 2).is_none());
    assert!(on_network_event(&mut p, &net_event(0x0200000A, 1, 55, 1), Some(&q), "c".into(), 0, 3).is_none());
    let out = p.close(4).unwrap();
    let ids: Vec<&str> = out.iter().map(|t| t.uuid.as_str()).collect();
    assert_eq!(ids, vec!["a", "c"]);
}

#[test]
fn due_batch_goes_out_while_events_keep_coming() {
    let mut p: FlowPipeline<PodTraffic> = FlowPipeline::new(NETWORK_BATCH_TIMEOUT_MS, 0);
    let q = pod("10.0.0.1");
    let first = net_event(0x0200000A, 1000, 80, 2);
    assert!(on_network_event(&mut p, &first, Some(&q), "a".into(), 0, 10).is_none());
    let mut now = 10;
    while now < 1000 {
        now += 300;
        let out = on_network_event(&mut p, &first, None, "x".into(), 0, now);
        if now < 1000 {
            assert!(out.is_none());
        } else {
            assert_eq!(out.unwrap().len(), 1);
        }
    }
    let second = net_event(0x0200000A, 2000, 80, 2);
    assert!(on_network_event(&mut p, &second, Some(&q), "b".into(), 0, 1500).is_none());
    let out = on_network_event(&mut p, &net_event(0x0200000A, 3000, 80, 2), Some(&q), "c".into(), 0, 2300)
        .unwrap();
    assert_eq!(out.len(), 1);
    assert_eq!(out[0].uuid, "b");
    let rest = p.close(2400).unwrap();
    assert_eq!(rest[0].uuid, "c");
}

#[test]
fn emitted_flow_is_not_emitted_in_a_later_batch() {
    let mut p: FlowPipeline<PodTraffic> = FlowPipeline::new(NETWORK_BATCH_TIMEOUT_MS, 0);
    let q = pod("10.0.0.1");
    let e = net_event(0x0200000A, 8080, 55555, 2);
    assert!(on_network_event(&mut p, &e, Some(&q), "a".into(), 0, 1).is_none());
    assert_eq!(p.tick(1000).unwrap().len(), 1);
    assert!(on_network_event(&mut p, &e, Some(&q), "b".into(), 0, 1500).is_none());
    assert!(p.tick(5000).is_none());
}

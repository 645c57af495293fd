use kguardian::broker::{
    create_pod_syscalls, create_pod_traffic, create_pod_traffic_batch, is_duplicate, join_syscalls,
    mark_pod_as_dead, upsert_pod_details, upsert_svc_details,
};
use kguardian::model::{PodDetail, PodInputSyscalls, PodSyscalls, PodTraffic, SvcDetail};

fn s(x: &str) -> Option<String> {
    Some(x.to_string())
}

fn traffic(uuid: &str, proto: &str, pod_port: &str, remote_port: &str) -> PodTraffic {
    PodTraffic {
        uuid: uuid.to_string(),
        pod_name: "pod-a".to_string(),
        pod_namespace: s("default"),
        pod_ip: "10.0.0.1".to_string(),
        pod_port: s(pod_port),
        traffic_in_out_ip: s("10.0.0.53"),
        traffic_in_out_port: s(remote_port),
        traffic_type: s("EGRESS"),
        ip_protocol: s(proto),
        decision: s("ALLOW"),
        time_stamp: 0,
    }
}

#[test]
fn udp_duplicate_keeps_first_row() {
    let mut rows = Vec::new();
    let first = traffic("a", "UDP", "0", "53");
    let second = traffic("b", "UDP", "0", "5353");
    assert_eq!(create_pod_traffic_batch(&mut rows, &vec![first]), 1);
    assert_eq!(create_pod_traffic_batch(&mut rows, &vec![second]), 0);
    assert_eq!(rows.len(), 1);
    assert_eq!(rows[0].uuid, "a");
}

#[test]
fn records_of_one_batch_are_tested_against_stored_rows_only() {
    let mut rows = Vec::new();
    let batch = vec![traffic("a", "TCP", "0", "443"), traffic("b", "TCP", "0", "443")];
    assert_eq!(create_pod_traffic_batch(&mut rows, &batch), 2);
    assert_eq!(rows.len(), 2);
    assert_eq!(create_pod_traffic_batch(&mut rows, &batch), 0);
}

#[test]
fn udp_records_differing_in_remote_port_are_duplicates() {
    let row = traffic("a", "UDP", "3000", "53");
    let t = traffic("b", "UDP", "3000", "54");
    assert!(is_duplicate(&row, &t));
    let t2 = traffic("c", "UDP", "4000", "53");
    assert!(is_duplicate(&row, &t2));
    let t3 = traffic("d", "UDP", "4000", "54");
    assert!(!is_duplicate(&row, &t3));
}

#[test]
fn tcp_records_need_an_exact_match() {
    let row = traffic("a", "TCP", "0", "443");
    assert!(is_duplicate(&row, &traffic("b", "TCP", "0", "443")));
    assert!(!is_duplicate(&row, &traffic("c", "TCP", "0", "444")));
    assert!(!is_duplicate(&row, &traffic("d", "TCP", "1", "443")));
    let mut other = traffic("e", "TCP", "0", "443");
    other.decision = s("DROP");
    assert!(!is_duplicate(&row, &other));
}

#[test]
fn batch_ingest_counts_new_rows() {
    let mut rows = vec![traffic("old", "TCP", "0", "443")];
    let batch = vec![
        traffic("a", "TCP", "0", "443"),
        traffic("b", "TCP", "0", "80"),
        traffic("c", "TCP", "0", "80"),
        traffic("d", "TCP", "0", "22"),
    ];
    assert_eq!(create_pod_traffic_batch(&mut rows, &batch), 3);
    let ids: Vec<&str> = rows.iter().map(|r| r.uuid.as_str()).collect();
    assert_eq!(ids, vec!["old", "b", "c", "d"]);
    assert_eq!(create_pod_traffic_batch(&mut rows, &Vec::new()), 0);
}

#[test]
fn single_ingest_returns_the_record() {
    let mut rows = Vec::new();
    let r = create_pod_traffic(&mut rows, traffic("a", "TCP", "0", "443"));
    assert_eq!(r.uuid, "a");
    let r2 = create_pod_traffic(&mut rows, traffic("b", "TCP", "0", "443"));
    assert_eq!(r2.uuid, "b");
    assert_eq!(rows.len(), 1);
}

#[test]
fn get_row_finds_the_matching_row() {
    let rows = vec![traffic("a", "UDP", "0", "53"), traffic("b", "UDP", "7", "99")];
    let found = traffic("x", "UDP", "7", "53").get_row(&rows).unwrap();
    assert_eq!(found.uuid, "a");
    let found2 = traffic("y", "UDP", "7", "1").get_row(&rows).unwrap();
    assert_eq!(found2.uuid, "b");
    assert!(traffic("z", "UDP", "8", "1").get_row(&rows).is_none());
    assert_eq!(traffic("t", "TCP", "0", "53").get_row(&rows).unwrap().uuid, "a");
    assert!(traffic("t", "TCP", "0", "54").get_row(&rows).is_none());
}

fn detail(name: &str, ip: &str) -> PodDetail {
    PodDetail {
        pod_ip: ip.to_string(),
        pod_name: name.to_string(),
        pod_namespace: s("default"),
        pod_obj: None,
        time_stamp: 0,
        node_name: "n".to_string(),
        is_dead: false,
        pod_identity: None,
        workload_selector_labels: None,
    }
}

#[test]
fn pod_upsert_replaces_by_name() {
    let mut rows = Vec::new();
    upsert_pod_details(&mut rows, detail("pod-a", "10.0.0.1"));
    upsert_pod_details(&mut rows, detail("pod-b", "10.0.0.2"));
    let mut dead = detail("pod-a", "10.0.0.9");
    dead.is_dead = true;
    mark_pod_as_dead(&mut rows, "pod-a");
    let back = upsert_pod_details(&mut rows, detail("pod-a", "10.0.0.9"));
    assert_eq!(back.pod_ip, "10.0.0.9");
    assert_eq!(back.pod_name, "pod-a");
    assert_eq!(rows.len(), 2);
    assert_eq!(rows[0].pod_ip, "10.0.0.9");
    assert!(!rows[0].is_dead);
}

#[test]
fn mark_dead_is_idempotent() {
    let mut rows = vec![detail("pod-a", "a"), detail("pod-b", "b")];
    assert_eq!(mark_pod_as_dead(&mut rows, "pod-b"), 1);
    assert_eq!(mark_pod_as_dead(&mut rows, "pod-b"), 1);
    assert!(rows[1].is_dead);
    assert!(!rows[0].is_dead);
    assert_eq!(mark_pod_as_dead(&mut rows, "pod-z"), 0);
}

#[test]
fn service_upsert_replaces_by_ip() {
    let svc = |name: &str, ip: &str| SvcDetail {
        svc_ip: ip.to_string(),
        svc_name: name.to_string(),
        svc_namespace: None,
        service_spec: None,
        time_stamp: 0,
    };
    let mut rows = Vec::new();
    upsert_svc_details(&mut rows, svc("a", "10.96.0.1"));
    let back = upsert_svc_details(&mut rows, svc("b", "10.96.0.1"));
    assert_eq!(back.svc_name, "b");
    upsert_svc_details(&mut rows, svc("c", "10.96.0.2"));
    assert_eq!(rows.len(), 2);
    assert_eq!(rows[0].svc_name, "b");
}

fn input(name: &str, arch: &str, nums: &[&str]) -> PodInputSyscalls {
    PodInputSyscalls {
        pod_name: name.to_string(),
        pod_namespace: "default".to_string(),
        syscalls: nums.iter().map(|n| n.to_string()).collect(),
        arch: arch.to_string(),
        time_stamp: 7,
    }
}

#[test]
fn syscall_lists_are_joined_and_merged() {
    assert_eq!(join_syscalls(&vec![]), "");
    assert_eq!(join_syscalls(&vec!["59".to_string()]), "59");
    assert_eq!(join_syscalls(&vec!["59".to_string(), "0".to_string(), "1".to_string()]), "59,0,1");
    let mut rows: Vec<PodSyscalls> = Vec::new();
    create_pod_syscalls(&mut rows, &vec![input("pod-a", "x86_64", &["59"]), input("pod-b", "x86_64", &["1"])]);
    create_pod_syscalls(&mut rows, &vec![input("pod-a", "x86_64", &["59", "42"]), input("pod-a", "arm64", &["3"])]);
    assert_eq!(rows.len(), 3);
    assert_eq!(rows[0].syscalls, "59,42");
    assert_eq!(rows[1].syscalls, "1");
    assert_eq!(rows[2].arch, "arm64");
    let found = input("pod-a", "x86_64", &[]).get_row(&rows).unwrap();
    assert_eq!(found.syscalls, "59,42");
    assert!(input("pod-c", "x86_64", &[]).get_row(&rows).is_none());
}

use kguardian::correlator::Correlator;
use kguardian::model::PodInspect;
use kguardian::pods::{
    create_pod_info, extract_pod_identity_and_selectors, identity_from_labels,
    is_backed_by_daemonset, plan_pod, pod_unready, should_process_pod, OwnerInfo, OwnerRef,
    PodCondition, PodStatusView, PodView, WorkloadRef,
};
use kguardian::reconcile::pods_to_mark_dead;
use kguardian::runtime::parse_container_id;
use kguardian::syscalls::{on_syscall_event, security_syscalls, SyscallAggregator, SyscallEventData};

fn labels(pairs: &[(&str, &str)]) -> Vec<(String, String)> {
    pairs.iter().map(|(k, v)| (k.to_string(), v.to_string())).collect()
}

fn pod_view(conds: Vec<(&str, &str)>, ids: Option<Vec<Option<&str>>>, ip: Option<&str>) -> PodView {
    PodView {
        name: "pod-a".to_string(),
        namespace: Some("default".to_string()),
        labels: None,
        owner_references: None,
        status: Some(PodStatusView {
            pod_ip: ip.map(|s| s.to_string()),
            conditions: Some(
                conds
                    .into_iter()
                    .map(|(t, s)| PodCondition { type_: t.to_string(), status: s.to_string(), message: None })
                    .collect(),
            ),
            container_ids: ids.map(|v| v.into_iter().map(|o| o.map(|s| s.to_string())).collect()),
        }),
    }
}

#[test]
fn readiness_gate() {
    let ready = pod_view(vec![("Ready", "True")], Some(vec![Some("containerd://a"), None, Some("containerd://b")]), Some("10.0.0.1"));
    assert_eq!(pod_unready(&ready), Some(vec!["containerd://a".to_string(), "containerd://b".to_string()]));
    let unready = pod_view(vec![("PodScheduled", "True"), ("Ready", "False")], Some(vec![]), Some("10.0.0.1"));
    assert_eq!(pod_unready(&unready), None);
    let no_statuses = pod_view(vec![], None, Some("10.0.0.1"));
    assert_eq!(pod_unready(&no_statuses), None);
    let mut no_status = ready.clone();
    no_status.status = None;
    assert_eq!(pod_unready(&no_status), None);
}

#[test]
fn excluded_namespaces() {
    let excluded = vec!["kube-system".to_string(), "kguardian".to_string()];
    assert!(!should_process_pod(&Some("kube-system".to_string()), &excluded));
    assert!(should_process_pod(&Some("default".to_string()), &excluded));
    assert!(should_process_pod(&None, &excluded));
}

#[test]
fn plan_for_ready_daemonset_pod() {
    let mut p = pod_view(vec![], Some(vec![Some("containerd://a")]), Some("10.0.0.7"));
    p.owner_references = Some(vec![OwnerRef { kind: "DaemonSet".to_string(), name: "ds".to_string() }]);
    assert!(is_backed_by_daemonset(&p));
    let plan = plan_pod(&p, &["kube-system".to_string()], true);
    assert_eq!(plan.pod_ip.as_deref(), Some("10.0.0.7"));
    assert!(plan.ignore_ip);
    assert!(plan.resolve);
    let plan2 = plan_pod(&p, &["default".to_string()], true);
    assert!(plan2.pod_ip.is_none());
    assert!(plan2.container_ids.is_none());
    assert!(!plan2.ignore_ip);
    assert!(!plan2.resolve);
    let plan4 = plan_pod(&p, &[], false);
    assert!(!plan4.ignore_ip);
    assert!(plan4.resolve);
    let no_ip = pod_view(vec![], Some(vec![]), Some(""));
    let plan3 = plan_pod(&no_ip, &[], true);
    assert!(plan3.pod_ip.is_none());
    assert!(!plan3.resolve);
    assert!(plan3.container_ids.is_some());
}

#[test]
fn identity_prefers_labels_and_traces_selectors() {
    let mut p = pod_view(vec![], Some(vec![]), Some("10.0.0.1"));
    p.labels = Some(labels(&[("app.kubernetes.io/name", "api"), ("k8s-app", "legacy")]));
    p.owner_references = Some(vec![OwnerRef { kind: "ReplicaSet".to_string(), name: "api-rs".to_string() }]);
    let owners = vec![OwnerInfo {
        kind: "ReplicaSet".to_string(),
        name: "api-rs".to_string(),
        owners: vec![WorkloadRef {
            kind: "Deployment".to_string(),
            name: "api-deploy".to_string(),
            selector: Some(labels(&[("app", "api")])),
        }],
        selector: None,
    }];
    let (id, sel) = extract_pod_identity_and_selectors(&p, &owners);
    assert_eq!(id.as_deref(), Some("api"));
    assert_eq!(sel, Some(labels(&[("app", "api")])));
}

#[test]
fn identity_from_owner_when_labels_say_nothing() {
    let mut p = pod_view(vec![], Some(vec![]), Some("10.0.0.1"));
    p.labels = Some(labels(&[("tier", "web"), ("app", "")]));
    p.owner_references = Some(vec![
        OwnerRef { kind: "Node".to_string(), name: "n".to_string() },
        OwnerRef { kind: "StatefulSet".to_string(), name: "db".to_string() },
    ]);
    let owners = vec![
        OwnerInfo { kind: "Node".to_string(), name: "n".to_string(), owners: vec![], selector: None },
        OwnerInfo {
            kind: "StatefulSet".to_string(),
            name: "db".to_string(),
            owners: vec![],
            selector: Some(labels(&[("app", "db")])),
        },
    ];
    let (id, sel) = extract_pod_identity_and_selectors(&p, &owners);
    assert_eq!(id.as_deref(), Some("db"));
    assert_eq!(sel, Some(labels(&[("app", "db")])));
    p.namespace = None;
    assert_eq!(extract_pod_identity_and_selectors(&p, &owners), (None, None));
}

#[test]
fn identity_label_priority() {
    assert_eq!(identity_from_labels(&labels(&[("app", "a"), ("k8s-app", "k")])).as_deref(), Some("k"));
    assert_eq!(
        identity_from_labels(&labels(&[("app.kubernetes.io/component", "c"), ("app", "a")])).as_deref(),
        Some("c")
    );
    assert_eq!(identity_from_labels(&labels(&[("x", "y")])), None);
}

#[test]
fn container_ids() {
    assert_eq!(parse_container_id("containerd://abc123DEF").as_deref(), Some("abc123DEF"));
    assert_eq!(parse_container_id("containerd://ab-cd").as_deref(), Some("ab"));
    assert_eq!(parse_container_id("containerd://").as_deref(), Some(""));
    assert_eq!(parse_container_id("x containerd://f00 containerd://bar").as_deref(), Some("f00"));
    assert_eq!(parse_container_id("docker://abc"), None);
    assert_eq!(parse_container_id(""), None);
}

#[test]
fn reconciliation_marks_missing_pods() {
    let alive = vec!["pod-a".to_string(), "pod-b".to_string()];
    let running = vec!["pod-a".to_string()];
    assert_eq!(pods_to_mark_dead(&alive, &running), vec!["pod-b".to_string()]);
    assert!(pods_to_mark_dead(&alive, &alive).is_empty());
    assert_eq!(pods_to_mark_dead(&alive, &[]), alive);
}

#[test]
fn syscall_sets_only_grow() {
    let mut agg = SyscallAggregator::new();
    agg.record("pod-a", "default", "x86_64", 59);
    agg.record("pod-a", "default", "x86_64", 59);
    agg.record("pod-a", "default", "x86_64", 0);
    agg.record("pod-b", "default", "x86_64", 1);
    let first = agg.to_inputs(1);
    assert_eq!(first.len(), 2);
    assert_eq!(first[0].syscalls, vec!["59".to_string(), "0".to_string()]);
    agg.record("pod-a", "default", "x86_64", 42);
    let second = agg.to_inputs(2);
    for n in &first[0].syscalls {
        assert!(second[0].syscalls.contains(n));
    }
    assert_eq!(second[0].syscalls.len(), 3);
    let pod = create_pod_info(&pod_view(vec![], None, None), "10.0.0.1");
    let inspect = PodInspect { status: pod, container_id: None, pid: None, inode_num: Some(5) };
    on_syscall_event(&mut agg, &SyscallEventData { inum: 5, syscall_number: 321 }, Some(&inspect), "x86_64");
    on_syscall_event(&mut agg, &SyscallEventData { inum: 6, syscall_number: 322 }, None, "x86_64");
    let third = agg.to_inputs(3);
    assert_eq!(third[0].syscalls, vec!["59", "0", "42", "321"]);
}

#[test]
fn allowlist_holds_security_syscalls() {
    let l = security_syscalls();
    assert_eq!(l.len(), 56);
    for n in [59u32, 322, 56, 41, 101, 165, 321, 308, 272, 0, 1] {
        assert!(l.contains(&n));
    }
}

#[test]
fn correlator_publishes_and_looks_up() {
    let c = Correlator::new();
    assert!(c.lookup(100).is_none());
    let info = create_pod_info(&pod_view(vec![], None, None), "10.0.0.1");
    let p = PodInspect { status: info, container_id: None, pid: None, inode_num: Some(100) };
    c.publish(100, p.clone().set_container_id("abc".to_string()));
    let got = c.lookup(100).unwrap();
    assert_eq!(got.status.pod_ip, "10.0.0.1");
    assert_eq!(got.container_id.as_deref(), Some("abc"));
}

//! What the pod watcher decides about a pod: whether it is ready, whether
//! its namespace is watched, whether a daemonset owns it, which workload it
//! belongs to, and what the broker and the correlator receive about it.
use vstd::prelude::*;
use crate::model::{opt_text, PodDetail, PodInfo};
use crate::proto::same_text;

verus! {

/// A label map, as key and value pairs with distinct keys.
pub type Labels = Vec<(String, String)>;

pub open spec fn labels_view(l: Seq<(String, String)>) -> Seq<(Seq<char>, Seq<char>)> {
    l.map_values(|p: (String, String)| (p.0@, p.1@))
}

pub open spec fn opt_labels_view(l: Option<Labels>) -> Option<Seq<(Seq<char>, Seq<char>)>> {
    match l {
        Some(v) => Some(labels_view(v@)),
        None => None,
    }
}

/// A condition of a pod's status.
#[derive(Clone, Debug)]
pub struct PodCondition {
    pub type_: String,
    pub status: String,
    pub message: Option<String>,
}

/// A controller that owns a pod or a replica set.
#[derive(Clone, Debug)]
pub struct OwnerRef {
    pub kind: String,
    pub name: String,
}

/// The status of a pod, as far as the watcher reads it.
#[derive(Clone, Debug)]
pub struct PodStatusView {
    pub pod_ip: Option<String>,
    pub conditions: Option<Vec<PodCondition>>,
    /// One entry per container status, with the runtime id where one is known.
    pub container_ids: Option<Vec<Option<String>>>,
}

/// A pod, as far as the watcher reads it.
#[derive(Clone, Debug)]
pub struct PodView {
    pub name: String,
    pub namespace: Option<String>,
    pub labels: Option<Labels>,
    pub owner_references: Option<Vec<OwnerRef>>,
    pub status: Option<PodStatusView>,
}

/// A controller, with its selector labels where it was fetched and has any.
#[derive(Clone, Debug)]
pub struct WorkloadRef {
    pub kind: String,
    pub name: String,
    pub selector: Option<Labels>,
}

/// What was fetched about one owner of a pod, in the order of the pod's
/// owner references. For a ReplicaSet, `owners` are the owner references of
/// the ReplicaSet, with the selector of each Deployment among them. For a
/// Deployment, StatefulSet or DaemonSet, `selector` holds its selector
/// labels where it was fetched and has any.
#[derive(Clone, Debug)]
pub struct OwnerInfo {
    pub kind: String,
    pub name: String,
    pub owners: Vec<WorkloadRef>,
    pub selector: Option<Labels>,
}

pub open spec fn ready_false(c: PodCondition) -> bool {
    c.type_@ == "Ready"@ && c.status@ == "False"@
}

/// A `Ready` condition is present and false.
pub open spec fn marked_unready(st: PodStatusView) -> bool {
    match st.conditions {
        Some(cs) => exists|i: int| 0 <= i < cs@.len() && ready_false(#[trigger] cs@[i]),
        None => false,
    }
}

/// The runtime ids that are known, in order.
pub open spec fn known_ids(ids: Seq<Option<String>>) -> Seq<Seq<char>>
    decreases ids.len(),
{
    if ids.len() == 0 {
        Seq::empty()
    } else {
        let rest = known_ids(ids.drop_last());
        match ids.last() {
            Some(s) => rest.push(s@),
            None => rest,
        }
    }
}

/// The pod counts as ready: it has a status, no `Ready` condition
/// is false, and its container statuses are there.
pub open spec fn passes_readiness(p: PodView) -> bool {
    p.status matches Some(st) && !marked_unready(st) && st.container_ids is Some
}

/// The container ids of a ready pod; none for any
/// other pod.
pub fn pod_unready(p: &PodView) -> (r: Option<Vec<String>>)
    ensures
        r is Some <==> passes_readiness(*p),
        r matches Some(v) ==> v@.map_values(|s: String| s@) == known_ids(
            p.status->0.container_ids->0@,
        ),
{
    let st = match &p.status {
        Some(st) => st,
        None => return None,
    };
    if let Some(conds) = &st.conditions {
        let mut i: usize = 0;
        while i < conds.len()
            invariant
                0 <= i <= conds@.len(),
                p.status == Some(*st),
                st.conditions == Some(*conds),
                forall|j: int| 0 <= j < i ==> !ready_false(#[trigger] conds@[j]),
            decreases conds@.len() - i,
        {
            if same_text(conds[i].type_.as_str(), "Ready") && same_text(
                conds[i].status.as_str(),
                "False",
            ) {
                assert(ready_false(conds@[i as int]));
                assert(exists|j: int| 0 <= j < conds@.len() && ready_false(#[trigger] conds@[j]));
                assert(p.status->0 == *st);
                assert(st.conditions->0 == *conds);
                return None;
            }
            i = i + 1;
        }
    }
    let ids = match &st.container_ids {
        Some(ids) => ids,
        None => return None,
    };
    let mut out: Vec<String> = Vec::new();
    let mut i: usize = 0;
    while i < ids.len()
        invariant
            0 <= i <= ids@.len(),
            out@.map_values(|s: String| s@) == known_ids(ids@.subrange(0, i as int)),
        decreases ids@.len() - i,
    {
        let ghost before = out@;
        match &ids[i] {
            Some(s) => {
                out.push(s.clone());
                assert(out@.map_values(|s: String| s@) =~= before.map_values(|s: String| s@).push(s@));
            },
            None => {},
        }
        assert(ids@.subrange(0, i + 1).drop_last() =~= ids@.subrange(0, i as int));
        i = i + 1;
    }
    assert(ids@.subrange(0, ids@.len() as int) =~= ids@);
    Some(out)
}

/// The namespace is not one of the excluded ones.
pub open spec fn watched_namespace(namespace: Option<String>, excluded: Seq<String>) -> bool {
    match namespace {
        Some(ns) => !exists|i: int| 0 <= i < excluded.len() && (#[trigger] excluded[i])@ == ns@,
        None => true,
    }
}

/// Whether pods of `namespace` are watched.
pub fn should_process_pod(namespace: &Option<String>, excluded_namespaces: &[String]) -> (r: bool)
    ensures
        r == watched_namespace(*namespace, excluded_namespaces@),
{
    match namespace {
        None => true,
        Some(ns) => {
            let mut i: usize = 0;
            while i < excluded_namespaces.len()
                invariant
                    0 <= i <= excluded_namespaces@.len(),
                    *namespace == Some(*ns),
                    forall|j: int| 0 <= j < i ==> (#[trigger] excluded_namespaces@[j])@ != ns@,
                decreases excluded_namespaces@.len() - i,
            {
                if same_text(excluded_namespaces[i].as_str(), ns.as_str()) {
                    assert((excluded_namespaces@[i as int])@ == ns@);
                    return false;
                }
                i = i + 1;
            }
            true
        },
    }
}

pub open spec fn owned_by_daemonset(p: PodView) -> bool {
    match p.owner_references {
        Some(os) => exists|i: int| 0 <= i < os@.len() && (#[trigger] os@[i]).kind@ == "DaemonSet"@,
        None => false,
    }
}

/// Whether a DaemonSet owns the pod.
pub fn is_backed_by_daemonset(pod: &PodView) -> (r: bool)
    ensures
        r == owned_by_daemonset(*pod),
{
    if let Some(owners) = &pod.owner_references {
        let mut i: usize = 0;
        while i < owners.len()
            invariant
                0 <= i <= owners@.len(),
                pod.owner_references == Some(*owners),
                forall|j: int| 0 <= j < i ==> (#[trigger] owners@[j]).kind@ != "DaemonSet"@,
            decreases owners@.len() - i,
        {
            if same_text(owners[i].kind.as_str(), "DaemonSet") {
                assert((owners@[i as int]).kind@ == "DaemonSet"@);
                assert(exists|j: int| 0 <= j < owners@.len() && (#[trigger] owners@[j]).kind@ == "DaemonSet"@);
                assert(pod.owner_references->0 == *owners);

                return true;
            }
            i = i + 1;
        }
    }
    false
}

/// The agent's record of a pod at `pod_ip`.
pub fn create_pod_info(pod: &PodView, pod_ip: &str) -> (r: PodInfo)
    ensures
        r.pod_name@ == pod.name@,
        opt_text(r.pod_namespace) == opt_text(pod.namespace),
        r.pod_ip@ == pod_ip@,
{
    PodInfo {
        pod_name: pod.name.clone(),
        pod_namespace: match &pod.namespace {
            Some(ns) => Some(ns.clone()),
            None => None,
        },
        pod_ip: String::from_str(pod_ip),
    }
}

/// The value of `key` in `l`, from the first pair with that key.
pub open spec fn label_value(l: Seq<(Seq<char>, Seq<char>)>, key: Seq<char>) -> Option<Seq<char>>
    decreases l.len(),
{
    if l.len() == 0 {
        None
    } else {
        let r = label_value(l.drop_last(), key);
        if r is Some {
            r
        } else if l.last().0 == key {
            Some(l.last().1)
        } else {
            None
        }
    }
}

pub open spec fn nonempty_label(l: Seq<(Seq<char>, Seq<char>)>, key: Seq<char>) -> Option<Seq<char>> {
    match label_value(l, key) {
        Some(v) => if v.len() > 0 {
            Some(v)
        } else {
            None
        },
        None => None,
    }
}

/// The workload identity that a pod's labels give: the first non-empty of
/// `app.kubernetes.io/name`, `app.kubernetes.io/component`, `k8s-app` and
/// `app`.
pub open spec fn identity_label(l: Seq<(Seq<char>, Seq<char>)>) -> Option<Seq<char>> {
    let a = nonempty_label(l, "app.kubernetes.io/name"@);
    let b = nonempty_label(l, "app.kubernetes.io/component"@);
    let c = nonempty_label(l, "k8s-app"@);
    let d = nonempty_label(l, "app"@);
    if a is Some {
        a
    } else if b is Some {
        b
    } else if c is Some {
        c
    } else {
        d
    }
}

pub open spec fn is_workload_kind(k: Seq<char>) -> bool {
    k == "Deployment"@ || k == "StatefulSet"@ || k == "DaemonSet"@
}

/// The first Deployment among a ReplicaSet's owners.
pub open spec fn first_deployment(refs: Seq<WorkloadRef>) -> Option<WorkloadRef>
    decreases refs.len(),
{
    if refs.len() == 0 {
        None
    } else {
        let r = first_deployment(refs.drop_last());
        if r is Some {
            r
        } else if refs.last().kind@ == "Deployment"@ {
            Some(refs.last())
        } else {
            None
        }
    }
}

/// The first Deployment among a ReplicaSet's owners that has selector labels.
pub open spec fn first_selected_deployment(refs: Seq<WorkloadRef>) -> Option<WorkloadRef>
    decreases refs.len(),
{
    if refs.len() == 0 {
        None
    } else {
        let r = first_selected_deployment(refs.drop_last());
        if r is Some {
            r
        } else if refs.last().kind@ == "Deployment"@ && refs.last().selector is Some {
            Some(refs.last())
        } else {
            None
        }
    }
}

/// The selector labels that one owner gives: a ReplicaSet gives those of
/// its first Deployment; a Deployment, StatefulSet or DaemonSet its own.
pub open spec fn owner_selector(o: OwnerInfo) -> Option<Seq<(Seq<char>, Seq<char>)>> {
    if o.kind@ == "ReplicaSet"@ {
        match first_deployment(o.owners@) {
            Some(d) => opt_labels_view(d.selector),
            None => None,
        }
    } else if is_workload_kind(o.kind@) {
        opt_labels_view(o.selector)
    } else {
        None
    }
}

/// The selector labels of the first owner that gives some.
pub open spec fn selectors_of(os: Seq<OwnerInfo>) -> Option<Seq<(Seq<char>, Seq<char>)>>
    decreases os.len(),
{
    if os.len() == 0 {
        None
    } else {
        let r = selectors_of(os.drop_last());
        if r is Some {
            r
        } else {
            owner_selector(os.last())
        }
    }
}

/// The workload name and selector labels that one owner gives, if it
/// decides them: a ReplicaSet through its first Deployment with selector
/// labels; a Deployment, StatefulSet or DaemonSet by its own name.
pub open spec fn owner_workload(o: OwnerInfo) -> Option<(Seq<char>, Option<Seq<(Seq<char>, Seq<char>)>>)> {
    if o.kind@ == "ReplicaSet"@ {
        match first_selected_deployment(o.owners@) {
            Some(d) => Some((d.name@, opt_labels_view(d.selector))),
            None => None,
        }
    } else if is_workload_kind(o.kind@) {
        Some((o.name@, opt_labels_view(o.selector)))
    } else {
        None
    }
}

/// The workload of the first owner that decides one.
pub open spec fn workload_of(os: Seq<OwnerInfo>) -> Option<(Seq<char>, Option<Seq<(Seq<char>, Seq<char>)>>)>
    decreases os.len(),
{
    if os.len() == 0 {
        None
    } else {
        let r = workload_of(os.drop_last());
        if r is Some {
            r
        } else {
            owner_workload(os.last())
        }
    }
}

/// Owners can be traced where the pod has a namespace and owner references.
pub open spec fn traceable(pod: PodView) -> bool {
    pod.namespace is Some && pod.owner_references is Some
}

/// The workload identity of a pod and its workload's selector labels, given
/// what was fetched about its owners.
pub open spec fn pod_identity(pod: PodView, owners: Seq<OwnerInfo>) -> (
    Option<Seq<char>>,
    Option<Seq<(Seq<char>, Seq<char>)>>,
) {
    let from_labels = match pod.labels {
        Some(l) => identity_label(labels_view(l@)),
        None => None,
    };
    match from_labels {
        Some(id) => (
            Some(id),
            if traceable(pod) {
                selectors_of(owners)
            } else {
                None
            },
        ),
        None => if traceable(pod) {
            match workload_of(owners) {
                Some((name, sel)) => (Some(name), sel),
                None => (None, None),
            }
        } else {
            (None, None)
        },
    }
}

/// A copy of a label map.
pub fn copy_labels(l: &Labels) -> (r: Labels)
    ensures
        r@ == l@,
{
    let mut out: Labels = Vec::new();
    let mut i: usize = 0;
    while i < l.len()
        invariant
            0 <= i <= l@.len(),
            out@ == l@.subrange(0, i as int),
        decreases l@.len() - i,
    {
        let k = l[i].0.clone();
        let v = l[i].1.clone();
        out.push((k, v));
        assert(out@ =~= l@.subrange(0, i + 1));
        i = i + 1;
    }
    assert(l@.subrange(0, l@.len() as int) =~= l@);
    out
}

fn copy_opt_labels(l: &Option<Labels>) -> (r: Option<Labels>)
    ensures
        opt_labels_view(r) == opt_labels_view(*l),
{
    match l {
        Some(v) => Some(copy_labels(v)),
        None => None,
    }
}

/// The value of `key` in a label map.
pub fn get_label(l: &Labels, key: &str) -> (r: Option<String>)
    ensures
        opt_text(r) == label_value(labels_view(l@), key@),
{
    let mut i: usize = 0;
    while i < l.len()
        invariant
            0 <= i <= l@.len(),
            label_value(labels_view(l@.subrange(0, i as int)), key@) is None,
        decreases l@.len() - i,
    {
        let ghost next = labels_view(l@.subrange(0, i + 1));
        assert(next.drop_last() =~= labels_view(l@.subrange(0, i as int)));
        if same_text(l[i].0.as_str(), key) {
            assert(label_value(next, key@) == Some(l@[i as int].1@));
            proof {
                assert(labels_view(l@).subrange(0, i + 1) =~= next);
                lemma_label_value_prefix(labels_view(l@), (i + 1) as int, key@);
            }
            return Some(l[i].1.clone());
        }
        i = i + 1;
    }
    assert(l@.subrange(0, l@.len() as int) =~= l@);
    None
}

/// A key found in a prefix is found, with the same value, in the whole map.
proof fn lemma_label_value_prefix(l: Seq<(Seq<char>, Seq<char>)>, n: int, key: Seq<char>)
    requires
        0 <= n <= l.len(),
        label_value(l.subrange(0, n), key) is Some,
    ensures
        label_value(l, key) == label_value(l.subrange(0, n), key),
    decreases l.len() - n,
{
    if n < l.len() {
        assert(l.subrange(0, n + 1).drop_last() =~= l.subrange(0, n));
        lemma_label_value_prefix(l, n + 1, key);
    } else {
        assert(l.subrange(0, n) =~= l);
    }
}

fn nonempty_label_exec(l: &Labels, key: &str) -> (r: Option<String>)
    ensures
        opt_text(r) == nonempty_label(labels_view(l@), key@),
{
    match get_label(l, key) {
        Some(v) => if v.as_str().unicode_len() > 0 {
            Some(v)
        } else {
            None
        },
        None => None,
    }
}

/// The workload identity that a pod's labels give.
pub fn identity_from_labels(l: &Labels) -> (r: Option<String>)
    ensures
        opt_text(r) == identity_label(labels_view(l@)),
{
    let a = nonempty_label_exec(l, "app.kubernetes.io/name");
    if a.is_some() {
        return a;
    }
    let b = nonempty_label_exec(l, "app.kubernetes.io/component");
    if b.is_some() {
        return b;
    }
    let c = nonempty_label_exec(l, "k8s-app");
    if c.is_some() {
        return c;
    }
    nonempty_label_exec(l, "app")
}

fn is_workload_kind_exec(k: &str) -> (r: bool)
    ensures
        r == is_workload_kind(k@),
{
    same_text(k, "Deployment") || same_text(k, "StatefulSet") || same_text(k, "DaemonSet")
}

fn first_deployment_index(refs: &Vec<WorkloadRef>, need_selector: bool) -> (r: Option<usize>)
    ensures
        !need_selector ==> match first_deployment(refs@) {
            Some(d) => r matches Some(i) && i < refs@.len() && refs@[i as int] == d,
            None => r is None,
        },
        need_selector ==> match first_selected_deployment(refs@) {
            Some(d) => r matches Some(i) && i < refs@.len() && refs@[i as int] == d,
            None => r is None,
        },
{
    let mut i: usize = 0;
    while i < refs.len()
        invariant
            0 <= i <= refs@.len(),
            !need_selector ==> first_deployment(refs@.subrange(0, i as int)) is None,
            need_selector ==> first_selected_deployment(refs@.subrange(0, i as int)) is None,
        decreases refs@.len() - i,
    {
        let ghost next = refs@.subrange(0, i + 1);
        assert(next.drop_last() =~= refs@.subrange(0, i as int));
        if same_text(refs[i].kind.as_str(), "Deployment") && (!need_selector
            || refs[i].selector.is_some()) {
            proof {
                lemma_first_deployment_prefix(refs@, (i + 1) as int);
            }
            return Some(i);
        }
        i = i + 1;
    }
    assert(refs@.subrange(0, refs@.len() as int) =~= refs@);
    None
}

proof fn lemma_first_deployment_prefix(refs: Seq<WorkloadRef>, n: int)
    requires
        0 <= n <= refs.len(),
    ensures
        first_deployment(refs.subrange(0, n)) is Some ==> first_deployment(refs)
            == first_deployment(refs.subrange(0, n)),
        first_selected_deployment(refs.subrange(0, n)) is Some ==> first_selected_deployment(refs)
            == first_selected_deployment(refs.subrange(0, n)),
    decreases refs.len() - n,
{
    if n < refs.len() {
        lemma_first_deployment_prefix(refs, n + 1);
        assert(refs.subrange(0, n + 1).drop_last() =~= refs.subrange(0, n));
    } else {
        assert(refs.subrange(0, n) =~= refs);
    }
}

fn owner_selector_exec(o: &OwnerInfo) -> (r: Option<Labels>)
    ensures
        opt_labels_view(r) == owner_selector(*o),
{
    if same_text(o.kind.as_str(), "ReplicaSet") {
        match first_deployment_index(&o.owners, false) {
            Some(i) => copy_opt_labels(&o.owners[i].selector),
            None => None,
        }
    } else if is_workload_kind_exec(o.kind.as_str()) {
        copy_opt_labels(&o.selector)
    } else {
        None
    }
}

fn owner_workload_exec(o: &OwnerInfo) -> (r: Option<(String, Option<Labels>)>)
    ensures
        match owner_workload(*o) {
            Some((name, sel)) => r matches Some((n, l)) && n@ == name && opt_labels_view(l) == sel,
            None => r is None,
        },
{
    if same_text(o.kind.as_str(), "ReplicaSet") {
        match first_deployment_index(&o.owners, true) {
            Some(i) => Some((o.owners[i].name.clone(), copy_opt_labels(&o.owners[i].selector))),
            None => None,
        }
    } else if is_workload_kind_exec(o.kind.as_str()) {
        Some((o.name.clone(), copy_opt_labels(&o.selector)))
    } else {
        None
    }
}

proof fn lemma_owners_prefix(os: Seq<OwnerInfo>, n: int)
    requires
        0 <= n <= os.len(),
    ensures
        selectors_of(os.subrange(0, n)) is Some ==> selectors_of(os) == selectors_of(os.subrange(0, n)),
        workload_of(os.subrange(0, n)) is Some ==> workload_of(os) == workload_of(os.subrange(0, n)),
    decreases os.len() - n,
{
    if n < os.len() {
        lemma_owners_prefix(os, n + 1);
        assert(os.subrange(0, n + 1).drop_last() =~= os.subrange(0, n));
    } else {
        assert(os.subrange(0, n) =~= os);
    }
}

/// The selector labels of the first owner that gives some.
pub fn trace_owner_to_workload_with_selectors(owners: &Vec<OwnerInfo>) -> (r: Option<Labels>)
    ensures
        opt_labels_view(r) == selectors_of(owners@),
{
    let mut i: usize = 0;
    while i < owners.len()
        invariant
            0 <= i <= owners@.len(),
            selectors_of(owners@.subrange(0, i as int)) is None,
        decreases owners@.len() - i,
    {
        let ghost next = owners@.subrange(0, i + 1);
        assert(next.drop_last() =~= owners@.subrange(0, i as int));
        let s = owner_selector_exec(&owners[i]);
        if s.is_some() {
            proof {
                lemma_owners_prefix(owners@, (i + 1) as int);
            }
            return s;
        }
        i = i + 1;
    }
    assert(owners@.subrange(0, owners@.len() as int) =~= owners@);
    None
}

/// The workload name and selector labels of the first owner that decides
/// them.
pub fn trace_owner_to_workload_with_selectors_and_name(owners: &Vec<OwnerInfo>) -> (r: (
    Option<String>,
    Option<Labels>,
))
    ensures
        match workload_of(owners@) {
            Some((name, sel)) => opt_text(r.0) == Some(name) && opt_labels_view(r.1) == sel,
            None => r.0 is None && r.1 is None,
        },
{
    let mut i: usize = 0;
    while i < owners.len()
        invariant
            0 <= i <= owners@.len(),
            workload_of(owners@.subrange(0, i as int)) is None,
        decreases owners@.len() - i,
    {
        let ghost next = owners@.subrange(0, i + 1);
        assert(next.drop_last() =~= owners@.subrange(0, i as int));
        match owner_workload_exec(&owners[i]) {
            Some((name, sel)) => {
                proof {
                    lemma_owners_prefix(owners@, (i + 1) as int);
                }
                return (Some(name), sel);
            },
            None => {},
        }
        i = i + 1;
    }
    assert(owners@.subrange(0, owners@.len() as int) =~= owners@);
    (None, None)
}

/// The workload identity of a pod and its workload's selector labels, from
/// its labels first and otherwise from its owners; `owners` is what was
/// fetched about the pod's owner references, in their order.
pub fn extract_pod_identity_and_selectors(pod: &PodView, owners: &Vec<OwnerInfo>) -> (r: (
    Option<String>,
    Option<Labels>,
))
    ensures
        (opt_text(r.0), opt_labels_view(r.1)) == pod_identity(*pod, owners@),
{
    let traceable = pod.namespace.is_some() && pod.owner_references.is_some();
    let from_labels = match &pod.labels {
        Some(l) => identity_from_labels(l),
        None => None,
    };
    match from_labels {
        Some(id) => {
            let sel = if traceable {
                trace_owner_to_workload_with_selectors(owners)
            } else {
                None
            };
            (Some(id), sel)
        },
        None => if traceable {
            trace_owner_to_workload_with_selectors_and_name(owners)
        } else {
            (None, None)
        },
    }
}

/// The IP of a ready pod that has a non-empty IP.
pub open spec fn usable_ip(pod: PodView) -> Option<Seq<char>> {
    if passes_readiness(pod) {
        match pod.status->0.pod_ip {
            Some(ip) => if ip@.len() > 0 {
                Some(ip@)
            } else {
                None
            },
            None => None,
        }
    } else {
        None
    }
}

/// What the watcher does with one pod.
#[derive(Clone, Debug)]
pub struct PodPlan {
    /// The container ids to resolve, for a ready pod in a watched namespace.
    pub container_ids: Option<Vec<String>>,
    /// The pod's IP, for a ready pod in a watched namespace that has an IP;
    /// the broker then receives the pod's details.
    pub pod_ip: Option<String>,
    /// The probes' ignore set receives the IP: a daemonset's pod with an IP
    /// in a watched namespace, while daemonset traffic is ignored.
    pub ignore_ip: bool,
    /// The containers are resolved and the pod published to the correlator:
    /// a ready pod with an IP in a watched namespace.
    pub resolve: bool,
}

/// Decides what the watcher does with `pod`, in order: a pod that is not
/// ready, or whose namespace is excluded, is skipped; otherwise a pod with
/// an IP goes to the broker, its IP to the ignore set if a daemonset owns
/// it and daemonset traffic is ignored, and its containers are resolved.
pub fn plan_pod(pod: &PodView, excluded_namespaces: &[String], ignore_daemonset_traffic: bool) -> (r: PodPlan)
    ensures
        r.container_ids is Some <==> passes_readiness(*pod) && watched_namespace(
            pod.namespace,
            excluded_namespaces@,
        ),
        r.container_ids matches Some(v) ==> v@.map_values(|s: String| s@) == known_ids(
            pod.status->0.container_ids->0@,
        ),
        opt_text(r.pod_ip) == if watched_namespace(pod.namespace, excluded_namespaces@) {
            usable_ip(*pod)
        } else {
            None
        },
        r.ignore_ip == (usable_ip(*pod) is Some && watched_namespace(pod.namespace, excluded_namespaces@)
            && ignore_daemonset_traffic && owned_by_daemonset(*pod)),
        r.resolve == (usable_ip(*pod) is Some && watched_namespace(pod.namespace, excluded_namespaces@)),
        r.resolve ==> passes_readiness(*pod) && (usable_ip(*pod) matches Some(ip) && ip.len() > 0),
{
    if !should_process_pod(&pod.namespace, excluded_namespaces) {
        return PodPlan { container_ids: None, pod_ip: None, ignore_ip: false, resolve: false };
    }
    let ids = pod_unready(pod);
    let pod_ip = match &ids {
        None => None,
        Some(_) => match &pod.status {
            Some(st) => match &st.pod_ip {
                Some(ip) => if ip.as_str().unicode_len() > 0 {
                    Some(ip.clone())
                } else {
                    None
                },
                None => None,
            },
            None => None,
        },
    };
    let has_ip = pod_ip.is_some();
    let ignore_ip = has_ip && ignore_daemonset_traffic && is_backed_by_daemonset(pod);
    PodPlan { container_ids: ids, pod_ip, ignore_ip, resolve: has_ip }
}

/// The broker's record of a pod seen on `node_name`, alive.
pub fn create_pod_detail(
    pod: &PodView,
    pod_ip: &str,
    node_name: &str,
    pod_obj: Option<String>,
    pod_identity: Option<String>,
    workload_selector_labels: Option<Labels>,
    time_stamp: i64,
) -> (r: PodDetail)
    ensures
        r.pod_ip@ == pod_ip@,
        r.pod_name@ == pod.name@,
        opt_text(r.pod_namespace) == opt_text(pod.namespace),
        r.pod_obj == pod_obj,
        r.time_stamp == time_stamp,
        r.node_name@ == node_name@,
        !r.is_dead,
        r.pod_identity == pod_identity,
        r.workload_selector_labels == workload_selector_labels,
{
    PodDetail {
        pod_ip: String::from_str(pod_ip),
        pod_name: pod.name.clone(),
        pod_namespace: match &pod.namespace {
            Some(ns) => Some(ns.clone()),
            None => None,
        },
        pod_obj,
        time_stamp,
        node_name: String::from_str(node_name),
        is_dead: false,
        pod_identity,
        workload_selector_labels,
    }
}

} // verus!

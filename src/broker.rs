//! The broker's ingest rules over its tables: idempotent traffic ingest
//! with the duplicate predicate, upserts of pods and services, the
//! transition to dead, and the merge of syscall lists.
use vstd::prelude::*;
use crate::model::{copy_opt, opt_text, PodDetail, PodInputSyscalls, PodSyscalls, PodTraffic, SvcDetail};
use crate::proto::same_text;
use crate::pods::copy_labels;

verus! {

/// A traffic record whose protocol is UDP.
pub open spec fn is_udp(t: PodTraffic) -> bool {
    opt_text(t.ip_protocol) == Some("UDP"@)
}

/// Same pod IP, pod port, direction, remote IP, remote port and decision.
pub open spec fn exact_match(row: PodTraffic, t: PodTraffic) -> bool {
    &&& row.pod_ip@ == t.pod_ip@
    &&& opt_text(row.pod_port) == opt_text(t.pod_port)
    &&& opt_text(row.traffic_type) == opt_text(t.traffic_type)
    &&& opt_text(row.traffic_in_out_ip) == opt_text(t.traffic_in_out_ip)
    &&& opt_text(row.traffic_in_out_port) == opt_text(t.traffic_in_out_port)
    &&& opt_text(row.decision) == opt_text(t.decision)
}

/// As `exact_match`, but for the pod port.
pub open spec fn match_any_pod_port(row: PodTraffic, t: PodTraffic) -> bool {
    &&& row.pod_ip@ == t.pod_ip@
    &&& opt_text(row.traffic_type) == opt_text(t.traffic_type)
    &&& opt_text(row.traffic_in_out_ip) == opt_text(t.traffic_in_out_ip)
    &&& opt_text(row.traffic_in_out_port) == opt_text(t.traffic_in_out_port)
    &&& opt_text(row.decision) == opt_text(t.decision)
}

/// As `exact_match`, but for the remote port.
pub open spec fn match_any_remote_port(row: PodTraffic, t: PodTraffic) -> bool {
    &&& row.pod_ip@ == t.pod_ip@
    &&& opt_text(row.pod_port) == opt_text(t.pod_port)
    &&& opt_text(row.traffic_type) == opt_text(t.traffic_type)
    &&& opt_text(row.traffic_in_out_ip) == opt_text(t.traffic_in_out_ip)
    &&& opt_text(row.decision) == opt_text(t.decision)
}

/// Stored row `row` makes incoming record `t` a duplicate. A UDP record
/// matches ignoring either port, since one side of a UDP flow uses a new
/// ephemeral port for each datagram.
pub open spec fn duplicate_of(row: PodTraffic, t: PodTraffic) -> bool {
    if is_udp(t) {
        match_any_pod_port(row, t) || match_any_remote_port(row, t)
    } else {
        exact_match(row, t)
    }
}

pub open spec fn has_duplicate(rows: Seq<PodTraffic>, t: PodTraffic) -> bool {
    exists|i: int| 0 <= i < rows.len() && duplicate_of(#[trigger] rows[i], t)
}

/// The records of `batch` that no row of `rows` makes a duplicate, in
/// order. Each record is tested against `rows` alone, not against the
/// records before it in the batch.
pub open spec fn new_records(rows: Seq<PodTraffic>, batch: Seq<PodTraffic>) -> Seq<PodTraffic>
    decreases batch.len(),
{
    if batch.len() == 0 {
        Seq::empty()
    } else {
        let before = new_records(rows, batch.drop_last());
        if has_duplicate(rows, batch.last()) {
            before
        } else {
            before.push(batch.last())
        }
    }
}

/// The traffic table after ingesting `batch` as one insertion: the stored
/// rows, then the batch's new records.
pub open spec fn ingest(rows: Seq<PodTraffic>, batch: Seq<PodTraffic>) -> Seq<PodTraffic> {
    rows + new_records(rows, batch)
}

pub fn opt_text_eq(a: &Option<String>, b: &Option<String>) -> (r: bool)
    ensures
        r == (opt_text(*a) == opt_text(*b)),
{
    match (a, b) {
        (Some(x), Some(y)) => same_text(x.as_str(), y.as_str()),
        (None, None) => true,
        _ => false,
    }
}

/// A copy of a traffic record.
pub fn copy_traffic(t: &PodTraffic) -> (r: PodTraffic)
    ensures
        r == *t,
{
    PodTraffic {
        uuid: t.uuid.clone(),
        pod_name: t.pod_name.clone(),
        pod_namespace: copy_opt(&t.pod_namespace),
        pod_ip: t.pod_ip.clone(),
        pod_port: copy_opt(&t.pod_port),
        traffic_in_out_ip: copy_opt(&t.traffic_in_out_ip),
        traffic_in_out_port: copy_opt(&t.traffic_in_out_port),
        traffic_type: copy_opt(&t.traffic_type),
        ip_protocol: copy_opt(&t.ip_protocol),
        decision: copy_opt(&t.decision),
        time_stamp: t.time_stamp,
    }
}

/// Which of the three matches hold between stored row `row` and incoming
/// record `t`: exact, any pod port, any remote port.
fn matches_of(row: &PodTraffic, t: &PodTraffic) -> (r: (bool, bool, bool))
    ensures
        r.0 == exact_match(*row, *t),
        r.1 == match_any_pod_port(*row, *t),
        r.2 == match_any_remote_port(*row, *t),
{
    let common = same_text(row.pod_ip.as_str(), t.pod_ip.as_str()) && opt_text_eq(
        &row.traffic_type,
        &t.traffic_type,
    ) && opt_text_eq(&row.traffic_in_out_ip, &t.traffic_in_out_ip) && opt_text_eq(
        &row.decision,
        &t.decision,
    );
    let pod_port = opt_text_eq(&row.pod_port, &t.pod_port);
    let remote_port = opt_text_eq(&row.traffic_in_out_port, &t.traffic_in_out_port);
    (common && pod_port && remote_port, common && remote_port, common && pod_port)
}

fn is_udp_exec(t: &PodTraffic) -> (r: bool)
    ensures
        r == is_udp(*t),
{
    match &t.ip_protocol {
        Some(p) => same_text(p.as_str(), "UDP"),
        None => false,
    }
}

/// Whether stored row `row` makes incoming record `t` a duplicate.
pub fn is_duplicate(row: &PodTraffic, t: &PodTraffic) -> (r: bool)
    ensures
        r == duplicate_of(*row, *t),
{
    let (exact, any_pod_port, any_remote_port) = matches_of(row, t);
    if is_udp_exec(t) {
        any_pod_port || any_remote_port
    } else {
        exact
    }
}

fn first_where(rows: &Vec<PodTraffic>, t: &PodTraffic, which: u8) -> (r: Option<usize>)
    requires
        which < 3,
    ensures
        r matches Some(i) ==> i < rows@.len() && (if which == 0 {
            exact_match(rows@[i as int], *t)
        } else if which == 1 {
            match_any_pod_port(rows@[i as int], *t)
        } else {
            match_any_remote_port(rows@[i as int], *t)
        }) && forall|j: int|
            0 <= j < i ==> !(if which == 0 {
                exact_match(#[trigger] rows@[j], *t)
            } else if which == 1 {
                match_any_pod_port(rows@[j], *t)
            } else {
                match_any_remote_port(rows@[j], *t)
            }),
        r is None ==> forall|j: int|
            0 <= j < rows@.len() ==> !(if which == 0 {
                exact_match(#[trigger] rows@[j], *t)
            } else if which == 1 {
                match_any_pod_port(rows@[j], *t)
            } else {
                match_any_remote_port(rows@[j], *t)
            }),
{
    let mut i: usize = 0;
    while i < rows.len()
        invariant
            0 <= i <= rows@.len(),
            which < 3,
            forall|j: int|
                0 <= j < i ==> !(if which == 0 {
                    exact_match(#[trigger] rows@[j], *t)
                } else if which == 1 {
                    match_any_pod_port(rows@[j], *t)
                } else {
                    match_any_remote_port(rows@[j], *t)
                }),
        decreases rows@.len() - i,
    {
        let (exact, any_pod_port, any_remote_port) = matches_of(&rows[i], t);
        let hit = if which == 0 {
            exact
        } else if which == 1 {
            any_pod_port
        } else {
            any_remote_port
        };
        if hit {
            return Some(i);
        }
        i = i + 1;
    }
    None
}

/// The row that makes an incoming traffic record a duplicate. For a
/// non-UDP record, the first row that matches it exactly; for a UDP record,
/// the first row that matches it but for the pod port, or else the first
/// that matches it but for the remote port.
pub open spec fn matching_row(rows: Seq<PodTraffic>, t: PodTraffic, i: int) -> bool {
    &&& 0 <= i < rows.len()
    &&& if !is_udp(t) {
        exact_match(rows[i], t) && forall|j: int| 0 <= j < i ==> !exact_match(#[trigger] rows[j], t)
    } else if exists|j: int| 0 <= j < rows.len() && match_any_pod_port(#[trigger] rows[j], t) {
        match_any_pod_port(rows[i], t) && forall|j: int|
            0 <= j < i ==> !match_any_pod_port(#[trigger] rows[j], t)
    } else {
        match_any_remote_port(rows[i], t) && forall|j: int|
            0 <= j < i ==> !match_any_remote_port(#[trigger] rows[j], t)
    }
}

impl PodTraffic {
    /// The stored row that makes this record a duplicate, if any.
    pub fn get_row(&self, rows: &Vec<PodTraffic>) -> (r: Option<PodTraffic>)
        ensures
            r is Some <==> has_duplicate(rows@, *self),
            r matches Some(row) ==> exists|i: int| matching_row(rows@, *self, i) && rows@[i] == row,
    {
        if is_udp_exec(self) {
            match first_where(rows, self, 1) {
                Some(i) => {
                    assert(matching_row(rows@, *self, i as int));
                    return Some(copy_traffic(&rows[i]));
                },
                None => {},
            }
            match first_where(rows, self, 2) {
                Some(i) => {
                    assert(matching_row(rows@, *self, i as int));
                    Some(copy_traffic(&rows[i]))
                },
                None => {
                    assert forall|j: int| 0 <= j < rows@.len() implies !duplicate_of(
                        #[trigger] rows@[j],
                        *self,
                    ) by {
                        assert(!match_any_pod_port(rows@[j], *self));
                        assert(!match_any_remote_port(rows@[j], *self));
                    }
                    None
                },
            }
        } else {
            match first_where(rows, self, 0) {
                Some(i) => {
                    assert(matching_row(rows@, *self, i as int));
                    Some(copy_traffic(&rows[i]))
                },
                None => {
                    assert forall|j: int| 0 <= j < rows@.len() implies !duplicate_of(
                        #[trigger] rows@[j],
                        *self,
                    ) by {
                        assert(!exact_match(rows@[j], *self));
                    }
                    None
                },
            }
        }
    }
}

fn has_duplicate_exec(rows: &Vec<PodTraffic>, t: &PodTraffic) -> (r: bool)
    ensures
        r == has_duplicate(rows@, *t),
{
    let mut i: usize = 0;
    while i < rows.len()
        invariant
            0 <= i <= rows@.len(),
            forall|j: int| 0 <= j < i ==> !duplicate_of(#[trigger] rows@[j], *t),
        decreases rows@.len() - i,
    {
        if is_duplicate(&rows[i], t) {
            return true;
        }
        i = i + 1;
    }
    false
}

/// Stores, in order and as one insertion, the records of `batch` that no
/// stored row makes a duplicate, and gives how many were stored. Records of
/// one batch are not tested against each other.
pub fn create_pod_traffic_batch(rows: &mut Vec<PodTraffic>, batch: &Vec<PodTraffic>) -> (r: usize)
    ensures
        final(rows)@ == ingest(old(rows)@, batch@),
        r == new_records(old(rows)@, batch@).len(),
{
    let mut fresh: Vec<PodTraffic> = Vec::new();
    let mut i: usize = 0;
    while i < batch.len()
        invariant
            0 <= i <= batch@.len(),
            rows@ == old(rows)@,
            fresh@ == new_records(rows@, batch@.subrange(0, i as int)),
            fresh@.len() <= i,
        decreases batch@.len() - i,
    {
        let ghost sub = batch@.subrange(0, i + 1);
        assert(sub.drop_last() =~= batch@.subrange(0, i as int));
        assert(sub.last() == batch@[i as int]);
        if !has_duplicate_exec(rows, &batch[i]) {
            fresh.push(copy_traffic(&batch[i]));
        }
        i = i + 1;
    }
    assert(batch@.subrange(0, batch@.len() as int) =~= batch@);
    let count = fresh.len();
    let ghost added = fresh@;
    rows.append(&mut fresh);
    assert(rows@ =~= old(rows)@ + added);
    count
}

/// Stores `w` unless it is a duplicate, and gives it back.
pub fn create_pod_traffic(rows: &mut Vec<PodTraffic>, w: PodTraffic) -> (r: PodTraffic)
    ensures
        final(rows)@ == ingest(old(rows)@, seq![w]),
        r == w,
{
    let ghost start = rows@;
    proof {
        assert(seq![w].drop_last() =~= Seq::<PodTraffic>::empty());
        assert(new_records(start, Seq::<PodTraffic>::empty()) == Seq::<PodTraffic>::empty());
        assert(seq![w].last() == w);
    }
    if !has_duplicate_exec(rows, &w) {
        rows.push(copy_traffic(&w));
        assert(rows@ =~= start + seq![w]);
    } else {
        assert(rows@ =~= start + Seq::<PodTraffic>::empty());
    }
    w
}

/// A UDP record that differs from a stored row only in its remote port is
/// a duplicate of it, and ingesting it stores nothing.
pub proof fn lemma_udp_remote_port_ignored(rows: Seq<PodTraffic>, i: int, t: PodTraffic)
    requires
        0 <= i < rows.len(),
        is_udp(t),
        rows[i].pod_ip@ == t.pod_ip@,
        opt_text(rows[i].pod_port) == opt_text(t.pod_port),
        opt_text(rows[i].traffic_type) == opt_text(t.traffic_type),
        opt_text(rows[i].traffic_in_out_ip) == opt_text(t.traffic_in_out_ip),
        opt_text(rows[i].decision) == opt_text(t.decision),
    ensures
        duplicate_of(rows[i], t),
        ingest(rows, seq![t]) == rows,
{
    assert(seq![t].drop_last() =~= Seq::<PodTraffic>::empty());
    assert(new_records(rows, Seq::<PodTraffic>::empty()) == Seq::<PodTraffic>::empty());
    assert(has_duplicate(rows, t));
    assert(rows + Seq::<PodTraffic>::empty() =~= rows);
}

/// No two rows share a pod name.
pub open spec fn pod_names_unique(rows: Seq<PodDetail>) -> bool {
    forall|i: int, j: int|
        0 <= i < rows.len() && 0 <= j < rows.len() && i != j ==> (#[trigger] rows[i]).pod_name@
            != (#[trigger] rows[j]).pod_name@
}

/// `a` and `b` hold the same pod record.
pub open spec fn same_pod_detail(a: PodDetail, b: PodDetail) -> bool {
    &&& a.pod_ip == b.pod_ip
    &&& a.pod_name == b.pod_name
    &&& a.pod_namespace == b.pod_namespace
    &&& a.pod_obj == b.pod_obj
    &&& a.time_stamp == b.time_stamp
    &&& a.node_name == b.node_name
    &&& a.is_dead == b.is_dead
    &&& a.pod_identity == b.pod_identity
    &&& match (a.workload_selector_labels, b.workload_selector_labels) {
        (Some(x), Some(y)) => x@ == y@,
        (None, None) => true,
        _ => false,
    }
}

/// A copy of a pod record.
pub fn copy_pod_detail(p: &PodDetail) -> (r: PodDetail)
    ensures
        same_pod_detail(r, *p),
{
    PodDetail {
        pod_ip: p.pod_ip.clone(),
        pod_name: p.pod_name.clone(),
        pod_namespace: copy_opt(&p.pod_namespace),
        pod_obj: copy_opt(&p.pod_obj),
        time_stamp: p.time_stamp,
        node_name: p.node_name.clone(),
        is_dead: p.is_dead,
        pod_identity: copy_opt(&p.pod_identity),
        workload_selector_labels: match &p.workload_selector_labels {
            Some(l) => Some(copy_labels(l)),
            None => None,
        },
    }
}

/// A copy of a service record.
pub fn copy_svc_detail(p: &SvcDetail) -> (r: SvcDetail)
    ensures
        r == *p,
{
    SvcDetail {
        svc_ip: p.svc_ip.clone(),
        svc_name: p.svc_name.clone(),
        svc_namespace: copy_opt(&p.svc_namespace),
        service_spec: copy_opt(&p.service_spec),
        time_stamp: p.time_stamp,
    }
}

/// Inserts `w`, or replaces the row with its pod name, and gives `w` back.
pub fn upsert_pod_details(rows: &mut Vec<PodDetail>, w: PodDetail) -> (r: PodDetail)
    ensures
        same_pod_detail(r, w),
        (exists|i: int| 0 <= i < old(rows)@.len() && (#[trigger] old(rows)@[i]).pod_name@ == w.pod_name@)
            ==> exists|i: int|
            0 <= i < old(rows)@.len() && (#[trigger] old(rows)@[i]).pod_name@ == w.pod_name@ && (
            forall|j: int| 0 <= j < i ==> (#[trigger] old(rows)@[j]).pod_name@ != w.pod_name@)
                && final(rows)@ == old(rows)@.update(i, w),
        !(exists|i: int| 0 <= i < old(rows)@.len() && (#[trigger] old(rows)@[i]).pod_name@ == w.pod_name@)
            ==> final(rows)@ == old(rows)@.push(w),
        pod_names_unique(old(rows)@) ==> pod_names_unique(final(rows)@),
{
    let mut i: usize = 0;
    while i < rows.len()
        invariant
            0 <= i <= rows@.len(),
            rows@ == old(rows)@,
            forall|j: int| 0 <= j < i ==> (#[trigger] rows@[j]).pod_name@ != w.pod_name@,
        decreases rows@.len() - i,
    {
        if same_text(rows[i].pod_name.as_str(), w.pod_name.as_str()) {
            let ghost before = rows@;
            assert(old(rows)@[i as int].pod_name@ == w.pod_name@);
            let back = copy_pod_detail(&w);
            rows.set(i, w);
            assert(pod_names_unique(before) ==> pod_names_unique(rows@)) by {
                if pod_names_unique(before) {
                    assert forall|a: int, b: int|
                        0 <= a < rows@.len() && 0 <= b < rows@.len() && a != b implies (
                        #[trigger] rows@[a]).pod_name@ != (#[trigger] rows@[b]).pod_name@ by {
                        assert(before[a].pod_name@ != before[b].pod_name@);
                    }
                }
            }
            return back;
        }
        i = i + 1;
    }
    let back = copy_pod_detail(&w);
    rows.push(w);
    back
}

/// Marks every row of pod `pod` dead and gives how many rows that was.
pub fn mark_pod_as_dead(rows: &mut Vec<PodDetail>, pod: &str) -> (r: usize)
    ensures
        final(rows)@.len() == old(rows)@.len(),
        forall|i: int|
            0 <= i < old(rows)@.len() ==> if (#[trigger] old(rows)@[i]).pod_name@ == pod@ {
                final(rows)@[i] == PodDetail { is_dead: true, ..old(rows)@[i] }
            } else {
                final(rows)@[i] == old(rows)@[i]
            },
        r == count_named(old(rows)@, pod@),
{
    let ghost start = rows@;
    let mut count: usize = 0;
    let mut i: usize = 0;
    while i < rows.len()
        invariant
            0 <= i <= rows@.len(),
            rows@.len() == start.len(),
            count <= i,
            count == count_named(start.subrange(0, i as int), pod@),
            forall|j: int|
                0 <= j < i ==> if (#[trigger] start[j]).pod_name@ == pod@ {
                    rows@[j] == PodDetail { is_dead: true, ..start[j] }
                } else {
                    rows@[j] == start[j]
                },
            forall|j: int| i <= j < rows@.len() ==> #[trigger] rows@[j] == start[j],
        decreases rows@.len() - i,
    {
        let ghost sub = start.subrange(0, i + 1);
        assert(sub.drop_last() =~= start.subrange(0, i as int));
        if same_text(rows[i].pod_name.as_str(), pod) {
            rows[i].is_dead = true;
            count = count + 1;
        }
        i = i + 1;
    }
    assert(start.subrange(0, start.len() as int) =~= start);
    count
}

/// How many rows are of pod `name`.
pub open spec fn count_named(rows: Seq<PodDetail>, name: Seq<char>) -> nat
    decreases rows.len(),
{
    if rows.len() == 0 {
        0
    } else {
        count_named(rows.drop_last(), name) + if rows.last().pod_name@ == name {
            1nat
        } else {
            0nat
        }
    }
}

/// Inserts `w`, or replaces the row with its service IP, and gives `w` back.
pub fn upsert_svc_details(rows: &mut Vec<SvcDetail>, w: SvcDetail) -> (r: SvcDetail)
    ensures
        r == w,
        (exists|i: int| 0 <= i < old(rows)@.len() && (#[trigger] old(rows)@[i]).svc_ip@ == w.svc_ip@)
            ==> exists|i: int|
            0 <= i < old(rows)@.len() && (#[trigger] old(rows)@[i]).svc_ip@ == w.svc_ip@ && (forall|
                j: int,
            | 0 <= j < i ==> (#[trigger] old(rows)@[j]).svc_ip@ != w.svc_ip@) && final(rows)@
                == old(rows)@.update(i, w),
        !(exists|i: int| 0 <= i < old(rows)@.len() && (#[trigger] old(rows)@[i]).svc_ip@ == w.svc_ip@)
            ==> final(rows)@ == old(rows)@.push(w),
{
    let mut i: usize = 0;
    while i < rows.len()
        invariant
            0 <= i <= rows@.len(),
            rows@ == old(rows)@,
            forall|j: int| 0 <= j < i ==> (#[trigger] rows@[j]).svc_ip@ != w.svc_ip@,
        decreases rows@.len() - i,
    {
        if same_text(rows[i].svc_ip.as_str(), w.svc_ip.as_str()) {
            assert(old(rows)@[i as int].svc_ip@ == w.svc_ip@);
            let back = copy_svc_detail(&w);
            rows.set(i, w);
            return back;
        }
        i = i + 1;
    }
    let back = copy_svc_detail(&w);
    rows.push(w);
    back
}

/// Texts joined by commas.
pub open spec fn join_comma(s: Seq<Seq<char>>) -> Seq<char>
    decreases s.len(),
{
    if s.len() == 0 {
        Seq::empty()
    } else if s.len() == 1 {
        s[0]
    } else {
        join_comma(s.drop_last()) + seq![','] + s.last()
    }
}

/// A stored syscall row: pod name, namespace, architecture, joined numbers
/// and time stamp.
pub type SyscallRowView = (Seq<char>, Seq<char>, Seq<char>, Seq<char>, i64);

pub open spec fn syscall_row_view(r: PodSyscalls) -> SyscallRowView {
    (r.pod_name@, r.pod_namespace@, r.arch@, r.syscalls@, r.time_stamp)
}

pub open spec fn syscall_rows_view(rows: Seq<PodSyscalls>) -> Seq<SyscallRowView> {
    rows.map_values(|r: PodSyscalls| syscall_row_view(r))
}

/// The row that an incoming syscall record would be stored as.
pub open spec fn input_row_view(w: PodInputSyscalls) -> SyscallRowView {
    (w.pod_name@, w.pod_namespace@, w.arch@, join_comma(w.syscalls@.map_values(|s: String| s@)), w.time_stamp)
}

/// The index of the first row of pod `n` in namespace `ns` on `a`, or -1.
pub open spec fn find_row(rows: Seq<SyscallRowView>, n: Seq<char>, ns: Seq<char>, a: Seq<char>) -> int
    decreases rows.len(),
{
    if rows.len() == 0 {
        -1
    } else {
        let r = find_row(rows.drop_last(), n, ns, a);
        if r >= 0 {
            r
        } else if rows.last().0 == n && rows.last().1 == ns && rows.last().2 == a {
            rows.len() - 1
        } else {
            -1
        }
    }
}

/// One incoming syscall record merged into the table: the row with its key
/// takes its numbers, or the record is appended.
pub open spec fn merge_row(rows: Seq<SyscallRowView>, w: SyscallRowView) -> Seq<SyscallRowView> {
    let i = find_row(rows, w.0, w.1, w.2);
    if i >= 0 {
        rows.update(i, (rows[i].0, rows[i].1, rows[i].2, w.3, rows[i].4))
    } else {
        rows.push(w)
    }
}

pub open spec fn merge_rows(rows: Seq<SyscallRowView>, ws: Seq<SyscallRowView>) -> Seq<SyscallRowView>
    decreases ws.len(),
{
    if ws.len() == 0 {
        rows
    } else {
        merge_row(merge_rows(rows, ws.drop_last()), ws.last())
    }
}

proof fn lemma_find_row_bounds(rows: Seq<SyscallRowView>, n: Seq<char>, ns: Seq<char>, a: Seq<char>)
    ensures
        -1 <= find_row(rows, n, ns, a) < rows.len(),
        find_row(rows, n, ns, a) >= 0 ==> ({
            let i = find_row(rows, n, ns, a);
            rows[i].0 == n && rows[i].1 == ns && rows[i].2 == a
        }),
    decreases rows.len(),
{
    if rows.len() > 0 {
        lemma_find_row_bounds(rows.drop_last(), n, ns, a);
    }
}

proof fn lemma_find_row_prefix(rows: Seq<SyscallRowView>, k: int, n: Seq<char>, ns: Seq<char>, a: Seq<char>)
    requires
        0 <= k <= rows.len(),
        find_row(rows.subrange(0, k), n, ns, a) >= 0,
    ensures
        find_row(rows, n, ns, a) == find_row(rows.subrange(0, k), n, ns, a),
    decreases rows.len() - k,
{
    if k < rows.len() {
        assert(rows.subrange(0, k + 1).drop_last() =~= rows.subrange(0, k));
        lemma_find_row_prefix(rows, k + 1, n, ns, a);
    } else {
        assert(rows.subrange(0, k) =~= rows);
    }
}

fn find_row_exec(rows: &Vec<PodSyscalls>, n: &str, ns: &str, a: &str) -> (r: Option<usize>)
    ensures
        find_row(syscall_rows_view(rows@), n@, ns@, a@) == match r {
            Some(i) => i as int,
            None => -1,
        },
{
    let ghost v = syscall_rows_view(rows@);
    let mut i: usize = 0;
    while i < rows.len()
        invariant
            0 <= i <= rows@.len(),
            v == syscall_rows_view(rows@),
            find_row(v.subrange(0, i as int), n@, ns@, a@) == -1,
        decreases rows@.len() - i,
    {
        assert(v.subrange(0, i + 1).drop_last() =~= v.subrange(0, i as int));
        if same_text(rows[i].pod_name.as_str(), n) && same_text(rows[i].pod_namespace.as_str(), ns)
            && same_text(rows[i].arch.as_str(), a) {
            proof {
                lemma_find_row_prefix(v, i + 1, n@, ns@, a@);
            }
            return Some(i);
        }
        i = i + 1;
    }
    assert(v.subrange(0, v.len() as int) =~= v);
    None
}

/// The numbers of an incoming syscall record joined by commas.
pub fn join_syscalls(v: &Vec<String>) -> (r: String)
    ensures
        r@ == join_comma(v@.map_values(|s: String| s@)),
{
    let mut out = String::new();
    let mut i: usize = 0;
    while i < v.len()
        invariant
            0 <= i <= v@.len(),
            out@ == join_comma(v@.subrange(0, i as int).map_values(|s: String| s@)),
        decreases v@.len() - i,
    {
        let ghost prev = v@.subrange(0, i as int).map_values(|s: String| s@);
        let ghost next = v@.subrange(0, i + 1).map_values(|s: String| s@);
        assert(next.drop_last() =~= prev);
        if i > 0 {
            proof { reveal_strlit(","); }
            out.append(",");
        }
        out.append(v[i].as_str());
        proof {
            if i == 0 {
                assert(out@ =~= next[0]);
            } else {
                assert(out@ =~= join_comma(prev) + seq![','] + next.last());
            }
        }
        i = i + 1;
    }
    assert(v@.subrange(0, v@.len() as int) =~= v@);
    out
}

impl PodInputSyscalls {
    /// The stored row of this record's pod, namespace and architecture.
    pub fn get_row(&self, rows: &Vec<PodSyscalls>) -> (r: Option<PodSyscalls>)
        ensures
            ({
                let i = find_row(syscall_rows_view(rows@), self.pod_name@, self.pod_namespace@, self.arch@);
                match r {
                    Some(row) => i >= 0 && syscall_row_view(row) == syscall_rows_view(rows@)[i],
                    None => i == -1,
                }
            }),
    {
        match find_row_exec(rows, self.pod_name.as_str(), self.pod_namespace.as_str(), self.arch.as_str()) {
            Some(i) => {
                proof {
                    lemma_find_row_bounds(syscall_rows_view(rows@), self.pod_name@, self.pod_namespace@, self.arch@);
                }
                let row = &rows[i];
                Some(
                    PodSyscalls {
                        pod_name: row.pod_name.clone(),
                        pod_namespace: row.pod_namespace.clone(),
                        syscalls: row.syscalls.clone(),
                        arch: row.arch.clone(),
                        time_stamp: row.time_stamp,
                    },
                )
            },
            None => None,
        }
    }
}

/// Merges incoming syscall records into the table, in order: a row with the
/// same pod, namespace and architecture takes the record's numbers, joined
/// by commas; otherwise the record is appended as a row.
pub fn create_pod_syscalls(rows: &mut Vec<PodSyscalls>, w: &Vec<PodInputSyscalls>)
    ensures
        syscall_rows_view(final(rows)@) == merge_rows(
            syscall_rows_view(old(rows)@),
            w@.map_values(|x: PodInputSyscalls| input_row_view(x)),
        ),
{
    let ghost start = syscall_rows_view(rows@);
    let ghost ws = w@.map_values(|x: PodInputSyscalls| input_row_view(x));
    let mut k: usize = 0;
    while k < w.len()
        invariant
            0 <= k <= w@.len(),
            ws == w@.map_values(|x: PodInputSyscalls| input_row_view(x)),
            syscall_rows_view(rows@) == merge_rows(start, ws.subrange(0, k as int)),
        decreases w@.len() - k,
    {
        assert(ws.subrange(0, k + 1).drop_last() =~= ws.subrange(0, k as int));
        let input = &w[k];
        let joined = join_syscalls(&input.syscalls);
        let ghost before = syscall_rows_view(rows@);
        match find_row_exec(rows, input.pod_name.as_str(), input.pod_namespace.as_str(), input.arch.as_str()) {
            Some(i) => {
                proof {
                    lemma_find_row_bounds(before, input.pod_name@, input.pod_namespace@, input.arch@);
                }
                rows[i].syscalls = joined;
                assert(syscall_rows_view(rows@) =~= merge_row(before, input_row_view(*input)));
            },
            None => {
                rows.push(
                    PodSyscalls {
                        pod_name: input.pod_name.clone(),
                        pod_namespace: input.pod_namespace.clone(),
                        syscalls: joined,
                        arch: input.arch.clone(),
                        time_stamp: input.time_stamp,
                    },
                );
                assert(syscall_rows_view(rows@) =~= merge_row(before, input_row_view(*input)));
            },
        }
        k = k + 1;
    }
    assert(ws.subrange(0, w@.len() as int) =~= ws);
}

/// The numbers stored for pod `n` in namespace `ns` on `a`, as joined text.
pub open spec fn stored_syscalls(rows: Seq<SyscallRowView>, n: Seq<char>, ns: Seq<char>, a: Seq<char>) -> Option<Seq<char>> {
    let i = find_row(rows, n, ns, a);
    if i >= 0 {
        Some(rows[i].3)
    } else {
        None
    }
}

proof fn lemma_find_row_update(rows: Seq<SyscallRowView>, i: int, v: SyscallRowView)
    requires
        0 <= i < rows.len(),
        find_row(rows, v.0, v.1, v.2) == i,
    ensures
        find_row(rows.update(i, v), v.0, v.1, v.2) == i,
    decreases rows.len(),
{
    let u = rows.update(i, v);
    lemma_find_row_bounds(rows.drop_last(), v.0, v.1, v.2);
    if i == rows.len() - 1 {
        assert(u.drop_last() =~= rows.drop_last());
    } else {
        assert(u.drop_last() =~= rows.drop_last().update(i, v));
        lemma_find_row_update(rows.drop_last(), i, v);
    }
}

/// After a record is merged, its key's row holds the record's numbers.
pub proof fn lemma_merge_row_stores(rows: Seq<SyscallRowView>, w: SyscallRowView)
    ensures
        stored_syscalls(merge_row(rows, w), w.0, w.1, w.2) == Some(w.3),
{
    lemma_find_row_bounds(rows, w.0, w.1, w.2);
    let i = find_row(rows, w.0, w.1, w.2);
    if i >= 0 {
        let v = (rows[i].0, rows[i].1, rows[i].2, w.3, rows[i].4);
        lemma_find_row_update(rows, i, v);
    } else {
        assert(rows.push(w).drop_last() =~= rows);
    }
}

/// `text` is a comma-joined list whose items are `items`.
pub open spec fn lists(text: Seq<char>, items: Set<Seq<char>>) -> bool {
    exists|l: Seq<Seq<char>>| join_comma(l) == text && #[trigger] l.to_set() == items
}

/// The row of a pod, namespace and architecture holds the list of the latest
/// record merged for it. So when each record lists every number of the one
/// before it, as the agent's sets that only grow make it, the numbers stored
/// for the key never shrink across upserts.
pub proof fn lemma_syscalls_never_shrink(
    rows: Seq<SyscallRowView>,
    x1: PodInputSyscalls,
    x2: PodInputSyscalls,
)
    requires
        x1.pod_name@ == x2.pod_name@,
        x1.pod_namespace@ == x2.pod_namespace@,
        x1.arch@ == x2.arch@,
        x1.syscalls@.map_values(|s: String| s@).to_set().subset_of(
            x2.syscalls@.map_values(|s: String| s@).to_set(),
        ),
    ensures
        ({
            let after1 = merge_rows(rows, seq![input_row_view(x1)]);
            let after2 = merge_rows(rows, seq![input_row_view(x1), input_row_view(x2)]);
            &&& stored_syscalls(after1, x1.pod_name@, x1.pod_namespace@, x1.arch@) == Some(
                join_comma(x1.syscalls@.map_values(|s: String| s@)),
            )
            &&& stored_syscalls(after2, x1.pod_name@, x1.pod_namespace@, x1.arch@) == Some(
                join_comma(x2.syscalls@.map_values(|s: String| s@)),
            )
            &&& exists|s1: Set<Seq<char>>, s2: Set<Seq<char>>|
                lists(
                    stored_syscalls(after1, x1.pod_name@, x1.pod_namespace@, x1.arch@)->0,
                    s1,
                ) && lists(
                    stored_syscalls(after2, x1.pod_name@, x1.pod_namespace@, x1.arch@)->0,
                    s2,
                ) && s1.subset_of(s2)
        }),
{
    let w1 = input_row_view(x1);
    let w2 = input_row_view(x2);
    assert(seq![w1].drop_last() =~= Seq::<SyscallRowView>::empty());
    assert(seq![w1, w2].drop_last() =~= seq![w1]);
    assert(merge_rows(rows, Seq::<SyscallRowView>::empty()) == rows);
    let after1 = merge_rows(rows, seq![w1]);
    assert(after1 == merge_row(rows, w1));
    lemma_merge_row_stores(rows, w1);
    assert(merge_rows(rows, seq![w1, w2]) == merge_row(after1, w2));
    lemma_merge_row_stores(after1, w2);
    let l1 = x1.syscalls@.map_values(|s: String| s@);
    let l2 = x2.syscalls@.map_values(|s: String| s@);
    assert(lists(join_comma(l1), l1.to_set()));
    assert(lists(join_comma(l2), l2.to_set()));
}

} // verus!

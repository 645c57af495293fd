//! The syscall pipeline: which syscalls the probe reports, and the set of
//! syscall numbers seen for each pod, namespace and architecture.
use vstd::prelude::*;
use crate::model::{PodInputSyscalls, PodInspect};
use crate::text::{decimal, decimal_string};

verus! {

/// A syscall made in a watched network namespace, as the syscall probe
/// reports it.
#[derive(Clone, Copy, Debug)]
pub struct SyscallEventData {
    pub inum: u64,
    pub syscall_number: u32,
}

/// The security-relevant syscall numbers (x86-64) that the syscall probe is
/// told to report: process creation and exit, sockets, file creation,
/// removal and renaming, privilege and mount changes, modules,
/// capabilities, bpf, namespaces, clocks, keyrings, directory listing, and
/// reads and writes.
pub open spec fn security_syscall_seq() -> Seq<u32> {
    seq![
        59, 322, 57, 58, 56, 231, 41, 42, 43, 288, 49, 50, 46, 47, 44, 45, 2, 257, 318, 85, 87,
        263, 82, 264, 316, 83, 84, 88, 266, 105, 106, 117, 119, 114, 113, 157, 101, 155, 165, 166,
        167, 168, 175, 313, 176, 126, 321, 308, 272, 227, 228, 248, 78, 217, 0, 1,
    ]
}

/// The allowlist that the syscall probe's `allowed_syscalls` map receives.
pub fn security_syscalls() -> (r: Vec<u32>)
    ensures
        r@ == security_syscall_seq(),
{
    let r: Vec<u32> = vec![
        59, 322, 57, 58, 56, 231, 41, 42, 43, 288, 49, 50, 46, 47, 44, 45, 2, 257, 318, 85, 87,
        263, 82, 264, 316, 83, 84, 88, 266, 105, 106, 117, 119, 114, 113, 157, 101, 155, 165, 166,
        167, 168, 175, 313, 176, 126, 321, 308, 272, 227, 228, 248, 78, 217, 0, 1,
    ];
    assert(r@ =~= security_syscall_seq());
    r
}

/// The syscalls seen for one pod, namespace and architecture.
pub struct SyscallEntry {
    pub pod_name: String,
    pub pod_namespace: String,
    pub arch: String,
    pub syscalls: Vec<u32>,
}

pub open spec fn entry_key(e: SyscallEntry) -> (Seq<char>, Seq<char>, Seq<char>) {
    (e.pod_name@, e.pod_namespace@, e.arch@)
}

/// The syscall numbers that `entries` hold for key `k`.
pub open spec fn syscalls_of(entries: Seq<SyscallEntry>, k: (Seq<char>, Seq<char>, Seq<char>)) -> Set<u32>
    decreases entries.len(),
{
    if entries.len() == 0 {
        Set::empty()
    } else {
        syscalls_of(entries.drop_last(), k) + if entry_key(entries.last()) == k {
            entries.last().syscalls@.to_set()
        } else {
            Set::empty()
        }
    }
}

/// Syscall numbers seen, per pod, namespace and architecture, since the
/// agent started. Numbers are only ever added.
pub struct SyscallAggregator {
    entries: Vec<SyscallEntry>,
}

proof fn lemma_syscalls_update(
    entries: Seq<SyscallEntry>,
    i: int,
    e: SyscallEntry,
    nr: u32,
    k: (Seq<char>, Seq<char>, Seq<char>),
)
    requires
        0 <= i < entries.len(),
        entry_key(e) == entry_key(entries[i]),
        e.syscalls@ == entries[i].syscalls@.push(nr),
    ensures
        syscalls_of(entries.update(i, e), k) == syscalls_of(entries, k) + if entry_key(e) == k {
            set![nr]
        } else {
            Set::empty()
        },
    decreases entries.len(),
{
    let u = entries.update(i, e);
    entries[i].syscalls@.lemma_push_to_set_commute(nr);
    if i == entries.len() - 1 {
        assert(u.drop_last() =~= entries.drop_last());
        assert(u.last() == e);
    } else {
        assert(u.drop_last() =~= entries.drop_last().update(i, e));
        lemma_syscalls_update(entries.drop_last(), i, e, nr, k);
    }
    assert(syscalls_of(u, k) =~= syscalls_of(entries, k) + if entry_key(e) == k {
        set![nr]
    } else {
        Set::empty()
    });
}

fn key_matches(e: &SyscallEntry, pod_name: &str, pod_namespace: &str, arch: &str) -> (r: bool)
    ensures
        r == (entry_key(*e) == (pod_name@, pod_namespace@, arch@)),
{
    crate::proto::same_text(e.pod_name.as_str(), pod_name) && crate::proto::same_text(
        e.pod_namespace.as_str(),
        pod_namespace,
    ) && crate::proto::same_text(e.arch.as_str(), arch)
}

fn holds_number(v: &Vec<u32>, nr: u32) -> (r: bool)
    ensures
        r == v@.contains(nr),
{
    let mut i: usize = 0;
    while i < v.len()
        invariant
            0 <= i <= v@.len(),
            forall|j: int| 0 <= j < i ==> v@[j] != nr,
        decreases v@.len() - i,
    {
        if v[i] == nr {
            return true;
        }
        i = i + 1;
    }
    false
}

impl SyscallAggregator {
    /// The syscall numbers seen for pod `name` in `namespace` on `arch`.
    pub closed spec fn seen(&self, name: Seq<char>, namespace: Seq<char>, arch: Seq<char>) -> Set<u32> {
        syscalls_of(self.entries@, (name, namespace, arch))
    }

    /// The entries, one per pod, namespace and architecture seen.
    pub closed spec fn entries(&self) -> Seq<SyscallEntry> {
        self.entries@
    }

    pub fn new() -> (r: Self)
        ensures
            forall|n: Seq<char>, ns: Seq<char>, a: Seq<char>| #[trigger] r.seen(n, ns, a) == Set::<u32>::empty(),
    {
        SyscallAggregator { entries: Vec::new() }
    }

    /// Records that pod `pod_name` in `pod_namespace` made syscall `nr` on
    /// `arch`. Every other set stays as it was; no number is ever removed.
    pub fn record(&mut self, pod_name: &str, pod_namespace: &str, arch: &str, nr: u32)
        ensures
            forall|n: Seq<char>, ns: Seq<char>, a: Seq<char>|
                #[trigger] final(self).seen(n, ns, a) == old(self).seen(n, ns, a) + if (n, ns, a) == (
                    pod_name@,
                    pod_namespace@,
                    arch@,
                ) {
                    set![nr]
                } else {
                    Set::empty()
                },
            forall|n: Seq<char>, ns: Seq<char>, a: Seq<char>|
                old(self).seen(n, ns, a).subset_of(#[trigger] final(self).seen(n, ns, a)),
    {
        let mut i: usize = 0;
        while i < self.entries.len()
            invariant
                0 <= i <= self.entries@.len(),
                self.entries@ == old(self).entries@,
            decreases self.entries@.len() - i,
        {
            if key_matches(&self.entries[i], pod_name, pod_namespace, arch) {
                if holds_number(&self.entries[i].syscalls, nr) {
                    proof {
                        assert forall|n: Seq<char>, ns: Seq<char>, a: Seq<char>|
                            #[trigger] self.seen(n, ns, a) == old(self).seen(n, ns, a) + if (n, ns, a)
                                == (pod_name@, pod_namespace@, arch@) {
                                set![nr]
                            } else {
                                Set::empty()
                            } by {
                            if (n, ns, a) == (pod_name@, pod_namespace@, arch@) {
                                lemma_member_in_syscalls(self.entries@, i as int, nr);
                                assert(self.seen(n, ns, a) =~= self.seen(n, ns, a) + set![nr]);
                            } else {
                                assert(self.seen(n, ns, a) =~= self.seen(n, ns, a) + Set::empty());
                            }
                        }
                    }
                    return;
                }
                let ghost before = self.entries@;
                let mut e = self.entries.remove(i);
                e.syscalls.push(nr);
                self.entries.insert(i, e);
                proof {
                    assert(self.entries@ =~= before.update(i as int, e));
                    assert forall|n: Seq<char>, ns: Seq<char>, a: Seq<char>|
                        #[trigger] self.seen(n, ns, a) == old(self).seen(n, ns, a) + if (n, ns, a) == (
                            pod_name@,
                            pod_namespace@,
                            arch@,
                        ) {
                            set![nr]
                        } else {
                            Set::empty()
                        } by {
                        lemma_syscalls_update(before, i as int, e, nr, (n, ns, a));
                    }
                }
                return;
            }
            i = i + 1;
        }
        let ghost before = self.entries@;
        let e = SyscallEntry {
            pod_name: String::from_str(pod_name),
            pod_namespace: String::from_str(pod_namespace),
            arch: String::from_str(arch),
            syscalls: vec![nr],
        };
        self.entries.push(e);
        proof {
            assert(self.entries@.drop_last() =~= before);
            assert(e.syscalls@.to_set() =~= set![nr]) by {
                assert(e.syscalls@[0] == nr);
            }
            assert forall|n: Seq<char>, ns: Seq<char>, a: Seq<char>|
                #[trigger] self.seen(n, ns, a) == old(self).seen(n, ns, a) + if (n, ns, a) == (
                    pod_name@,
                    pod_namespace@,
                    arch@,
                ) {
                    set![nr]
                } else {
                    Set::empty()
                } by {
                assert(self.seen(n, ns, a) =~= old(self).seen(n, ns, a) + if (n, ns, a) == (
                    pod_name@,
                    pod_namespace@,
                    arch@,
                ) {
                    set![nr]
                } else {
                    Set::empty()
                });
            }
        }
    }

    /// The records to send to the broker: one per pod, namespace and
    /// architecture, with the numbers seen as decimal text, stamped
    /// `time_stamp`.
    pub fn to_inputs(&self, time_stamp: i64) -> (r: Vec<PodInputSyscalls>)
        ensures
            r@.len() == self.entries().len(),
            forall|i: int|
                0 <= i < r@.len() ==> {
                    &&& (#[trigger] r@[i]).pod_name@ == self.entries()[i].pod_name@
                    &&& r@[i].pod_namespace@ == self.entries()[i].pod_namespace@
                    &&& r@[i].arch@ == self.entries()[i].arch@
                    &&& r@[i].time_stamp == time_stamp
                    &&& r@[i].syscalls@.map_values(|s: String| s@) == self.entries()[i].syscalls@.map_values(
                        |n: u32| decimal(n as nat),
                    )
                },
    {
        let mut out: Vec<PodInputSyscalls> = Vec::new();
        let mut i: usize = 0;
        while i < self.entries.len()
            invariant
                0 <= i <= self.entries@.len(),
                out@.len() == i,
                forall|j: int|
                    0 <= j < i ==> {
                        &&& (#[trigger] out@[j]).pod_name@ == self.entries@[j].pod_name@
                        &&& out@[j].pod_namespace@ == self.entries@[j].pod_namespace@
                        &&& out@[j].arch@ == self.entries@[j].arch@
                        &&& out@[j].time_stamp == time_stamp
                        &&& out@[j].syscalls@.map_values(|s: String| s@) == self.entries@[j].syscalls@.map_values(
                            |n: u32| decimal(n as nat),
                        )
                    },
            decreases self.entries@.len() - i,
        {
            let e = &self.entries[i];
            let mut texts: Vec<String> = Vec::new();
            let mut k: usize = 0;
            while k < e.syscalls.len()
                invariant
                    0 <= k <= e.syscalls@.len(),
                    texts@.len() == k,
                    forall|m: int| 0 <= m < k ==> (#[trigger] texts@[m])@ == decimal(e.syscalls@[m] as nat),
                decreases e.syscalls@.len() - k,
            {
                texts.push(decimal_string(e.syscalls[k] as u64));
                k = k + 1;
            }
            assert(texts@.map_values(|s: String| s@) =~= e.syscalls@.map_values(|n: u32| decimal(n as nat)));
            out.push(
                PodInputSyscalls {
                    pod_name: e.pod_name.clone(),
                    pod_namespace: e.pod_namespace.clone(),
                    syscalls: texts,
                    arch: e.arch.clone(),
                    time_stamp,
                },
            );
            i = i + 1;
        }
        out
    }
}

proof fn lemma_member_in_syscalls(entries: Seq<SyscallEntry>, i: int, nr: u32)
    requires
        0 <= i < entries.len(),
        entries[i].syscalls@.contains(nr),
    ensures
        syscalls_of(entries, entry_key(entries[i])).contains(nr),
    decreases entries.len(),
{
    if i < entries.len() - 1 {
        assert(entries.drop_last()[i] == entries[i]);
        lemma_member_in_syscalls(entries.drop_last(), i, nr);
    } else {
        assert(entries.last().syscalls@.to_set().contains(nr));
    }
}

/// Records a syscall made in network namespace `data.inum`, owned by `pod`
/// or by no known pod, on `arch`.
pub fn on_syscall_event(
    agg: &mut SyscallAggregator,
    data: &SyscallEventData,
    pod: Option<&PodInspect>,
    arch: &str,
)
    ensures
        pod is None ==> *final(agg) == *old(agg),
        pod matches Some(q) ==> forall|n: Seq<char>, ns: Seq<char>, a: Seq<char>|
            #[trigger] final(agg).seen(n, ns, a) == old(agg).seen(n, ns, a) + if (n, ns, a) == (
                q.status.pod_name@,
                match q.status.pod_namespace {
                    Some(s) => s@,
                    None => Seq::<char>::empty(),
                },
                arch@,
            ) {
                set![data.syscall_number]
            } else {
                Set::empty()
            },
{
    match pod {
        None => {},
        Some(q) => {
            let ns = match &q.status.pod_namespace {
                Some(s) => s.as_str(),
                None => "",
            };
            proof {
                reveal_strlit("");
            }
            assert(ns@ == match q.status.pod_namespace {
                Some(s) => s@,
                None => Seq::<char>::empty(),
            });
            agg.record(q.status.pod_name.as_str(), ns, arch, data.syscall_number);
        },
    }
}

} // verus!

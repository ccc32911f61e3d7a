//! The syscall aggregator: accumulates the set of distinct syscall names
//! per workload and prepares the periodic flush batches.

use vstd::prelude::*;
use crate::events::SyscallEventData;
use crate::model::{PodInspect, SyscallData};
use crate::text::{spec_decimal, u32_to_string};

verus! {

/// The name a syscall number displays as: the name the platform's
/// syscall table resolved for it, or its decimal rendering where nothing
/// resolved (an unknown number, or an architecture without a table).
pub open spec fn spec_display_name(resolved: Option<String>, n: u32) -> Seq<char> {
    match resolved {
        Some(s) => s@,
        None => spec_decimal(n as int),
    }
}

/// Renders the display name of a syscall number from the caller's
/// resolution: any resolution failure falls back to the decimal string.
pub fn syscall_display_name(resolved: Option<String>, n: u32) -> (r: String)
    ensures
        r@ == spec_display_name(resolved, n),
{
    match resolved {
        Some(s) => s,
        None => u32_to_string(n),
    }
}

/// The set of texts a list of strings holds.
pub open spec fn strset(ss: Seq<String>) -> Set<Seq<char>> {
    ss.map_values(|s: String| s@).to_set()
}

/// Whether no two strings of the list hold the same text.
pub open spec fn unique_views(ss: Seq<String>) -> bool {
    forall|i: int, j: int| 0 <= i < j < ss.len() ==> ss[i]@ != ss[j]@
}

proof fn lemma_strset_push(ss: Seq<String>, s: String)
    ensures
        strset(ss.push(s)) == strset(ss).insert(s@),
{
    let m1 = ss.push(s).map_values(|x: String| x@);
    let m0 = ss.map_values(|x: String| x@);
    assert(m1 =~= m0.push(s@));
    assert forall|a: Seq<char>| #[trigger] strset(ss.push(s)).contains(a) implies strset(
        ss,
    ).insert(s@).contains(a) by {
        let k = choose|k: int| 0 <= k < m1.len() && m1[k] == a;
        if k < m0.len() {
            assert(m0[k] == a);
        }
    }
    assert forall|a: Seq<char>| #[trigger] strset(ss).insert(s@).contains(a) implies strset(
        ss.push(s),
    ).contains(a) by {
        if strset(ss).contains(a) {
            let k = choose|k: int| 0 <= k < m0.len() && m0[k] == a;
            assert(m1[k] == a);
        } else {
            assert(m1[m1.len() - 1] == s@);
        }
    }
    assert(strset(ss.push(s)) =~= strset(ss).insert(s@));
}

/// Looks for a string of the list holding this text.
fn contains_str(v: &Vec<String>, s: &String) -> (r: bool)
    ensures
        r == strset(v@).contains(s@),
{
    let mut i: usize = 0;
    while i < v.len()
        invariant
            i <= v@.len(),
            forall|j: int| 0 <= j < i ==> v@[j]@ != s@,
        decreases v@.len() - i,
    {
        if v[i] == *s {
            proof {
                assert(v@.map_values(|x: String| x@)[i as int] == s@);
            }
            return true;
        }
        i += 1;
    }
    proof {
        let m = v@.map_values(|x: String| x@);
        assert forall|k: int| 0 <= k < m.len() implies m[k] != s@ by {
            assert(v@[k]@ != s@);
        }
    }
    false
}

/// Copies a list of strings, text for text, in order.
fn copy_strings(v: &Vec<String>) -> (r: Vec<String>)
    ensures
        r@ == v@,
{
    let mut out: Vec<String> = Vec::new();
    let mut i: usize = 0;
    while i < v.len()
        invariant
            i <= v@.len(),
            out@ == v@.take(i as int),
        decreases v@.len() - i,
    {
        out.push(v[i].clone());
        proof {
            assert(v@.take(i as int).push(v@[i as int]) =~= v@.take(i + 1));
        }
        i += 1;
    }
    proof {
        assert(v@.take(v@.len() as int) =~= v@);
    }
    out
}

/// One workload's accumulator entry: the distinct names observed so far,
/// and the snapshot transmitted by the last successful flush.
#[derive(Debug, Clone)]
pub struct PodSyscallEntry {
    pub pod_name: String,
    pub current: Vec<String>,
    pub last_sent: Vec<String>,
}

/// The per-workload syscall accumulator.  One entry per workload name;
/// each entry's lists hold pairwise distinct texts.
#[derive(Debug)]
pub struct SyscallAccumulator {
    pub entries: Vec<PodSyscallEntry>,
    pub arch_label: String,
}

impl SyscallAccumulator {
    /// Entries are keyed by distinct workload names and hold sets.
    pub open spec fn wf(&self) -> bool {
        &&& forall|i: int, j: int|
            0 <= i < j < self.entries@.len() ==> self.entries@[i].pod_name@
                != self.entries@[j].pod_name@
        &&& forall|i: int|
            0 <= i < self.entries@.len() ==> unique_views(#[trigger] self.entries@[i].current@)
                && unique_views(self.entries@[i].last_sent@)
    }

    /// Whether a workload has an entry.
    pub open spec fn has_pod(&self, pod: Seq<char>) -> bool {
        exists|i: int| 0 <= i < self.entries@.len() && self.entries@[i].pod_name@ == pod
    }

    /// The entry of a workload that has one.
    pub open spec fn entry_of(&self, pod: Seq<char>) -> PodSyscallEntry {
        let i = choose|i: int| 0 <= i < self.entries@.len() && self.entries@[i].pod_name@ == pod;
        self.entries@[i]
    }

    /// The set of names accumulated for a workload; empty before its
    /// first event.
    pub open spec fn current_set(&self, pod: Seq<char>) -> Set<Seq<char>> {
        if self.has_pod(pod) {
            strset(self.entry_of(pod).current@)
        } else {
            Set::empty()
        }
    }

    /// The snapshot transmitted for a workload by the last successful
    /// flush; empty before the first.
    pub open spec fn last_sent_set(&self, pod: Seq<char>) -> Set<Seq<char>> {
        if self.has_pod(pod) {
            strset(self.entry_of(pod).last_sent@)
        } else {
            Set::empty()
        }
    }

    /// A fresh accumulator for one architecture label, with no entries.
    pub fn new(arch_label: String) -> (r: SyscallAccumulator)
        ensures
            r.wf(),
            r.entries@.len() == 0,
            r.arch_label == arch_label,
            forall|p: Seq<char>| !r.has_pod(p),
    {
        SyscallAccumulator { entries: Vec::new(), arch_label }
    }
}

/// In a well-formed accumulator the entry found at an index is the entry
/// of its workload name.
proof fn lemma_entry_at(acc: &SyscallAccumulator, i: int)
    requires
        acc.wf(),
        0 <= i < acc.entries@.len(),
    ensures
        acc.has_pod(acc.entries@[i].pod_name@),
        acc.entry_of(acc.entries@[i].pod_name@) == acc.entries@[i],
{
    let pod = acc.entries@[i].pod_name@;
    assert(acc.has_pod(pod));
    let j = choose|j: int| 0 <= j < acc.entries@.len() && acc.entries@[j].pod_name@ == pod;
    if i < j {
        assert(acc.entries@[i].pod_name@ != acc.entries@[j].pod_name@);
    } else if j < i {
        assert(acc.entries@[j].pod_name@ != acc.entries@[i].pod_name@);
    }
}

impl SyscallAccumulator {
    /// Finds the entry index of a workload.
    fn find_pod(&self, pod_name: &String) -> (r: Option<usize>)
        ensures
            match r {
                Some(i) => i < self.entries@.len() && self.entries@[i as int].pod_name@
                    == pod_name@,
                None => !self.has_pod(pod_name@),
            },
    {
        let mut i: usize = 0;
        while i < self.entries.len()
            invariant
                i <= self.entries@.len(),
                forall|j: int| 0 <= j < i ==> self.entries@[j].pod_name@ != pod_name@,
            decreases self.entries@.len() - i,
        {
            if self.entries[i].pod_name == *pod_name {
                return Some(i);
            }
            i += 1;
        }
        None
    }

    /// Records one observed syscall name for a workload: the workload's
    /// current set grows by exactly that name, its transmitted snapshot
    /// and every other workload stay as they were.  Observing a name the
    /// workload already holds changes nothing.
    pub fn observe(&mut self, pod_name: &String, syscall_name: String)
        requires
            old(self).wf(),
        ensures
            final(self).wf(),
            final(self).arch_label == old(self).arch_label,
            forall|p: Seq<char>|
                #[trigger] final(self).has_pod(p) <==> (old(self).has_pod(p) || p == pod_name@),
            final(self).current_set(pod_name@) == old(self).current_set(pod_name@).insert(
                syscall_name@,
            ),
            final(self).last_sent_set(pod_name@) == old(self).last_sent_set(pod_name@),
            forall|p: Seq<char>|
                p != pod_name@ ==> #[trigger] final(self).current_set(p) == old(self).current_set(
                    p,
                ) && final(self).last_sent_set(p) == old(self).last_sent_set(p),
    {
        let ghost old_acc = *self;
        match self.find_pod(pod_name) {
            Some(i) => {
                proof {
                    lemma_entry_at(&old_acc, i as int);
                }
                if contains_str(&self.entries[i].current, &syscall_name) {
                    proof {
                        let pod = pod_name@;
                        assert(old_acc.current_set(pod).contains(syscall_name@));
                        assert(old_acc.current_set(pod).insert(syscall_name@)
                            =~= old_acc.current_set(pod));
                    }
                } else {
                    let name_c = self.entries[i].pod_name.clone();
                    let mut cur = copy_strings(&self.entries[i].current);
                    let last = copy_strings(&self.entries[i].last_sent);
                    cur.push(syscall_name);
                    let ghost new_entry_g;
                    let new_entry = PodSyscallEntry { pod_name: name_c, current: cur, last_sent: last };
                    proof {
                        new_entry_g = new_entry;
                    }
                    self.entries.set(i, new_entry);
                    proof {
                        let pod = pod_name@;
                        let es0 = old_acc.entries@;
                        let es1 = self.entries@;
                        assert(es1 == es0.update(i as int, new_entry_g));
                        assert(forall|j: int|
                            0 <= j < es1.len() ==> #[trigger] es1[j].pod_name@ == es0[j].pod_name@);
                        lemma_strset_push(es0[i as int].current@, syscall_name);
                        let cur0 = es0[i as int].current@;
                        assert forall|j: int| 0 <= j < cur0.len() implies #[trigger] cur0[j]@
                            != syscall_name@ by {
                            let m = cur0.map_values(|x: String| x@);
                            assert(m[j] == cur0[j]@);
                            if cur0[j]@ == syscall_name@ {
                                assert(m.contains(syscall_name@));
                            }
                        }
                        assert(new_entry_g.current@ == cur0.push(syscall_name));
                        assert forall|i1: int, j1: int|
                            0 <= i1 < j1 < new_entry_g.current@.len() implies new_entry_g.current@[i1]@
                            != new_entry_g.current@[j1]@ by {
                            if j1 == new_entry_g.current@.len() - 1 {
                                assert(cur0[i1]@ != syscall_name@);
                            }
                        }
                        assert(unique_views(new_entry_g.current@));
                        assert(self.wf());
                        assert forall|p: Seq<char>| #[trigger] self.has_pod(p) implies (
                        old_acc.has_pod(p) || p == pod) by {
                            let j = choose|j: int|
                                0 <= j < es1.len() && es1[j].pod_name@ == p;
                            assert(es0[j].pod_name@ == p);
                        }
                        assert forall|p: Seq<char>| old_acc.has_pod(p) implies #[trigger] self
                            .has_pod(p) by {
                            let j = choose|j: int|
                                0 <= j < es0.len() && es0[j].pod_name@ == p;
                            assert(es1[j].pod_name@ == p);
                        }
                        lemma_entry_at(self, i as int);
                        assert(self.current_set(pod) =~= old_acc.current_set(pod).insert(
                            syscall_name@,
                        ));
                        assert(self.last_sent_set(pod) == old_acc.last_sent_set(pod));
                        assert forall|p: Seq<char>| p != pod implies #[trigger] self.current_set(p)
                            == old_acc.current_set(p) && self.last_sent_set(p)
                            == old_acc.last_sent_set(p) by {
                            if old_acc.has_pod(p) {
                                let j = choose|j: int|
                                    0 <= j < es0.len() && es0[j].pod_name@ == p;
                                assert(j != i);
                                assert(es1[j] == es0[j]);
                                lemma_entry_at(&old_acc, j);
                                lemma_entry_at(self, j);
                            }
                        }
                    }
                }
            },
            None => {
                let mut cur: Vec<String> = Vec::new();
                cur.push(syscall_name);
                let new_entry = PodSyscallEntry {
                    pod_name: pod_name.clone(),
                    current: cur,
                    last_sent: Vec::new(),
                };
                let ghost new_entry_g = new_entry;
                self.entries.push(new_entry);
                proof {
                    let pod = pod_name@;
                    let es0 = old_acc.entries@;
                    let es1 = self.entries@;
                    assert(es1 == es0.push(new_entry_g));
                    assert forall|i: int, j: int| 0 <= i < j < es1.len() implies es1[i].pod_name@
                        != es1[j].pod_name@ by {
                        if j == es1.len() - 1 {
                            assert(es1[j].pod_name@ == pod);
                            assert(!old_acc.has_pod(pod));
                            assert(es0[i].pod_name@ != pod);
                        }
                    }
                    assert(unique_views(new_entry_g.current@));
                    assert(self.wf());
                    assert(es1[es1.len() - 1].pod_name@ == pod);
                    assert(self.has_pod(pod));
                    lemma_entry_at(self, es1.len() - 1);
                    assert(strset(new_entry_g.current@) =~= Set::<Seq<char>>::empty().insert(
                        syscall_name@,
                    )) by {
                        let m = new_entry_g.current@.map_values(|x: String| x@);
                        assert(m.len() == 1 && m[0] == syscall_name@);
                        assert forall|a: Seq<char>| #[trigger] m.to_set().contains(a) implies a
                            == syscall_name@ by {
                            let k = choose|k: int| 0 <= k < m.len() && m[k] == a;
                        }
                        assert(m.contains(syscall_name@));
                    }
                    assert(strset(new_entry_g.last_sent@) =~= Set::<Seq<char>>::empty()) by {
                        let m = new_entry_g.last_sent@.map_values(|x: String| x@);
                        assert forall|a: Seq<char>| !(#[trigger] m.to_set().contains(a)) by {
                            if m.contains(a) {
                                let k = choose|k: int| 0 <= k < m.len() && m[k] == a;
                            }
                        }
                    }
                    assert(self.current_set(pod) =~= old_acc.current_set(pod).insert(
                        syscall_name@,
                    ));
                    assert forall|p: Seq<char>| #[trigger] self.has_pod(p) implies (
                    old_acc.has_pod(p) || p == pod) by {
                        let j = choose|j: int| 0 <= j < es1.len() && es1[j].pod_name@ == p;
                        if j < es0.len() {
                            assert(es0[j].pod_name@ == p);
                        }
                    }
                    assert forall|p: Seq<char>| old_acc.has_pod(p) implies #[trigger] self.has_pod(
                        p,
                    ) by {
                        let j = choose|j: int| 0 <= j < es0.len() && es0[j].pod_name@ == p;
                        assert(es1[j].pod_name@ == p);
                    }
                    assert forall|p: Seq<char>| p != pod implies #[trigger] self.current_set(p)
                        == old_acc.current_set(p) && self.last_sent_set(p)
                        == old_acc.last_sent_set(p) by {
                        if old_acc.has_pod(p) {
                            let j = choose|j: int| 0 <= j < es0.len() && es0[j].pod_name@ == p;
                            lemma_entry_at(&old_acc, j);
                            lemma_entry_at(self, j);
                        }
                    }
                }
            },
        }
    }

    /// Copies a workload's current set into its transmitted snapshot,
    /// after a successful flush carried it to the collector.  A workload
    /// without an entry stays without one.
    pub fn mark_sent(&mut self, pod_name: &String)
        requires
            old(self).wf(),
        ensures
            final(self).wf(),
            final(self).arch_label == old(self).arch_label,
            forall|p: Seq<char>| #[trigger] final(self).has_pod(p) == old(self).has_pod(p),
            forall|p: Seq<char>|
                #[trigger] final(self).current_set(p) == old(self).current_set(p),
            final(self).last_sent_set(pod_name@) == old(self).current_set(pod_name@),
            forall|p: Seq<char>|
                p != pod_name@ ==> #[trigger] final(self).last_sent_set(p) == old(
                    self,
                ).last_sent_set(p),
    {
        let ghost old_acc = *self;
        match self.find_pod(pod_name) {
            Some(i) => {
                proof {
                    lemma_entry_at(&old_acc, i as int);
                }
                let name_c = self.entries[i].pod_name.clone();
                let cur = copy_strings(&self.entries[i].current);
                let cur2 = copy_strings(&self.entries[i].current);
                let new_entry = PodSyscallEntry { pod_name: name_c, current: cur, last_sent: cur2 };
                let ghost new_entry_g = new_entry;
                self.entries.set(i, new_entry);
                proof {
                    let pod = pod_name@;
                    let es0 = old_acc.entries@;
                    let es1 = self.entries@;
                    assert(es1 == es0.update(i as int, new_entry_g));
                    assert(forall|j: int|
                        0 <= j < es1.len() ==> #[trigger] es1[j].pod_name@ == es0[j].pod_name@);
                    assert(self.wf());
                    assert forall|p: Seq<char>| #[trigger] self.has_pod(p) == old_acc.has_pod(
                        p,
                    ) by {
                        if self.has_pod(p) {
                            let j = choose|j: int| 0 <= j < es1.len() && es1[j].pod_name@ == p;
                            assert(es0[j].pod_name@ == p);
                        }
                        if old_acc.has_pod(p) {
                            let j = choose|j: int| 0 <= j < es0.len() && es0[j].pod_name@ == p;
                            assert(es1[j].pod_name@ == p);
                        }
                    }
                    lemma_entry_at(self, i as int);
                    assert(self.last_sent_set(pod) == old_acc.current_set(pod));
                    assert forall|p: Seq<char>| #[trigger] self.current_set(p)
                        == old_acc.current_set(p) by {
                        if old_acc.has_pod(p) {
                            let j = choose|j: int| 0 <= j < es0.len() && es0[j].pod_name@ == p;
                            lemma_entry_at(&old_acc, j);
                            lemma_entry_at(self, j);
                        }
                    }
                    assert forall|p: Seq<char>| p != pod implies #[trigger] self.last_sent_set(p)
                        == old_acc.last_sent_set(p) by {
                        if old_acc.has_pod(p) {
                            let j = choose|j: int| 0 <= j < es0.len() && es0[j].pod_name@ == p;
                            assert(j != i);
                            lemma_entry_at(&old_acc, j);
                            lemma_entry_at(self, j);
                        }
                    }
                }
            },
            None => {},
        }
    }
}

/// Whether a batch record carries exactly this entry's current set for
/// this accumulator's architecture label and this timestamp, with the
/// namespace left empty for the collector to re-join.
pub open spec fn batch_matches_entry(
    d: SyscallData,
    e: PodSyscallEntry,
    arch_label: String,
    ts: Seq<char>,
) -> bool {
    &&& d.pod_name == e.pod_name
    &&& d.pod_namespace@ == Seq::<char>::empty()
    &&& d.syscalls@ == e.current@
    &&& d.arch == arch_label
    &&& d.time_stamp@ == ts
}

/// Whether an entry has changed since its last transmitted snapshot.
pub open spec fn spec_changed(e: PodSyscallEntry) -> bool {
    strset(e.current@) != strset(e.last_sent@)
}

/// Every record of the batch reports some changed entry, exactly.
/// The indices of the entries whose current set differs from their
/// transmitted snapshot, in entry order.
pub open spec fn spec_changed_indices(es: Seq<PodSyscallEntry>) -> Seq<int>
    decreases es.len(),
{
    if es.len() == 0 {
        Seq::empty()
    } else {
        spec_changed_indices(es.drop_last()) + (if spec_changed(es.last()) {
            seq![es.len() - 1]
        } else {
            Seq::<int>::empty()
        })
    }
}

/// The changed-index list is exactly the changed entries' positions:
/// every listed index is in range and changed, the list is strictly
/// increasing, and every changed entry is listed.
pub proof fn lemma_changed_indices(es: Seq<PodSyscallEntry>)
    ensures
        forall|k: int|
            0 <= k < spec_changed_indices(es).len() ==> 0 <= #[trigger] spec_changed_indices(es)[k]
                < es.len() && spec_changed(es[spec_changed_indices(es)[k]]),
        forall|k1: int, k2: int|
            0 <= k1 < k2 < spec_changed_indices(es).len() ==> #[trigger] spec_changed_indices(
                es,
            )[k1] < #[trigger] spec_changed_indices(es)[k2],
        forall|i: int|
            0 <= i < es.len() && spec_changed(#[trigger] es[i]) ==> spec_changed_indices(
                es,
            ).contains(i),
    decreases es.len(),
{
    if es.len() > 0 {
        lemma_changed_indices(es.drop_last());
        let pre = spec_changed_indices(es.drop_last());
        let ci = spec_changed_indices(es);
        assert(forall|j: int|
            0 <= j < es.len() - 1 ==> #[trigger] es.drop_last()[j] == es[j]);
        assert forall|k: int| 0 <= k < ci.len() implies 0 <= #[trigger] ci[k] < es.len()
            && spec_changed(es[ci[k]]) by {
            if k < pre.len() {
                assert(ci[k] == pre[k]);
                assert(es.drop_last()[pre[k]] == es[pre[k]]);
            } else {
                assert(ci[k] == es.len() - 1);
            }
        }
        assert forall|i: int|
            0 <= i < es.len() && spec_changed(#[trigger] es[i]) implies ci.contains(i) by {
            if i < es.len() - 1 {
                assert(es.drop_last()[i] == es[i]);
                assert(pre.contains(i));
                let k = choose|k: int| 0 <= k < pre.len() && pre[k] == i;
                assert(ci[k] == i);
            } else {
                assert(ci[ci.len() - 1] == i);
            }
        }
    }
}

impl SyscallAccumulator {
    /// Builds the flush batch: exactly one record per workload whose
    /// current set differs from its transmitted snapshot, in entry
    /// order, each carrying the full current set.  Unchanged workloads
    /// are not re-sent.
    pub fn flush_batch(&self, time_stamp: &String) -> (batch: Vec<SyscallData>)
        requires
            self.wf(),
        ensures
            batch@.len() == spec_changed_indices(self.entries@).len(),
            forall|j: int|
                0 <= j < batch@.len() ==> batch_matches_entry(
                    #[trigger] batch@[j],
                    self.entries@[spec_changed_indices(self.entries@)[j]],
                    self.arch_label,
                    time_stamp@,
                ),
    {
        let mut batch: Vec<SyscallData> = Vec::new();
        let mut i: usize = 0;
        while i < self.entries.len()
            invariant
                self.wf(),
                i <= self.entries@.len(),
                batch@.len() == spec_changed_indices(self.entries@.take(i as int)).len(),
                forall|j: int|
                    0 <= j < batch@.len() ==> batch_matches_entry(
                        #[trigger] batch@[j],
                        self.entries@[spec_changed_indices(self.entries@.take(i as int))[j]],
                        self.arch_label,
                        time_stamp@,
                    ),
            decreases self.entries@.len() - i,
        {
            let changed = !same_strings(&self.entries[i].current, &self.entries[i].last_sent);
            let ghost ci0 = spec_changed_indices(self.entries@.take(i as int));
            let ghost ci1 = spec_changed_indices(self.entries@.take(i + 1));
            proof {
                assert(self.entries@.take(i + 1).drop_last() =~= self.entries@.take(i as int));
                assert(self.entries@.take(i + 1).last() == self.entries@[i as int]);
                assert(changed == spec_changed(self.entries@[i as int]));
            }
            if changed {
                let d = SyscallData {
                    pod_name: self.entries[i].pod_name.clone(),
                    pod_namespace: String::new(),
                    syscalls: copy_strings(&self.entries[i].current),
                    arch: self.arch_label.clone(),
                    time_stamp: time_stamp.clone(),
                };
                let ghost d_g = d;
                batch.push(d);
                proof {
                    assert(ci1 == ci0 + seq![i as int]);
                    assert(ci1[ci1.len() - 1] == i as int);
                    assert(batch@[batch@.len() - 1] == d_g);
                    assert(batch_matches_entry(d_g, self.entries@[i as int], self.arch_label,
                        time_stamp@));
                    assert forall|j: int| 0 <= j < batch@.len() implies batch_matches_entry(
                        #[trigger] batch@[j],
                        self.entries@[ci1[j]],
                        self.arch_label,
                        time_stamp@,
                    ) by {
                        if j < batch@.len() - 1 {
                            assert(ci1[j] == ci0[j]);
                        }
                    }
                }
            } else {
                proof {
                    assert(ci1 =~= ci0);
                }
            }
            i += 1;
        }
        proof {
            assert(self.entries@.take(self.entries@.len() as int) =~= self.entries@);
        }
        batch
    }
}

/// Whether two lists hold the same set of texts, decided by containment
/// both ways.
pub fn same_strings(a: &Vec<String>, b: &Vec<String>) -> (r: bool)
    ensures
        r == (strset(a@) == strset(b@)),
{
    let fwd = contains_all(a, b);
    let bwd = contains_all(b, a);
    proof {
        if fwd && bwd {
            assert forall|x: Seq<char>| #[trigger] strset(a@).contains(x) implies strset(
                b@,
            ).contains(x) by {}
            assert(strset(a@) =~= strset(b@));
        }
        if strset(a@) == strset(b@) {
            assert(forall|x: Seq<char>|
                #[trigger] strset(a@).contains(x) ==> strset(b@).contains(x));
            assert(forall|x: Seq<char>|
                #[trigger] strset(b@).contains(x) ==> strset(a@).contains(x));
        }
    }
    fwd && bwd
}

/// Whether every text of `a` occurs in `b`.
fn contains_all(a: &Vec<String>, b: &Vec<String>) -> (r: bool)
    ensures
        r == forall|x: Seq<char>| #[trigger] strset(a@).contains(x) ==> strset(b@).contains(x),
{
    let mut i: usize = 0;
    while i < a.len()
        invariant
            i <= a@.len(),
            forall|j: int| 0 <= j < i ==> strset(b@).contains(#[trigger] a@[j]@),
        decreases a@.len() - i,
    {
        if !contains_str(b, &a[i]) {
            proof {
                let m = a@.map_values(|x: String| x@);
                assert(m[i as int] == a@[i as int]@);
                assert(strset(a@).contains(a@[i as int]@));
            }
            return false;
        }
        i += 1;
    }
    proof {
        assert forall|x: Seq<char>| #[trigger] strset(a@).contains(x) implies strset(b@).contains(
            x,
        ) by {
            let m = a@.map_values(|y: String| y@);
            let k = choose|k: int| 0 <= k < m.len() && m[k] == x;
            assert(a@[k]@ == x);
        }
    }
    true
}

/// Processes one syscall event: attributes it to a workload and records
/// the display name of its number.  An event whose inode number the
/// registry did not resolve changes nothing.
pub fn process_syscall_event(
    acc: &mut SyscallAccumulator,
    data: &SyscallEventData,
    pod: Option<&PodInspect>,
    resolved: Option<String>,
)
    requires
        old(acc).wf(),
    ensures
        final(acc).wf(),
        final(acc).arch_label == old(acc).arch_label,
        pod is None ==> *final(acc) == *old(acc),
        pod matches Some(p) ==> {
            &&& final(acc).current_set(p.status.pod_name@) == old(acc).current_set(
                p.status.pod_name@,
            ).insert(spec_display_name(resolved, data.sysnbr))
            &&& final(acc).last_sent_set(p.status.pod_name@) == old(acc).last_sent_set(
                p.status.pod_name@,
            )
            &&& forall|q: Seq<char>|
                q != p.status.pod_name@ ==> #[trigger] final(acc).current_set(q) == old(
                    acc,
                ).current_set(q) && final(acc).last_sent_set(q) == old(acc).last_sent_set(q)
        },
{
    match pod {
        Some(pod_data) => {
            let name = syscall_display_name(resolved, data.sysnbr);
            acc.observe(&pod_data.status.pod_name, name);
        },
        None => {},
    }
}

/// One abstract step of a workload's aggregation run: `Some(n)` is one
/// observed syscall displaying as `n` (as `observe` inserts it into the
/// current set), `None` is one flush whose post succeeded followed by the
/// snapshot copy (as `flush_batch` carries the full current set exactly
/// when it differs from the snapshot, and `mark_sent` copies it).  The
/// state is the workload's (current, snapshot, transmitted-union) sets.
pub open spec fn spec_run_step(
    st: (Set<Seq<char>>, Set<Seq<char>>, Set<Seq<char>>),
    step: Option<Seq<char>>,
) -> (Set<Seq<char>>, Set<Seq<char>>, Set<Seq<char>>) {
    match step {
        Some(n) => (st.0.insert(n), st.1, st.2),
        None => if st.0 != st.1 {
            (st.0, st.0, st.2.union(st.0))
        } else {
            st
        },
    }
}

/// The state a run of steps leaves behind, applied in order.
pub open spec fn spec_run(
    st: (Set<Seq<char>>, Set<Seq<char>>, Set<Seq<char>>),
    steps: Seq<Option<Seq<char>>>,
) -> (Set<Seq<char>>, Set<Seq<char>>, Set<Seq<char>>)
    decreases steps.len(),
{
    if steps.len() == 0 {
        st
    } else {
        spec_run(spec_run_step(st, steps[0]), steps.drop_first())
    }
}

/// The names a run observes.
pub open spec fn spec_run_observed(steps: Seq<Option<Seq<char>>>) -> Set<Seq<char>>
    decreases steps.len(),
{
    if steps.len() == 0 {
        Set::empty()
    } else {
        (match steps[0] {
            Some(n) => Set::empty().insert(n),
            None => Set::<Seq<char>>::empty(),
        }).union(spec_run_observed(steps.drop_first()))
    }
}

proof fn lemma_run_push(
    st: (Set<Seq<char>>, Set<Seq<char>>, Set<Seq<char>>),
    steps: Seq<Option<Seq<char>>>,
    x: Option<Seq<char>>,
)
    ensures
        spec_run(st, steps.push(x)) == spec_run_step(spec_run(st, steps), x),
    decreases steps.len(),
{
    if steps.len() == 0 {
        assert(steps.push(x)[0] == x);
        assert(steps.push(x).drop_first() =~= steps);
        assert(spec_run(st, steps.push(x)) == spec_run(spec_run_step(st, x), steps));
        assert(spec_run(spec_run_step(st, x), steps) == spec_run_step(st, x));
        assert(spec_run(st, steps) == st);
    } else {
        assert(steps.push(x)[0] == steps[0]);
        assert(steps.push(x).drop_first() =~= steps.drop_first().push(x));
        assert(spec_run(st, steps.push(x)) == spec_run(spec_run_step(st, steps[0]),
        steps.drop_first().push(x)));
        lemma_run_push(spec_run_step(st, steps[0]), steps.drop_first(), x);
        assert(spec_run(st, steps) == spec_run(spec_run_step(st, steps[0]), steps.drop_first()));
    }
}

proof fn lemma_run_invariant(
    st: (Set<Seq<char>>, Set<Seq<char>>, Set<Seq<char>>),
    steps: Seq<Option<Seq<char>>>,
)
    requires
        st.2.subset_of(st.0),
        st.1.subset_of(st.2),
    ensures
        ({
            let end = spec_run(st, steps);
            &&& end.0 == st.0.union(spec_run_observed(steps))
            &&& end.2.subset_of(end.0)
            &&& end.1.subset_of(end.2)
        }),
    decreases steps.len(),
{
    if steps.len() == 0 {
        assert(spec_run_observed(steps) =~= Set::<Seq<char>>::empty());
        assert(st.0.union(spec_run_observed(steps)) =~= st.0);
    } else {
        let st1 = spec_run_step(st, steps[0]);
        match steps[0] {
            Some(n) => {
                assert(st1.2.subset_of(st1.0));
                assert(st1.1.subset_of(st1.2));
                lemma_run_invariant(st1, steps.drop_first());
                assert(spec_run(st, steps).0 =~= st.0.union(spec_run_observed(steps)));
            },
            None => {
                if st.0 != st.1 {
                    assert(st1.2.subset_of(st1.0));
                    assert(st1.1.subset_of(st1.2));
                } else {
                }
                lemma_run_invariant(st1, steps.drop_first());
                assert(spec_run_observed(steps) =~= spec_run_observed(steps.drop_first()));
                assert(spec_run(st, steps).0 =~= st.0.union(spec_run_observed(steps)));
            },
        }
    }
}

/// Across a workload's whole run, the set of names transmitted equals the
/// set observed: starting from an empty accumulator, after any sequence
/// of observations and successful flushes that ends with a flush, the
/// union of the `syscalls` lists transmitted is exactly the set of
/// display names of the numbers observed for that workload.  Each
/// abstract step is backed by the exact contracts of `observe`,
/// `flush_batch` and `mark_sent`.
pub proof fn lemma_transmitted_union_is_observed(steps: Seq<Option<Seq<char>>>)
    requires
        steps.len() > 0,
        steps.last() is None,
    ensures
        ({
            let empty3 = (Set::<Seq<char>>::empty(), Set::<Seq<char>>::empty(),
            Set::<Seq<char>>::empty());
            spec_run(empty3, steps).2 == spec_run_observed(steps)
        }),
{
    let empty3 = (Set::<Seq<char>>::empty(), Set::<Seq<char>>::empty(),
    Set::<Seq<char>>::empty());
    let pre = steps.drop_last();
    assert(steps =~= pre.push(steps.last()));
    lemma_run_push(empty3, pre, steps.last());
    assert(spec_run(empty3, steps) == spec_run_step(spec_run(empty3, pre), steps.last()));
    lemma_run_invariant(empty3, pre);
    let mid = spec_run(empty3, pre);
    assert(mid.0 =~= spec_run_observed(pre));
    let end = spec_run_step(mid, None);
    if mid.0 != mid.1 {
        assert(end.2 == mid.2.union(mid.0));
        assert(end.2 =~= mid.0);
    } else {
        assert(mid.0.subset_of(mid.2));
        assert(end.2 =~= mid.0);
    }
    // the observed names of the whole run are those of the prefix: the
    // final step observes nothing
    assert(spec_run_observed(pre.push(None)) =~= spec_run_observed(pre)) by {
        lemma_run_observed_push_none(pre);
    }
    assert(spec_run(empty3, steps).2 == spec_run_observed(steps));
}

proof fn lemma_run_observed_push_none(steps: Seq<Option<Seq<char>>>)
    ensures
        spec_run_observed(steps.push(None)) == spec_run_observed(steps),
    decreases steps.len(),
{
    if steps.len() == 0 {
        assert(steps.push(None)[0] == Option::<Seq<char>>::None);
        assert(steps.push(None).drop_first() =~= steps);
        assert(spec_run_observed(steps.push(None)) =~= spec_run_observed(steps));
    } else {
        assert(steps.push(None)[0] == steps[0]);
        assert(steps.push(None).drop_first() =~= steps.drop_first().push(None));
        lemma_run_observed_push_none(steps.drop_first());
        assert(spec_run_observed(steps.push(None)) =~= spec_run_observed(steps));
    }
}

/// The set a current set becomes after a run of observations, one name
/// inserted per step.
pub open spec fn spec_apply_observations(s0: Set<Seq<char>>, obs: Seq<Seq<char>>) -> Set<Seq<char>>
    decreases obs.len(),
{
    if obs.len() == 0 {
        s0
    } else {
        spec_apply_observations(s0, obs.drop_last()).insert(obs.last())
    }
}

/// Over any run of observations a workload's current set accumulates
/// exactly the names observed: the set after the run is the set before,
/// joined with every observed name.  Each `observe` step inserts the
/// display name of the observed number, so the set a flush transmits for
/// a workload is the set of display names of the numbers observed for it.
pub proof fn lemma_observed_names_accumulate(s0: Set<Seq<char>>, obs: Seq<Seq<char>>)
    ensures
        spec_apply_observations(s0, obs) == s0.union(obs.to_set()),
    decreases obs.len(),
{
    if obs.len() == 0 {
        assert(obs.to_set() =~= Set::<Seq<char>>::empty()) by {
            assert forall|a: Seq<char>| !(#[trigger] obs.to_set().contains(a)) by {
                if obs.contains(a) {
                    let k = choose|k: int| 0 <= k < obs.len() && obs[k] == a;
                }
            }
        }
        assert(spec_apply_observations(s0, obs) =~= s0.union(obs.to_set()));
    } else {
        lemma_observed_names_accumulate(s0, obs.drop_last());
        assert(obs.to_set() =~= obs.drop_last().to_set().insert(obs.last())) by {
            assert forall|a: Seq<char>| #[trigger] obs.to_set().contains(a) implies obs.drop_last()
                .to_set().insert(obs.last()).contains(a) by {
                let k = choose|k: int| 0 <= k < obs.len() && obs[k] == a;
                if k < obs.len() - 1 {
                    assert(obs.drop_last()[k] == a);
                    assert(obs.drop_last().contains(a));
                }
            }
            assert forall|a: Seq<char>| #[trigger] obs.drop_last().to_set().insert(
                obs.last(),
            ).contains(a) implies obs.to_set().contains(a) by {
                if obs.drop_last().to_set().contains(a) {
                    let k = choose|k: int|
                        0 <= k < obs.drop_last().len() && obs.drop_last()[k] == a;
                    assert(obs[k] == a);
                } else {
                    assert(obs[obs.len() - 1] == a);
                }
            }
        }
        assert(spec_apply_observations(s0, obs) =~= s0.union(obs.to_set()));
    }
}

} // verus!

//! The workload registry — the live mapping from PID-namespace inode to
//! workload record — together with the model of the kernel filter map it
//! must stay in step with, and the non-blocking probe channel.

use vstd::prelude::*;
use std::collections::HashMap;
use crate::model::PodInspect;

verus! {

broadcast use vstd::std_specs::hash::group_hash_axioms;

/// The registry: one writer, the watcher; read by the classifiers.  The
/// PID-namespace inode is the sole key that attributes kernel events.
pub struct WorkloadRegistry {
    map: HashMap<u64, PodInspect>,
}

impl WorkloadRegistry {
    /// The mapping the registry holds.
    pub closed spec fn view(&self) -> Map<u64, PodInspect> {
        self.map@
    }

    /// An empty registry.
    pub fn new() -> (r: WorkloadRegistry)
        ensures
            r@ == Map::<u64, PodInspect>::empty(),
    {
        WorkloadRegistry { map: HashMap::new() }
    }

    /// Inserts one workload under its inode number; an existing record for
    /// that inode is replaced.
    pub fn insert(&mut self, inum: u64, pod: PodInspect)
        ensures
            final(self)@ == old(self)@.insert(inum, pod),
    {
        self.map.insert(inum, pod);
    }

    /// Looks a workload up by inode number.
    pub fn get(&self, inum: u64) -> (r: Option<&PodInspect>)
        ensures
            match r {
                Some(p) => self@.contains_key(inum) && *p == self@[inum],
                None => !self@.contains_key(inum),
            },
    {
        self.map.get(&inum)
    }

    /// Whether an inode number is known.
    pub fn contains(&self, inum: u64) -> (r: bool)
        ensures
            r == self@.contains_key(inum),
    {
        self.map.contains_key(&inum)
    }

    /// The number of workloads held.
    pub fn len(&self) -> (r: usize)
        ensures
            r == self@.len(),
    {
        self.map.len()
    }

    /// Destroys a workload's record when it disappears from the watch
    /// stream; removing an unknown inode changes nothing.
    pub fn remove(&mut self, inum: u64) -> (r: Option<PodInspect>)
        ensures
            final(self)@ == old(self)@.remove(inum),
            match r {
                Some(p) => old(self)@.contains_key(inum) && p == old(self)@[inum],
                None => !old(self)@.contains_key(inum),
            },
    {
        self.map.remove(&inum)
    }
}

/// Re-applying the same workload watch event is a no-op: inserting the
/// same record under the same inode a second time leaves the registry
/// exactly as the first insertion left it.
pub proof fn lemma_register_idempotent(m: Map<u64, PodInspect>, inum: u64, pod: PodInspect)
    ensures
        m.insert(inum, pod).insert(inum, pod) == m.insert(inum, pod),
{
    assert(m.insert(inum, pod).insert(inum, pod) =~= m.insert(inum, pod));
}

/// The model of the kernel filter map and the channel that feeds it: the
/// inode numbers published by the watcher but not yet written (`pending`,
/// in order), and those already written to the kernel map (`applied`).
/// The poll loop drains `pending` front first and writes each inode to
/// both probe programs' filter maps.
pub struct InumFilterState {
    pub pending: Vec<u64>,
    pub applied: Vec<u64>,
}

impl InumFilterState {
    /// A fresh state: nothing published, nothing written.
    pub fn new() -> (r: InumFilterState)
        ensures
            r.pending@ == Seq::<u64>::empty(),
            r.applied@ == Seq::<u64>::empty(),
    {
        InumFilterState { pending: Vec::new(), applied: Vec::new() }
    }

    /// Publishes an inode number for the kernel filter.
    pub fn publish(&mut self, inum: u64)
        ensures
            final(self).pending@ == old(self).pending@.push(inum),
            final(self).applied@ == old(self).applied@,
    {
        self.pending.push(inum);
    }

    /// Takes the oldest published inode and records it as written; the
    /// caller performs the kernel map update for it.  Nothing changes when
    /// nothing is pending.
    pub fn drain_one(&mut self) -> (r: Option<u64>)
        ensures
            match r {
                Some(inum) => old(self).pending@.len() > 0 && inum == old(self).pending@[0]
                    && final(self).pending@ == old(self).pending@.drop_first()
                    && final(self).applied@ == old(self).applied@.push(inum),
                None => old(self).pending@.len() == 0 && *final(self) == *old(self),
            },
    {
        if self.pending.len() == 0 {
            return None;
        }
        let inum = self.pending.remove(0);
        proof {
            assert(old(self).pending@.subrange(1, old(self).pending@.len() as int)
                =~= old(self).pending@.drop_first());
        }
        self.applied.push(inum);
        Some(inum)
    }
}

/// Whether the filter state covers a registry: every registered inode is
/// either already written to the kernel map or still queued for it.
pub open spec fn covers(reg: Map<u64, PodInspect>, fs: InumFilterState) -> bool {
    forall|inum: u64|
        #[trigger] reg.contains_key(inum) ==> fs.applied@.contains(inum) || fs.pending@.contains(
            inum,
        )
}

/// Registering a workload and publishing its inode together preserve
/// coverage: the new inode is queued, everything else stays covered.
pub proof fn lemma_coverage_register(
    reg: Map<u64, PodInspect>,
    fs0: InumFilterState,
    fs1: InumFilterState,
    inum: u64,
    pod: PodInspect,
)
    requires
        covers(reg, fs0),
        fs1.pending@ == fs0.pending@.push(inum),
        fs1.applied@ == fs0.applied@,
    ensures
        covers(reg.insert(inum, pod), fs1),
{
    assert forall|i: u64| #[trigger] reg.insert(inum, pod).contains_key(i) implies fs1.applied@
        .contains(i) || fs1.pending@.contains(i) by {
        if i == inum {
            assert(fs1.pending@[fs1.pending@.len() - 1] == inum);
        } else {
            assert(reg.contains_key(i));
            if fs0.pending@.contains(i) {
                let k = choose|k: int| 0 <= k < fs0.pending@.len() && fs0.pending@[k] == i;
                assert(fs1.pending@[k] == i);
            }
        }
    }
}

/// Each drain step preserves coverage: the drained inode moves from the
/// queue to the kernel map, everything else stays where it was.
pub proof fn lemma_coverage_drain(reg: Map<u64, PodInspect>, fs0: InumFilterState, fs1: InumFilterState)
    requires
        covers(reg, fs0),
        fs0.pending@.len() > 0,
        fs1.pending@ == fs0.pending@.drop_first(),
        fs1.applied@ == fs0.applied@.push(fs0.pending@[0]),
    ensures
        covers(reg, fs1),
{
    assert forall|i: u64| #[trigger] reg.contains_key(i) implies fs1.applied@.contains(i)
        || fs1.pending@.contains(i) by {
        if fs0.applied@.contains(i) {
            let k = choose|k: int| 0 <= k < fs0.applied@.len() && fs0.applied@[k] == i;
            assert(fs1.applied@[k] == i);
        } else {
            assert(fs0.pending@.contains(i));
            let k = choose|k: int| 0 <= k < fs0.pending@.len() && fs0.pending@[k] == i;
            if k == 0 {
                assert(fs1.applied@[fs1.applied@.len() - 1] == i);
            } else {
                assert(fs1.pending@[k - 1] == i);
            }
        }
    }
}

/// Once the queue is drained, every workload in the registry has been
/// written to the kernel filter map: an event for a registered inode can
/// then only be one the kernel filter admitted.
pub proof fn lemma_coverage_complete(reg: Map<u64, PodInspect>, fs: InumFilterState)
    requires
        covers(reg, fs),
        fs.pending@.len() == 0,
    ensures
        forall|inum: u64| #[trigger] reg.contains_key(inum) ==> fs.applied@.contains(inum),
{
}


/// Registers one workload: inserts its record under its inode number and
/// publishes the inode for the kernel filter, in one step.  Coverage of
/// the registry by the filter state is preserved: the inode is queued
/// before any event for it can be admitted.
pub fn register_workload(
    reg: &mut WorkloadRegistry,
    fs: &mut InumFilterState,
    inum: u64,
    pod: PodInspect,
)
    ensures
        final(reg)@ == old(reg)@.insert(inum, pod),
        final(fs).pending@ == old(fs).pending@.push(inum),
        final(fs).applied@ == old(fs).applied@,
        covers(old(reg)@, *old(fs)) ==> covers(final(reg)@, *final(fs)),
{
    let ghost reg0 = reg@;
    let ghost fs0 = *fs;
    let ghost pod_g = pod;
    reg.insert(inum, pod);
    fs.publish(inum);
    proof {
        if covers(reg0, fs0) {
            lemma_coverage_register(reg0, fs0, *fs, inum, pod_g);
        }
    }
}

/// The model of one bounded probe-to-userspace channel: how many events
/// it holds, its bound, and how many were dropped at the full mark.  The
/// probe thread never blocks on it: an event offered to a full channel is
/// dropped and counted.
pub struct BoundedQueueModel {
    pub capacity: usize,
    pub len: usize,
    pub dropped: u64,
}

impl BoundedQueueModel {
    /// A fresh channel model with the given bound.
    pub fn new(capacity: usize) -> (r: BoundedQueueModel)
        ensures
            r.capacity == capacity,
            r.len == 0,
            r.dropped == 0,
    {
        BoundedQueueModel { capacity, len: 0, dropped: 0 }
    }

    /// Offers one event: accepted exactly when the channel has room;
    /// otherwise the event is dropped and the drop counter grows.  The
    /// decision is total — the poll loop never waits.
    pub fn offer(&mut self) -> (accepted: bool)
        ensures
            accepted == (old(self).len < old(self).capacity),
            final(self).capacity == old(self).capacity,
            accepted ==> final(self).len == old(self).len + 1 && final(self).dropped == old(
                self,
            ).dropped,
            !accepted ==> final(self).len == old(self).len && final(self).dropped == (if old(
                self,
            ).dropped < u64::MAX {
                old(self).dropped + 1
            } else {
                old(self).dropped as int
            }),
    {
        if self.len < self.capacity {
            self.len = self.len + 1;
            true
        } else {
            if self.dropped < u64::MAX {
                self.dropped = self.dropped + 1;
            }
            false
        }
    }

    /// Takes one event off the channel.
    pub fn take(&mut self)
        requires
            old(self).len > 0,
        ensures
            final(self).capacity == old(self).capacity,
            final(self).len == old(self).len - 1,
            final(self).dropped == old(self).dropped,
    {
        self.len = self.len - 1;
    }
}

} // verus!

//! The concurrent stress driver's verified core.  Each task issues
//! exactly one maximum-size put against its own session; the driver
//! returns only once every task has reported completion.  The tasks
//! themselves are scheduled by an outer, unverified driver that owns the
//! threads; this module fixes what each task sends and accounts for the
//! join barrier.

use vstd::prelude::*;
use crate::message::PutKvRequest;
use crate::message::create_put_kv_request;

verus! {

/// Builds the one put request a stress task issues: fresh random
/// payloads of the maximum key and value sizes.
pub fn stress_task_request() -> (r: PutKvRequest)
    ensures
        r.entry.key@.len() == crate::MAX_KEY_SIZE,
        r.entry.value@.len() == crate::MAX_VALUE_SIZE,
        r.entry.wf(),
{
    create_put_kv_request(crate::MAX_KEY_SIZE, crate::MAX_VALUE_SIZE)
}

/// Accounting for the join barrier: of the `total` spawned tasks, how
/// many have issued their put and how many have reported completion.
/// A task issues its put before it can complete.
pub struct StressTracker {
    pub total: usize,
    pub issued: usize,
    pub completed: usize,
}

impl StressTracker {
    /// A task completes only after issuing its put, and there are never
    /// more puts than tasks.
    pub open spec fn wf(self) -> bool {
        self.completed <= self.issued <= self.total
    }

    /// Every task has completed.
    pub open spec fn all_done(self) -> bool {
        self.completed == self.total
    }

    /// A tracker for `total` tasks, none of them started yet.
    pub fn new(total: usize) -> (t: StressTracker)
        ensures
            t.wf(),
            t.total == total,
            t.issued == 0,
            t.completed == 0,
    {
        StressTracker { total, issued: 0, completed: 0 }
    }

    /// Records that one more task has issued its put.
    pub fn task_issued(&mut self)
        requires
            old(self).wf(),
            old(self).issued < old(self).total,
        ensures
            final(self).wf(),
            final(self).total == old(self).total,
            final(self).issued == old(self).issued + 1,
            final(self).completed == old(self).completed,
    {
        self.issued = self.issued + 1;
    }

    /// Records that one more task has completed.
    pub fn task_completed(&mut self)
        requires
            old(self).wf(),
            old(self).completed < old(self).issued,
        ensures
            final(self).wf(),
            final(self).total == old(self).total,
            final(self).issued == old(self).issued,
            final(self).completed == old(self).completed + 1,
    {
        self.completed = self.completed + 1;
    }

    /// Whether the driver may return.
    pub fn is_done(&self) -> (r: bool)
        ensures
            r == self.all_done(),
    {
        self.completed == self.total
    }
}

/// The join barrier: a driver over `n` tasks is done exactly when all
/// `n` completions are in, whatever order they arrived in; and once it
/// is done, exactly `n` puts have been issued.
pub proof fn lemma_join_barrier(t: StressTracker, n: usize)
    requires
        t.wf(),
        t.total == n,
    ensures
        t.all_done() <==> t.completed == n,
        t.all_done() ==> t.issued == n,
{
}

} // verus!

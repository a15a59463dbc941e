//! The threads that wait for work.

use vstd::prelude::*;

verus! {

/// The workers that wait, by number; the one that waits longest stands first.
pub struct WorkerPool {
    pub idle: Vec<i64>,
}

impl WorkerPool {
    /// Every worker waits once.
    pub open spec fn wf(&self) -> bool {
        self.idle@.no_duplicates()
    }

    /// No workers.
    pub fn new() -> (r: WorkerPool)
        ensures
            r.wf(),
            r.idle@ == Seq::<i64>::empty(),
    {
        WorkerPool { idle: Vec::new() }
    }

    /// The worker that gets a piece of work: the one that waits longest. `None` asks
    /// for a new one.
    pub fn submit(&mut self) -> (r: Option<i64>)
        requires
            old(self).wf(),
        ensures
            final(self).wf(),
            old(self).idle@.len() == 0 ==> r is None && final(self).idle@ == old(self).idle@,
            old(self).idle@.len() > 0 ==> r == Some(old(self).idle@[0]) && final(self).idle@
                == old(self).idle@.drop_first(),
    {
        if self.idle.len() == 0 {
            return None;
        }
        let worker: i64 = self.idle.remove(0);
        assert(self.idle@ =~= old(self).idle@.drop_first());
        Some(worker)
    }

    /// Notes that a worker has done its work and waits.
    pub fn rests(&mut self, worker: i64)
        requires
            old(self).wf(),
            !old(self).idle@.contains(worker),
        ensures
            final(self).wf(),
            final(self).idle@ == old(self).idle@.push(worker),
    {
        self.idle.push(worker);
    }
}

/// A worker that got a piece of work gets no other one before it has waited again.
pub proof fn law_worker_has_one_piece_of_work(idle: Seq<i64>)
    requires
        idle.no_duplicates(),
        idle.len() > 0,
    ensures
        !idle.drop_first().contains(idle[0]),
{
}

} // verus!

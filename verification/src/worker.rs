//! The work of one worker, and how the reports of all workers add up.

use vstd::prelude::*;

verus! {

/// Asks `num_cpus::get` for the number of logical cores that this process may
/// use. The number depends on the machine, so nothing is claimed of it.
#[verifier::external_body]
fn logical_cores() -> usize {
    num_cpus::get()
}

/// The number of workers for a machine with `cores` cores: one for each core,
/// and one if no core is known.
pub open spec fn workers_for(cores: nat) -> nat {
    if cores == 0 {
        1
    } else {
        cores
    }
}

/// The number of workers for a machine with `cores` cores.
pub fn workers_for_cores(cores: usize) -> (workers: usize)
    ensures
        workers == workers_for(cores as nat),
{
    if cores == 0 {
        1
    } else {
        cores
    }
}

/// The number of workers for this machine: one for each core it offers, and
/// at least one.
pub fn worker_count() -> (workers: usize)
    ensures
        workers >= 1,
{
    workers_for_cores(logical_cores())
}

/// The state of a worker that unpacks the entries of one range in ascending
/// order, as plain values.
pub struct WorkerRunView<E> {
    /// The index of the first entry of the range.
    pub start: nat,
    /// The index of the entry that is unpacked next.
    pub next: nat,
    /// The index behind the last entry of the range.
    pub end: nat,
    /// The failure that stopped the worker, if one did.
    pub failure: Option<E>,
}

impl<E> WorkerRunView<E> {
    /// The entries of the range lie before `end`, the worker is inside its
    /// range, and a worker that was stopped has left an entry undone.
    pub open spec fn wf(self) -> bool {
        &&& self.start <= self.next <= self.end
        &&& self.failure is Some ==> self.next < self.end
    }

    /// The entry to unpack next: none once the worker has failed or has come
    /// to the end of its range.
    pub open spec fn pending(self) -> Option<nat> {
        if self.failure is None && self.next < self.end {
            Some(self.next)
        } else {
            None
        }
    }

    /// The number of entries that the worker has written.
    pub open spec fn written(self) -> nat {
        (self.next - self.start) as nat
    }

    /// The state after the pending entry came out as `outcome`: a written
    /// entry is counted and the next one becomes pending, a failure stops the
    /// worker where it is. With no entry pending nothing changes.
    pub open spec fn after(self, outcome: Result<(), E>) -> Self {
        if self.pending() is None {
            self
        } else {
            match outcome {
                Ok(_) => WorkerRunView { next: self.next + 1, ..self },
                Err(error) => WorkerRunView { failure: Some(error), ..self },
            }
        }
    }

    /// What the worker reports: the failure that stopped it, or else the
    /// number of entries it has written.
    pub open spec fn report(self) -> Result<usize, E> {
        match self.failure {
            Some(error) => Err(error),
            None => Ok(self.written() as usize),
        }
    }

    /// The state after the entries came out as `outcomes`, one after the
    /// other.
    pub open spec fn after_all(self, outcomes: Seq<Result<(), E>>) -> Self
        decreases outcomes.len(),
    {
        if outcomes.len() == 0 {
            self
        } else {
            self.after_all(outcomes.drop_last()).after(outcomes.last())
        }
    }

    /// An outcome leaves the worker well-formed and in its range, and never
    /// takes back what was written.
    pub proof fn lemma_after_keeps_wf(self, outcome: Result<(), E>)
        requires
            self.wf(),
        ensures
            self.after(outcome).wf(),
            self.after(outcome).start == self.start,
            self.after(outcome).end == self.end,
            self.written() <= self.after(outcome).written() <= self.written() + 1,
    {
    }

    /// A worker that has failed has stopped: nothing is pending, it has left
    /// at least one entry of its range unwritten, it reports its failure, and
    /// no later outcome changes it.
    pub proof fn lemma_failed_worker_has_stopped(self, outcome: Result<(), E>)
        requires
            self.wf(),
            self.failure is Some,
        ensures
            self.pending() is None,
            self.written() < self.end - self.start,
            self.report() == Err::<usize, E>(self.failure->0),
            self.after(outcome) == self,
    {
    }

    /// A worker reports no more entries than its range holds, and a failure
    /// only where its range holds an entry.
    pub proof fn lemma_report_fits_range(self)
        requires
            self.wf(),
            self.end <= usize::MAX,
        ensures
            match self.report() {
                Ok(count) => count == self.written() && count <= self.end - self.start,
                Err(_) => self.end - self.start > 0,
            },
    {
    }

    /// While its entries are written, the worker goes through its range in
    /// ascending order and counts each entry.
    pub proof fn lemma_run_of_successes(self, outcomes: Seq<Result<(), E>>)
        requires
            self.wf(),
            self.failure is None,
            self.next + outcomes.len() <= self.end,
            forall|i: int| 0 <= i < outcomes.len() ==> (#[trigger] outcomes[i]) is Ok,
        ensures
            self.after_all(outcomes) == (WorkerRunView { next: self.next + outcomes.len(), ..self }),
        decreases outcomes.len(),
    {
        if outcomes.len() > 0 {
            self.lemma_run_of_successes(outcomes.drop_last());
        }
    }

    /// The first failure stops the worker at the entry that failed: the
    /// entries before it stay written, the failure is kept, and whatever
    /// outcomes follow change nothing.
    pub proof fn lemma_run_stops_at_failure(self, outcomes: Seq<Result<(), E>>, failed: int)
        requires
            self.wf(),
            self.failure is None,
            0 <= failed < outcomes.len(),
            self.next + failed < self.end,
            outcomes[failed] is Err,
            forall|i: int| 0 <= i < failed ==> (#[trigger] outcomes[i]) is Ok,
        ensures
            self.after_all(outcomes) == (WorkerRunView {
                next: self.next + failed as nat,
                failure: Some(outcomes[failed]->Err_0),
                ..self
            }),
        decreases outcomes.len(),
    {
        if failed == outcomes.len() - 1 {
            self.lemma_run_of_successes(outcomes.drop_last());
        } else {
            self.lemma_run_stops_at_failure(outcomes.drop_last(), failed);
        }
    }
}

/// A worker that unpacks the entries of one range in ascending order and
/// stops at the first failure.
pub struct WorkerRun<E> {
    start: usize,
    next: usize,
    end: usize,
    failure: Option<E>,
}

impl<E> View for WorkerRun<E> {
    type V = WorkerRunView<E>;

    closed spec fn view(&self) -> WorkerRunView<E> {
        WorkerRunView {
            start: self.start as nat,
            next: self.next as nat,
            end: self.end as nat,
            failure: self.failure,
        }
    }
}

impl<E> WorkerRun<E> {
    #[verifier::type_invariant]
    spec fn inv(self) -> bool {
        self@.wf()
    }

    /// A worker for the entries from `start` up to, not including, `end`.
    /// With `end` before `start` the range is empty.
    pub fn new(start: usize, end: usize) -> (run: Self)
        ensures
            run@ == (WorkerRunView::<E> {
                start: start as nat,
                next: start as nat,
                end: if start <= end {
                    end as nat
                } else {
                    start as nat
                },
                failure: None,
            }),
    {
        let end: usize = if start <= end {
            end
        } else {
            start
        };
        WorkerRun { start, next: start, end, failure: None }
    }

    /// The index of the entry to unpack next, if the worker has one left.
    pub fn pending(&self) -> (index: Option<usize>)
        ensures
            self@.wf(),
            index.is_some() == self@.pending().is_some(),
            index matches Some(i) ==> self@.pending() == Some(i as nat),
    {
        proof {
            use_type_invariant(self);
        }
        if self.failure.is_none() && self.next < self.end {
            Some(self.next)
        } else {
            None
        }
    }

    /// The number of entries written so far.
    pub fn written(&self) -> (count: usize)
        ensures
            self@.wf(),
            count == self@.written(),
    {
        proof {
            use_type_invariant(self);
        }
        self.next - self.start
    }

    /// Takes note of how the pending entry came out.
    pub fn record(&mut self, outcome: Result<(), E>)
        ensures
            final(self)@ == old(self)@.after(outcome),
            final(self)@.wf(),
    {
        proof {
            use_type_invariant(&*self);
        }
        if self.failure.is_none() && self.next < self.end {
            match outcome {
                Ok(_) => {
                    self.next = self.next + 1;
                },
                Err(error) => {
                    self.failure = Some(error);
                },
            }
        }
    }

    /// Ends the run: the failure that stopped the worker, or else the number
    /// of entries it has written.
    pub fn report(self) -> (report: Result<usize, E>)
        ensures
            self@.wf(),
            report == self@.report(),
    {
        proof {
            use_type_invariant(&self);
        }
        match self.failure {
            Some(error) => Err(error),
            None => Ok(self.next - self.start),
        }
    }
}

} // verus!

//! The concurrency controller: an admission counter that bounds how many table
//! copies run at once, and the outcome of the fan-out.

use crate::model::DbError;
use vstd::prelude::*;

verus! {

/// The number of table copies that may run at once.
pub const WORKER_LIMIT: usize = 4;

/// The admission counter of one fan-out over a list of table jobs. Jobs are admitted in
/// list order and finish in any order.
pub struct FanOut {
    total: usize,
    admitted: usize,
    finished: usize,
    first_error: Option<DbError>,
}

impl FanOut {
    /// The number of jobs.
    pub closed spec fn total(&self) -> nat {
        self.total as nat
    }

    /// The jobs admitted so far.
    pub closed spec fn admitted(&self) -> nat {
        self.admitted as nat
    }

    /// The jobs that have finished.
    pub closed spec fn finished(&self) -> nat {
        self.finished as nat
    }

    /// The first error that a finished job brought, if any did.
    pub closed spec fn first_error(&self) -> Option<DbError> {
        self.first_error
    }

    /// The jobs that are running: admitted and not finished.
    pub open spec fn in_flight(&self) -> int {
        self.admitted() - self.finished()
    }

    /// The bound holds: no more jobs run at once than the worker limit, and
    /// no job finishes before it is admitted or is admitted twice.
    pub open spec fn wf(&self) -> bool {
        &&& self.finished() <= self.admitted() <= self.total()
        &&& self.in_flight() <= WORKER_LIMIT
    }

    /// A controller over `total` jobs, none admitted.
    pub fn new(total: usize) -> (ctl: FanOut)
        ensures
            ctl.wf(),
            ctl.total() == total,
            ctl.admitted() == 0,
            ctl.finished() == 0,
            ctl.first_error() is None,
    {
        FanOut { total, admitted: 0, finished: 0, first_error: None }
    }

    /// The number of jobs running.
    pub fn running(&self) -> (n: usize)
        requires
            self.wf(),
        ensures
            n == self.in_flight(),
    {
        self.admitted - self.finished
    }

    /// Admits the next job of the list if a worker is free and a job is
    /// left, and gives its index.
    pub fn admit_next(&mut self) -> (index: Option<usize>)
        requires
            old(self).wf(),
        ensures
            final(self).wf(),
            final(self).total() == old(self).total(),
            final(self).finished() == old(self).finished(),
            final(self).first_error() == old(self).first_error(),
            index is Some <==> old(self).in_flight() < WORKER_LIMIT && old(self).admitted() < old(
                self,
            ).total(),
            index is Some ==> index->Some_0 == old(self).admitted() && final(self).admitted()
                == old(self).admitted() + 1,
            index is None ==> final(self).admitted() == old(self).admitted(),
            final(self).in_flight() <= WORKER_LIMIT,
    {
        if self.admitted - self.finished < WORKER_LIMIT && self.admitted < self.total {
            let index = self.admitted;
            self.admitted = self.admitted + 1;
            Some(index)
        } else {
            None
        }
    }

    /// Records that a running job finished with `result`. Its worker is
    /// free again; an error is kept if it is the first. The other jobs go
    /// on: nothing is cancelled or undone.
    pub fn finish(&mut self, result: Result<(), DbError>)
        requires
            old(self).wf(),
        ensures
            final(self).wf(),
            final(self).total() == old(self).total(),
            final(self).admitted() == old(self).admitted(),
            final(self).finished() == if old(self).in_flight() > 0 {
                old(self).finished() + 1
            } else {
                old(self).finished()
            },
            final(self).first_error() == if old(self).first_error() is None && result is Err {
                Some(result->Err_0)
            } else {
                old(self).first_error()
            },
            result is Err ==> final(self).first_error() is Some,
            old(self).first_error() is Some ==> final(self).first_error() == old(self).first_error(),
            final(self).in_flight() <= WORKER_LIMIT,
    {
        if self.finished < self.admitted {
            self.finished = self.finished + 1;
        }
        if self.first_error.is_none() {
            match result {
                Err(e) => {
                    self.first_error = Some(e);
                },
                Ok(_) => {},
            }
        }
    }

    /// Whether every job has finished.
    pub fn is_drained(&self) -> (r: bool)
        ensures
            r == (self.finished() == self.total()),
    {
        self.finished == self.total
    }

    /// The outcome of the fan-out: the first error that a finished job
    /// brought, or success if none brought one.
    pub fn outcome(&self) -> (r: Result<(), DbError>)
        ensures
            r is Err <==> self.first_error() is Some,
            r is Err ==> r->Err_0 == self.first_error()->Some_0,
    {
        match &self.first_error {
            Some(e) => Err(e.duplicate()),
            None => Ok(()),
        }
    }
}

/// The index of the first error among the results, or their number if all
/// succeeded.
pub open spec fn first_failure(results: Seq<Result<(), DbError>>) -> int
    decreases results.len(),
{
    if results.len() == 0 {
        0
    } else {
        let before = first_failure(results.drop_last());
        if before < results.len() - 1 {
            before
        } else if results.last() is Err {
            results.len() - 1
        } else {
            results.len() as int
        }
    }
}

/// `first_failure` is the least index of an error.
pub proof fn lemma_first_failure(results: Seq<Result<(), DbError>>)
    ensures
        0 <= first_failure(results) <= results.len(),
        first_failure(results) < results.len() ==> results[first_failure(results)] is Err,
        forall|j: int| 0 <= j < first_failure(results) ==> results[j] is Ok,
    decreases results.len(),
{
    if results.len() > 0 {
        lemma_first_failure(results.drop_last());
        assert(forall|j: int| 0 <= j < results.len() - 1 ==> results.drop_last()[j] == results[j]);
    }
}

/// The outcome of a fan-out from the results of its jobs in the order in
/// which they finished: the first error, or success if there is none.
pub fn drain(results: &Vec<Result<(), DbError>>) -> (r: Result<(), DbError>)
    ensures
        r is Ok <==> first_failure(results@) == results@.len(),
        r is Err ==> r->Err_0 == results@[first_failure(results@)]->Err_0,
        r is Ok <==> forall|j: int| 0 <= j < results@.len() ==> results@[j] is Ok,
{
    let mut i: usize = 0;
    proof {
        lemma_first_failure(results@);
    }
    while i < results.len()
        invariant
            i <= results.len(),
            forall|j: int| 0 <= j < i ==> results@[j] is Ok,
            i <= first_failure(results@) <= results@.len(),
            first_failure(results@) < results@.len() ==> results@[first_failure(results@)] is Err,
            forall|j: int| 0 <= j < first_failure(results@) ==> results@[j] is Ok,
        decreases results.len() - i,
    {
        match &results[i] {
            Err(e) => {
                return Err(e.duplicate());
            },
            Ok(_) => {},
        }
        i += 1;
    }
    Ok(())
}

} // verus!

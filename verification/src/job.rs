//! The jobs that the indexer works on.
use vstd::prelude::*;

use crate::interval;
use crate::operation;

verus! {

/// An interval whose operations are to be fetched.
#[derive(Debug, Clone, Copy, PartialEq, Eq)]
pub struct Job {
    pub interval: interval::Model,
}

/// An operation whose stages are to be fetched.
#[derive(Debug, PartialEq, Eq)]
pub struct OperationJob {
    pub operation: operation::Model,
}

/// A job of either kind.
#[derive(Debug, PartialEq, Eq)]
pub enum IndexerJob {
    Interval(Job),
    Operation(OperationJob),
}

/// The order in which intervals are taken.
#[derive(Debug, Clone, Copy, PartialEq, Eq)]
pub enum OrderDirection {
    /// From newest to oldest, for new jobs.
    Descending,
    /// From oldest to newest, for catching up.
    Ascending,
}

impl Clone for OperationJob {
    fn clone(&self) -> (copy: OperationJob)
        ensures
            copy.operation@ == self.operation@,
    {
        OperationJob { operation: self.operation.clone() }
    }
}

impl Clone for IndexerJob {
    fn clone(&self) -> (copy: IndexerJob)
        ensures
            (match (*self, copy) {
                (IndexerJob::Interval(a), IndexerJob::Interval(b)) => a == b,
                (IndexerJob::Operation(a), IndexerJob::Operation(b)) => a.operation@
                    == b.operation@,
                _ => false,
            }),
    {
        match self {
            IndexerJob::Interval(job) => IndexerJob::Interval(*job),
            IndexerJob::Operation(job) => IndexerJob::Operation(job.clone()),
        }
    }
}

} // verus!

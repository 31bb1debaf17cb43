//! The reaper: the periodic task that sweeps the store, as a machine that
//! says what to do next.

use crate::store::StoreError;
use vstd::prelude::*;

verus! {

/// The seconds between two sweeps unless another interval is chosen: one
/// hour.
pub const DEFAULT_SWEEP_INTERVAL: u64 = 3600;

/// What the reaper says of a sweep.
#[derive(Clone, Copy, Debug, PartialEq, Eq, Structural)]
pub enum Report {
    /// The sweep found no expired object. This is no error.
    NothingExpired,
    /// The sweep removed this many objects.
    Pruned(usize),
    /// The sweep failed. The reaper goes on.
    Failed(StoreError),
}

/// What has just happened to the reaper.
#[derive(Clone, Copy, Debug, PartialEq, Eq)]
pub enum Event {
    /// The reaper was started.
    Started,
    /// The interval has passed.
    Slept,
    /// A sweep has ended, with its count or its error.
    Swept(Result<usize, StoreError>),
    /// The report was made.
    Told,
}

/// What the reaper does next.
#[derive(Clone, Copy, Debug, PartialEq, Eq, Structural)]
pub enum Action {
    /// Wait for this many seconds.
    Sleep(u64),
    /// Sweep the store.
    Sweep,
    /// Report how the sweep ended.
    Tell(Report),
}

/// The report on a sweep that ended with `outcome`.
pub open spec fn report_of(outcome: Result<usize, StoreError>) -> Report {
    match outcome {
        Ok(count) => if count == 0 {
            Report::NothingExpired
        } else {
            Report::Pruned(count)
        },
        Err(error) => Report::Failed(error),
    }
}

/// The reaper's round: it waits for the interval, sweeps, reports, and waits
/// again. It starts by waiting, and no event ends it.
pub open spec fn next_action(interval: u64, event: Event) -> Action {
    match event {
        Event::Started => Action::Sleep(interval),
        Event::Slept => Action::Sweep,
        Event::Swept(outcome) => Action::Tell(report_of(outcome)),
        Event::Told => Action::Sleep(interval),
    }
}

/// The periodic sweeper of a store.
#[derive(Clone, Copy, Debug, PartialEq, Eq, Structural)]
pub struct Reaper {
    /// The seconds between two sweeps.
    pub interval: u64,
}

impl Reaper {
    /// A reaper that sweeps every `interval` seconds.
    pub fn new(interval: u64) -> (reaper: Reaper)
        ensures
            reaper.interval == interval,
    {
        Reaper { interval }
    }

    /// A reaper that sweeps once an hour.
    pub fn hourly() -> (reaper: Reaper)
        ensures
            reaper.interval == DEFAULT_SWEEP_INTERVAL,
    {
        Reaper { interval: DEFAULT_SWEEP_INTERVAL }
    }

    /// The report on a sweep that ended with `outcome`.
    pub fn report(outcome: Result<usize, StoreError>) -> (report: Report)
        ensures
            report == report_of(outcome),
    {
        match outcome {
            Ok(0) => Report::NothingExpired,
            Ok(count) => Report::Pruned(count),
            Err(error) => Report::Failed(error),
        }
    }

    /// What to do after `event`.
    pub fn next(&self, event: Event) -> (action: Action)
        ensures
            action == next_action(self.interval, event),
    {
        match event {
            Event::Started => Action::Sleep(self.interval),
            Event::Slept => Action::Sweep,
            Event::Swept(outcome) => Action::Tell(Reaper::report(outcome)),
            Event::Told => Action::Sleep(self.interval),
        }
    }
}

/// A failed sweep does not stop the reaper: whatever the outcome of a sweep,
/// the reaper reports it, waits for the interval, and sweeps again.
pub proof fn law_the_reaper_goes_on(interval: u64, outcome: Result<usize, StoreError>)
    ensures
        next_action(interval, Event::Swept(outcome)) == Action::Tell(report_of(outcome)),
        next_action(interval, Event::Told) == Action::Sleep(interval),
        next_action(interval, Event::Slept) == Action::Sweep,
        outcome is Err ==> report_of(outcome) is Failed,
        outcome == Ok::<usize, StoreError>(0) ==> report_of(outcome) == Report::NothingExpired,
{
}

} // verus!

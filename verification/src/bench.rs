//! The harness: worker slots with their progress counters, the start gate,
//! the running flag with its start time, and the reports drawn from them.

use vstd::prelude::*;
use crate::counters::{lemma_bump_total, lemma_total_zeros, CounterBank};
use crate::gate::{Arrival, StartGate};
use crate::model::BenchModel;

verus! {

/// The time between two periodic reports, in milliseconds.
pub const REPORT_INTERVAL_MS: u64 = 1000;

/// The status with which the process ends after an interrupt. Nothing else
/// ends a run, so no other status is ever produced.
pub const EXIT_STATUS: i32 = 0;

/// One periodic throughput report.
#[derive(Clone, Copy, Debug, PartialEq, Eq)]
pub struct Report {
    /// Units of work completed since the previous report.
    pub delta: u128,
    /// Units of work completed since construction.
    pub total: u128,
    /// Milliseconds the benchmark has been running.
    pub elapsed_ms: u64,
}

/// The final summary of a run.
#[derive(Clone, Copy, Debug, PartialEq, Eq)]
pub struct Summary {
    /// Milliseconds the benchmark ran.
    pub elapsed_ms: u64,
    /// The configured number of worker slots.
    pub concurrency: usize,
    /// Units of work completed by all slots together.
    pub total: u128,
}

/// What an interrupt finds.
#[derive(Clone, Copy, Debug, PartialEq, Eq)]
pub enum Shutdown {
    /// The benchmark never reached its running phase. There is no start time
    /// and nothing to summarise: only a warning is due.
    NotStarted,
    /// The benchmark was running: its final summary.
    Summary(Summary),
}

/// Why the running phase could not begin.
#[derive(Clone, Copy, Debug, PartialEq, Eq)]
pub enum StartError {
    /// Not every worker and the controller have arrived at the start gate.
    GateClosed,
    /// The running phase has begun before. Its start time stays as it is.
    AlreadyStarted,
}

/// Why an increment was not counted.
#[derive(Clone, Copy, Debug, PartialEq, Eq)]
pub enum CounterError {
    /// The slot index is not below the concurrency of the harness.
    NoSuchSlot,
    /// The counter of the slot cannot hold the sum.
    Overflow,
}

/// A load-generation harness for a fixed number of worker slots.
pub struct Bench {
    concurrency: usize,
    finished_counts: CounterBank,
    start_bar: StartGate,
    start: Option<u64>,
    reported: u128,
}

impl View for Bench {
    type V = BenchModel;

    closed spec fn view(&self) -> BenchModel {
        BenchModel {
            concurrency: self.concurrency as nat,
            counts: self.finished_counts@,
            gate: self.start_bar@,
            start: match self.start {
                Some(at) => Some(at as nat),
                None => None,
            },
            reported: self.reported as nat,
        }
    }
}

impl Bench {
    #[verifier::type_invariant]
    spec fn inv(&self) -> bool {
        self@.wf()
    }

    /// A harness for `concurrency` workers: every counter at zero, the start
    /// gate closed and waiting for each worker and the controller, the
    /// benchmark not running.
    pub fn new(concurrency: usize) -> (bench: Bench)
        requires
            concurrency >= 1,
        ensures
            bench@ == BenchModel::init(concurrency as nat),
            bench@.wf(),
    {
        proof {
            lemma_total_zeros(concurrency as nat);
        }
        Bench {
            concurrency,
            finished_counts: CounterBank::new(concurrency),
            start_bar: StartGate::new(concurrency),
            start: None,
            reported: 0,
        }
    }

    /// Adds `count` completed units of work to the counter of slot `i`. No
    /// other counter changes, and nothing else of the harness does.
    pub fn inc_op(&mut self, i: usize, count: u64)
        requires
            i < old(self)@.concurrency,
            old(self)@.count(i as int) + count <= u64::MAX,
        ensures
            final(self)@ == old(self)@.inc_op(i as int, count as nat),
            final(self)@.wf(),
    {
        proof {
            use_type_invariant(&*self);
            lemma_bump_total(self@.counts, i as int, count as nat);
        }
        self.finished_counts.add(i, count);
    }

    /// Adds `count` completed units of work to the counter of slot `i`, if
    /// there is such a slot and its counter can hold the sum. Where it cannot
    /// be counted, the harness stays exactly as it was.
    pub fn try_inc_op(&mut self, i: usize, count: u64) -> (result: Result<(), CounterError>)
        ensures
            final(self)@.wf(),
            match result {
                Ok(()) => {
                    &&& i < old(self)@.concurrency
                    &&& old(self)@.count(i as int) + count <= u64::MAX
                    &&& final(self)@ == old(self)@.inc_op(i as int, count as nat)
                },
                Err(CounterError::NoSuchSlot) => {
                    &&& i >= old(self)@.concurrency
                    &&& final(self)@ == old(self)@
                },
                Err(CounterError::Overflow) => {
                    &&& i < old(self)@.concurrency
                    &&& old(self)@.count(i as int) + count > u64::MAX
                    &&& final(self)@ == old(self)@
                },
            },
    {
        proof {
            use_type_invariant(&*self);
        }
        if i >= self.concurrency {
            return Err(CounterError::NoSuchSlot);
        }
        if count > u64::MAX - self.finished_counts.get(i) {
            return Err(CounterError::Overflow);
        }
        self.inc_op(i, count);
        Ok(())
    }

    /// Counts one arrival at the start gate, of a worker whose setup is done
    /// or of the controller, and says what the arriving party has to do. The
    /// arrival that follows those of `concurrency` others opens it.
    pub fn init_ok(&mut self) -> (arrival: Arrival)
        ensures
            arrival == old(self)@.gate.outcome(),
            final(self)@ == old(self)@.init_ok(),
            final(self)@.wf(),
    {
        proof {
            use_type_invariant(&*self);
        }
        self.start_bar.arrive()
    }

    /// Begins the running phase at the clock reading `now_ms`. This succeeds
    /// once per harness, and only after the start gate has opened.
    pub fn mark_started(&mut self, now_ms: u64) -> (result: Result<(), StartError>)
        ensures
            final(self)@ == old(self)@.mark_started(now_ms as nat),
            final(self)@.wf(),
            match result {
                Ok(()) => old(self)@.can_start(),
                Err(StartError::GateClosed) => !old(self)@.gate.released(),
                Err(StartError::AlreadyStarted) => {
                    &&& old(self)@.gate.released()
                    &&& old(self)@.started()
                },
            },
    {
        proof {
            use_type_invariant(&*self);
        }
        if !self.start_bar.is_released() {
            return Err(StartError::GateClosed);
        }
        if self.start.is_some() {
            return Err(StartError::AlreadyStarted);
        }
        self.start = Some(now_ms);
        Ok(())
    }

    /// Makes the periodic report due at the clock reading `now_ms`: what was
    /// completed since the previous report, what was completed in all, and
    /// for how long the benchmark has been running. The next report counts
    /// from this one. Before the running phase there is nothing to report,
    /// and the harness stays as it was.
    pub fn report(&mut self, now_ms: u64) -> (report: Option<Report>)
        ensures
            final(self)@ == old(self)@.report(),
            final(self)@.wf(),
            match report {
                Some(r) => {
                    &&& old(self)@.started()
                    &&& r.total == old(self)@.total()
                    &&& r.delta == old(self)@.delta()
                    &&& r.elapsed_ms == old(self)@.elapsed(now_ms as nat)
                },
                None => !old(self)@.started(),
            },
    {
        proof {
            use_type_invariant(&*self);
        }
        match self.start {
            None => None,
            Some(start) => {
                let total: u128 = self.finished_counts.total();
                let delta: u128 = total - self.reported;
                self.reported = total;
                Some(Report { delta, total, elapsed_ms: elapsed_between(start, now_ms) })
            },
        }
    }

    /// What an interrupt at the clock reading `now_ms` finds: nothing but the
    /// fact that the benchmark never started, or else the final summary. The
    /// summary is drawn from one snapshot of the counters and one clock
    /// reading. Either way the process then ends with [`EXIT_STATUS`].
    pub fn on_interrupt(&self, now_ms: u64) -> (shutdown: Shutdown)
        ensures
            match shutdown {
                Shutdown::NotStarted => !self@.started(),
                Shutdown::Summary(summary) => {
                    &&& self@.started()
                    &&& summary.elapsed_ms == self@.elapsed(now_ms as nat)
                    &&& summary.concurrency == self@.concurrency
                    &&& summary.total == self@.total()
                },
            },
    {
        match self.start {
            None => Shutdown::NotStarted,
            Some(start) => Shutdown::Summary(
                Summary {
                    elapsed_ms: elapsed_between(start, now_ms),
                    concurrency: self.concurrency,
                    total: self.finished_counts.total(),
                },
            ),
        }
    }

    /// The number of worker slots.
    pub fn concurrency(&self) -> (concurrency: usize)
        ensures
            concurrency == self@.concurrency,
    {
        self.concurrency
    }

    /// Whether the benchmark has reached its running phase.
    pub fn started(&self) -> (started: bool)
        ensures
            started == self@.started(),
    {
        self.start.is_some()
    }

    /// Whether the start gate has opened.
    pub fn released(&self) -> (released: bool)
        ensures
            released == self@.gate.released(),
    {
        self.start_bar.is_released()
    }

    /// The counter of slot `i`.
    pub fn count(&self, i: usize) -> (count: u64)
        requires
            i < self@.concurrency,
        ensures
            count == self@.count(i as int),
    {
        proof {
            use_type_invariant(self);
        }
        self.finished_counts.get(i)
    }

    /// The sum of all counters.
    pub fn total(&self) -> (total: u128)
        ensures
            total == self@.total(),
    {
        self.finished_counts.total()
    }
}

/// The milliseconds from the clock reading `start` to the clock reading
/// `now`; none if `now` is the earlier one.
fn elapsed_between(start: u64, now: u64) -> (elapsed: u64)
    ensures
        elapsed == if now >= start {
            now - start
        } else {
            0
        },
{
    if now >= start {
        now - start
    } else {
        0
    }
}

} // verus!

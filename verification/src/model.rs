//! The harness as a mathematical state machine. The executable harness is a
//! refinement of it: each of its operations is one transition of this model.

use vstd::prelude::*;
use crate::counters::{bump, lemma_bump_total, lemma_total_zeros, total, zeros, Increment};
use crate::gate::{lemma_gate_opens_with_last_arrival, GateModel};

verus! {

/// The state of a harness.
#[verifier::ext_equal]
pub struct BenchModel {
    /// The number of worker slots, fixed at construction.
    pub concurrency: nat,
    /// The units of work each slot has completed.
    pub counts: Seq<nat>,
    /// The start gate, which waits for every worker and the controller.
    pub gate: GateModel,
    /// The clock reading at which the benchmark started running, once it has.
    pub start: Option<nat>,
    /// The sum of all counters at the last periodic report.
    pub reported: nat,
}

impl BenchModel {
    /// A harness that was just constructed: nothing counted, nobody arrived,
    /// not running.
    pub open spec fn init(concurrency: nat) -> BenchModel {
        BenchModel {
            concurrency,
            counts: zeros(concurrency),
            gate: GateModel::fresh(concurrency),
            start: None,
            reported: 0,
        }
    }

    /// The states a harness can be in.
    pub open spec fn wf(self) -> bool {
        &&& self.concurrency >= 1
        &&& self.counts.len() == self.concurrency
        &&& self.gate.parties == self.concurrency + 1
        &&& self.gate.wf()
        &&& self.started() ==> self.gate.released()
        &&& self.reported <= self.total()
    }

    /// The benchmark has reached its running phase.
    pub open spec fn started(self) -> bool {
        self.start is Some
    }

    /// The counter of slot `slot`; zero for a slot that the harness lacks.
    pub open spec fn count(self, slot: int) -> nat {
        if 0 <= slot < self.counts.len() {
            self.counts[slot]
        } else {
            0
        }
    }

    /// The sum of all counters.
    pub open spec fn total(self) -> nat {
        total(self.counts)
    }

    /// The time the benchmark has been running at the clock reading `now`. A
    /// reading from before the start counts as no time at all.
    pub open spec fn elapsed(self, now: nat) -> nat {
        match self.start {
            Some(start) => if now >= start {
                (now - start) as nat
            } else {
                0
            },
            None => 0,
        }
    }

    /// The units of work completed since the last periodic report.
    pub open spec fn delta(self) -> int {
        self.total() - self.reported
    }

    /// Slot `slot` completed `amount` more units of work.
    pub open spec fn inc_op(self, slot: int, amount: nat) -> BenchModel {
        BenchModel { counts: bump(self.counts, slot, amount), ..self }
    }

    /// One more party arrived at the start gate.
    pub open spec fn init_ok(self) -> BenchModel {
        BenchModel { gate: self.gate.arrive(), ..self }
    }

    /// The running phase can begin: the start gate is open and the phase has
    /// not begun yet.
    pub open spec fn can_start(self) -> bool {
        self.gate.released() && !self.started()
    }

    /// The running phase begins at the clock reading `now`, if it can.
    pub open spec fn mark_started(self, now: nat) -> BenchModel {
        if self.can_start() {
            BenchModel { start: Some(now), ..self }
        } else {
            self
        }
    }

    /// A periodic report was made, if the benchmark is running.
    pub open spec fn report(self) -> BenchModel {
        if self.started() {
            BenchModel { reported: self.total(), ..self }
        } else {
            self
        }
    }
}

/// What can happen to a harness.
pub enum Event {
    /// A worker completed some units of work.
    Work(Increment),
    /// A worker or the controller arrived at the start gate.
    Arrival,
    /// The controller began the running phase at the clock reading `now`.
    Start { now: nat },
    /// The reporter made its periodic report.
    Report,
}

impl BenchModel {
    /// The harness after one event.
    pub open spec fn step(self, event: Event) -> BenchModel {
        match event {
            Event::Work(inc) => self.inc_op(inc.slot, inc.amount),
            Event::Arrival => self.init_ok(),
            Event::Start { now } => self.mark_started(now),
            Event::Report => self.report(),
        }
    }

    /// The harness after a sequence of events, in the order given.
    pub open spec fn run(self, events: Seq<Event>) -> BenchModel
        decreases events.len(),
    {
        if events.len() == 0 {
            self
        } else {
            self.run(events.drop_last()).step(events.last())
        }
    }
}

/// The number of arrivals at the start gate among `events`.
pub open spec fn arrivals(events: Seq<Event>) -> nat
    decreases events.len(),
{
    if events.len() == 0 {
        0
    } else {
        arrivals(events.drop_last()) + if events.last() is Arrival {
            1nat
        } else {
            0nat
        }
    }
}

/// The units of work that `events` report for the slots below `slots`.
pub open spec fn work(events: Seq<Event>, slots: nat) -> nat
    decreases events.len(),
{
    if events.len() == 0 {
        0
    } else {
        work(events.drop_last(), slots) + match events.last() {
            Event::Work(inc) => if 0 <= inc.slot < slots {
                inc.amount
            } else {
                0
            },
            _ => 0,
        }
    }
}

/// A harness is constructed in a state it can be in.
pub proof fn lemma_init_wf(concurrency: nat)
    requires
        concurrency >= 1,
    ensures
        BenchModel::init(concurrency).wf(),
{
    lemma_total_zeros(concurrency);
}

/// Whatever happens to a harness, and in whatever order, it stays a harness
/// for the same number of workers with one counter each; no counter goes
/// down, and the sum of the counters grows by exactly the work reported; an
/// open start gate stays open; and a benchmark that is running stays running,
/// with the start time it has.
pub proof fn lemma_run_invariants(m: BenchModel, events: Seq<Event>)
    requires
        m.wf(),
    ensures
        m.run(events).wf(),
        m.run(events).concurrency == m.concurrency,
        forall|slot: int| m.run(events).count(slot) >= m.count(slot),
        m.run(events).total() == m.total() + work(events, m.concurrency),
        m.gate.released() ==> m.run(events).gate.released(),
        m.started() ==> m.run(events).start == m.start,
    decreases events.len(),
{
    if events.len() > 0 {
        let before = m.run(events.drop_last());
        lemma_run_invariants(m, events.drop_last());
        match events.last() {
            Event::Work(inc) => {
                if 0 <= inc.slot < before.counts.len() {
                    lemma_bump_total(before.counts, inc.slot, inc.amount);
                }
                assert forall|slot: int| before.step(events.last()).count(slot) >= m.count(
                    slot,
                ) by {
                    assert(before.count(slot) >= m.count(slot));
                }
            },
            _ => {
                assert forall|slot: int| before.step(events.last()).count(slot) >= m.count(
                    slot,
                ) by {
                    assert(before.count(slot) >= m.count(slot));
                }
            },
        }
    }
}

/// The start gate of a harness has seen every arrival, and nothing else moves
/// it: after any events it is the fresh gate after as many arrivals as there
/// were among them.
pub proof fn lemma_gate_counts_arrivals(concurrency: nat, events: Seq<Event>)
    ensures
        BenchModel::init(concurrency).run(events).gate == GateModel::fresh(concurrency).after(
            arrivals(events),
        ),
    decreases events.len(),
{
    if events.len() > 0 {
        lemma_gate_counts_arrivals(concurrency, events.drop_last());
    }
}

/// Nobody is released early and nothing starts early. After any events since
/// construction the start gate is open exactly if at least `concurrency + 1`
/// arrivals were among them, one for each worker and one for the controller;
/// and the benchmark is running only if it is open.
pub proof fn lemma_no_release_before_rendezvous(concurrency: nat, events: Seq<Event>)
    requires
        concurrency >= 1,
    ensures
        BenchModel::init(concurrency).run(events).gate.released() <==> arrivals(events)
            >= concurrency + 1,
        BenchModel::init(concurrency).run(events).started() ==> arrivals(events) >= concurrency
            + 1,
{
    lemma_init_wf(concurrency);
    lemma_run_invariants(BenchModel::init(concurrency), events);
    lemma_gate_counts_arrivals(concurrency, events);
    lemma_gate_opens_with_last_arrival(concurrency, arrivals(events));
}

/// What the periodic reports count adds up: right after a report nothing is
/// outstanding, and whatever work follows is what the next report counts as
/// done since.
pub proof fn lemma_delta_is_work_since_report(m: BenchModel, events: Seq<Event>)
    requires
        m.wf(),
        m.started(),
        forall|k: int| 0 <= k < events.len() ==> #[trigger] events[k] is Work,
    ensures
        m.report().delta() == 0,
        m.report().run(events).reported == m.total(),
        m.report().run(events).delta() == work(events, m.concurrency),
    decreases events.len(),
{
    lemma_run_invariants(m.report(), events);
    if events.len() > 0 {
        assert(events.drop_last().len() < events.len());
        assert forall|k: int| 0 <= k < events.drop_last().len() implies #[trigger] events.drop_last()[k]
            is Work by {
            assert(events.drop_last()[k] == events[k]);
        }
        lemma_delta_is_work_since_report(m, events.drop_last());
        assert(events.last() == events[events.len() - 1]);
    }
}

} // verus!

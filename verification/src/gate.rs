//! The start gate: a rendezvous that opens once, for everybody at the same
//! moment, when the last expected party has arrived.

use vstd::prelude::*;

verus! {

/// What an arrival at the start gate means for the party that arrived.
#[derive(Clone, Copy, Debug, PartialEq, Eq)]
pub enum Arrival {
    /// Others are still missing: block until the start gate opens.
    Waiting,
    /// This arrival was the last one missing. The start gate is open: wake
    /// every waiting party and proceed.
    Released,
    /// The start gate had opened before this arrival. It opens only once, so
    /// nothing will release a party that blocks on it now.
    Late,
}

/// The start gate as a pair of numbers.
pub struct GateModel {
    /// How many arrivals open the start gate.
    pub parties: nat,
    /// How many arrivals the start gate has counted. Late ones are not
    /// counted.
    pub arrived: nat,
}

impl GateModel {
    /// The start gate of a harness with `workers` worker slots: it waits for
    /// each of them and for the controller.
    pub open spec fn fresh(workers: nat) -> GateModel {
        GateModel { parties: workers + 1, arrived: 0 }
    }

    /// The start gate never counts more arrivals than it waits for.
    pub open spec fn wf(self) -> bool {
        self.arrived <= self.parties
    }

    /// The start gate has opened.
    pub open spec fn released(self) -> bool {
        self.arrived >= self.parties
    }

    /// What the next arrival will be told.
    pub open spec fn outcome(self) -> Arrival {
        if self.arrived + 1 < self.parties {
            Arrival::Waiting
        } else if self.arrived + 1 == self.parties {
            Arrival::Released
        } else {
            Arrival::Late
        }
    }

    /// The start gate after one more arrival.
    pub open spec fn arrive(self) -> GateModel {
        if self.arrived < self.parties {
            GateModel { parties: self.parties, arrived: self.arrived + 1 }
        } else {
            self
        }
    }

    /// The start gate after `n` more arrivals.
    pub open spec fn after(self, n: nat) -> GateModel
        decreases n,
    {
        if n == 0 {
            self
        } else {
            self.after((n - 1) as nat).arrive()
        }
    }
}

/// The start gate opens with the last expected arrival and not before: after
/// `n` arrivals at a fresh gate for `workers` workers it is open exactly if
/// `n` is at least `workers + 1`, and the one arrival that is told to release
/// the others is the one that follows `workers` earlier ones.
pub proof fn lemma_gate_opens_with_last_arrival(workers: nat, n: nat)
    ensures
        GateModel::fresh(workers).after(n).wf(),
        GateModel::fresh(workers).after(n).parties == workers + 1,
        GateModel::fresh(workers).after(n).arrived == if n <= workers {
            n
        } else {
            workers + 1
        },
        GateModel::fresh(workers).after(n).released() <==> n >= workers + 1,
        GateModel::fresh(workers).after(n).outcome() == Arrival::Released <==> n == workers,
        GateModel::fresh(workers).after(n).outcome() == Arrival::Waiting <==> n < workers,
    decreases n,
{
    if n > 0 {
        lemma_gate_opens_with_last_arrival(workers, (n - 1) as nat);
    }
}

/// An open gate stays open, and counts nothing more.
pub proof fn lemma_gate_stays_open(gate: GateModel, n: nat)
    requires
        gate.released(),
    ensures
        gate.after(n) == gate,
    decreases n,
{
    if n > 0 {
        lemma_gate_stays_open(gate, (n - 1) as nat);
    }
}

/// The start gate of a harness.
pub struct StartGate {
    workers: usize,
    waiting: usize,
    open: bool,
}

impl View for StartGate {
    type V = GateModel;

    closed spec fn view(&self) -> GateModel {
        GateModel {
            parties: self.workers as nat + 1,
            arrived: if self.open {
                self.workers as nat + 1
            } else {
                self.waiting as nat
            },
        }
    }
}

impl StartGate {
    #[verifier::type_invariant]
    spec fn inv(&self) -> bool {
        self.waiting <= self.workers
    }

    /// A closed gate that waits for `workers` workers and the controller.
    pub fn new(workers: usize) -> (gate: StartGate)
        ensures
            gate@ == GateModel::fresh(workers as nat),
    {
        StartGate { workers, waiting: 0, open: false }
    }

    /// Whether the start gate has opened.
    pub fn is_released(&self) -> (released: bool)
        ensures
            released == self@.released(),
    {
        proof {
            use_type_invariant(self);
        }
        self.open
    }

    /// Counts one arrival and says what the arriving party has to do.
    pub fn arrive(&mut self) -> (arrival: Arrival)
        ensures
            arrival == old(self)@.outcome(),
            final(self)@ == old(self)@.arrive(),
        no_unwind
    {
        proof {
            use_type_invariant(&*self);
        }
        if self.open {
            Arrival::Late
        } else if self.waiting == self.workers {
            self.open = true;
            Arrival::Released
        } else {
            self.waiting = self.waiting + 1;
            Arrival::Waiting
        }
    }
}

} // verus!

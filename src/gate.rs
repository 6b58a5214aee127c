use vstd::prelude::*;

verus! {

/// The admission gate as numbers.
pub struct GateView {
    pub capacity: nat,
    pub outstanding: nat,
    pub completed: nat,
    pub aborted: bool,
}

/// What can happen to an admission gate.
#[derive(PartialEq, Eq, Structural, Clone, Copy, Debug)]
pub enum GateEvent {
    /// An operation asks for a slot.
    Admit,
    /// An admitted operation reached a terminal state.
    Release,
    /// A fatal failure: nothing more may be admitted.
    Abort,
}

pub open spec fn gate_wf(g: GateView) -> bool {
    1 <= g.capacity && g.outstanding <= g.capacity
}

/// Whether a request for a slot is granted.
pub open spec fn admits(g: GateView) -> bool {
    !g.aborted && g.outstanding < g.capacity
}

/// Admission state after one event.
pub open spec fn gate_step(g: GateView, e: GateEvent) -> GateView {
    match e {
        GateEvent::Admit => if admits(g) {
            GateView { outstanding: g.outstanding + 1, ..g }
        } else {
            g
        },
        GateEvent::Release => if g.outstanding > 0 {
            GateView { outstanding: (g.outstanding - 1) as nat, completed: g.completed + 1, ..g }
        } else {
            g
        },
        GateEvent::Abort => GateView { aborted: true, ..g },
    }
}

/// Admission state after a sequence of events.
pub open spec fn gate_run(g: GateView, events: Seq<GateEvent>) -> GateView
    decreases events.len(),
{
    if events.len() == 0 {
        g
    } else {
        gate_run(gate_step(g, events[0]), events.drop_first())
    }
}

/// Operations admitted so far: those in flight and those completed.
pub open spec fn admitted(g: GateView) -> nat {
    g.outstanding + g.completed
}

/// Process-wide admission control: at most `capacity` operations between
/// admission and release, none admitted after an abort, and a count of
/// operations that reached a terminal state.
pub struct AdmissionGate {
    capacity: usize,
    outstanding: usize,
    completed: u64,
    aborted: bool,
}

impl View for AdmissionGate {
    type V = GateView;

    closed spec fn view(&self) -> GateView {
        GateView {
            capacity: self.capacity as nat,
            outstanding: self.outstanding as nat,
            completed: self.completed as nat,
            aborted: self.aborted,
        }
    }
}

impl AdmissionGate {
    pub fn new(capacity: usize) -> (r: AdmissionGate)
        requires
            capacity >= 1,
        ensures
            r@ == (GateView { capacity: capacity as nat, outstanding: 0, completed: 0, aborted: false }),
            gate_wf(r@),
    {
        AdmissionGate { capacity, outstanding: 0, completed: 0, aborted: false }
    }

    /// Grants a slot if one is free and no abort happened.
    pub fn try_admit(&mut self) -> (r: bool)
        requires
            gate_wf(old(self)@),
        ensures
            r == admits(old(self)@),
            final(self)@ == gate_step(old(self)@, GateEvent::Admit),
            gate_wf(final(self)@),
    {
        if !self.aborted && self.outstanding < self.capacity {
            self.outstanding = self.outstanding + 1;
            true
        } else {
            false
        }
    }

    /// Gives back the slot of an operation that reached a terminal state.
    pub fn release(&mut self)
        requires
            gate_wf(old(self)@),
            old(self)@.outstanding > 0,
            old(self)@.completed < u64::MAX,
        ensures
            final(self)@ == gate_step(old(self)@, GateEvent::Release),
            gate_wf(final(self)@),
    {
        self.outstanding = self.outstanding - 1;
        self.completed = self.completed + 1;
    }

    /// Refuses every later admission.
    pub fn abort(&mut self)
        ensures
            final(self)@ == gate_step(old(self)@, GateEvent::Abort),
    {
        self.aborted = true;
    }

    pub fn capacity(&self) -> (r: usize)
        ensures
            r == self@.capacity,
    {
        self.capacity
    }

    pub fn outstanding(&self) -> (r: usize)
        ensures
            r == self@.outstanding,
    {
        self.outstanding
    }

    /// Operations that reached a terminal state so far.
    pub fn completed(&self) -> (r: u64)
        ensures
            r == self@.completed,
    {
        self.completed
    }

    pub fn is_aborted(&self) -> (r: bool)
        ensures
            r == self@.aborted,
    {
        self.aborted
    }
}

/// Whatever the events, no admission gate holds more operations between
/// admission and release than its capacity.
pub proof fn lemma_never_over_capacity(g: GateView, events: Seq<GateEvent>)
    requires
        gate_wf(g),
    ensures
        gate_wf(gate_run(g, events)),
        gate_run(g, events).outstanding <= g.capacity,
        gate_run(g, events).capacity == g.capacity,
    decreases events.len(),
{
    if events.len() > 0 {
        lemma_never_over_capacity(gate_step(g, events[0]), events.drop_first());
    }
}

/// After an abort no operation is admitted, whatever follows.
pub proof fn lemma_nothing_admitted_after_abort(g: GateView, events: Seq<GateEvent>)
    requires
        g.aborted,
    ensures
        admitted(gate_run(g, events)) == admitted(g),
        gate_run(g, events).aborted,
    decreases events.len(),
{
    if events.len() > 0 {
        lemma_nothing_admitted_after_abort(gate_step(g, events[0]), events.drop_first());
    }
}

} // verus!

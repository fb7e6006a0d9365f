use vstd::prelude::*;

verus! {

/// The permits of a counting gate: its capacity and how many are out.
pub struct GateModel {
    pub capacity: nat,
    pub in_use: nat,
}

/// One operation on a gate.
pub enum GateOp {
    Acquire(nat),
    Release(nat),
}

/// An acquire is granted only when the permits fit; a release only returns
/// permits that are out. Anything else changes nothing.
pub open spec fn gate_step(g: GateModel, op: GateOp) -> GateModel {
    match op {
        GateOp::Acquire(n) => if g.in_use + n <= g.capacity {
            GateModel { in_use: g.in_use + n, ..g }
        } else {
            g
        },
        GateOp::Release(n) => if n <= g.in_use {
            GateModel { in_use: (g.in_use - n) as nat, ..g }
        } else {
            g
        },
    }
}

/// A gate after a sequence of operations.
pub open spec fn gate_run(g: GateModel, ops: Seq<GateOp>) -> GateModel
    decreases ops.len(),
{
    if ops.len() == 0 {
        g
    } else {
        gate_step(gate_run(g, ops.drop_last()), ops.last())
    }
}

proof fn lemma_run_within_capacity(g: GateModel, ops: Seq<GateOp>)
    requires
        g.in_use <= g.capacity,
    ensures
        gate_run(g, ops).in_use <= g.capacity,
        gate_run(g, ops).capacity == g.capacity,
    decreases ops.len(),
{
    if ops.len() > 0 {
        lemma_run_within_capacity(g, ops.drop_last());
    }
}

/// However many operations come, and in whatever order, a gate never has
/// more permits out than its capacity.
pub proof fn lemma_never_exceeds_capacity(g: GateModel, ops: Seq<GateOp>)
    requires
        g.in_use <= g.capacity,
    ensures
        forall|i: int|
            0 <= i <= ops.len() ==> #[trigger] gate_run(g, ops.take(i)).in_use <= g.capacity
                && gate_run(g, ops.take(i)).capacity == g.capacity,
{
    assert forall|i: int| 0 <= i <= ops.len() implies #[trigger] gate_run(
        g,
        ops.take(i),
    ).in_use <= g.capacity && gate_run(g, ops.take(i)).capacity == g.capacity by {
        lemma_run_within_capacity(g, ops.take(i));
    }
}

/// Permits held from a gate. It is handed back with `Gate::release`.
#[derive(Debug)]
pub struct Permit {
    count: u64,
}

impl Permit {
    pub closed spec fn count(&self) -> nat {
        self.count as nat
    }

    pub fn permits(&self) -> (r: u64)
        ensures
            r == self.count(),
    {
        self.count
    }
}

/// A counting gate with a fixed capacity.
#[derive(Debug)]
pub struct Gate {
    capacity: u64,
    in_use: u64,
}

impl Gate {
    pub closed spec fn view(&self) -> GateModel {
        GateModel { capacity: self.capacity as nat, in_use: self.in_use as nat }
    }

    pub closed spec fn wf(&self) -> bool {
        self.in_use <= self.capacity
    }

    pub fn new(capacity: u64) -> (r: Gate)
        ensures
            r.wf(),
            r@ == (GateModel { capacity: capacity as nat, in_use: 0 }),
    {
        Gate { capacity, in_use: 0 }
    }

    pub fn capacity(&self) -> (r: u64)
        ensures
            r == self@.capacity,
    {
        self.capacity
    }

    pub fn in_use(&self) -> (r: u64)
        ensures
            r == self@.in_use,
    {
        self.in_use
    }

    /// Takes `n` permits if that many are free; otherwise takes none.
    pub fn try_acquire(&mut self, n: u64) -> (r: Option<Permit>)
        requires
            old(self).wf(),
        ensures
            final(self).wf(),
            final(self)@ == gate_step(old(self)@, GateOp::Acquire(n as nat)),
            r.is_some() == (old(self)@.in_use + n <= old(self)@.capacity),
            r matches Some(p) ==> p.count() == n,
    {
        if n <= self.capacity - self.in_use {
            self.in_use = self.in_use + n;
            Some(Permit { count: n })
        } else {
            None
        }
    }

    /// Hands back the permits of `permit`.
    pub fn release(&mut self, permit: Permit)
        requires
            old(self).wf(),
            permit.count() <= old(self)@.in_use,
        ensures
            final(self).wf(),
            final(self)@ == gate_step(old(self)@, GateOp::Release(permit.count())),
    {
        self.in_use = self.in_use - permit.count;
    }
}

/// Which of the three gates of a pool.
#[derive(Clone, Copy, Debug, PartialEq, Eq, Structural)]
pub enum GateKind {
    /// Bounds the chunk uploads that run at once, end to end.
    Workflow,
    /// Bounds the submissions in flight.
    Submission,
    /// Bounds the waits for results in flight.
    Wait,
}

/// The three gates that concurrent chunk uploads share.
#[derive(Debug)]
pub struct GatePool {
    pub workflow: Gate,
    pub submission: Gate,
    pub wait: Gate,
}

impl GatePool {
    pub open spec fn wf(&self) -> bool {
        &&& self.workflow.wf()
        &&& self.submission.wf()
        &&& self.wait.wf()
    }

    pub open spec fn gate(&self, kind: GateKind) -> GateModel {
        match kind {
            GateKind::Workflow => self.workflow@,
            GateKind::Submission => self.submission@,
            GateKind::Wait => self.wait@,
        }
    }

    pub fn new(workflow: u64, submission: u64, wait: u64) -> (r: GatePool)
        ensures
            r.wf(),
            r.gate(GateKind::Workflow) == (GateModel { capacity: workflow as nat, in_use: 0 }),
            r.gate(GateKind::Submission) == (GateModel { capacity: submission as nat, in_use: 0 }),
            r.gate(GateKind::Wait) == (GateModel { capacity: wait as nat, in_use: 0 }),
    {
        GatePool { workflow: Gate::new(workflow), submission: Gate::new(submission), wait: Gate::new(wait) }
    }

    /// Takes `n` permits of one gate if they are free; the other gates are
    /// left as they were.
    pub fn try_acquire(&mut self, kind: GateKind, n: u64) -> (r: Option<Permit>)
        requires
            old(self).wf(),
        ensures
            final(self).wf(),
            final(self).gate(kind) == gate_step(old(self).gate(kind), GateOp::Acquire(n as nat)),
            forall|k: GateKind| k != kind ==> final(self).gate(k) == old(self).gate(k),
            r.is_some() == (old(self).gate(kind).in_use + n <= old(self).gate(kind).capacity),
            r matches Some(p) ==> p.count() == n,
    {
        match kind {
            GateKind::Workflow => self.workflow.try_acquire(n),
            GateKind::Submission => self.submission.try_acquire(n),
            GateKind::Wait => self.wait.try_acquire(n),
        }
    }

    /// Hands back permits to one gate; the other gates are left as they were.
    pub fn release(&mut self, kind: GateKind, permit: Permit)
        requires
            old(self).wf(),
            permit.count() <= old(self).gate(kind).in_use,
        ensures
            final(self).wf(),
            final(self).gate(kind) == gate_step(old(self).gate(kind), GateOp::Release(permit.count())),
            forall|k: GateKind| k != kind ==> final(self).gate(k) == old(self).gate(k),
    {
        match kind {
            GateKind::Workflow => self.workflow.release(permit),
            GateKind::Submission => self.submission.release(permit),
            GateKind::Wait => self.wait.release(permit),
        }
    }
}

} // verus!

//! The shutdown trigger: a flag that is raised once and stays raised.

use vstd::prelude::*;

verus! {

/// What a caller of [`ShutdownTrigger::wait`] is told.
#[derive(Clone, Copy, Debug, PartialEq, Eq, Structural)]
pub enum Readiness {
    /// The trigger has fired: the caller goes on at once.
    Ready,
    /// The trigger has not fired yet: the caller has to ask again later.
    Pending,
}

/// An operation on a trigger.
#[derive(Clone, Copy, Debug, PartialEq, Eq, Structural)]
pub enum TriggerOp {
    /// Fire the trigger.
    Signal,
    /// Ask whether the trigger has fired.
    Wait,
}

/// A level-triggered notification.
///
/// It starts out unfired.  `signal` fires it, and from then on every `wait`
/// is answered with `Ready`, however many waiters ask and however often.
/// Nothing resets it.
///
/// Firing takes the trigger exclusively, asking takes it shared: one writer,
/// any number of readers.
#[derive(Debug, PartialEq, Eq, Structural)]
pub struct ShutdownTrigger {
    fired: bool,
}

impl ShutdownTrigger {
    /// Whether the trigger has fired.
    pub closed spec fn fired(self) -> bool {
        self.fired
    }

    /// The trigger after `signal`.
    pub closed spec fn signalled(self) -> ShutdownTrigger {
        ShutdownTrigger { fired: true }
    }

    /// What `wait` answers.
    pub open spec fn answer(self) -> Readiness {
        if self.fired() {
            Readiness::Ready
        } else {
            Readiness::Pending
        }
    }

    /// The trigger after one operation.
    pub open spec fn after(self, op: TriggerOp) -> ShutdownTrigger {
        match op {
            TriggerOp::Signal => self.signalled(),
            TriggerOp::Wait => self,
        }
    }

    /// The trigger after a sequence of operations, applied first to last.
    pub open spec fn after_all(self, ops: Seq<TriggerOp>) -> ShutdownTrigger
        decreases ops.len(),
    {
        if ops.len() == 0 {
            self
        } else {
            self.after_all(ops.drop_last()).after(ops.last())
        }
    }

    /// A trigger that has not fired.
    pub fn new() -> (t: ShutdownTrigger)
        ensures
            !t.fired(),
    {
        ShutdownTrigger { fired: false }
    }

    /// Fires the trigger.  Firing a trigger that has already fired changes
    /// nothing.
    pub fn signal(&mut self)
        ensures
            *final(self) == old(self).signalled(),
            final(self).fired(),
    {
        self.fired = true;
    }

    /// Whether the trigger has fired.
    pub fn is_fired(&self) -> (b: bool)
        ensures
            b == self.fired(),
    {
        self.fired
    }

    /// Asks the trigger: `Ready` once it has fired, `Pending` before.
    /// Asking does not change the trigger.
    pub fn wait(&self) -> (r: Readiness)
        ensures
            r == self.answer(),
            r == Readiness::Ready <==> self.fired(),
    {
        if self.fired {
            Readiness::Ready
        } else {
            Readiness::Pending
        }
    }
}

/// A fired trigger is the same whatever fired it, and firing it again gives
/// the same trigger.
pub proof fn law_signal_idempotent(t: ShutdownTrigger)
    ensures
        t.signalled().fired(),
        t.signalled().signalled() == t.signalled(),
        t.fired() ==> t.signalled() == t,
{
}

/// Once a trigger has fired it stays fired: after any further operations,
/// in any order and number, a waiter is answered `Ready`.
pub proof fn law_fired_stays_fired(t: ShutdownTrigger, ops: Seq<TriggerOp>)
    requires
        t.fired(),
    ensures
        t.after_all(ops) == t,
        t.after_all(ops).answer() == Readiness::Ready,
    decreases ops.len(),
{
    if ops.len() > 0 {
        law_fired_stays_fired(t, ops.drop_last());
    }
}

/// A trigger answers `Ready` after a sequence of operations exactly if it
/// had fired before them or one of them is a `Signal`.
pub proof fn law_ready_iff_signalled(t: ShutdownTrigger, ops: Seq<TriggerOp>)
    ensures
        t.after_all(ops).fired() <==> (t.fired() || ops.contains(TriggerOp::Signal)),
    decreases ops.len(),
{
    if ops.len() > 0 {
        let head = ops.drop_last();
        law_ready_iff_signalled(t, head);
        if ops.last() == TriggerOp::Signal {
            assert(ops[ops.len() - 1] == TriggerOp::Signal);
        } else if ops.contains(TriggerOp::Signal) {
            let i = choose|i: int| 0 <= i < ops.len() && ops[i] == TriggerOp::Signal;
            assert(head[i] == TriggerOp::Signal);
        } else if head.contains(TriggerOp::Signal) {
            let i = choose|i: int| 0 <= i < head.len() && head[i] == TriggerOp::Signal;
            assert(ops[i] == TriggerOp::Signal);
        }
    }
}

} // verus!

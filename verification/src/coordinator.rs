//! The shutdown coordinator.
//!
//! The coordinator owns the lifecycle of one listener.  It starts it, waits
//! for a termination request, tells the listener to stop, and, where it was
//! asked to, waits until the listener has confirmed that it is done before
//! the process exits.
//!
//! It is written as a state machine.  [`Coordinator::launch`] and
//! [`Coordinator::step`] return the actions that have to be carried out, in
//! order; the caller carries them out and reports what happened as the next
//! [`Event`].

use vstd::prelude::*;
use crate::http::{ListenAddr, loopback_8080, listen_addr};
use crate::logging::{LogLine, outcome_line, line_for_outcome};
use crate::signal::WaitOutcome;

verus! {

/// The exit code of a process that shut down as described here.
pub const EXIT_OK: i32 = 0;

/// Where the process stands.
#[derive(Clone, Copy, Debug, PartialEq, Eq, Structural)]
pub enum Phase {
    /// The listener is not accepting yet.
    Starting,
    /// The listener is accepting.
    Running,
    /// The listener has been told to stop and is finishing what it had
    /// accepted.
    Stopping,
    /// Nothing is left to do.
    Stopped,
}

/// How much the coordinator waits for before the process exits.
#[derive(Clone, Copy, Debug, PartialEq, Eq, Structural)]
pub enum DrainPolicy {
    /// Tell the listener to stop and exit at once.  Requests that are in
    /// flight may be cut off.
    ExitAfterSignal,
    /// Tell the listener to stop and exit only when it has confirmed that
    /// it is done.
    AwaitConfirmation,
}

/// What happened.
#[derive(Clone, Copy, Debug, PartialEq, Eq, Structural)]
pub enum Event {
    /// The listener reports that it is accepting connections.
    ListenerAccepting,
    /// The wait for a termination request is over.
    WaitResolved(WaitOutcome),
    /// The listener reports that it has stopped and that nothing is in
    /// flight any more.
    DrainConfirmed,
}

/// What has to be done.
#[derive(Clone, Copy, Debug, PartialEq, Eq)]
pub enum Action {
    /// Set up the log.
    InitLogging,
    /// Start the listener on this address, handing it the shutdown trigger
    /// to watch, and report when it accepts.
    StartListener(ListenAddr),
    /// Wait for a termination request and report how the wait ended.
    AwaitTermination,
    /// Write this line to the log.
    Log(LogLine),
    /// Fire the shutdown trigger.
    FireTrigger,
    /// Wait until the listener confirms that it is done, and report that.
    AwaitDrain,
    /// Exit with this code.
    Exit(i32),
}

impl Phase {
    /// Whether the termination request is still to come.
    pub open spec fn before_shutdown(self) -> bool {
        self == Phase::Starting || self == Phase::Running
    }
}

/// What has to be done first of all: set up the log, start the listener,
/// then wait for a termination request.
pub open spec fn launch_actions() -> Seq<Action> {
    seq![Action::InitLogging, Action::StartListener(loopback_8080()), Action::AwaitTermination]
}

/// What has to be done when the wait for a termination request is over:
/// say how it ended, announce the shutdown, fire the trigger, and then
/// either wait for the listener or exit, as the policy has it.
pub open spec fn shutdown_actions(policy: DrainPolicy, outcome: WaitOutcome) -> Seq<Action> {
    match policy {
        DrainPolicy::AwaitConfirmation => seq![
            Action::Log(outcome_line(outcome)),
            Action::Log(LogLine::ShuttingDown),
            Action::FireTrigger,
            Action::AwaitDrain,
        ],
        DrainPolicy::ExitAfterSignal => seq![
            Action::Log(outcome_line(outcome)),
            Action::Log(LogLine::ShuttingDown),
            Action::FireTrigger,
            Action::Exit(EXIT_OK),
        ],
    }
}

/// What has to be done when the listener has confirmed that it is done.
pub open spec fn completion_actions() -> Seq<Action> {
    seq![Action::Log(LogLine::ShutdownComplete), Action::Exit(EXIT_OK)]
}

/// The phase that follows the end of the wait for a termination request.
pub open spec fn phase_after_signal(policy: DrainPolicy) -> Phase {
    match policy {
        DrainPolicy::AwaitConfirmation => Phase::Stopping,
        DrainPolicy::ExitAfterSignal => Phase::Stopped,
    }
}

/// The phase that follows `phase` when `event` is reported.
///
/// An event that the phase has no use for leaves it as it is.
pub open spec fn next_phase(phase: Phase, policy: DrainPolicy, event: Event) -> Phase {
    match event {
        Event::ListenerAccepting => if phase == Phase::Starting {
            Phase::Running
        } else {
            phase
        },
        Event::WaitResolved(_) => if phase.before_shutdown() {
            phase_after_signal(policy)
        } else {
            phase
        },
        Event::DrainConfirmed => if phase == Phase::Stopping {
            Phase::Stopped
        } else {
            phase
        },
    }
}

/// The actions that `event` calls for in `phase`, in the order in which
/// they have to be carried out.
///
/// Only two events call for anything: the end of the wait for a termination
/// request, the first time it is reported, and the listener's confirmation
/// while the coordinator is waiting for it.
pub open spec fn emitted(phase: Phase, policy: DrainPolicy, event: Event) -> Seq<Action> {
    match event {
        Event::ListenerAccepting => Seq::empty(),
        Event::WaitResolved(outcome) => if phase.before_shutdown() {
            shutdown_actions(policy, outcome)
        } else {
            Seq::empty()
        },
        Event::DrainConfirmed => if phase == Phase::Stopping {
            completion_actions()
        } else {
            Seq::empty()
        },
    }
}

/// The phase reached from `phase` by a sequence of events, first to last.
pub open spec fn phase_after(phase: Phase, policy: DrainPolicy, events: Seq<Event>) -> Phase
    decreases events.len(),
{
    if events.len() == 0 {
        phase
    } else {
        next_phase(phase_after(phase, policy, events.drop_last()), policy, events.last())
    }
}

/// Everything that a sequence of events calls for, starting in `phase`:
/// the actions for the first event, then those for the second, and so on.
pub open spec fn transcript(phase: Phase, policy: DrainPolicy, events: Seq<Event>) -> Seq<Action>
    decreases events.len(),
{
    if events.len() == 0 {
        Seq::empty()
    } else {
        transcript(phase, policy, events.drop_last()) + emitted(
            phase_after(phase, policy, events.drop_last()),
            policy,
            events.last(),
        )
    }
}

/// The coordinator of one process run.
#[derive(Clone, Debug, PartialEq, Eq, Structural)]
pub struct Coordinator {
    phase: Phase,
    policy: DrainPolicy,
}

impl Coordinator {
    /// Where the process stands.
    pub closed spec fn phase(self) -> Phase {
        self.phase
    }

    /// The policy that the coordinator was launched with.
    pub closed spec fn policy(self) -> DrainPolicy {
        self.policy
    }

    /// Begins a process run: returns the coordinator, in the phase
    /// `Starting`, and what has to be done first.
    pub fn launch(policy: DrainPolicy) -> (started: (Coordinator, Vec<Action>))
        ensures
            started.0.phase() == Phase::Starting,
            started.0.policy() == policy,
            started.1@ == launch_actions(),
    {
        let coordinator = Coordinator { phase: Phase::Starting, policy };
        let actions = vec![
            Action::InitLogging,
            Action::StartListener(listen_addr()),
            Action::AwaitTermination,
        ];
        (coordinator, actions)
    }

    /// Where the process stands.
    pub fn current_phase(&self) -> (phase: Phase)
        ensures
            phase == self.phase(),
    {
        self.phase
    }

    /// The policy that the coordinator was launched with.
    pub fn drain_policy(&self) -> (policy: DrainPolicy)
        ensures
            policy == self.policy(),
    {
        self.policy
    }

    /// Takes an event and returns what has to be done about it, in order.
    pub fn step(&mut self, event: Event) -> (actions: Vec<Action>)
        ensures
            final(self).policy() == old(self).policy(),
            final(self).phase() == next_phase(old(self).phase(), old(self).policy(), event),
            actions@ == emitted(old(self).phase(), old(self).policy(), event),
    {
        match (self.phase, event) {
            (Phase::Starting, Event::ListenerAccepting) => {
                self.phase = Phase::Running;
                Vec::new()
            },
            (Phase::Starting, Event::WaitResolved(outcome))
            | (Phase::Running, Event::WaitResolved(outcome)) => {
                let line = line_for_outcome(outcome);
                match self.policy {
                    DrainPolicy::AwaitConfirmation => {
                        self.phase = Phase::Stopping;
                        vec![
                            Action::Log(line),
                            Action::Log(LogLine::ShuttingDown),
                            Action::FireTrigger,
                            Action::AwaitDrain,
                        ]
                    },
                    DrainPolicy::ExitAfterSignal => {
                        self.phase = Phase::Stopped;
                        vec![
                            Action::Log(line),
                            Action::Log(LogLine::ShuttingDown),
                            Action::FireTrigger,
                            Action::Exit(EXIT_OK),
                        ]
                    },
                }
            },
            (Phase::Stopping, Event::DrainConfirmed) => {
                self.phase = Phase::Stopped;
                vec![Action::Log(LogLine::ShutdownComplete), Action::Exit(EXIT_OK)]
            },
            _ => Vec::new(),
        }
    }

    /// Takes a sequence of events, first to last, and returns everything
    /// that has to be done about them, in order.
    pub fn step_all(&mut self, events: &Vec<Event>) -> (actions: Vec<Action>)
        ensures
            final(self).policy() == old(self).policy(),
            final(self).phase() == phase_after(old(self).phase(), old(self).policy(), events@),
            actions@ == transcript(old(self).phase(), old(self).policy(), events@),
    {
        let ghost start = *self;
        let mut actions: Vec<Action> = Vec::new();
        let mut i: usize = 0;
        while i < events.len()
            invariant
                i <= events.len(),
                self.policy() == start.policy(),
                self.phase() == phase_after(start.phase(), start.policy(), events@.take(i as int)),
                actions@ == transcript(start.phase(), start.policy(), events@.take(i as int)),
            decreases events.len() - i,
        {
            let mut more = self.step(events[i]);
            actions.append(&mut more);
            proof {
                let seen = events@.take(i as int + 1);
                assert(seen.drop_last() =~= events@.take(i as int));
                assert(seen.last() == events@[i as int]);
            }
            i += 1;
        }
        proof {
            assert(events@.take(i as int) =~= events@);
        }
        actions
    }
}

} // verus!

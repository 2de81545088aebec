//! Waiting for a termination request.
//!
//! The process listens for two signals, "terminate" and "interrupt", and
//! shuts down on whichever arrives first.  Installing the handlers and
//! sleeping until a signal arrives is work for the operating system; which
//! step comes next, and what the wait amounts to in the end, is decided
//! here.

use vstd::prelude::*;

verus! {

/// The signals that ask the process to stop.
#[derive(Clone, Copy, Debug, PartialEq, Eq, Structural)]
pub enum SignalKind {
    /// SIGTERM.
    Terminate,
    /// SIGINT.
    Interrupt,
}

/// Why the process is shutting down.
#[derive(Clone, Copy, Debug, PartialEq, Eq, Structural)]
pub enum TerminationReason {
    /// The "terminate" signal arrived first.
    TerminateRequest,
    /// The "interrupt" signal arrived first.
    InterruptRequest,
}

/// The handler for a signal could not be installed.
#[derive(Clone, Copy, Debug, PartialEq, Eq, Structural)]
pub struct SignalRegistrationError {
    /// The signal whose handler was refused.
    pub kind: SignalKind,
}

/// How a wait for a termination request ended.
#[derive(Clone, Copy, Debug, PartialEq, Eq, Structural)]
pub enum WaitOutcome {
    /// A signal arrived.
    Requested(TerminationReason),
    /// The wait could not be set up.
    Failed(SignalRegistrationError),
}

/// Where a wait stands.
#[derive(Clone, Copy, Debug, PartialEq, Eq, Structural)]
pub enum WatchPhase {
    /// The handler for this signal is the next to be installed.
    Registering(SignalKind),
    /// Both handlers are installed: the first signal to arrive wins.
    Racing,
    /// The wait is over.
    Finished(WaitOutcome),
}

/// What the operating system reported to the wait.
#[derive(Clone, Copy, Debug, PartialEq, Eq, Structural)]
pub enum WatchEvent {
    /// The handler for this signal is installed.
    Registered(SignalKind),
    /// The handler for this signal could not be installed.
    RegistrationFailed(SignalKind),
    /// This signal arrived.
    Delivered(SignalKind),
}

/// What the wait needs done next.
#[derive(Clone, Copy, Debug, PartialEq, Eq, Structural)]
pub enum WatchAction {
    /// Install the handler for this signal and report how that went.
    Register(SignalKind),
    /// Sleep until either signal arrives and report which one did.
    AwaitFirstSignal,
    /// Nothing is left to do: hand this outcome to the caller.
    Finish(WaitOutcome),
}

/// The reason that a signal stands for.
pub open spec fn reason_of(kind: SignalKind) -> TerminationReason {
    match kind {
        SignalKind::Terminate => TerminationReason::TerminateRequest,
        SignalKind::Interrupt => TerminationReason::InterruptRequest,
    }
}

/// The phase that follows `phase` when `event` is reported.
///
/// The handlers are installed in a fixed order, "terminate" first.  A
/// handler that cannot be installed ends the wait at once.  With both
/// installed, the first delivery ends it.  A report that does not answer
/// what the wait last asked for is ignored, and so is everything that is
/// reported after the wait is over.
pub open spec fn watch_next(phase: WatchPhase, event: WatchEvent) -> WatchPhase {
    match (phase, event) {
        (WatchPhase::Registering(SignalKind::Terminate), WatchEvent::Registered(SignalKind::Terminate)) =>
            WatchPhase::Registering(SignalKind::Interrupt),
        (WatchPhase::Registering(SignalKind::Interrupt), WatchEvent::Registered(SignalKind::Interrupt)) =>
            WatchPhase::Racing,
        (WatchPhase::Registering(wanted), WatchEvent::RegistrationFailed(kind)) =>
            if wanted == kind {
                WatchPhase::Finished(WaitOutcome::Failed(SignalRegistrationError { kind }))
            } else {
                phase
            },
        (WatchPhase::Racing, WatchEvent::Delivered(kind)) =>
            WatchPhase::Finished(WaitOutcome::Requested(reason_of(kind))),
        _ => phase,
    }
}

/// The phase reached from `phase` by a sequence of reports, first to last.
pub open spec fn watch_run(phase: WatchPhase, events: Seq<WatchEvent>) -> WatchPhase
    decreases events.len(),
{
    if events.len() == 0 {
        phase
    } else {
        watch_next(watch_run(phase, events.drop_last()), events.last())
    }
}

/// What a wait in `phase` needs done next.
pub open spec fn watch_action(phase: WatchPhase) -> WatchAction {
    match phase {
        WatchPhase::Registering(kind) => WatchAction::Register(kind),
        WatchPhase::Racing => WatchAction::AwaitFirstSignal,
        WatchPhase::Finished(outcome) => WatchAction::Finish(outcome),
    }
}

/// The reason that `kind` stands for.
pub fn reason_for(kind: SignalKind) -> (reason: TerminationReason)
    ensures
        reason == reason_of(kind),
{
    match kind {
        SignalKind::Terminate => TerminationReason::TerminateRequest,
        SignalKind::Interrupt => TerminationReason::InterruptRequest,
    }
}

/// One wait for a termination request, from installing the handlers to its
/// outcome.
#[derive(Clone, Debug, PartialEq, Eq, Structural)]
pub struct TerminationWatch {
    phase: WatchPhase,
}

impl TerminationWatch {
    /// Where the wait stands.
    pub closed spec fn phase(self) -> WatchPhase {
        self.phase
    }

    /// A wait that has not installed anything yet.
    pub fn new() -> (watch: TerminationWatch)
        ensures
            watch.phase() == WatchPhase::Registering(SignalKind::Terminate),
    {
        TerminationWatch { phase: WatchPhase::Registering(SignalKind::Terminate) }
    }

    /// Where the wait stands.
    pub fn current_phase(&self) -> (phase: WatchPhase)
        ensures
            phase == self.phase(),
    {
        self.phase
    }

    /// What has to be done next.  Asking does not change the wait.
    pub fn next_action(&self) -> (action: WatchAction)
        ensures
            action == watch_action(self.phase()),
    {
        match self.phase {
            WatchPhase::Registering(kind) => WatchAction::Register(kind),
            WatchPhase::Racing => WatchAction::AwaitFirstSignal,
            WatchPhase::Finished(outcome) => WatchAction::Finish(outcome),
        }
    }

    /// Takes a report from the operating system.
    pub fn on_event(&mut self, event: WatchEvent)
        ensures
            final(self).phase() == watch_next(old(self).phase(), event),
    {
        match self.phase {
            WatchPhase::Registering(wanted) => {
                match event {
                    WatchEvent::Registered(kind) => {
                        match (wanted, kind) {
                            (SignalKind::Terminate, SignalKind::Terminate) => {
                                self.phase = WatchPhase::Registering(SignalKind::Interrupt);
                            },
                            (SignalKind::Interrupt, SignalKind::Interrupt) => {
                                self.phase = WatchPhase::Racing;
                            },
                            _ => {},
                        }
                    },
                    WatchEvent::RegistrationFailed(kind) => {
                        if wanted == kind {
                            self.phase = WatchPhase::Finished(
                                WaitOutcome::Failed(SignalRegistrationError { kind }),
                            );
                        }
                    },
                    WatchEvent::Delivered(_) => {},
                }
            },
            WatchPhase::Racing => {
                match event {
                    WatchEvent::Delivered(kind) => {
                        self.phase = WatchPhase::Finished(WaitOutcome::Requested(reason_for(kind)));
                    },
                    _ => {},
                }
            },
            WatchPhase::Finished(_) => {},
        }
    }

    /// The outcome, once the wait is over.
    pub fn outcome(&self) -> (outcome: Option<WaitOutcome>)
        ensures
            outcome == match self.phase() {
                WatchPhase::Finished(o) => Some(o),
                _ => None::<WaitOutcome>,
            },
    {
        match self.phase {
            WatchPhase::Finished(o) => Some(o),
            _ => None,
        }
    }
}

/// Running a wait over two sequences of reports, one after the other, is
/// running it over the first and going on from there over the second.
pub proof fn law_watch_run_concat(phase: WatchPhase, first: Seq<WatchEvent>, then: Seq<WatchEvent>)
    ensures
        watch_run(phase, first + then) == watch_run(watch_run(phase, first), then),
    decreases then.len(),
{
    if then.len() == 0 {
        assert(first + then =~= first);
    } else {
        law_watch_run_concat(phase, first, then.drop_last());
        assert((first + then).drop_last() =~= first + then.drop_last());
        assert((first + then).last() == then.last());
    }
}

/// A wait has one outcome: once it is over, nothing that is reported later
/// changes how it ended.  A signal that arrives after the first is not
/// seen.
pub proof fn law_outcome_is_final(outcome: WaitOutcome, events: Seq<WatchEvent>)
    ensures
        watch_run(WatchPhase::Finished(outcome), events) == WatchPhase::Finished(outcome),
    decreases events.len(),
{
    if events.len() > 0 {
        law_outcome_is_final(outcome, events.drop_last());
    }
}

/// The first signal wins.  When both handlers could be installed, the wait
/// ends with the reason of the signal that is delivered first, whatever is
/// reported after it.
pub proof fn law_first_signal_wins(kind: SignalKind, later: Seq<WatchEvent>)
    ensures
        watch_run(
            WatchPhase::Registering(SignalKind::Terminate),
            seq![
                WatchEvent::Registered(SignalKind::Terminate),
                WatchEvent::Registered(SignalKind::Interrupt),
                WatchEvent::Delivered(kind),
            ] + later,
        ) == WatchPhase::Finished(WaitOutcome::Requested(reason_of(kind))),
{
    let start = WatchPhase::Registering(SignalKind::Terminate);
    let e0 = WatchEvent::Registered(SignalKind::Terminate);
    let e1 = WatchEvent::Registered(SignalKind::Interrupt);
    let e2 = WatchEvent::Delivered(kind);
    let one = Seq::<WatchEvent>::empty().push(e0);
    let two = one.push(e1);
    let three = two.push(e2);
    lemma_watch_run_push(start, Seq::empty(), e0);
    lemma_watch_run_push(start, one, e1);
    lemma_watch_run_push(start, two, e2);
    assert(three =~= seq![e0, e1, e2]);
    law_watch_run_concat(start, three, later);
    law_outcome_is_final(WaitOutcome::Requested(reason_of(kind)), later);
}

/// A handler that cannot be installed ends the wait, with the failure as
/// its outcome: the wait does not go on to install the other handler or to
/// sleep, and nothing that is reported later changes the outcome.
pub proof fn law_registration_failure_ends_wait(later: Seq<WatchEvent>)
    ensures
        watch_run(
            WatchPhase::Registering(SignalKind::Terminate),
            seq![WatchEvent::RegistrationFailed(SignalKind::Terminate)] + later,
        ) == WatchPhase::Finished(
            WaitOutcome::Failed(SignalRegistrationError { kind: SignalKind::Terminate }),
        ),
        watch_run(
            WatchPhase::Registering(SignalKind::Terminate),
            seq![
                WatchEvent::Registered(SignalKind::Terminate),
                WatchEvent::RegistrationFailed(SignalKind::Interrupt),
            ] + later,
        ) == WatchPhase::Finished(
            WaitOutcome::Failed(SignalRegistrationError { kind: SignalKind::Interrupt }),
        ),
{
    let start = WatchPhase::Registering(SignalKind::Terminate);
    let ok = WatchEvent::Registered(SignalKind::Terminate);
    let no_terminate = WatchEvent::RegistrationFailed(SignalKind::Terminate);
    let no_interrupt = WatchEvent::RegistrationFailed(SignalKind::Interrupt);
    let failed = Seq::<WatchEvent>::empty().push(no_terminate);
    lemma_watch_run_push(start, Seq::empty(), no_terminate);
    assert(failed =~= seq![no_terminate]);
    law_watch_run_concat(start, failed, later);
    law_outcome_is_final(
        WaitOutcome::Failed(SignalRegistrationError { kind: SignalKind::Terminate }),
        later,
    );
    let one = Seq::<WatchEvent>::empty().push(ok);
    let two = one.push(no_interrupt);
    lemma_watch_run_push(start, Seq::empty(), ok);
    lemma_watch_run_push(start, one, no_interrupt);
    assert(two =~= seq![ok, no_interrupt]);
    law_watch_run_concat(start, two, later);
    law_outcome_is_final(
        WaitOutcome::Failed(SignalRegistrationError { kind: SignalKind::Interrupt }),
        later,
    );
}

/// A wait sleeps only with both handlers installed.  If a wait that began
/// with nothing installed is racing, or has ended with a signal, then the
/// handler for "terminate" was reported installed, and after it the
/// handler for "interrupt".
pub proof fn law_handlers_before_race(events: Seq<WatchEvent>)
    requires
        ({
            let end = watch_run(WatchPhase::Registering(SignalKind::Terminate), events);
            end == WatchPhase::Racing || end matches WatchPhase::Finished(
                WaitOutcome::Requested(_),
            )
        }),
    ensures
        exists|i: int, j: int|
            0 <= i < j < events.len() && #[trigger] events[i] == WatchEvent::Registered(
                SignalKind::Terminate,
            ) && #[trigger] events[j] == WatchEvent::Registered(SignalKind::Interrupt),
{
    lemma_handlers_installed(events);
}

proof fn lemma_watch_run_push(phase: WatchPhase, events: Seq<WatchEvent>, event: WatchEvent)
    ensures
        watch_run(phase, events.push(event)) == watch_next(watch_run(phase, events), event),
{
    assert(events.push(event).drop_last() =~= events);
}

spec fn terminate_installed(events: Seq<WatchEvent>) -> bool {
    exists|i: int|
        0 <= i < events.len() && #[trigger] events[i] == WatchEvent::Registered(
            SignalKind::Terminate,
        )
}

spec fn both_installed(events: Seq<WatchEvent>) -> bool {
    exists|i: int, j: int|
        0 <= i < j < events.len() && #[trigger] events[i] == WatchEvent::Registered(
            SignalKind::Terminate,
        ) && #[trigger] events[j] == WatchEvent::Registered(SignalKind::Interrupt)
}

proof fn lemma_handlers_installed(events: Seq<WatchEvent>)
    ensures
        ({
            let end = watch_run(WatchPhase::Registering(SignalKind::Terminate), events);
            &&& end == WatchPhase::Registering(SignalKind::Interrupt) ==> terminate_installed(
                events,
            )
            &&& end == WatchPhase::Racing ==> both_installed(events)
            &&& end matches WatchPhase::Finished(WaitOutcome::Requested(_)) ==> both_installed(
                events,
            )
        }),
    decreases events.len(),
{
    if events.len() > 0 {
        let head = events.drop_last();
        let n = head.len() as int;
        lemma_handlers_installed(head);
        if terminate_installed(head) {
            let i = choose|i: int|
                0 <= i < head.len() && #[trigger] head[i] == WatchEvent::Registered(
                    SignalKind::Terminate,
                );
            assert(events[i] == head[i]);
            if events.last() == WatchEvent::Registered(SignalKind::Interrupt) {
                assert(events[n] == WatchEvent::Registered(SignalKind::Interrupt));
            }
        }
        if both_installed(head) {
            let (i, j) = choose|i: int, j: int|
                0 <= i < j < head.len() && #[trigger] head[i] == WatchEvent::Registered(
                    SignalKind::Terminate,
                ) && #[trigger] head[j] == WatchEvent::Registered(SignalKind::Interrupt);
            assert(events[i] == head[i] && events[j] == head[j]);
        }
        if events.last() == WatchEvent::Registered(SignalKind::Terminate) {
            assert(events[n] == WatchEvent::Registered(SignalKind::Terminate));
        }
    }
}

} // verus!

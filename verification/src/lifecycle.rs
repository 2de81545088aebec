//! What holds of every run of the coordinator.
//!
//! A run is a sequence of events, reported one after the other to a
//! coordinator.  The laws below speak of [`phase_after`] and [`transcript`],
//! which say where such a run ends and what it has asked for on the way;
//! [`Coordinator::step`](crate::coordinator::Coordinator::step) and
//! [`Coordinator::step_all`](crate::coordinator::Coordinator::step_all)
//! compute exactly these.

use vstd::prelude::*;
use crate::coordinator::{
    Action, DrainPolicy, EXIT_OK, Event, Phase, completion_actions, emitted, next_phase,
    phase_after, shutdown_actions, transcript,
};
use crate::http::ListenAddr;
use crate::logging::{LogLine, outcome_line, reason_line};
use crate::signal::{TerminationReason, WaitOutcome};

verus! {

/// How often `action` occurs in `actions`.
pub open spec fn occurrences(actions: Seq<Action>, action: Action) -> nat
    decreases actions.len(),
{
    if actions.len() == 0 {
        0
    } else {
        occurrences(actions.drop_last(), action) + if actions.last() == action {
            1nat
        } else {
            0nat
        }
    }
}

/// Whether none of the events ends the wait for a termination request.
spec fn unresolved(events: Seq<Event>) -> bool {
    forall|i: int| 0 <= i < events.len() ==> !(#[trigger] events[i] is WaitResolved)
}

/// The outcome of the wait for a termination request that was reported
/// first, if any was.
pub open spec fn first_outcome(events: Seq<Event>) -> Option<WaitOutcome>
    decreases events.len(),
{
    if events.len() == 0 {
        None
    } else {
        match first_outcome(events.drop_last()) {
            Some(outcome) => Some(outcome),
            None => match events.last() {
                Event::WaitResolved(outcome) => Some(outcome),
                _ => None,
            },
        }
    }
}

/// Everything that a run has asked for when it stands in `phase`, if the
/// wait for a termination request ended with `outcome`.
pub open spec fn asked_by(phase: Phase, policy: DrainPolicy, outcome: WaitOutcome) -> Seq<Action> {
    match phase {
        Phase::Starting => Seq::empty(),
        Phase::Running => Seq::empty(),
        Phase::Stopping => shutdown_actions(policy, outcome),
        Phase::Stopped => match policy {
            DrainPolicy::AwaitConfirmation => shutdown_actions(policy, outcome)
                + completion_actions(),
            DrainPolicy::ExitAfterSignal => shutdown_actions(policy, outcome),
        },
    }
}

proof fn lemma_occurrences_unique(actions: Seq<Action>, action: Action)
    requires
        actions.no_duplicates(),
    ensures
        occurrences(actions, action) == if actions.contains(action) {
            1nat
        } else {
            0nat
        },
    decreases actions.len(),
{
    if actions.len() > 0 {
        let head = actions.drop_last();
        let n = head.len() as int;
        assert(head.no_duplicates()) by {
            assert forall|i: int, j: int| 0 <= i < n && 0 <= j < n && i != j implies head[i]
                != head[j] by {
                assert(head[i] == actions[i] && head[j] == actions[j]);
            }
        }
        lemma_occurrences_unique(head, action);
        if actions.last() == action {
            assert(actions[n] == action);
            if head.contains(action) {
                let i = choose|i: int| 0 <= i < n && head[i] == action;
                assert(actions[i] == actions[n]);
            }
        } else if actions.contains(action) {
            let i = choose|i: int| 0 <= i < actions.len() && actions[i] == action;
            assert(head[i] == action);
        } else if head.contains(action) {
            let i = choose|i: int| 0 <= i < n && head[i] == action;
            assert(actions[i] == action);
        }
    }
}

proof fn lemma_asked_by_unique(phase: Phase, policy: DrainPolicy, outcome: WaitOutcome)
    ensures
        asked_by(phase, policy, outcome).no_duplicates(),
{
    let first = Action::Log(outcome_line(outcome));
    let s = shutdown_actions(policy, outcome);
    let c = completion_actions();
    assert(s.len() == 4 && s[0] == first && s[1] == Action::Log(LogLine::ShuttingDown) && s[2]
        == Action::FireTrigger);
    assert(c.len() == 2 && c[0] == Action::Log(LogLine::ShutdownComplete));
    assert(outcome_line(outcome) != LogLine::ShuttingDown);
    assert(outcome_line(outcome) != LogLine::ShutdownComplete);
    let both = s + c;
    assert(both.len() == 6 && both[0] == s[0] && both[1] == s[1] && both[2] == s[2] && both[3]
        == s[3] && both[4] == c[0] && both[5] == c[1]);
}

proof fn lemma_unresolved_first_outcome(events: Seq<Event>)
    ensures
        unresolved(events) <==> first_outcome(events) is None,
    decreases events.len(),
{
    if events.len() > 0 {
        let head = events.drop_last();
        lemma_unresolved_first_outcome(head);
        if unresolved(events) {
            assert forall|i: int| 0 <= i < head.len() implies !(#[trigger] head[i]
                is WaitResolved) by {
                assert(head[i] == events[i]);
            }
            assert(!(events[events.len() - 1] is WaitResolved));
        }
        if first_outcome(events) is None {
            assert forall|i: int| 0 <= i < events.len() implies !(#[trigger] events[i]
                is WaitResolved) by {
                if i < head.len() {
                    assert(head[i] == events[i]);
                }
            }
        }
    }
}

proof fn lemma_first_outcome_at(events: Seq<Event>, at: int, outcome: WaitOutcome)
    requires
        0 <= at < events.len(),
        events[at] == Event::WaitResolved(outcome),
        forall|i: int| 0 <= i < at ==> !(#[trigger] events[i] is WaitResolved),
    ensures
        first_outcome(events) == Some(outcome),
    decreases events.len(),
{
    let head = events.drop_last();
    if at == events.len() - 1 {
        assert forall|i: int| 0 <= i < head.len() implies !(#[trigger] head[i] is WaitResolved) by {
            assert(head[i] == events[i]);
        }
        lemma_unresolved_first_outcome(head);
    } else {
        assert(head[at] == events[at]);
        assert forall|i: int| 0 <= i < at implies !(#[trigger] head[i] is WaitResolved) by {
            assert(head[i] == events[i]);
        }
        lemma_first_outcome_at(head, at, outcome);
    }
}

/// A run that begins before the shutdown has asked for nothing as long as
/// the wait for a termination request is on.  Once the wait is over, with
/// whatever outcome was reported first, it has asked for the shutdown
/// sequence of that outcome, and for the completion after it once it has
/// stopped on the listener's confirmation; for nothing else, and for none
/// of it more than once.
pub proof fn law_transcript_shape(start: Phase, policy: DrainPolicy, events: Seq<Event>)
    requires
        start.before_shutdown(),
    ensures
        phase_after(start, policy, events).before_shutdown() <==> first_outcome(events) is None,
        phase_after(start, policy, events) == Phase::Stopping ==> policy
            == DrainPolicy::AwaitConfirmation,
        match first_outcome(events) {
            None => transcript(start, policy, events) == Seq::<Action>::empty(),
            Some(outcome) => transcript(start, policy, events) == asked_by(
                phase_after(start, policy, events),
                policy,
                outcome,
            ),
        },
    decreases events.len(),
{
    if events.len() > 0 {
        let head = events.drop_last();
        law_transcript_shape(start, policy, head);
        let before = phase_after(start, policy, head);
        let asked = transcript(start, policy, head);
        let more = emitted(before, policy, events.last());
        assert(transcript(start, policy, events) == asked + more);
        if more.len() == 0 {
            assert(asked + more =~= asked);
        } else if before.before_shutdown() {
            assert(asked + more =~= more);
        }
    }
}

/// A run that begins while the listener is stopping asks for the completion
/// once, when the listener's confirmation is first reported, and for
/// nothing else.  A run that begins after the process has stopped asks for
/// nothing.
pub proof fn law_transcript_after_shutdown(start: Phase, policy: DrainPolicy, events: Seq<Event>)
    requires
        !start.before_shutdown(),
    ensures
        phase_after(start, policy, events) == if start == Phase::Stopping && events.contains(
            Event::DrainConfirmed,
        ) {
            Phase::Stopped
        } else {
            start
        },
        transcript(start, policy, events) == if start == Phase::Stopping && events.contains(
            Event::DrainConfirmed,
        ) {
            completion_actions()
        } else {
            Seq::<Action>::empty()
        },
    decreases events.len(),
{
    if events.len() > 0 {
        let head = events.drop_last();
        law_transcript_after_shutdown(start, policy, head);
        let asked = transcript(start, policy, head);
        let more = emitted(phase_after(start, policy, head), policy, events.last());
        assert(transcript(start, policy, events) == asked + more);
        if head.contains(Event::DrainConfirmed) {
            let i = choose|i: int| 0 <= i < head.len() && head[i] == Event::DrainConfirmed;
            assert(events[i] == Event::DrainConfirmed);
            assert(asked + more =~= asked);
        } else if events.last() == Event::DrainConfirmed {
            assert(events[events.len() - 1] == Event::DrainConfirmed);
            assert(asked + more =~= more);
        } else {
            if events.contains(Event::DrainConfirmed) {
                let i = choose|i: int| 0 <= i < events.len() && events[i] == Event::DrainConfirmed;
                assert(head[i] == Event::DrainConfirmed);
            }
            assert(asked + more =~= asked);
        }
    }
}

/// What has been asked for is not taken back: the transcript of the first
/// `n` events of a run is the beginning of the transcript of the whole run.
pub proof fn law_transcript_grows(start: Phase, policy: DrainPolicy, events: Seq<Event>, n: int)
    requires
        0 <= n <= events.len(),
    ensures
        transcript(start, policy, events.take(n)).is_prefix_of(transcript(start, policy, events)),
    decreases events.len(),
{
    if n == events.len() {
        assert(events.take(n) =~= events);
    } else {
        let head = events.drop_last();
        law_transcript_grows(start, policy, head, n);
        assert(head.take(n) =~= events.take(n));
    }
}

/// A termination request is announced once and fires the trigger once.
///
/// Take any run in which the wait for a termination request ends with a
/// signal, at the event `at`, and has not ended before.  Whatever else is
/// reported, before or after, and whether or not the listener had reported
/// by then that it was accepting: the run logs the line of that signal
/// exactly once, never the line of the other signal, and fires the trigger
/// exactly once.
pub proof fn law_request_announced_and_fired_once(
    start: Phase,
    policy: DrainPolicy,
    events: Seq<Event>,
    at: int,
    reason: TerminationReason,
    other: TerminationReason,
)
    requires
        start.before_shutdown(),
        0 <= at < events.len(),
        events[at] == Event::WaitResolved(WaitOutcome::Requested(reason)),
        forall|i: int| 0 <= i < at ==> !(#[trigger] events[i] is WaitResolved),
        other != reason,
    ensures
        occurrences(transcript(start, policy, events), Action::Log(reason_line(reason))) == 1,
        occurrences(transcript(start, policy, events), Action::Log(reason_line(other))) == 0,
        occurrences(transcript(start, policy, events), Action::FireTrigger) == 1,
{
    let outcome = WaitOutcome::Requested(reason);
    let end = phase_after(start, policy, events);
    let asked = transcript(start, policy, events);
    lemma_first_outcome_at(events, at, outcome);
    law_transcript_shape(start, policy, events);
    lemma_asked_by_unique(end, policy, outcome);
    let s = shutdown_actions(policy, outcome);
    assert(s.len() == 4 && s[0] == Action::Log(reason_line(reason)) && s[1] == Action::Log(
        LogLine::ShuttingDown,
    ) && s[2] == Action::FireTrigger);
    let c = completion_actions();
    assert(c.len() == 2 && c[0] == Action::Log(LogLine::ShutdownComplete) && c[1] == Action::Exit(
        EXIT_OK,
    ));
    assert(asked == s || asked == s + c);
    assert(asked[0] == Action::Log(reason_line(reason)));
    assert(asked[2] == Action::FireTrigger);
    lemma_occurrences_unique(asked, Action::Log(reason_line(reason)));
    lemma_occurrences_unique(asked, Action::FireTrigger);
    lemma_occurrences_unique(asked, Action::Log(reason_line(other)));
    if asked.contains(Action::Log(reason_line(other))) {
        let i = choose|i: int| 0 <= i < asked.len() && asked[i] == Action::Log(reason_line(other));
        if asked == s {
            assert(asked[i] == s[i]);
        } else {
            assert(i < 4 ==> asked[i] == s[i]);
            assert(i >= 4 ==> asked[i] == c[i - 4]);
        }
        assert(false);
    }
}

/// Nothing is asked for twice.
///
/// In any run, from any phase and under either policy, no action occurs
/// more than once in the transcript: no line is logged a second time, the
/// trigger is not fired a second time, the process is not told to exit a
/// second time, whatever is reported and however often.
pub proof fn law_nothing_twice(
    start: Phase,
    policy: DrainPolicy,
    events: Seq<Event>,
    action: Action,
)
    ensures
        occurrences(transcript(start, policy, events), action) <= 1,
{
    let asked = transcript(start, policy, events);
    if start.before_shutdown() {
        law_transcript_shape(start, policy, events);
        match first_outcome(events) {
            None => {
                assert(asked.no_duplicates());
            },
            Some(outcome) => {
                lemma_asked_by_unique(phase_after(start, policy, events), policy, outcome);
            },
        }
    } else {
        law_transcript_after_shutdown(start, policy, events);
        let c = completion_actions();
        assert(c.len() == 2 && c[0] == Action::Log(LogLine::ShutdownComplete) && c[1]
            == Action::Exit(EXIT_OK));
        assert(asked.no_duplicates());
    }
    lemma_occurrences_unique(asked, action);
}

/// The trigger has been fired exactly in the runs that have left the phases
/// before the shutdown: a run that is still starting or running has not
/// asked for it, a run that is stopping or has stopped has.
pub proof fn law_fired_iff_shutting_down(start: Phase, policy: DrainPolicy, events: Seq<Event>)
    requires
        start.before_shutdown(),
    ensures
        transcript(start, policy, events).contains(Action::FireTrigger) <==> !phase_after(
            start,
            policy,
            events,
        ).before_shutdown(),
{
    let asked = transcript(start, policy, events);
    law_transcript_shape(start, policy, events);
    match first_outcome(events) {
        None => {},
        Some(outcome) => {
            let s = shutdown_actions(policy, outcome);
            assert(s.len() == 4 && s[2] == Action::FireTrigger);
            assert(asked == s || asked == s + completion_actions());
            assert(asked[2] == Action::FireTrigger);
        },
    }
}

/// One listener per process: what is done at the launch is not asked for
/// again.  No run sets up the log, starts a listener or begins another wait
/// for a termination request, whatever is reported to it.
pub proof fn law_launch_not_repeated(
    start: Phase,
    policy: DrainPolicy,
    events: Seq<Event>,
    addr: ListenAddr,
)
    ensures
        !transcript(start, policy, events).contains(Action::InitLogging),
        !transcript(start, policy, events).contains(Action::StartListener(addr)),
        !transcript(start, policy, events).contains(Action::AwaitTermination),
{
    let asked = transcript(start, policy, events);
    let c = completion_actions();
    assert(c.len() == 2 && c[0] == Action::Log(LogLine::ShutdownComplete) && c[1] == Action::Exit(
        EXIT_OK,
    ));
    if start.before_shutdown() {
        law_transcript_shape(start, policy, events);
        match first_outcome(events) {
            None => {},
            Some(outcome) => {
                let s = shutdown_actions(policy, outcome);
                assert(s.len() == 4 && s[0] == Action::Log(outcome_line(outcome)) && s[1]
                    == Action::Log(LogLine::ShuttingDown) && s[2] == Action::FireTrigger && (s[3]
                    == Action::AwaitDrain || s[3] == Action::Exit(EXIT_OK)));
                assert(asked == s || asked == s + c);
                assert forall|i: int| 0 <= i < asked.len() implies (#[trigger] asked[i]
                    is Log || asked[i] is FireTrigger || asked[i] is AwaitDrain || asked[i]
                    is Exit) by {
                    if asked == s {
                    } else if i < 4 {
                        assert(asked[i] == s[i]);
                    } else {
                        assert(asked[i] == c[i - 4]);
                    }
                }
            },
        }
    } else {
        law_transcript_after_shutdown(start, policy, events);
    }
}

/// A second report that the wait for a termination request is over is
/// ignored: once the trigger has been fired, such a report calls for
/// nothing and leaves the phase as it is.
pub proof fn law_repeated_request_ignored(phase: Phase, policy: DrainPolicy, outcome: WaitOutcome)
    requires
        !phase.before_shutdown(),
    ensures
        emitted(phase, policy, Event::WaitResolved(outcome)) == Seq::<Action>::empty(),
        next_phase(phase, policy, Event::WaitResolved(outcome)) == phase,
{
}

/// Under the policy that waits for the listener, the process does not exit
/// before the listener has confirmed that it is done.
///
/// As long as no confirmation has been reported, the run has not stopped,
/// has not logged that the shutdown is complete, and has not asked for the
/// process to exit.  Since this holds of every run, it holds of every
/// beginning of a run: the completion is asked for no earlier than at the
/// event that reports the confirmation.
pub proof fn law_no_exit_before_drain(start: Phase, events: Seq<Event>, code: i32)
    requires
        start != Phase::Stopped,
        !events.contains(Event::DrainConfirmed),
    ensures
        phase_after(start, DrainPolicy::AwaitConfirmation, events) != Phase::Stopped,
        !transcript(start, DrainPolicy::AwaitConfirmation, events).contains(
            Action::Log(LogLine::ShutdownComplete),
        ),
        !transcript(start, DrainPolicy::AwaitConfirmation, events).contains(Action::Exit(code)),
{
    let policy = DrainPolicy::AwaitConfirmation;
    let asked = transcript(start, policy, events);
    if start.before_shutdown() {
        lemma_no_confirmation_no_stop(start, events);
        law_transcript_shape(start, policy, events);
        match first_outcome(events) {
            None => {},
            Some(outcome) => {
                let s = shutdown_actions(policy, outcome);
                assert(s.len() == 4 && s[0] == Action::Log(outcome_line(outcome)) && s[1]
                    == Action::Log(LogLine::ShuttingDown) && s[2] == Action::FireTrigger && s[3]
                    == Action::AwaitDrain);
                assert(outcome_line(outcome) != LogLine::ShutdownComplete);
                assert(asked == s);
            },
        }
    } else {
        law_transcript_after_shutdown(start, policy, events);
    }
}

proof fn lemma_no_confirmation_no_stop(start: Phase, events: Seq<Event>)
    requires
        start != Phase::Stopped,
        !events.contains(Event::DrainConfirmed),
    ensures
        phase_after(start, DrainPolicy::AwaitConfirmation, events) != Phase::Stopped,
    decreases events.len(),
{
    if events.len() > 0 {
        let head = events.drop_last();
        if head.contains(Event::DrainConfirmed) {
            let i = choose|i: int| 0 <= i < head.len() && head[i] == Event::DrainConfirmed;
            assert(events[i] == Event::DrainConfirmed);
        }
        lemma_no_confirmation_no_stop(start, head);
        assert(events[events.len() - 1] != Event::DrainConfirmed);
    }
}

/// A complete run, in order.
///
/// Under the policy that waits for the listener, take a run in which the
/// wait for a termination request ends at the event `resolved`, for the
/// first time, and the listener's confirmation is reported at a later event
/// `confirmed`.  Whatever else is reported, the run ends in the phase
/// `Stopped`, and what it has asked for is, in this order: the line that
/// says how the wait ended, the line that announces the shutdown, the
/// trigger, the wait for the listener, the line that says that the shutdown
/// is complete, and the exit with code 0.
pub proof fn law_complete_run(
    start: Phase,
    events: Seq<Event>,
    resolved: int,
    confirmed: int,
    outcome: WaitOutcome,
)
    requires
        start.before_shutdown(),
        0 <= resolved < confirmed < events.len(),
        events[resolved] == Event::WaitResolved(outcome),
        forall|i: int| 0 <= i < resolved ==> !(#[trigger] events[i] is WaitResolved),
        events[confirmed] == Event::DrainConfirmed,
    ensures
        phase_after(start, DrainPolicy::AwaitConfirmation, events) == Phase::Stopped,
        transcript(start, DrainPolicy::AwaitConfirmation, events) == seq![
            Action::Log(outcome_line(outcome)),
            Action::Log(LogLine::ShuttingDown),
            Action::FireTrigger,
            Action::AwaitDrain,
            Action::Log(LogLine::ShutdownComplete),
            Action::Exit(0),
        ],
{
    let policy = DrainPolicy::AwaitConfirmation;
    lemma_first_outcome_at(events, resolved, outcome);
    law_transcript_shape(start, policy, events);
    lemma_confirmation_stops(start, events, resolved, confirmed);
    assert(shutdown_actions(policy, outcome) + completion_actions() =~= seq![
        Action::Log(outcome_line(outcome)),
        Action::Log(LogLine::ShuttingDown),
        Action::FireTrigger,
        Action::AwaitDrain,
        Action::Log(LogLine::ShutdownComplete),
        Action::Exit(0),
    ]);
}

proof fn lemma_confirmation_stops(start: Phase, events: Seq<Event>, resolved: int, confirmed: int)
    requires
        start.before_shutdown(),
        0 <= resolved < confirmed < events.len(),
        events[resolved] is WaitResolved,
        events[confirmed] == Event::DrainConfirmed,
    ensures
        phase_after(start, DrainPolicy::AwaitConfirmation, events) == Phase::Stopped,
    decreases events.len(),
{
    let policy = DrainPolicy::AwaitConfirmation;
    let head = events.drop_last();
    if confirmed == events.len() - 1 {
        lemma_resolution_ends_wait(start, policy, head, resolved);
    } else {
        assert(head[resolved] == events[resolved]);
        assert(head[confirmed] == events[confirmed]);
        lemma_confirmation_stops(start, head, resolved, confirmed);
    }
}

proof fn lemma_resolution_ends_wait(
    start: Phase,
    policy: DrainPolicy,
    events: Seq<Event>,
    resolved: int,
)
    requires
        0 <= resolved < events.len(),
        events[resolved] is WaitResolved,
    ensures
        !phase_after(start, policy, events).before_shutdown(),
    decreases events.len(),
{
    let head = events.drop_last();
    if resolved < events.len() - 1 {
        assert(head[resolved] == events[resolved]);
        lemma_resolution_ends_wait(start, policy, head, resolved);
    }
}

} // verus!

use graceful_shutdown::signal::{
    reason_for, SignalKind, SignalRegistrationError, TerminationReason, TerminationWatch,
    WaitOutcome, WatchAction, WatchEvent, WatchPhase,
};

#[test]
fn reasons_of_the_signals() {
    assert_eq!(reason_for(SignalKind::Terminate), TerminationReason::TerminateRequest);
    assert_eq!(reason_for(SignalKind::Interrupt), TerminationReason::InterruptRequest);
}

#[test]
fn watch_installs_terminate_then_interrupt_then_sleeps() {
    let mut watch = TerminationWatch::new();
    assert_eq!(watch.current_phase(), WatchPhase::Registering(SignalKind::Terminate));
    assert_eq!(watch.next_action(), WatchAction::Register(SignalKind::Terminate));
    assert_eq!(watch.outcome(), None);
    watch.on_event(WatchEvent::Registered(SignalKind::Terminate));
    assert_eq!(watch.next_action(), WatchAction::Register(SignalKind::Interrupt));
    assert_eq!(watch.outcome(), None);
    watch.on_event(WatchEvent::Registered(SignalKind::Interrupt));
    assert_eq!(watch.current_phase(), WatchPhase::Racing);
    assert_eq!(watch.next_action(), WatchAction::AwaitFirstSignal);
    assert_eq!(watch.outcome(), None);
}

fn racing() -> TerminationWatch {
    let mut watch = TerminationWatch::new();
    watch.on_event(WatchEvent::Registered(SignalKind::Terminate));
    watch.on_event(WatchEvent::Registered(SignalKind::Interrupt));
    watch
}

#[test]
fn interrupt_first_gives_interrupt_request() {
    let mut watch = racing();
    watch.on_event(WatchEvent::Delivered(SignalKind::Interrupt));
    let outcome = WaitOutcome::Requested(TerminationReason::InterruptRequest);
    assert_eq!(watch.outcome(), Some(outcome));
    assert_eq!(watch.next_action(), WatchAction::Finish(outcome));
    assert_eq!(watch.current_phase(), WatchPhase::Finished(outcome));
}

#[test]
fn terminate_first_gives_terminate_request() {
    let mut watch = racing();
    watch.on_event(WatchEvent::Delivered(SignalKind::Terminate));
    let outcome = WaitOutcome::Requested(TerminationReason::TerminateRequest);
    assert_eq!(watch.outcome(), Some(outcome));
    assert_eq!(watch.next_action(), WatchAction::Finish(outcome));
}

#[test]
fn the_second_signal_is_not_seen() {
    let mut watch = racing();
    watch.on_event(WatchEvent::Delivered(SignalKind::Terminate));
    let outcome = watch.outcome();
    for event in [
        WatchEvent::Delivered(SignalKind::Interrupt),
        WatchEvent::Delivered(SignalKind::Terminate),
        WatchEvent::Registered(SignalKind::Terminate),
        WatchEvent::Registered(SignalKind::Interrupt),
        WatchEvent::RegistrationFailed(SignalKind::Terminate),
        WatchEvent::RegistrationFailed(SignalKind::Interrupt),
    ] {
        watch.on_event(event);
        assert_eq!(watch.outcome(), outcome);
    }
    assert_eq!(
        outcome,
        Some(WaitOutcome::Requested(TerminationReason::TerminateRequest))
    );
}

#[test]
fn failing_to_install_terminate_ends_the_wait() {
    let mut watch = TerminationWatch::new();
    watch.on_event(WatchEvent::RegistrationFailed(SignalKind::Terminate));
    let outcome = WaitOutcome::Failed(SignalRegistrationError { kind: SignalKind::Terminate });
    assert_eq!(watch.outcome(), Some(outcome));
    assert_eq!(watch.next_action(), WatchAction::Finish(outcome));
    watch.on_event(WatchEvent::Registered(SignalKind::Interrupt));
    watch.on_event(WatchEvent::Delivered(SignalKind::Interrupt));
    assert_eq!(watch.outcome(), Some(outcome));
}

#[test]
fn failing_to_install_interrupt_ends_the_wait() {
    let mut watch = TerminationWatch::new();
    watch.on_event(WatchEvent::Registered(SignalKind::Terminate));
    watch.on_event(WatchEvent::RegistrationFailed(SignalKind::Interrupt));
    let outcome = WaitOutcome::Failed(SignalRegistrationError { kind: SignalKind::Interrupt });
    assert_eq!(watch.outcome(), Some(outcome));
    watch.on_event(WatchEvent::Delivered(SignalKind::Terminate));
    assert_eq!(watch.outcome(), Some(outcome));
}

#[test]
fn reports_that_were_not_asked_for_are_ignored() {
    let mut watch = TerminationWatch::new();
    for event in [
        WatchEvent::Registered(SignalKind::Interrupt),
        WatchEvent::RegistrationFailed(SignalKind::Interrupt),
        WatchEvent::Delivered(SignalKind::Terminate),
        WatchEvent::Delivered(SignalKind::Interrupt),
    ] {
        watch.on_event(event);
        assert_eq!(watch.current_phase(), WatchPhase::Registering(SignalKind::Terminate));
    }
    watch.on_event(WatchEvent::Registered(SignalKind::Terminate));
    for event in [
        WatchEvent::Registered(SignalKind::Terminate),
        WatchEvent::RegistrationFailed(SignalKind::Terminate),
        WatchEvent::Delivered(SignalKind::Terminate),
        WatchEvent::Delivered(SignalKind::Interrupt),
    ] {
        watch.on_event(event);
        assert_eq!(watch.current_phase(), WatchPhase::Registering(SignalKind::Interrupt));
    }
    watch.on_event(WatchEvent::Registered(SignalKind::Interrupt));
    for event in [
        WatchEvent::Registered(SignalKind::Terminate),
        WatchEvent::Registered(SignalKind::Interrupt),
        WatchEvent::RegistrationFailed(SignalKind::Terminate),
        WatchEvent::RegistrationFailed(SignalKind::Interrupt),
    ] {
        watch.on_event(event);
        assert_eq!(watch.current_phase(), WatchPhase::Racing);
    }
}

#[test]
fn asking_for_the_next_action_changes_nothing() {
    let watch = racing();
    let before = watch.clone();
    assert_eq!(watch.next_action(), WatchAction::AwaitFirstSignal);
    assert_eq!(watch.next_action(), WatchAction::AwaitFirstSignal);
    assert_eq!(watch, before);
}

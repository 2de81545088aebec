use graceful_shutdown::trigger::{Readiness, ShutdownTrigger};

#[test]
fn new_trigger_has_not_fired() {
    let trigger = ShutdownTrigger::new();
    assert!(!trigger.is_fired());
    assert_eq!(trigger.wait(), Readiness::Pending);
    assert_eq!(trigger.wait(), Readiness::Pending);
}

#[test]
fn signal_fires_the_trigger() {
    let mut trigger = ShutdownTrigger::new();
    trigger.signal();
    assert!(trigger.is_fired());
    assert_eq!(trigger.wait(), Readiness::Ready);
}

#[test]
fn every_wait_after_firing_is_ready() {
    let mut trigger = ShutdownTrigger::new();
    trigger.signal();
    for _ in 0..100 {
        assert_eq!(trigger.wait(), Readiness::Ready);
    }
    assert!(trigger.is_fired());
}

#[test]
fn firing_twice_is_firing_once() {
    let mut once = ShutdownTrigger::new();
    once.signal();
    let mut twice = ShutdownTrigger::new();
    twice.signal();
    twice.signal();
    assert_eq!(once, twice);
    assert_eq!(twice.wait(), Readiness::Ready);
}

#[test]
fn waiting_does_not_fire() {
    let trigger = ShutdownTrigger::new();
    for _ in 0..10 {
        assert_eq!(trigger.wait(), Readiness::Pending);
    }
    assert_eq!(trigger, ShutdownTrigger::new());
}

use graceful_shutdown::http::{listen_addr, respond, ListenAddr, Response};
use graceful_shutdown::logging::{line_for_outcome, LogLevel, LogLine};
use graceful_shutdown::signal::{
    SignalKind, SignalRegistrationError, TerminationReason, WaitOutcome,
};

#[test]
fn get_anything_is_greeted() {
    assert_eq!(respond("GET", "/anything"), Response { status: 200, body: "Hello, World!" });
}

#[test]
fn every_method_and_path_is_greeted() {
    let methods = ["GET", "HEAD", "POST", "PUT", "DELETE", "OPTIONS", "PATCH", "TRACE", "BREW", ""];
    let paths = ["/", "/anything", "/a/b/c?d=e", "", "*", "/%00", "/\u{e9}t\u{e9}"];
    for method in methods {
        for path in paths {
            let response = respond(method, path);
            assert_eq!(response.status, 200);
            assert_eq!(response.body, "Hello, World!");
            assert_eq!(response.body.len(), 13);
        }
    }
}

#[test]
fn listener_binds_loopback_8080() {
    assert_eq!(listen_addr(), ListenAddr { octets: (127, 0, 0, 1), port: 8080 });
}

#[test]
fn wording_of_the_lines() {
    assert_eq!(LogLine::TerminateReceived.text(""), "SIGTERM received");
    assert_eq!(LogLine::InterruptReceived.text(""), "SIGINT received");
    assert_eq!(LogLine::ShuttingDown.text(""), "shutting down the server");
    assert_eq!(LogLine::ShutdownComplete.text(""), "shutdown complete");
}

#[test]
fn fixed_lines_do_not_depend_on_the_failure() {
    for line in [
        LogLine::TerminateReceived,
        LogLine::InterruptReceived,
        LogLine::ShuttingDown,
        LogLine::ShutdownComplete,
    ] {
        assert_eq!(line.text("no more handlers"), line.text(""));
        assert_ne!(line.text("no more handlers"), "no more handlers");
    }
}

#[test]
fn failure_line_is_the_failure() {
    assert_eq!(
        LogLine::SignalRegistrationFailed.text("Too many open files (os error 24)"),
        "Too many open files (os error 24)"
    );
    assert_eq!(LogLine::SignalRegistrationFailed.text(""), "");
}

#[test]
fn levels_of_the_lines() {
    assert_eq!(LogLine::TerminateReceived.level(), LogLevel::Info);
    assert_eq!(LogLine::InterruptReceived.level(), LogLevel::Info);
    assert_eq!(LogLine::ShuttingDown.level(), LogLevel::Info);
    assert_eq!(LogLine::ShutdownComplete.level(), LogLevel::Info);
    assert_eq!(LogLine::SignalRegistrationFailed.level(), LogLevel::Error);
}

#[test]
fn line_of_each_outcome() {
    assert_eq!(
        line_for_outcome(WaitOutcome::Requested(TerminationReason::TerminateRequest)),
        LogLine::TerminateReceived
    );
    assert_eq!(
        line_for_outcome(WaitOutcome::Requested(TerminationReason::InterruptRequest)),
        LogLine::InterruptReceived
    );
    for kind in [SignalKind::Terminate, SignalKind::Interrupt] {
        assert_eq!(
            line_for_outcome(WaitOutcome::Failed(SignalRegistrationError { kind })),
            LogLine::SignalRegistrationFailed
        );
    }
}

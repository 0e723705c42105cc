use tokio_s7::error::S7Error;
use tokio_s7::session::{SessionAction, SessionEvent, SessionState};

fn connected(auto_reconnect: bool) -> SessionState {
    let (s, a) = SessionState::new(auto_reconnect, 480).step(SessionEvent::HandshakeDone(Ok(240)));
    assert!(matches!(a, SessionAction::Serve { report: Some(240) }));
    s
}

#[test]
fn first_handshake_answers_caller() {
    let s = SessionState::new(true, 480);
    assert!(s.caller_waiting);
    assert_eq!(s.pdu_length, 480);
    let n = connected(true);
    assert!(!n.caller_waiting);
    assert!(n.auto_reconnect);
    assert_eq!(n.pdu_length, 240);
}

#[test]
fn first_failures_are_reported() {
    let s = SessionState::new(true, 480);
    match s.step(SessionEvent::AddressInvalid("invalid socket address syntax".to_string())).1 {
        SessionAction::ReportFailure(S7Error::Error(m)) => {
            assert_eq!(m, "Invalid address: invalid socket address syntax")
        },
        other => panic!("unexpected {:?}", other),
    }
    match s.step(SessionEvent::ConnectFailed { host: "10.0.0.1".to_string(), port: 102 }).1 {
        SessionAction::ReportFailure(S7Error::ConnectionRefused { host, port }) => {
            assert_eq!(host, "10.0.0.1");
            assert_eq!(port, 102);
        },
        other => panic!("unexpected {:?}", other),
    }
    let (n, a) = s.step(SessionEvent::HandshakeDone(Err(S7Error::ConnectionClosed)));
    assert!(matches!(a, SessionAction::ReportFailure(S7Error::ConnectionClosed)));
    assert!(!n.caller_waiting);
    assert_eq!(n.pdu_length, 480);
}

#[test]
fn later_failures_retry_or_stop() {
    let on = connected(true);
    let off = connected(false);
    let lost = || SessionEvent::SessionEnded(Err(S7Error::ConnectionClosed));
    assert!(matches!(on.step(lost()).1, SessionAction::RetryAfterPause));
    assert!(matches!(off.step(lost()).1, SessionAction::Stop));
    let refused = || SessionEvent::ConnectFailed { host: "h".to_string(), port: 1 };
    assert!(matches!(on.step(refused()).1, SessionAction::RetryAfterPause));
    assert!(matches!(off.step(refused()).1, SessionAction::Stop));
    let bad = || SessionEvent::HandshakeDone(Err(S7Error::Error("COTP connection refused".to_string())));
    assert!(matches!(on.step(bad()).1, SessionAction::RetryAfterPause));
    assert!(matches!(off.step(bad()).1, SessionAction::Stop));
    assert!(matches!(on.step(SessionEvent::AddressInvalid("x".to_string())).1, SessionAction::RetryAfterPause));
}

#[test]
fn later_handshake_serves_without_report() {
    let (n, a) = connected(true).step(SessionEvent::HandshakeDone(Ok(960)));
    assert!(matches!(a, SessionAction::Serve { report: None }));
    assert_eq!(n.pdu_length, 960);
}

#[test]
fn closed_command_channel_reconnects() {
    assert!(matches!(connected(false).step(SessionEvent::SessionEnded(Ok(()))).1, SessionAction::Reconnect));
}

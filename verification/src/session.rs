//! The decisions of the task that owns a connection: when the caller of
//! `connect` is answered, when to serve commands, retry or give up.
use vstd::prelude::*;
use crate::error::S7Error;

verus! {

/// What the connection task remembers between its steps.
#[derive(Debug, Clone, Copy, PartialEq, Eq, Structural)]
pub struct SessionState {
    /// The caller of `connect` still waits for the outcome of the first connection.
    pub caller_waiting: bool,
    /// Whether to connect again after the connection is lost or refused.
    pub auto_reconnect: bool,
    /// The PDU length last negotiated (or asked for, before any negotiation).
    pub pdu_length: u16,
}

/// What happened in the step that the task just performed.
#[derive(Debug)]
pub enum SessionEvent {
    /// The host and port do not form a socket address; the text says why.
    AddressInvalid(String),
    /// No TCP connection to `host`:`port` within the timeout.
    ConnectFailed { host: String, port: u16 },
    /// The COTP and S7 setup handshake ended, with the negotiated PDU length or an error.
    HandshakeDone(Result<u16, S7Error>),
    /// Serving commands ended: `Ok` when no sender of commands is left, `Err`
    /// when a command failed or the connection was asked to close.
    SessionEnded(Result<(), S7Error>),
}

/// Whether an action gives the caller of `connect` its answer.
pub open spec fn answers_caller(a: SessionAction) -> bool {
    a is ReportFailure || a matches SessionAction::Serve { report: Some(_) }
}

/// What the task does next.
#[derive(Debug)]
pub enum SessionAction {
    /// Gives the waiting caller this error, and ends the task.
    ReportFailure(S7Error),
    /// Serves commands over the connection; first gives the waiting caller the
    /// negotiated PDU length, where there is one to tell.
    Serve { report: Option<u16> },
    /// Waits two seconds, then connects again.
    RetryAfterPause,
    /// Connects again at once.
    Reconnect,
    /// Ends the task.
    Stop,
}

impl SessionState {
    /// The state before the first connection.
    pub fn new(auto_reconnect: bool, pdu_length: u16) -> (r: Self)
        ensures
            r == (SessionState { caller_waiting: true, auto_reconnect, pdu_length }),
    {
        SessionState { caller_waiting: true, auto_reconnect, pdu_length }
    }

    /// The next action after `event`, and the state that follows. While the
    /// caller waits, every event answers it (a failure ends the task, a
    /// handshake serves commands); afterwards a failure retries after a pause
    /// with automatic reconnection and stops without it, a finished handshake
    /// serves commands, and an ended session with no command sender left
    /// connects again at once.
    pub fn step(self, event: SessionEvent) -> (r: (SessionState, SessionAction))
        ensures
            r.0.auto_reconnect == self.auto_reconnect,
            !r.0.caller_waiting,
            answers_caller(r.1) <==> self.caller_waiting && !(event is SessionEnded),
            match event {
                SessionEvent::HandshakeDone(Ok(p)) => r.0.pdu_length == p,
                _ => r.0.pdu_length == self.pdu_length,
            },
            self.caller_waiting ==> match event {
                SessionEvent::AddressInvalid(msg) => r.1 matches SessionAction::ReportFailure(S7Error::Error(m))
                    && m@ == "Invalid address: "@ + msg@,
                SessionEvent::ConnectFailed { host, port } => r.1 matches SessionAction::ReportFailure(
                    S7Error::ConnectionRefused { host: h, port: q },
                ) && h@ == host@ && q == port,
                SessionEvent::HandshakeDone(Ok(p)) => r.1 matches SessionAction::Serve { report: Some(q) } && q == p,
                SessionEvent::HandshakeDone(Err(e)) => r.1 matches SessionAction::ReportFailure(f) && f == e,
                SessionEvent::SessionEnded(_) => r.1 is Stop,
            },
            !self.caller_waiting ==> match event {
                SessionEvent::HandshakeDone(Ok(_)) => r.1 matches SessionAction::Serve { report: None },
                SessionEvent::SessionEnded(Ok(())) => r.1 is Reconnect,
                _ => if self.auto_reconnect {
                    r.1 is RetryAfterPause
                } else {
                    r.1 is Stop
                },
            },
    {
        let waiting = self.caller_waiting;
        let auto = self.auto_reconnect;
        let mut next = SessionState { caller_waiting: false, auto_reconnect: auto, pdu_length: self.pdu_length };
        let failed = if auto {
            SessionAction::RetryAfterPause
        } else {
            SessionAction::Stop
        };
        let action = match event {
            SessionEvent::AddressInvalid(msg) => {
                if waiting {
                    let mut m = String::from_str("Invalid address: ");
                    m.append(msg.as_str());
                    SessionAction::ReportFailure(S7Error::Error(m))
                } else {
                    failed
                }
            },
            SessionEvent::ConnectFailed { host, port } => {
                if waiting {
                    SessionAction::ReportFailure(S7Error::ConnectionRefused { host, port })
                } else {
                    failed
                }
            },
            SessionEvent::HandshakeDone(Ok(p)) => {
                next.pdu_length = p;
                if waiting {
                    SessionAction::Serve { report: Some(p) }
                } else {
                    SessionAction::Serve { report: None }
                }
            },
            SessionEvent::HandshakeDone(Err(e)) => {
                if waiting {
                    SessionAction::ReportFailure(e)
                } else {
                    failed
                }
            },
            SessionEvent::SessionEnded(Ok(())) => {
                if waiting {
                    SessionAction::Stop
                } else {
                    SessionAction::Reconnect
                }
            },
            SessionEvent::SessionEnded(Err(_)) => {
                if waiting {
                    SessionAction::Stop
                } else {
                    failed
                }
            },
        };
        (next, action)
    }
}

} // verus!

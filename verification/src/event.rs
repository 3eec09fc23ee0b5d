//! What the surrounding service sees of the multiplexer: the priority of
//! outgoing data and the notifications that a session gives rise to.

use crate::error::Error;
use crate::payload::{bytes_as_slice, bytes_debug, bytes_debug_text, bytes_from_vec, bytes_seq};
use crate::session::{Session, SessionEvent, StreamHandle};
use crate::text::{decimal, spec_decimal};
use bytes::Bytes;
use std::sync::Arc;
use std::time::Duration;
use vstd::prelude::*;
use vstd::string::StringExecFns;

verus! {

/// Identifies a session of the service.
pub type SessionId = usize;

/// Identifies a protocol of the service.
pub type ProtocolId = usize;

/// A network address, in its text form.
pub type Multiaddr = String;

/// What the service knows of a session.
#[derive(Clone, Debug, PartialEq, Eq)]
pub struct SessionContext {
    /// The session's id.
    pub id: SessionId,
    /// The address of the peer.
    pub address: Multiaddr,
    /// Whether this side opened the connection.
    pub outbound: bool,
}

/// The sessions that a message goes to.
#[derive(Clone, Debug, PartialEq, Eq)]
pub enum TargetSession {
    /// Every session.
    All,
    /// One session.
    Single(SessionId),
    /// These sessions.
    Multi(Vec<SessionId>),
}

/// The protocols to open on a dialed connection.
#[derive(Clone, Debug, PartialEq, Eq)]
pub enum DialProtocol {
    /// Every protocol.
    All,
    /// One protocol.
    Single(ProtocolId),
    /// These protocols.
    Multi(Vec<ProtocolId>),
}

/// Error generated by the Service.
#[derive(Debug)]
pub enum ServiceError {
    /// When dial remote error
    DialerError {
        /// Remote address
        address: Multiaddr,
        /// error
        error: Error,
    },
    /// When listen error
    ListenError {
        /// Listen address
        address: Multiaddr,
        /// error
        error: Error,
    },
    /// Protocol select fail
    ProtocolSelectError {
        /// Protocol name, if none, timeout or other net problem,
        /// if Some, don't support this proto
        proto_name: Option<String>,
        /// Session context
        session_context: Arc<SessionContext>,
    },
    /// Protocol error during interaction
    ProtocolError {
        /// Session id
        id: SessionId,
        /// Protocol id
        proto_id: ProtocolId,
        /// Codec error
        error: Error,
    },
    /// After initializing the connection, the session does not open any protocol,
    /// suspected fd attack
    SessionTimeout {
        /// Session context
        session_context: Arc<SessionContext>,
    },
    /// Multiplex protocol error
    MuxerError {
        /// Session context
        session_context: Arc<SessionContext>,
        /// error, such as `ProtocolError`
        error: Error,
    },
    /// Protocol handle error, will cause memory leaks/abnormal CPU usage
    ProtocolHandleError {
        /// Error message
        error: Error,
        /// Protocol id
        proto_id: ProtocolId,
    },
}

/// Event generated by the Service.
#[derive(Debug)]
pub enum ServiceEvent {
    /// A session close
    SessionClose {
        /// Session context
        session_context: Arc<SessionContext>,
    },
    /// A session open
    SessionOpen {
        /// Session context
        session_context: Arc<SessionContext>,
    },
    /// Listen close
    ListenClose {
        /// Listen address
        address: Multiaddr,
    },
    /// Listen start
    ListenStarted {
        /// Listen address
        address: Multiaddr,
    },
}

/// Event generated by all protocol.
#[derive(Debug)]
pub enum ProtocolEvent {
    /// Protocol open event
    Connected {
        /// session context
        session_context: Arc<SessionContext>,
        /// Protocol id
        proto_id: ProtocolId,
        /// Protocol version
        version: String,
    },
    /// Received protocol data
    Received {
        /// Session context
        session_context: Arc<SessionContext>,
        /// Protocol id
        proto_id: ProtocolId,
        /// The data
        data: bytes::Bytes,
    },
    /// Protocol close event
    Disconnected {
        /// Protocol id
        proto_id: ProtocolId,
        /// session context
        session_context: Arc<SessionContext>,
    },
    /// Service-level notify
    ProtocolNotify {
        /// Protocol id
        proto_id: ProtocolId,
        /// token
        token: u64,
    },
    /// Session-level notify task
    ProtocolSessionNotify {
        /// Session context
        session_context: Arc<SessionContext>,
        /// Protocol id
        proto_id: ProtocolId,
        /// Notify token
        token: u64,
    },
}

impl ServiceError {
    /// What the owner of a session is told when the session fails as a
    /// whole: the failure, as an error of the multiplexer; nothing for an
    /// error that concerns a single stream or request.
    pub fn from_session_error(session_context: Arc<SessionContext>, error: Error) -> (e: Option<
        ServiceError,
    >)
        ensures
            e is Some <==> error.spec_is_fatal(),
            e matches Some(err) ==> err == (ServiceError::MuxerError { session_context, error }),
    {
        if error.is_fatal() {
            Some(ServiceError::MuxerError { session_context, error })
        } else {
            None
        }
    }
}

impl ServiceEvent {
    /// What the service is told when a session has come to the given state:
    /// that it is closed once it is, nothing before.
    pub fn from_session_state(
        session_context: Arc<SessionContext>,
        state: crate::session::SessionState,
    ) -> (e: Option<ServiceEvent>)
        ensures
            e is Some <==> state == crate::session::SessionState::Closed,
            e matches Some(ev) ==> ev == (ServiceEvent::SessionClose { session_context }),
    {
        match state {
            crate::session::SessionState::Closed => Some(
                ServiceEvent::SessionClose { session_context },
            ),
            _ => None,
        }
    }
}

impl ProtocolEvent {
    /// What the protocol behind a stream is told of something that happened
    /// on the stream.
    ///
    /// A stream that the peer opened, or one of this side that the peer has
    /// acknowledged, is reported as connected, with the version that was
    /// agreed on. Data is reported with the payload `data`,
    /// which the caller has read from the stream. A stream that has ended,
    /// in good order, by a reset of the peer, for a violation or to make
    /// room, is reported as disconnected. Nothing else is reported.
    pub fn from_session_event(
        session_context: Arc<SessionContext>,
        proto_id: ProtocolId,
        version: String,
        event: SessionEvent,
        data: Vec<u8>,
    ) -> (e: Option<ProtocolEvent>)
        ensures
            match event {
                SessionEvent::Opened(_) | SessionEvent::Acknowledged(_) => e == Some(
                    ProtocolEvent::Connected { session_context, proto_id, version },
                ),
                SessionEvent::Received(_, _) => e matches Some(
                    ProtocolEvent::Received { session_context: c, proto_id: p, data: d },
                ) && c == session_context && p == proto_id && bytes_seq(d) == data@,
                SessionEvent::Reset(_)
                | SessionEvent::Violation(_)
                | SessionEvent::Finished(_)
                | SessionEvent::Evicted(_) => e == Some(
                    ProtocolEvent::Disconnected { proto_id, session_context },
                ),
                _ => e is None,
            },
    {
        match event {
            SessionEvent::Opened(_) | SessionEvent::Acknowledged(_) => Some(
                ProtocolEvent::Connected { session_context, proto_id, version },
            ),
            SessionEvent::Received(_, _) => Some(
                ProtocolEvent::Received { session_context, proto_id, data: bytes_from_vec(data) },
            ),
            SessionEvent::Reset(_)
            | SessionEvent::Violation(_)
            | SessionEvent::Finished(_)
            | SessionEvent::Evicted(_) => Some(
                ProtocolEvent::Disconnected { proto_id, session_context },
            ),
            _ => None,
        }
    }
}

/// Offers a message of the service to a stream for sending, with the
/// priority that the service gave it. Returns how many of its bytes the
/// stream took (see [`Session::write`]).
pub fn send_message(
    session: &mut Session,
    handle: StreamHandle,
    priority: Priority,
    data: &Bytes,
) -> (r: Result<usize, Error>)
    requires
        old(session)@.wf(),
    ensures
        r == old(session)@.write_result(handle.id, bytes_seq(*data).len()),
        final(session)@ == old(session)@.after_write(handle.id, bytes_seq(*data), priority),
        final(session)@.wf(),
{
    session.write(handle, bytes_as_slice(data), priority)
}

/// Priority for send.
#[derive(Copy, Clone, Debug, Eq, PartialEq, Hash, Structural)]
pub enum Priority {
    /// Goes out before anything of normal priority.
    High,
    /// Goes out when nothing of high priority waits.
    Normal,
}

impl Priority {
    /// Whether this is the high priority.
    pub open spec fn spec_is_high(self) -> bool {
        self == Priority::High
    }

    /// Whether this is the high priority.
    #[inline]
    pub fn is_high(self) -> (high: bool)
        ensures
            high == self.spec_is_high(),
            high <==> self == Priority::High,
    {
        match self {
            Priority::High => true,
            Priority::Normal => false,
        }
    }
}

/// Task received by the Service.
///
/// An instruction that the outside world can send to the service.
pub enum ServiceTask {
    /// Send protocol data task
    ProtocolMessage {
        /// Specify which sessions to send to
        target: TargetSession,
        /// protocol id
        proto_id: ProtocolId,
        /// Message sending priority
        priority: Priority,
        /// data
        data: Bytes,
    },
    /// Open specify protocol
    ProtocolOpen {
        /// Session id
        session_id: SessionId,
        /// protocol id
        proto_id: ProtocolId,
    },
    /// Close specify protocol
    ProtocolClose {
        /// Session id
        session_id: SessionId,
        /// protocol id
        proto_id: ProtocolId,
    },
    /// Service-level notify task
    ProtocolNotify {
        /// Protocol id
        proto_id: ProtocolId,
        /// Notify token
        token: u64,
    },
    /// Session-level notify task
    ProtocolSessionNotify {
        /// Session id
        session_id: SessionId,
        /// Protocol id
        proto_id: ProtocolId,
        /// Notify token
        token: u64,
    },
    /// Set service notify task
    SetProtocolNotify {
        /// Protocol id
        proto_id: ProtocolId,
        /// Timer interval
        interval: Duration,
        /// The timer token
        token: u64,
    },
    /// Remove service notify task
    RemoveProtocolNotify {
        /// Protocol id
        proto_id: ProtocolId,
        /// The timer token
        token: u64,
    },
    /// Set service notify task
    SetProtocolSessionNotify {
        /// Session id
        session_id: SessionId,
        /// Protocol id
        proto_id: ProtocolId,
        /// Timer interval
        interval: Duration,
        /// The timer token
        token: u64,
    },
    /// Remove service notify task
    RemoveProtocolSessionNotify {
        /// Session id
        session_id: SessionId,
        /// Protocol id
        proto_id: ProtocolId,
        /// The timer token
        token: u64,
    },
    /// A deferred computation that the service runs to completion
    FutureTask,
    /// Disconnect task
    Disconnect {
        /// Session id
        session_id: SessionId,
    },
    /// Dial task
    Dial {
        /// Remote address
        address: Multiaddr,
        /// Dial protocols
        target: DialProtocol,
    },
    /// Listen task
    Listen {
        /// Listen address
        address: Multiaddr,
    },
    /// Shutdown service
    Shutdown(bool),
}

/// The name of a priority.
pub open spec fn spec_priority_text(priority: Priority) -> Seq<char> {
    match priority {
        Priority::High => "High"@,
        Priority::Normal => "Normal"@,
    }
}

/// The ids in decimal, separated by a comma and a space.
pub open spec fn spec_id_list(ids: Seq<usize>) -> Seq<char>
    decreases ids.len(),
{
    if ids.len() == 0 {
        Seq::empty()
    } else if ids.len() == 1 {
        spec_decimal(ids[0] as nat)
    } else {
        spec_id_list(ids.drop_last()) + ", "@ + spec_decimal(ids.last() as nat)
    }
}

/// The text of a target: `All`, `Single(7)` or `Multi([1, 2])`.
pub open spec fn spec_target_text(target: TargetSession) -> Seq<char> {
    match target {
        TargetSession::All => "All"@,
        TargetSession::Single(id) => "Single("@ + spec_decimal(id as nat) + ")"@,
        TargetSession::Multi(ids) => "Multi(["@ + spec_id_list(ids@) + "])"@,
    }
}

/// The description of a message task, given the text of its data.
pub open spec fn spec_message_text(
    target: TargetSession,
    proto_id: ProtocolId,
    data_text: Seq<char>,
    priority: Priority,
) -> Seq<char> {
    "id: "@ + spec_target_text(target) + ", proto_id: "@ + spec_decimal(proto_id as nat)
        + ", message: "@ + data_text + ", priority: "@ + spec_priority_text(priority)
}

/// The description of a task.
pub open spec fn spec_describe(task: ServiceTask) -> Seq<char> {
    match task {
        ServiceTask::ProtocolMessage { target, proto_id, priority, data } => spec_message_text(
            target,
            proto_id,
            bytes_debug_text(bytes_seq(data)),
            priority,
        ),
        ServiceTask::SetProtocolNotify { proto_id, token, .. } => "set protocol("@ + spec_decimal(
            proto_id as nat,
        ) + ") notify("@ + spec_decimal(token as nat) + ")"@,
        ServiceTask::RemoveProtocolNotify { proto_id, token } => "remove protocol("@
            + spec_decimal(proto_id as nat) + ") notify("@ + spec_decimal(token as nat) + ")"@,
        ServiceTask::SetProtocolSessionNotify { session_id, proto_id, token, .. } =>
            "set protocol("@ + spec_decimal(proto_id as nat) + ") session("@ + spec_decimal(
                session_id as nat,
            ) + ") notify("@ + spec_decimal(token as nat) + ")"@,
        ServiceTask::RemoveProtocolSessionNotify { session_id, proto_id, token } =>
            "remove protocol("@ + spec_decimal(proto_id as nat) + ") session("@ + spec_decimal(
                session_id as nat,
            ) + ") notify("@ + spec_decimal(token as nat) + ")"@,
        ServiceTask::ProtocolNotify { proto_id, token } => "protocol id: "@ + spec_decimal(
            proto_id as nat,
        ) + ", token: "@ + spec_decimal(token as nat),
        ServiceTask::ProtocolSessionNotify { session_id, proto_id, token } => "session id: "@
            + spec_decimal(session_id as nat) + ", protocol id: "@ + spec_decimal(proto_id as nat)
            + ", token: "@ + spec_decimal(token as nat),
        ServiceTask::FutureTask => "Future task"@,
        ServiceTask::Disconnect { session_id } => "Disconnect session ["@ + spec_decimal(
            session_id as nat,
        ) + "]"@,
        ServiceTask::Dial { address, .. } => "Dial address: "@ + address@,
        ServiceTask::Listen { address } => "Listen address: "@ + address@,
        ServiceTask::ProtocolOpen { session_id, proto_id } => "Open session ["@ + spec_decimal(
            session_id as nat,
        ) + "] proto ["@ + spec_decimal(proto_id as nat) + "]"@,
        ServiceTask::ProtocolClose { session_id, proto_id } => "Close session ["@ + spec_decimal(
            session_id as nat,
        ) + "] proto ["@ + spec_decimal(proto_id as nat) + "]"@,
        ServiceTask::Shutdown(_) => "Try close service"@,
    }
}

/// Appends `n` in decimal to `s`.
fn push_decimal(s: &mut String, n: u64)
    ensures
        final(s)@ == old(s)@ + spec_decimal(n as nat),
{
    let d = decimal(n);
    s.append(d.as_str());
}

/// The name of a priority.
pub fn priority_text(priority: Priority) -> (s: &'static str)
    ensures
        s@ == spec_priority_text(priority),
{
    match priority {
        Priority::High => "High",
        Priority::Normal => "Normal",
    }
}

/// The text of a target: `All`, `Single(7)` or `Multi([1, 2])`.
pub fn describe_target(target: &TargetSession) -> (s: String)
    ensures
        s@ == spec_target_text(*target),
{
    match target {
        TargetSession::All => String::from_str("All"),
        TargetSession::Single(id) => {
            let mut s = String::from_str("Single(");
            push_decimal(&mut s, *id as u64);
            s.append(")");
            s
        },
        TargetSession::Multi(ids) => {
            let mut s = String::from_str("Multi([");
            let mut i: usize = 0;
            while i < ids.len()
                invariant
                    i <= ids.len(),
                    s@ == "Multi(["@ + spec_id_list(ids@.take(i as int)),
                decreases ids.len() - i,
            {
                proof {
                    assert(ids@.take(i + 1).drop_last() =~= ids@.take(i as int));
                    assert(ids@.take(i + 1).last() == ids@[i as int]);
                }
                if i > 0 {
                    s.append(", ");
                }
                push_decimal(&mut s, ids[i] as u64);
                proof {
                    let before = spec_id_list(ids@.take(i as int));
                    let number = spec_decimal(ids@[i as int] as nat);
                    if i > 0 {
                        assert(s@ =~= "Multi(["@ + (before + ", "@ + number));
                    } else {
                        assert(before =~= Seq::<char>::empty());
                        assert(s@ =~= "Multi(["@ + number);
                    }
                }
                i += 1;
            }
            proof {
                assert(ids@.take(i as int) =~= ids@);
            }
            s.append("])");
            s
        },
    }
}

/// The description of a message task, given the text of its data.
pub fn describe_message(
    target: &TargetSession,
    proto_id: ProtocolId,
    data_text: &str,
    priority: Priority,
) -> (s: String)
    ensures
        s@ == spec_message_text(*target, proto_id, data_text@, priority),
{
    let mut s = String::from_str("id: ");
    s.append(describe_target(target).as_str());
    s.append(", proto_id: ");
    push_decimal(&mut s, proto_id as u64);
    s.append(", message: ");
    s.append(data_text);
    s.append(", priority: ");
    s.append(priority_text(priority));
    s
}

/// Two numbers between three pieces of text.
fn text_with_two(a: &str, x: u64, b: &str, y: u64, c: &str) -> (s: String)
    ensures
        s@ == a@ + spec_decimal(x as nat) + b@ + spec_decimal(y as nat) + c@,
{
    let mut s = String::from_str(a);
    push_decimal(&mut s, x);
    s.append(b);
    push_decimal(&mut s, y);
    s.append(c);
    s
}

/// Three numbers between four pieces of text.
fn text_with_three(a: &str, x: u64, b: &str, y: u64, c: &str, z: u64, d: &str) -> (s: String)
    ensures
        s@ == a@ + spec_decimal(x as nat) + b@ + spec_decimal(y as nat) + c@ + spec_decimal(
            z as nat,
        ) + d@,
{
    let mut s = text_with_two(a, x, b, y, c);
    push_decimal(&mut s, z);
    s.append(d);
    s
}

impl ServiceTask {
    /// Describes the task in a line of text, for logs.
    pub fn describe(&self) -> (s: String)
        ensures
            s@ == spec_describe(*self),
    {
        match self {
            ServiceTask::ProtocolMessage { target, proto_id, priority, data } => {
                let data_text = bytes_debug(data);
                describe_message(target, *proto_id, data_text.as_str(), *priority)
            },
            ServiceTask::SetProtocolNotify { proto_id, token, .. } => text_with_two(
                "set protocol(",
                *proto_id as u64,
                ") notify(",
                *token,
                ")",
            ),
            ServiceTask::RemoveProtocolNotify { proto_id, token } => text_with_two(
                "remove protocol(",
                *proto_id as u64,
                ") notify(",
                *token,
                ")",
            ),
            ServiceTask::SetProtocolSessionNotify {
                session_id,
                proto_id,
                token,
                ..
            } => text_with_three(
                "set protocol(",
                *proto_id as u64,
                ") session(",
                *session_id as u64,
                ") notify(",
                *token,
                ")",
            ),
            ServiceTask::RemoveProtocolSessionNotify {
                session_id,
                proto_id,
                token,
            } => text_with_three(
                "remove protocol(",
                *proto_id as u64,
                ") session(",
                *session_id as u64,
                ") notify(",
                *token,
                ")",
            ),
            ServiceTask::ProtocolNotify { proto_id, token } => {
                let mut s = String::from_str("protocol id: ");
                push_decimal(&mut s, *proto_id as u64);
                s.append(", token: ");
                push_decimal(&mut s, *token);
                s
            },
            ServiceTask::ProtocolSessionNotify { session_id, proto_id, token } => {
                let mut s = String::from_str("session id: ");
                push_decimal(&mut s, *session_id as u64);
                s.append(", protocol id: ");
                push_decimal(&mut s, *proto_id as u64);
                s.append(", token: ");
                push_decimal(&mut s, *token);
                s
            },
            ServiceTask::FutureTask => String::from_str("Future task"),
            ServiceTask::Disconnect { session_id } => {
                let mut s = String::from_str("Disconnect session [");
                push_decimal(&mut s, *session_id as u64);
                s.append("]");
                s
            },
            ServiceTask::Dial { address, .. } => {
                let mut s = String::from_str("Dial address: ");
                s.append(address.as_str());
                s
            },
            ServiceTask::Listen { address } => {
                let mut s = String::from_str("Listen address: ");
                s.append(address.as_str());
                s
            },
            ServiceTask::ProtocolOpen { session_id, proto_id } => text_with_two(
                "Open session [",
                *session_id as u64,
                "] proto [",
                *proto_id as u64,
                "]",
            ),
            ServiceTask::ProtocolClose { session_id, proto_id } => text_with_two(
                "Close session [",
                *session_id as u64,
                "] proto [",
                *proto_id as u64,
                "]",
            ),
            ServiceTask::Shutdown(_) => String::from_str("Try close service"),
        }
    }
}

} // verus!

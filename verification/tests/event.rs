use bytes::Bytes;
use std::sync::Arc;
use std::time::Duration;
use yamux::error::Error;
use yamux::event::{
    describe_message, describe_target, priority_text, send_message, DialProtocol, Priority,
    ProtocolEvent, ServiceError, ServiceEvent, ServiceTask, SessionContext, TargetSession,
};
use yamux::frame::{Flags, Frame};
use yamux::session::{Config, Session, SessionEvent, SessionState};
use yamux::text::decimal;

fn context() -> Arc<SessionContext> {
    Arc::new(SessionContext { id: 7, address: "/ip4/127.0.0.1/tcp/1337".to_string(), outbound: true })
}

#[test]
fn is_high() {
    assert!(Priority::High.is_high());
    assert!(!Priority::Normal.is_high());
}

#[test]
fn decimal_text() {
    assert_eq!(decimal(0), "0");
    assert_eq!(decimal(7), "7");
    assert_eq!(decimal(10), "10");
    assert_eq!(decimal(1234567890), "1234567890");
    assert_eq!(decimal(u64::MAX), "18446744073709551615");
}

#[test]
fn target_text() {
    assert_eq!(describe_target(&TargetSession::All), "All");
    assert_eq!(describe_target(&TargetSession::Single(12)), "Single(12)");
    assert_eq!(describe_target(&TargetSession::Multi(vec![])), "Multi([])");
    assert_eq!(describe_target(&TargetSession::Multi(vec![3])), "Multi([3])");
    assert_eq!(describe_target(&TargetSession::Multi(vec![1, 20, 300])), "Multi([1, 20, 300])");
    assert_eq!(priority_text(Priority::High), "High");
    assert_eq!(priority_text(Priority::Normal), "Normal");
}

#[test]
fn target_text_is_the_debug_text() {
    for t in [TargetSession::All, TargetSession::Single(5), TargetSession::Multi(vec![1, 2, 3])] {
        assert_eq!(describe_target(&t), format!("{:?}", t));
    }
}

#[test]
fn message_text() {
    assert_eq!(
        describe_message(&TargetSession::Single(1), 2, "b\"hi\"", Priority::High),
        "id: Single(1), proto_id: 2, message: b\"hi\", priority: High"
    );
}

#[test]
fn task_descriptions() {
    let message = ServiceTask::ProtocolMessage {
        target: TargetSession::All,
        proto_id: 1,
        priority: Priority::Normal,
        data: Bytes::from(vec![b'h', b'i', b'\n', 0xff]),
    };
    assert_eq!(
        message.describe(),
        "id: All, proto_id: 1, message: b\"hi\\n\\xff\", priority: Normal"
    );
    let interval = Duration::from_secs(1);
    assert_eq!(
        ServiceTask::SetProtocolNotify { proto_id: 1, interval, token: 2 }.describe(),
        "set protocol(1) notify(2)"
    );
    assert_eq!(
        ServiceTask::RemoveProtocolNotify { proto_id: 1, token: 2 }.describe(),
        "remove protocol(1) notify(2)"
    );
    assert_eq!(
        ServiceTask::SetProtocolSessionNotify { session_id: 3, proto_id: 1, interval, token: 2 }
            .describe(),
        "set protocol(1) session(3) notify(2)"
    );
    assert_eq!(
        ServiceTask::RemoveProtocolSessionNotify { session_id: 3, proto_id: 1, token: 2 }.describe(),
        "remove protocol(1) session(3) notify(2)"
    );
    assert_eq!(
        ServiceTask::ProtocolNotify { proto_id: 10, token: 20 }.describe(),
        "protocol id: 10, token: 20"
    );
    assert_eq!(
        ServiceTask::ProtocolSessionNotify { session_id: 5, proto_id: 10, token: 20 }.describe(),
        "session id: 5, protocol id: 10, token: 20"
    );
    assert_eq!(ServiceTask::FutureTask.describe(), "Future task");
    assert_eq!(ServiceTask::Disconnect { session_id: 9 }.describe(), "Disconnect session [9]");
    assert_eq!(
        ServiceTask::Dial { address: "/ip4/1.2.3.4/tcp/5".to_string(), target: DialProtocol::All }
            .describe(),
        "Dial address: /ip4/1.2.3.4/tcp/5"
    );
    assert_eq!(
        ServiceTask::Listen { address: "/ip4/0.0.0.0/tcp/0".to_string() }.describe(),
        "Listen address: /ip4/0.0.0.0/tcp/0"
    );
    assert_eq!(
        ServiceTask::ProtocolOpen { session_id: 1, proto_id: 2 }.describe(),
        "Open session [1] proto [2]"
    );
    assert_eq!(
        ServiceTask::ProtocolClose { session_id: 1, proto_id: 2 }.describe(),
        "Close session [1] proto [2]"
    );
    assert_eq!(ServiceTask::Shutdown(true).describe(), "Try close service");
    assert_eq!(ServiceTask::Shutdown(false).describe(), "Try close service");
}

#[test]
fn session_events_become_protocol_events() {
    let ctx = context();
    let e = ProtocolEvent::from_session_event(
        ctx.clone(),
        3,
        "1.0".to_string(),
        SessionEvent::Opened(2),
        vec![],
    );
    match e {
        Some(ProtocolEvent::Connected { session_context, proto_id, version }) => {
            assert_eq!(session_context, ctx);
            assert_eq!(proto_id, 3);
            assert_eq!(version, "1.0");
        }
        _ => panic!("expected a connected event"),
    }
    let e = ProtocolEvent::from_session_event(
        ctx.clone(),
        4,
        "2".to_string(),
        SessionEvent::Acknowledged(1),
        vec![],
    );
    assert!(matches!(e, Some(ProtocolEvent::Connected { proto_id: 4, .. })));
    let e = ProtocolEvent::from_session_event(
        ctx.clone(),
        3,
        String::new(),
        SessionEvent::Received(2, 3),
        vec![1, 2, 3],
    );
    match e {
        Some(ProtocolEvent::Received { session_context, proto_id, data }) => {
            assert_eq!(session_context, ctx);
            assert_eq!(proto_id, 3);
            assert_eq!(data, Bytes::from(vec![1, 2, 3]));
        }
        _ => panic!("expected a received event"),
    }
    for event in [
        SessionEvent::Reset(2),
        SessionEvent::Violation(2),
        SessionEvent::Finished(2),
        SessionEvent::Evicted(2),
    ] {
        let e = ProtocolEvent::from_session_event(ctx.clone(), 3, String::new(), event, vec![]);
        assert!(matches!(e, Some(ProtocolEvent::Disconnected { proto_id: 3, .. })));
    }
    for event in [
        SessionEvent::Refused(2),
        SessionEvent::WindowGranted(2),
        SessionEvent::RemoteClosed(2),
        SessionEvent::Ping(1),
        SessionEvent::Pong(1),
        SessionEvent::GoAway(0),
    ] {
        let e = ProtocolEvent::from_session_event(ctx.clone(), 3, String::new(), event, vec![]);
        assert!(e.is_none());
    }
}

#[test]
fn fatal_errors_become_muxer_errors() {
    let e = ServiceError::from_session_error(context(), Error::ProtocolError);
    match e {
        Some(ServiceError::MuxerError { session_context, error }) => {
            assert_eq!(session_context, context());
            assert_eq!(error, Error::ProtocolError);
        }
        _ => panic!("expected a muxer error"),
    }
    assert!(ServiceError::from_session_error(context(), Error::SessionShutdown).is_some());
    assert!(ServiceError::from_session_error(context(), Error::StreamReset).is_none());
    assert!(ServiceError::from_session_error(context(), Error::StreamsExhausted).is_none());
}

#[test]
fn a_closed_session_is_reported() {
    assert!(matches!(
        ServiceEvent::from_session_state(context(), SessionState::Closed),
        Some(ServiceEvent::SessionClose { .. })
    ));
    assert!(ServiceEvent::from_session_state(context(), SessionState::Open).is_none());
    assert!(ServiceEvent::from_session_state(context(), SessionState::Draining).is_none());
}

#[test]
fn a_message_is_written_with_its_priority() {
    let mut s = Session::new(Config::default(), true);
    let h = s.add_stream().unwrap();
    let data = Bytes::from(vec![4, 5, 6]);
    assert_eq!(send_message(&mut s, h, Priority::High, &data), Ok(3));
    assert_eq!(s.stream(h).unwrap().pending_priority, Priority::High);
    assert_eq!(s.poll_frame().frame, Some(Frame::new_data(h.id, Flags::none(), vec![4, 5, 6]).unwrap()));
}

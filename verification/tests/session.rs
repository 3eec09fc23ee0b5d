use yamux::error::Error;
use yamux::event::Priority;
use yamux::frame::{Flags, Frame};
use yamux::framed_stream::{FSState, ReadOutcome};
use yamux::session::{
    Config, DrainPolicy, Polled, Session, SessionEvent, SessionState, StreamHandle,
};

fn config(max_streams: usize, window: u32) -> Config {
    Config {
        max_frame_size: 1024,
        initial_window_size: window,
        max_streams,
        accept_backlog: 4,
        drain: DrainPolicy::Graceful,
    }
}

fn flag_frame(id: u32, flags: Flags) -> Frame {
    Frame::new_window_update(id, flags, 0).unwrap()
}

fn drain_frames(s: &mut Session) -> Vec<Frame> {
    let mut out = Vec::new();
    while let Some(f) = s.poll_frame().frame {
        out.push(f);
    }
    out
}

#[test]
fn default_config() {
    let c = Config::default();
    assert_eq!(c.max_frame_size, 262144);
    assert_eq!(c.initial_window_size, 262144);
    assert_eq!(c.max_streams, 65535);
    assert_eq!(c.accept_backlog, 256);
    assert_eq!(c.drain, DrainPolicy::Graceful);
}

#[test]
fn a_new_session_is_open_and_empty() {
    let mut s = Session::new(config(2, 64), true);
    assert_eq!(s.state(), SessionState::Open);
    assert!(!s.is_closed());
    assert!(s.is_client());
    assert_eq!(s.config(), config(2, 64));
    assert_eq!(s.streams_num(), 0);
    assert!(!s.has_outgoing());
    assert_eq!(s.poll_frame().frame, None);
    assert_eq!(s.accept(), None);
}

#[test]
fn client_ids_are_odd_and_server_ids_even() {
    let mut c = Session::new(config(8, 64), true);
    assert_eq!(c.open_stream(), Ok(StreamHandle { id: 1 }));
    assert_eq!(c.open_stream(), Ok(StreamHandle { id: 3 }));
    assert_eq!(c.add_stream(), Ok(StreamHandle { id: 5 }));
    let mut s = Session::new(config(8, 64), false);
    assert_eq!(s.open_stream(), Ok(StreamHandle { id: 2 }));
    assert_eq!(s.open_stream(), Ok(StreamHandle { id: 4 }));
    assert_eq!(c.streams_num(), 3);
    assert_eq!(s.streams_num(), 2);
}

#[test]
fn open_queues_a_syn_and_add_queues_nothing() {
    let mut s = Session::new(config(8, 64), true);
    let a = s.open_stream().unwrap();
    let b = s.add_stream().unwrap();
    assert_eq!(a.id(), 1);
    assert!(s.has_outgoing());
    assert_eq!(drain_frames(&mut s), vec![flag_frame(1, Flags::syn())]);
    assert_eq!(s.stream_state(a), Some(FSState::Established));
    assert_eq!(s.stream_state(b), Some(FSState::Established));
    assert_eq!(s.stream(b).unwrap().pending_frame, None);
}

#[test]
fn a_full_session_refuses_at_once_and_eviction_makes_room() {
    let mut s = Session::new(config(3, 64), true);
    let a = s.open_stream().unwrap();
    let b = s.open_stream().unwrap();
    let c = s.open_stream().unwrap();
    assert_eq!(s.streams_num(), 3);
    assert_eq!(s.open_stream(), Err(Error::StreamsExhausted));
    assert_eq!(s.add_stream(), Err(Error::StreamsExhausted));
    assert_eq!(s.streams_num(), 3);
    drain_frames(&mut s);
    assert_eq!(s.close_oldest_stream(), Ok(Some(a)));
    assert_eq!(s.stream_state(a), Some(FSState::Closed));
    assert_eq!(s.stream_state(b), Some(FSState::Established));
    assert_eq!(s.stream_state(c), Some(FSState::Established));
    assert_eq!(s.streams_num(), 2);
    assert_eq!(
        drain_frames(&mut s),
        vec![flag_frame(1, Flags { syn: false, ack: false, fin: true, rst: true })]
    );
    assert_eq!(s.open_stream(), Ok(StreamHandle { id: 7 }));
    assert_eq!(s.streams_num(), 3);
    // the next eviction takes the next oldest
    assert_eq!(s.close_oldest_stream(), Ok(Some(b)));
    assert_eq!(s.stream_state(b), Some(FSState::Closed));
}

#[test]
fn closing_the_oldest_of_none_does_nothing() {
    let mut s = Session::new(config(3, 64), true);
    assert_eq!(s.close_oldest_stream(), Ok(None));
    assert_eq!(s.poll_frame().frame, None);
}

#[test]
fn the_peer_opens_a_stream() {
    let mut s = Session::new(config(3, 64), true);
    let syn = Frame::new_data(2, Flags::syn(), vec![1, 2, 3]).unwrap();
    assert_eq!(s.handle_frame(&syn), vec![SessionEvent::Opened(2), SessionEvent::Received(2, 3)]);
    assert_eq!(s.streams_num(), 1);
    assert_eq!(s.accept(), Some(StreamHandle { id: 2 }));
    assert_eq!(s.accept(), None);
    let h = StreamHandle { id: 2 };
    assert_eq!(s.read(h, 10), Ok(ReadOutcome::Data(vec![1, 2, 3])));
    assert_eq!(drain_frames(&mut s), vec![flag_frame(2, Flags::ack())]);
}

#[test]
fn a_syn_is_refused_with_a_reset() {
    // at capacity
    let mut s = Session::new(config(1, 64), true);
    s.open_stream().unwrap();
    drain_frames(&mut s);
    assert_eq!(s.handle_frame(&flag_frame(2, Flags::syn())), vec![SessionEvent::Refused(2)]);
    assert_eq!(s.streams_num(), 1);
    assert_eq!(drain_frames(&mut s), vec![flag_frame(2, Flags::rst())]);
    // with an id of this side's parity
    let mut s = Session::new(config(4, 64), true);
    assert_eq!(s.handle_frame(&flag_frame(5, Flags::syn())), vec![SessionEvent::Refused(5)]);
    assert_eq!(s.streams_num(), 0);
    // with more data than a fresh window holds
    let mut s = Session::new(config(4, 2), true);
    let syn = Frame::new_data(2, Flags::syn(), vec![1, 2, 3]).unwrap();
    assert_eq!(s.handle_frame(&syn), vec![SessionEvent::Refused(2)]);
    assert_eq!(s.streams_num(), 0);
}

#[test]
fn the_accept_backlog_bounds_unaccepted_streams() {
    let mut s = Session::new(config(100, 64), true);
    for i in 1..=4u32 {
        assert_eq!(s.handle_frame(&flag_frame(2 * i, Flags::syn())), vec![SessionEvent::Opened(2 * i)]);
    }
    assert_eq!(s.handle_frame(&flag_frame(10, Flags::syn())), vec![SessionEvent::Refused(10)]);
    assert_eq!(s.accept(), Some(StreamHandle { id: 2 }));
    assert_eq!(s.handle_frame(&flag_frame(10, Flags::syn())), vec![SessionEvent::Opened(10)]);
}

#[test]
fn frames_for_unknown_or_closed_streams_are_dropped() {
    let mut s = Session::new(config(4, 64), true);
    let data = Frame::new_data(2, Flags::none(), vec![1]).unwrap();
    assert_eq!(s.handle_frame(&data), vec![]);
    assert_eq!(s.handle_frame(&flag_frame(2, Flags::rst())), vec![]);
    assert_eq!(s.streams_num(), 0);
    assert_eq!(s.poll_frame().frame, None);
    let h = s.open_stream().unwrap();
    assert_eq!(s.handle_frame(&flag_frame(1, Flags::rst())), vec![SessionEvent::Reset(1)]);
    let late = Frame::new_data(1, Flags::none(), vec![1]).unwrap();
    assert_eq!(s.handle_frame(&late), vec![]);
    assert_eq!(s.read(h, 10), Err(Error::StreamReset));
}

#[test]
fn data_and_credit_reach_the_stream() {
    let mut s = Session::new(config(4, 64), true);
    let h = s.open_stream().unwrap();
    let data = Frame::new_data(1, Flags::none(), vec![1, 2, 3]).unwrap();
    assert_eq!(s.handle_frame(&data), vec![SessionEvent::Received(1, 3)]);
    assert!(!s.stream(h).unwrap().acked);
    let credit = Frame::new_window_update(1, Flags::ack(), 10).unwrap();
    assert_eq!(
        s.handle_frame(&credit),
        vec![SessionEvent::Acknowledged(1), SessionEvent::WindowGranted(1)]
    );
    assert!(s.stream(h).unwrap().acked);
    assert_eq!(s.stream(h).unwrap().send_window, 74);
    assert_eq!(s.handle_frame(&credit), vec![SessionEvent::WindowGranted(1)]);
    assert_eq!(s.stream(h).unwrap().send_window, 84);
    let fin = Frame::new_data(1, Flags::fin(), vec![4]).unwrap();
    assert_eq!(
        s.handle_frame(&fin),
        vec![SessionEvent::Received(1, 1), SessionEvent::RemoteClosed(1)]
    );
    assert_eq!(s.stream_state(h), Some(FSState::RemoteClosed));
    assert_eq!(s.read(h, 10), Ok(ReadOutcome::Data(vec![1, 2, 3, 4])));
    assert_eq!(s.read(h, 10), Ok(ReadOutcome::Eof));
}

#[test]
fn a_reset_from_the_peer_discards_unread_data() {
    let mut s = Session::new(config(4, 64), true);
    let h = s.open_stream().unwrap();
    let data = Frame::new_data(1, Flags::none(), vec![1, 2, 3]).unwrap();
    assert_eq!(s.handle_frame(&data), vec![SessionEvent::Received(1, 3)]);
    assert_eq!(s.handle_frame(&flag_frame(1, Flags::rst())), vec![SessionEvent::Reset(1)]);
    assert_eq!(s.stream_state(h), Some(FSState::Closed));
    assert!(s.stream(h).unwrap().read_buffer.is_empty());
    assert_eq!(s.read(h, 10), Err(Error::StreamReset));
    assert_eq!(s.streams_num(), 0);
}

#[test]
fn a_window_violation_closes_only_that_stream() {
    let mut s = Session::new(config(4, 4), true);
    let a = s.open_stream().unwrap();
    let b = s.open_stream().unwrap();
    drain_frames(&mut s);
    let big = Frame::new_data(1, Flags::none(), vec![0; 5]).unwrap();
    assert_eq!(s.handle_frame(&big), vec![SessionEvent::Violation(1)]);
    assert_eq!(s.stream_state(a), Some(FSState::Closed));
    assert_eq!(s.stream_state(b), Some(FSState::Established));
    assert_eq!(s.state(), SessionState::Open);
    assert_eq!(drain_frames(&mut s), vec![flag_frame(1, Flags::rst())]);
}

#[test]
fn pings_are_answered_and_go_away_is_remembered() {
    let mut s = Session::new(config(4, 64), true);
    assert_eq!(s.handle_frame(&Frame::new_ping(false, 77)), vec![SessionEvent::Ping(77)]);
    assert_eq!(drain_frames(&mut s), vec![Frame::new_ping(true, 77)]);
    assert_eq!(s.handle_frame(&Frame::new_ping(true, 78)), vec![SessionEvent::Pong(78)]);
    assert_eq!(s.poll_frame().frame, None);
    assert!(!s.peer_went_away());
    assert_eq!(s.handle_frame(&Frame::new_go_away(1)), vec![SessionEvent::GoAway(1)]);
    assert!(s.peer_went_away());
    // the go-away is remembered and reported; opening is still up to this side
    assert_eq!(s.open_stream(), Ok(StreamHandle { id: 1 }));
}

#[test]
fn high_priority_goes_out_first() {
    let mut s = Session::new(config(4, 64), true);
    let a = s.add_stream().unwrap();
    let b = s.add_stream().unwrap();
    let c = s.add_stream().unwrap();
    assert_eq!(s.write(a, &[1], Priority::Normal), Ok(1));
    assert_eq!(s.write(b, &[2], Priority::High), Ok(1));
    assert_eq!(s.write(c, &[3], Priority::High), Ok(1));
    // a ping reply is of the connection and goes before everything
    s.handle_frame(&Frame::new_ping(false, 9));
    let order: Vec<u32> = drain_frames(&mut s).iter().map(|f| f.stream_id).collect();
    assert_eq!(order, vec![0, b.id, c.id, a.id]);
}

#[test]
fn writes_are_cut_to_the_frame_limit() {
    let mut s = Session::new(
        Config { max_frame_size: 8, initial_window_size: 64, ..config(4, 64) },
        true,
    );
    let h = s.add_stream().unwrap();
    let data = [5u8; 20];
    assert_eq!(s.write(h, &data, Priority::Normal), Ok(8));
    assert_eq!(s.write(h, &data[8..], Priority::Normal), Ok(0));
    assert_eq!(s.poll_frame().frame, Some(Frame::new_data(h.id, Flags::none(), vec![5; 8]).unwrap()));
    assert_eq!(s.write(h, &data[8..], Priority::Normal), Ok(8));
    assert_eq!(s.write(StreamHandle { id: 99 }, &data, Priority::Normal), Err(Error::UnknownStream));
    assert_eq!(s.read(StreamHandle { id: 99 }, 1), Err(Error::UnknownStream));
    assert_eq!(s.close_stream(StreamHandle { id: 99 }), Err(Error::UnknownStream));
    assert_eq!(s.release(StreamHandle { id: 99 }), Err(Error::UnknownStream));
}

#[test]
fn hundred_bytes_through_a_session_window_of_sixty_four() {
    let data: Vec<u8> = (100..200).collect();
    let mut s = Session::new(config(4, 64), true);
    let h = s.add_stream().unwrap();
    assert_eq!(s.write(h, &data, Priority::Normal), Ok(64));
    assert_eq!(s.poll_frame().frame.unwrap().payload, data[..64].to_vec());
    assert_eq!(s.write(h, &data[64..], Priority::Normal), Ok(0));
    assert_eq!(
        s.handle_frame(&Frame::new_window_update(h.id, Flags::none(), 64).unwrap()),
        vec![SessionEvent::WindowGranted(h.id)]
    );
    assert_eq!(s.write(h, &data[64..], Priority::Normal), Ok(36));
    assert_eq!(s.poll_frame().frame.unwrap().payload, data[64..].to_vec());
    assert_eq!(s.poll_frame().frame, None);
}

#[test]
fn bytes_from_the_connection_are_cut_into_frames() {
    let mut s = Session::new(config(4, 64), true);
    let mut bytes = flag_frame(2, Flags::syn()).encode();
    bytes.extend_from_slice(&Frame::new_data(2, Flags::none(), vec![1, 2]).unwrap().encode());
    bytes.extend_from_slice(&Frame::new_data(8, Flags::none(), vec![1]).unwrap().encode());
    bytes.extend_from_slice(&Frame::new_ping(false, 3).encode());
    let (head, tail) = bytes.split_at(17);
    assert_eq!(s.on_bytes(head), Ok(vec![SessionEvent::Opened(2)]));
    assert_eq!(s.on_bytes(tail), Ok(vec![SessionEvent::Received(2, 2), SessionEvent::Ping(3)]));
    assert_eq!(s.on_bytes(&[]), Ok(vec![]));
    assert_eq!(s.read(StreamHandle { id: 2 }, 10), Ok(ReadOutcome::Data(vec![1, 2])));
}

#[test]
fn invalid_bytes_are_fatal_for_the_whole_session() {
    let mut s = Session::new(config(4, 64), true);
    let a = s.add_stream().unwrap();
    let b = s.add_stream().unwrap();
    let mut bytes = Frame::new_data(a.id, Flags::none(), vec![1]).unwrap().encode();
    bytes.extend_from_slice(&[0, 0, 0, 1, 9, 0, 0, 0, 0, 0]);
    assert_eq!(s.on_bytes(&bytes), Err(Error::ProtocolError));
    assert!(s.is_closed());
    assert_eq!(s.streams_num(), 0);
    assert_eq!(s.stream_state(a), Some(FSState::Closed));
    assert_eq!(s.read(a, 10), Err(Error::StreamReset));
    assert_eq!(s.read(b, 10), Err(Error::StreamReset));
    assert_eq!(
        drain_frames(&mut s),
        vec![flag_frame(a.id, Flags::rst()), flag_frame(b.id, Flags::rst()), Frame::new_go_away(0)]
    );
    assert_eq!(s.open_stream(), Err(Error::SessionShutdown));
    // a closed session drops what still arrives
    assert_eq!(s.handle_frame(&Frame::new_ping(false, 1)), vec![]);
}

#[test]
fn graceful_shutdown_drains() {
    let mut s = Session::new(config(4, 64), true);
    let a = s.add_stream().unwrap();
    let b = s.add_stream().unwrap();
    s.shutdown();
    assert_eq!(s.state(), SessionState::Draining);
    assert_eq!(s.open_stream(), Err(Error::SessionShutdown));
    assert_eq!(s.close_oldest_stream(), Err(Error::SessionShutdown));
    assert_eq!(s.stream_state(a), Some(FSState::LocalClosingHalf));
    assert_eq!(
        drain_frames(&mut s),
        vec![Frame::new_go_away(0), flag_frame(a.id, Flags::fin()), flag_frame(b.id, Flags::fin())]
    );
    assert_eq!(s.stream_state(a), Some(FSState::LocalClosed));
    assert_eq!(
        s.handle_frame(&flag_frame(a.id, Flags::fin())),
        vec![SessionEvent::RemoteClosed(a.id), SessionEvent::Finished(a.id)]
    );
    assert_eq!(s.state(), SessionState::Draining);
    assert_eq!(
        s.handle_frame(&flag_frame(b.id, Flags::fin())),
        vec![SessionEvent::RemoteClosed(b.id), SessionEvent::Finished(b.id)]
    );
    assert_eq!(s.state(), SessionState::Closed);
    // a second shutdown changes nothing
    s.shutdown();
    assert_eq!(s.state(), SessionState::Closed);
    assert_eq!(s.poll_frame().frame, None);
}

#[test]
fn the_drain_deadline_resets_what_is_left() {
    let mut s = Session::new(config(4, 64), true);
    let a = s.add_stream().unwrap();
    s.drain_deadline();
    assert_eq!(s.state(), SessionState::Open);
    s.shutdown();
    drain_frames(&mut s);
    s.drain_deadline();
    assert!(s.is_closed());
    assert_eq!(s.read(a, 1), Err(Error::StreamReset));
    assert_eq!(drain_frames(&mut s), vec![flag_frame(a.id, Flags::rst()), Frame::new_go_away(0)]);
}

#[test]
fn immediate_shutdown_resets_at_once() {
    let mut s = Session::new(Config { drain: DrainPolicy::Immediate, ..config(4, 64) }, false);
    let a = s.add_stream().unwrap();
    s.shutdown();
    assert!(s.is_closed());
    assert_eq!(s.stream_state(a), Some(FSState::Closed));
    assert_eq!(drain_frames(&mut s), vec![flag_frame(a.id, Flags::rst()), Frame::new_go_away(0)]);
}

#[test]
fn shutdown_of_an_empty_session_closes_it() {
    let mut s = Session::new(config(4, 64), true);
    s.shutdown();
    assert!(s.is_closed());
    assert_eq!(drain_frames(&mut s), vec![Frame::new_go_away(0)]);
}

#[test]
fn a_lost_connection_resets_every_stream_and_queues_nothing() {
    let mut s = Session::new(config(4, 64), true);
    let a = s.add_stream().unwrap();
    s.connection_lost();
    assert!(s.is_closed());
    assert_eq!(s.read(a, 1), Err(Error::StreamReset));
    assert_eq!(s.poll_frame().frame, None);
}

#[test]
fn release_removes_the_stream_and_resets_a_live_one() {
    let mut s = Session::new(config(4, 64), true);
    let a = s.add_stream().unwrap();
    let b = s.add_stream().unwrap();
    assert_eq!(s.release(a), Ok(()));
    assert_eq!(s.stream_state(a), None);
    assert_eq!(s.streams_num(), 1);
    assert_eq!(drain_frames(&mut s), vec![flag_frame(a.id, Flags::rst())]);
    s.handle_frame(&flag_frame(b.id, Flags::rst()));
    assert_eq!(s.release(b), Ok(()));
    assert_eq!(s.poll_frame().frame, None);
    assert!(s.stream(b).is_none());
}

#[test]
fn close_stream_sends_a_fin() {
    let mut s = Session::new(config(4, 64), true);
    let a = s.add_stream().unwrap();
    assert_eq!(s.close_stream(a), Ok(()));
    assert_eq!(s.poll_frame().frame, Some(flag_frame(a.id, Flags::fin())));
    assert_eq!(s.stream_state(a), Some(FSState::LocalClosed));
    assert_eq!(s.write(a, &[1], Priority::Normal), Err(Error::StreamClosed));
    assert_eq!(s.streams_num(), 1);
}

#[test]
fn a_ping_is_queued_for_the_peer() {
    let mut s = Session::new(config(4, 64), true);
    s.ping(5);
    assert_eq!(drain_frames(&mut s), vec![Frame::new_ping(false, 5)]);
    s.connection_lost();
    s.ping(6);
    assert_eq!(s.poll_frame().frame, None);
}

#[test]
fn only_streams_opened_with_a_syn_wait_for_an_ack() {
    let mut s = Session::new(config(4, 64), true);
    let opened = s.open_stream().unwrap();
    let added = s.add_stream().unwrap();
    assert!(!s.stream(opened).unwrap().acked);
    assert!(s.stream(added).unwrap().acked);
    s.handle_frame(&flag_frame(2, Flags::syn()));
    assert!(s.stream(StreamHandle { id: 2 }).unwrap().acked);
    // data on a frame with ACK acknowledges too, and both are reported
    let data = Frame::new_data(opened.id, Flags::ack(), vec![1]).unwrap();
    assert_eq!(
        s.handle_frame(&data),
        vec![SessionEvent::Acknowledged(opened.id), SessionEvent::Received(opened.id, 1)]
    );
    assert!(s.stream(opened).unwrap().acked);
}

#[test]
fn a_frame_reports_everything_it_did() {
    let mut s = Session::new(config(4, 64), true);
    let h = s.open_stream().unwrap();
    drain_frames(&mut s);
    // first ACK, data and the peer's close on one frame
    let all = Frame::new_data(h.id, Flags { syn: false, ack: true, fin: true, rst: false }, vec![1, 2])
        .unwrap();
    assert_eq!(
        s.handle_frame(&all),
        vec![
            SessionEvent::Acknowledged(h.id),
            SessionEvent::Received(h.id, 2),
            SessionEvent::RemoteClosed(h.id),
        ]
    );
    // a frame that changes nothing reports nothing
    assert_eq!(s.handle_frame(&flag_frame(h.id, Flags::none())), vec![]);
    // data after the peer's close is dropped and not reported
    let late = Frame::new_data(h.id, Flags::none(), vec![3]).unwrap();
    assert_eq!(s.handle_frame(&late), vec![]);
    assert_eq!(s.read(h, 10), Ok(ReadOutcome::Data(vec![1, 2])));
}

#[test]
fn the_end_of_a_stream_is_reported_when_the_last_fin_goes_out() {
    let mut s = Session::new(config(4, 64), true);
    let h = s.add_stream().unwrap();
    assert_eq!(s.handle_frame(&flag_frame(h.id, Flags::fin())), vec![SessionEvent::RemoteClosed(h.id)]);
    assert_eq!(s.close_stream(h), Ok(()));
    assert_eq!(
        s.poll_frame(),
        Polled { frame: Some(flag_frame(h.id, Flags::fin())), event: Some(SessionEvent::Finished(h.id)) }
    );
    assert_eq!(s.stream_state(h), Some(FSState::Closed));
    assert_eq!(s.poll_frame(), Polled { frame: None, event: None });
    assert_eq!(s.streams_num(), 0);
}

#[test]
fn a_syn_that_also_closes_is_reported_in_order() {
    let mut s = Session::new(config(4, 64), true);
    let syn = Frame::new_data(2, Flags { syn: true, ack: false, fin: true, rst: false }, vec![9]).unwrap();
    assert_eq!(
        s.handle_frame(&syn),
        vec![SessionEvent::Opened(2), SessionEvent::Received(2, 1), SessionEvent::RemoteClosed(2)]
    );
}

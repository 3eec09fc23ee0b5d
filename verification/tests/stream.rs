use yamux::error::Error;
use yamux::event::Priority;
use yamux::frame::{Flags, Frame, FrameType};
use yamux::framed_stream::{FSState, FramedStream, ReadOutcome, StreamEvent};

const ALL_STATES: [FSState; 7] = [
    FSState::Established,
    FSState::RemoteClosed,
    FSState::RemoteClosedLocalClosing,
    FSState::LocalClosed,
    FSState::LocalClosing,
    FSState::LocalClosingHalf,
    FSState::Closed,
];

const ALL_EVENTS: [StreamEvent; 5] = [
    StreamEvent::LocalClose,
    StreamEvent::FinQueued,
    StreamEvent::FinFlushed,
    StreamEvent::RemoteFin,
    StreamEvent::Reset,
];

fn fin_frame(id: u32) -> Frame {
    Frame::new_window_update(id, Flags::fin(), 0).unwrap()
}

#[test]
fn transitions_of_a_graceful_close_started_locally() {
    let s = FSState::Established;
    let s = s.next(StreamEvent::LocalClose);
    assert_eq!(s, FSState::LocalClosing);
    let s = s.next(StreamEvent::FinQueued);
    assert_eq!(s, FSState::LocalClosingHalf);
    let s = s.next(StreamEvent::FinFlushed);
    assert_eq!(s, FSState::LocalClosed);
    let s = s.next(StreamEvent::RemoteFin);
    assert_eq!(s, FSState::Closed);
}

#[test]
fn transitions_of_a_graceful_close_started_by_the_peer() {
    let s = FSState::Established.next(StreamEvent::RemoteFin);
    assert_eq!(s, FSState::RemoteClosed);
    let s = s.next(StreamEvent::LocalClose);
    assert_eq!(s, FSState::RemoteClosedLocalClosing);
    assert_eq!(s.next(StreamEvent::FinQueued), FSState::RemoteClosedLocalClosing);
    assert_eq!(s.next(StreamEvent::FinFlushed), FSState::Closed);
}

#[test]
fn peer_fin_while_the_local_fin_is_owed() {
    assert_eq!(FSState::LocalClosing.next(StreamEvent::RemoteFin), FSState::RemoteClosedLocalClosing);
    assert_eq!(
        FSState::LocalClosingHalf.next(StreamEvent::RemoteFin),
        FSState::RemoteClosedLocalClosing
    );
}

#[test]
fn reset_closes_from_every_state_and_closed_is_terminal() {
    for s in ALL_STATES {
        assert_eq!(s.next(StreamEvent::Reset), FSState::Closed);
    }
    for e in ALL_EVENTS {
        assert_eq!(FSState::Closed.next(e), FSState::Closed);
    }
}

#[test]
fn directions_never_reopen() {
    for s in ALL_STATES {
        for e in ALL_EVENTS {
            let n = s.next(e);
            if n.local_open() {
                assert!(s.local_open());
            }
            if n.remote_open() {
                assert!(s.remote_open());
            }
        }
    }
}

#[test]
fn events_that_do_not_apply_change_nothing() {
    assert_eq!(FSState::Established.next(StreamEvent::FinFlushed), FSState::Established);
    assert_eq!(FSState::Established.next(StreamEvent::FinQueued), FSState::Established);
    assert_eq!(FSState::LocalClosed.next(StreamEvent::LocalClose), FSState::LocalClosed);
    assert_eq!(FSState::RemoteClosed.next(StreamEvent::RemoteFin), FSState::RemoteClosed);
}

#[test]
fn state_predicates() {
    let local: Vec<bool> = ALL_STATES.iter().map(|s| s.local_open()).collect();
    assert_eq!(local, vec![true, true, false, false, false, false, false]);
    let remote: Vec<bool> = ALL_STATES.iter().map(|s| s.remote_open()).collect();
    assert_eq!(remote, vec![true, false, false, true, true, true, false]);
    let owed: Vec<bool> = ALL_STATES.iter().map(|s| s.fin_owed()).collect();
    assert_eq!(owed, vec![false, false, true, false, true, true, false]);
    let closed: Vec<bool> = ALL_STATES.iter().map(|s| s.is_closed()).collect();
    assert_eq!(closed, vec![false, false, false, false, false, false, true]);
}

#[test]
fn a_new_stream_is_established_with_full_windows() {
    let s = FramedStream::new(3, 64);
    assert_eq!(s.id, 3);
    assert_eq!(s.state, FSState::Established);
    assert_eq!(s.pending_frame, None);
    assert_eq!(s.send_window, 64);
    assert_eq!(s.recv_window, 64);
    assert_eq!(s.max_window, 64);
    assert!(!s.reset);
    assert!(s.acked);
    assert!(s.read_buffer.is_empty());
    assert!(s.is_well_formed());
    assert!(s.is_live());
}

#[test]
fn a_handshake_waits_in_the_slot() {
    let s = FramedStream::with_handshake(3, 64, true);
    assert_eq!(s.pending_frame, Some(Frame::new_window_update(3, Flags::syn(), 0).unwrap()));
    assert_eq!(s.pending_priority, Priority::High);
    assert!(!s.acked);
    let s = FramedStream::with_handshake(4, 64, false);
    assert_eq!(s.pending_frame, Some(Frame::new_window_update(4, Flags::ack(), 0).unwrap()));
    assert!(s.is_well_formed());
}

#[test]
fn hundred_bytes_through_a_window_of_sixty_four() {
    let data: Vec<u8> = (0..100).collect();
    let mut s = FramedStream::new(1, 64);
    // the first write takes what the window allows
    assert_eq!(s.write(&data, Priority::Normal), Ok(64));
    assert_eq!(s.send_window, 0);
    let first = s.take_pending().unwrap();
    assert_eq!(first, Frame::new_data(1, Flags::none(), data[..64].to_vec()).unwrap());
    // the rest has to wait: the window is used up
    assert_eq!(s.write(&data[64..], Priority::Normal), Ok(0));
    assert_eq!(s.pending_frame, None);
    // the peer grants 64 more
    assert_eq!(s.on_window_update(64), Ok(()));
    assert_eq!(s.send_window, 64);
    assert_eq!(s.write(&data[64..], Priority::Normal), Ok(36));
    assert_eq!(s.send_window, 28);
    let second = s.take_pending().unwrap();
    assert_eq!(second, Frame::new_data(1, Flags::none(), data[64..].to_vec()).unwrap());
    assert_eq!(first.payload.len() + second.payload.len(), 100);
    assert!(s.is_well_formed());
}

#[test]
fn nothing_is_taken_while_a_frame_waits() {
    let mut s = FramedStream::new(1, 64);
    assert_eq!(s.write(&[1, 2, 3], Priority::High), Ok(3));
    assert_eq!(s.write(&[4, 5], Priority::High), Ok(0));
    assert_eq!(s.send_window, 61);
    assert_eq!(s.pending_priority, Priority::High);
    assert_eq!(s.write(&[], Priority::High), Ok(0));
}

#[test]
fn sent_bytes_never_exceed_granted_credit() {
    let mut s = FramedStream::new(1, 10);
    let mut sent: u64 = 0;
    let mut granted: u64 = 10;
    let grants = [0u32, 3, 7, 0, 20, 1];
    for g in grants {
        let n = s.write(&[0u8; 8], Priority::Normal).unwrap();
        sent += n as u64;
        assert!(sent <= granted);
        assert_eq!(sent + s.send_window as u64, granted);
        s.take_pending();
        assert_eq!(s.on_window_update(g), Ok(()));
        granted += g as u64;
        assert_eq!(sent + s.send_window as u64, granted);
    }
}

#[test]
fn window_update_adds_exactly_the_credit() {
    let mut s = FramedStream::new(1, 64);
    assert_eq!(s.on_window_update(1), Ok(()));
    assert_eq!(s.send_window, 65);
    assert_eq!(s.on_window_update(1000), Ok(()));
    assert_eq!(s.send_window, 1065);
    assert_eq!(s.on_window_update(0), Ok(()));
    assert_eq!(s.send_window, 1065);
}

#[test]
fn credit_that_overflows_the_window_resets_the_stream() {
    let mut s = FramedStream::new(1, 64);
    assert_eq!(s.on_window_update(u32::MAX - 64), Ok(()));
    assert_eq!(s.send_window, u32::MAX);
    assert_eq!(s.on_window_update(1), Err(Error::WindowViolation));
    assert_eq!(s.state, FSState::Closed);
    assert!(s.reset);
    assert!(s.is_well_formed());
}

#[test]
fn a_closed_stream_ignores_window_updates() {
    let mut s = FramedStream::new(1, 64);
    s.reset();
    assert_eq!(s.on_window_update(5), Ok(()));
    assert_eq!(s.send_window, 64);
}

#[test]
fn data_is_buffered_and_read_in_order() {
    let mut s = FramedStream::new(1, 64);
    assert_eq!(s.on_data(&[1, 2, 3]), Ok(()));
    assert_eq!(s.on_data(&[4, 5]), Ok(()));
    assert_eq!(s.recv_window, 59);
    assert_eq!(s.read(2), Ok(ReadOutcome::Data(vec![1, 2])));
    assert_eq!(s.read(10), Ok(ReadOutcome::Data(vec![3, 4, 5])));
    assert_eq!(s.read(10), Ok(ReadOutcome::Pending));
    assert!(s.is_well_formed());
}

#[test]
fn reading_half_a_window_grants_it_again() {
    let mut s = FramedStream::new(1, 64);
    assert_eq!(s.on_data(&[7; 40]), Ok(()));
    assert_eq!(s.recv_window, 24);
    assert_eq!(s.read(31), Ok(ReadOutcome::Data(vec![7; 31])));
    // 31 of 64 is less than half: no grant yet
    assert_eq!(s.pending_frame, None);
    assert_eq!(s.consumed, 31);
    assert_eq!(s.read(1), Ok(ReadOutcome::Data(vec![7; 1])));
    // 32 of 64: the grant is due
    assert_eq!(s.pending_frame, Some(Frame::new_window_update(1, Flags::none(), 32).unwrap()));
    assert_eq!(s.pending_priority, Priority::High);
    assert_eq!(s.recv_window, 56);
    assert_eq!(s.consumed, 0);
    assert!(s.is_well_formed());
}

#[test]
fn a_grant_that_is_due_waits_for_the_slot() {
    let mut s = FramedStream::new(1, 64);
    assert_eq!(s.write(&[1], Priority::Normal), Ok(1));
    assert_eq!(s.on_data(&[7; 40]), Ok(()));
    assert_eq!(s.read(40), Ok(ReadOutcome::Data(vec![7; 40])));
    assert_eq!(s.consumed, 40);
    let data = s.take_pending().unwrap();
    assert_eq!(data.ty, FrameType::Data);
    assert_eq!(s.pending_frame, Some(Frame::new_window_update(1, Flags::none(), 40).unwrap()));
    assert_eq!(s.recv_window, 64);
}

#[test]
fn more_data_than_the_window_allows_resets_the_stream() {
    let mut s = FramedStream::new(1, 4);
    assert_eq!(s.on_data(&[1, 2, 3]), Ok(()));
    assert_eq!(s.on_data(&[4, 5]), Err(Error::WindowViolation));
    assert_eq!(s.state, FSState::Closed);
    assert!(s.reset);
    assert!(s.read_buffer.is_empty());
    assert_eq!(s.read(10), Err(Error::StreamReset));
    assert!(s.is_well_formed());
}

#[test]
fn reset_discards_unread_data_and_reads_report_it() {
    let mut s = FramedStream::new(1, 64);
    assert_eq!(s.on_data(&[1, 2, 3]), Ok(()));
    assert_eq!(s.write(&[9], Priority::Normal), Ok(1));
    assert_eq!(s.on_frame(&Frame::new_window_update(1, Flags::rst(), 0).unwrap()), Ok(()));
    assert_eq!(s.state, FSState::Closed);
    assert!(s.read_buffer.is_empty());
    assert_eq!(s.pending_frame, None);
    assert_eq!(s.read(10), Err(Error::StreamReset));
    assert_eq!(s.write(&[1], Priority::Normal), Err(Error::StreamReset));
    assert_eq!(s.close(), Err(Error::StreamReset));
    assert!(!s.is_live());
    assert!(s.is_well_formed());
}

#[test]
fn eof_after_the_peer_has_closed() {
    let mut s = FramedStream::new(1, 64);
    assert_eq!(s.on_frame(&Frame::new_data(1, Flags::fin(), vec![1, 2]).unwrap()), Ok(()));
    assert_eq!(s.state, FSState::RemoteClosed);
    assert_eq!(s.read(10), Ok(ReadOutcome::Data(vec![1, 2])));
    assert_eq!(s.read(10), Ok(ReadOutcome::Eof));
    // data after the FIN is dropped
    assert_eq!(s.on_data(&[3]), Ok(()));
    assert_eq!(s.read(10), Ok(ReadOutcome::Eof));
}

#[test]
fn close_queues_the_fin_at_once_when_the_slot_is_free() {
    let mut s = FramedStream::new(1, 64);
    assert_eq!(s.close(), Ok(()));
    assert_eq!(s.state, FSState::LocalClosingHalf);
    assert_eq!(s.pending_frame, Some(fin_frame(1)));
    assert_eq!(s.write(&[1], Priority::Normal), Err(Error::StreamClosed));
    assert_eq!(s.close(), Ok(()));
    assert_eq!(s.take_pending(), Some(fin_frame(1)));
    assert_eq!(s.state, FSState::LocalClosed);
    s.on_fin();
    assert_eq!(s.state, FSState::Closed);
    assert!(!s.reset);
    assert_eq!(s.read(1), Ok(ReadOutcome::Eof));
    assert!(s.is_well_formed());
}

#[test]
fn close_behind_a_waiting_frame() {
    let mut s = FramedStream::new(1, 64);
    assert_eq!(s.write(&[1, 2], Priority::Normal), Ok(2));
    assert_eq!(s.close(), Ok(()));
    assert_eq!(s.state, FSState::LocalClosing);
    let data = s.take_pending().unwrap();
    assert_eq!(data.payload, vec![1, 2]);
    assert_eq!(s.state, FSState::LocalClosingHalf);
    assert_eq!(s.pending_frame, Some(fin_frame(1)));
    s.on_fin();
    assert_eq!(s.state, FSState::RemoteClosedLocalClosing);
    assert_eq!(s.take_pending(), Some(fin_frame(1)));
    assert_eq!(s.state, FSState::Closed);
    assert_eq!(s.take_pending(), None);
    assert!(s.is_well_formed());
}

#[test]
fn close_after_the_peer_has_closed() {
    let mut s = FramedStream::new(1, 64);
    s.on_fin();
    assert_eq!(s.close(), Ok(()));
    assert_eq!(s.state, FSState::RemoteClosedLocalClosing);
    assert_eq!(s.take_pending(), Some(fin_frame(1)));
    assert_eq!(s.state, FSState::Closed);
}

#[test]
fn ill_formed_streams_are_recognised() {
    let mut s = FramedStream::new(1, 64);
    s.recv_window = 63;
    assert!(!s.is_well_formed());
    let mut s = FramedStream::new(1, 64);
    s.state = FSState::LocalClosingHalf;
    assert!(!s.is_well_formed());
    let mut s = FramedStream::new(1, 64);
    s.pending_frame = Some(fin_frame(2));
    assert!(!s.is_well_formed());
}

#[test]
fn an_ack_is_remembered() {
    let mut s = FramedStream::with_handshake(1, 64, true);
    assert_eq!(s.on_frame(&Frame::new_window_update(1, Flags::none(), 1).unwrap()), Ok(()));
    assert!(!s.acked);
    assert_eq!(s.on_frame(&Frame::new_window_update(1, Flags::ack(), 1).unwrap()), Ok(()));
    assert!(s.acked);
    assert_eq!(s.send_window, 66);
}

use yamux::codec::{FrameCodec, DEFAULT_MAX_FRAME_SIZE};
use yamux::error::Error;
use yamux::frame::{decode, Decoded, Flags, Frame, FrameType, HEADER_LEN};

fn flags(syn: bool, ack: bool, fin: bool, rst: bool) -> Flags {
    Flags { syn, ack, fin, rst }
}

#[test]
fn data_frame_has_the_documented_wire_form() {
    let frame = Frame::new_data(0x0102_0304, Flags::syn(), vec![9, 8, 7]).unwrap();
    assert!(frame.is_well_formed());
    assert_eq!(frame.encode(), vec![1, 2, 3, 4, 0, 1, 0, 0, 0, 3, 9, 8, 7]);
}

#[test]
fn window_update_has_the_documented_wire_form() {
    let frame = Frame::new_window_update(5, flags(false, true, true, false), 0x0001_0000).unwrap();
    assert_eq!(frame.encode(), vec![0, 0, 0, 5, 1, 6, 0, 1, 0, 0]);
}

#[test]
fn ping_and_go_away_have_the_documented_wire_form() {
    assert_eq!(Frame::new_ping(false, 0xdead_beef).encode(), vec![0, 0, 0, 0, 2, 1, 0xde, 0xad, 0xbe, 0xef]);
    assert_eq!(Frame::new_ping(true, 7).encode(), vec![0, 0, 0, 0, 2, 2, 0, 0, 0, 7]);
    assert_eq!(Frame::new_go_away(1).encode(), vec![0, 0, 0, 0, 3, 0, 0, 0, 0, 1]);
}

#[test]
fn encode_into_appends() {
    let mut out = vec![0xaa];
    Frame::new_go_away(0).encode_into(&mut out);
    assert_eq!(out, vec![0xaa, 0, 0, 0, 0, 3, 0, 0, 0, 0, 0]);
}

#[test]
fn flag_bits_are_one_two_four_eight() {
    assert_eq!(Flags::none().bits(), 0);
    assert_eq!(Flags::syn().bits(), 1);
    assert_eq!(Flags::ack().bits(), 2);
    assert_eq!(Flags::fin().bits(), 4);
    assert_eq!(Flags::rst().bits(), 8);
    assert_eq!(flags(true, false, true, true).bits(), 13);
    assert_eq!(Flags::from_bits(12), Some(flags(false, false, true, true)));
    assert_eq!(Flags::from_bits(16), None);
    assert_eq!(Flags::from_bits(255), None);
}

#[test]
fn type_codes_are_zero_to_three() {
    assert_eq!(FrameType::Data.code(), 0);
    assert_eq!(FrameType::WindowUpdate.code(), 1);
    assert_eq!(FrameType::Ping.code(), 2);
    assert_eq!(FrameType::GoAway.code(), 3);
    assert_eq!(FrameType::from_code(2), Some(FrameType::Ping));
    assert_eq!(FrameType::from_code(4), None);
}

#[test]
fn flags_must_fit_the_type() {
    assert!(Flags::syn().valid_for(FrameType::Data));
    assert!(flags(false, false, true, true).valid_for(FrameType::WindowUpdate));
    assert!(!flags(true, true, false, false).valid_for(FrameType::Data));
    assert!(Flags::syn().valid_for(FrameType::Ping));
    assert!(Flags::ack().valid_for(FrameType::Ping));
    assert!(!Flags::none().valid_for(FrameType::Ping));
    assert!(!flags(true, true, false, false).valid_for(FrameType::Ping));
    assert!(!flags(true, false, true, false).valid_for(FrameType::Ping));
    assert!(Flags::none().valid_for(FrameType::GoAway));
    assert!(!Flags::rst().valid_for(FrameType::GoAway));
}

#[test]
fn constructors_refuse_syn_with_ack() {
    assert_eq!(Frame::new_data(1, flags(true, true, false, false), vec![]), None);
    assert_eq!(Frame::new_window_update(1, flags(true, true, false, false), 0), None);
}

#[test]
fn ill_formed_frames_are_recognised() {
    let mut frame = Frame::new_data(1, Flags::none(), vec![1, 2]).unwrap();
    frame.length = 3;
    assert!(!frame.is_well_formed());
    let mut ping = Frame::new_ping(false, 1);
    ping.payload = vec![1];
    assert!(!ping.is_well_formed());
}

#[test]
fn round_trip_of_every_type() {
    let frames = vec![
        Frame::new_data(7, Flags::fin(), vec![1, 2, 3, 4, 5]).unwrap(),
        Frame::new_data(u32::MAX, Flags::none(), vec![]).unwrap(),
        Frame::new_window_update(2, Flags::syn(), u32::MAX).unwrap(),
        Frame::new_ping(false, 42),
        Frame::new_ping(true, 42),
        Frame::new_go_away(2),
    ];
    for frame in frames {
        let bytes = frame.encode();
        assert_eq!(decode(&bytes, 1024), Decoded::Frame(frame.clone(), bytes.len()));
        let mut longer = bytes.clone();
        longer.extend_from_slice(&[0xff, 0xff, 0xff]);
        assert_eq!(decode(&longer, 1024), Decoded::Frame(frame, bytes.len()));
    }
}

#[test]
fn every_proper_prefix_needs_more_data() {
    let bytes = Frame::new_data(3, Flags::none(), vec![1, 2, 3, 4]).unwrap().encode();
    assert_eq!(bytes.len(), HEADER_LEN + 4);
    for k in 0..bytes.len() {
        assert_eq!(decode(&bytes[..k], 1024), Decoded::NeedMoreData);
    }
}

#[test]
fn malformed_headers_are_protocol_errors() {
    // unknown type
    assert_eq!(decode(&[0, 0, 0, 1, 4, 0, 0, 0, 0, 0], 1024), Decoded::ProtocolError);
    // unknown flag bit
    assert_eq!(decode(&[0, 0, 0, 1, 0, 16, 0, 0, 0, 0], 1024), Decoded::ProtocolError);
    // flags that do not fit the type
    assert_eq!(decode(&[0, 0, 0, 1, 0, 3, 0, 0, 0, 0], 1024), Decoded::ProtocolError);
    assert_eq!(decode(&[0, 0, 0, 0, 2, 0, 0, 0, 0, 0], 1024), Decoded::ProtocolError);
    assert_eq!(decode(&[0, 0, 0, 0, 3, 1, 0, 0, 0, 0], 1024), Decoded::ProtocolError);
}

#[test]
fn payload_limit_is_enforced_for_data_only() {
    let bytes = Frame::new_data(1, Flags::none(), vec![0; 5]).unwrap().encode();
    assert_eq!(decode(&bytes, 4), Decoded::ProtocolError);
    assert!(matches!(decode(&bytes, 5), Decoded::Frame(_, 15)));
    // the error is known from the header alone
    assert_eq!(decode(&bytes[..HEADER_LEN], 4), Decoded::ProtocolError);
    // the length field of other types is a value, not a length
    let update = Frame::new_window_update(1, Flags::none(), 1_000_000).unwrap().encode();
    assert!(matches!(decode(&update, 4), Decoded::Frame(_, 10)));
}

#[test]
fn codec_defaults_and_builder() {
    let codec = FrameCodec::default();
    assert_eq!(codec.max_frame_size, DEFAULT_MAX_FRAME_SIZE);
    assert_eq!(DEFAULT_MAX_FRAME_SIZE, 262144);
    assert_eq!(codec.buffered(), 0);
    let codec = codec.max_frame_size(99);
    assert_eq!(codec.max_frame_size, 99);
}

#[test]
fn codec_takes_bytes_one_at_a_time() {
    let frame = Frame::new_data(9, Flags::syn(), vec![5, 6, 7]).unwrap();
    let bytes = frame.encode();
    let mut codec = FrameCodec::default();
    for (i, b) in bytes.iter().enumerate() {
        codec.feed(&[*b]);
        let got = codec.decode_next();
        if i + 1 < bytes.len() {
            assert_eq!(got, Ok(None));
            assert_eq!(codec.buffered(), i + 1);
        } else {
            assert_eq!(got, Ok(Some(frame.clone())));
            assert_eq!(codec.buffered(), 0);
        }
    }
}

#[test]
fn codec_cuts_a_buffer_into_frames() {
    let a = Frame::new_data(1, Flags::none(), vec![1]).unwrap();
    let b = Frame::new_ping(false, 3);
    let mut bytes = a.encode();
    bytes.extend_from_slice(&b.encode());
    bytes.extend_from_slice(&[0, 0]);
    let mut codec = FrameCodec::default();
    codec.feed(&bytes);
    assert_eq!(codec.decode_next(), Ok(Some(a)));
    assert_eq!(codec.decode_next(), Ok(Some(b)));
    assert_eq!(codec.decode_next(), Ok(None));
    assert_eq!(codec.buffered(), 2);
}

#[test]
fn codec_reports_a_protocol_error_and_keeps_its_buffer() {
    let mut codec = FrameCodec::default().max_frame_size(2);
    codec.feed(&Frame::new_data(1, Flags::none(), vec![1, 2, 3]).unwrap().encode());
    assert_eq!(codec.decode_next(), Err(Error::ProtocolError));
    assert_eq!(codec.buffered(), 13);
}

#[test]
fn only_framing_and_shutdown_are_fatal() {
    assert!(Error::ProtocolError.is_fatal());
    assert!(Error::SessionShutdown.is_fatal());
    assert!(!Error::StreamsExhausted.is_fatal());
    assert!(!Error::StreamReset.is_fatal());
    assert!(!Error::StreamClosed.is_fatal());
    assert!(!Error::UnknownStream.is_fatal());
    assert!(!Error::WindowViolation.is_fatal());
}

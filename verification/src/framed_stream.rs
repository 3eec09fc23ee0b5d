//! One logical stream: its state machine, its buffers and its flow control.

use crate::error::Error;
use crate::event::Priority;
use crate::frame::{Flags, Frame, FrameType, FrameView};
use vstd::prelude::*;
use vstd::slice::{slice_subrange, slice_to_vec};

verus! {

/// The state of a stream.
///
/// Each side of a stream closes its own direction with a FIN. The local
/// direction passes through three steps: the owner asks for the close
/// (`LocalClosing`), the FIN frame is queued behind whatever the stream still
/// had to send (`LocalClosingHalf`), and the FIN frame is written
/// (`LocalClosed`). The remote direction closes when the peer's FIN arrives.
#[derive(Debug, Copy, Clone, Eq, PartialEq, Structural)]
pub enum FSState {
    /// Both directions are open.
    Established,
    /// The peer's FIN has arrived; the local direction is open.
    RemoteClosed,
    /// The peer's FIN has arrived and the owner has asked to close; the local
    /// FIN is not written yet.
    RemoteClosedLocalClosing,
    /// The local FIN is written; the remote direction is open.
    LocalClosed,
    /// The owner has asked to close; the local FIN waits behind a frame that
    /// is still to be written. The remote direction is open.
    LocalClosing,
    /// The local FIN is queued and not written yet. The remote direction is
    /// open.
    LocalClosingHalf,
    /// Both directions are done, or the stream was reset.
    Closed,
}

/// What can happen to a stream's state.
#[derive(Debug, Copy, Clone, Eq, PartialEq, Structural)]
pub enum StreamEvent {
    /// The owner asks to close the local direction.
    LocalClose,
    /// The local FIN frame is queued for writing.
    FinQueued,
    /// The local FIN frame is written to the connection.
    FinFlushed,
    /// The peer's FIN arrives.
    RemoteFin,
    /// A reset is sent or received.
    Reset,
}

impl FSState {
    /// The state that follows `self` on `event`. An event that does not apply
    /// to a state leaves it as it is.
    pub open spec fn spec_next(self, event: StreamEvent) -> FSState {
        match (self, event) {
            (_, StreamEvent::Reset) => FSState::Closed,
            (FSState::Established, StreamEvent::LocalClose) => FSState::LocalClosing,
            (FSState::Established, StreamEvent::RemoteFin) => FSState::RemoteClosed,
            (FSState::RemoteClosed, StreamEvent::LocalClose) => FSState::RemoteClosedLocalClosing,
            (FSState::RemoteClosedLocalClosing, StreamEvent::FinFlushed) => FSState::Closed,
            (FSState::LocalClosed, StreamEvent::RemoteFin) => FSState::Closed,
            (FSState::LocalClosing, StreamEvent::FinQueued) => FSState::LocalClosingHalf,
            (FSState::LocalClosing, StreamEvent::RemoteFin) => FSState::RemoteClosedLocalClosing,
            (FSState::LocalClosingHalf, StreamEvent::FinFlushed) => FSState::LocalClosed,
            (FSState::LocalClosingHalf, StreamEvent::RemoteFin) => FSState::RemoteClosedLocalClosing,
            (s, _) => s,
        }
    }

    /// Whether the owner may still write: no local close was asked for.
    pub open spec fn spec_local_open(self) -> bool {
        self == FSState::Established || self == FSState::RemoteClosed
    }

    /// Whether the peer may still send: neither its FIN nor a reset was seen.
    pub open spec fn spec_remote_open(self) -> bool {
        self == FSState::Established || self == FSState::LocalClosed || self
            == FSState::LocalClosing || self == FSState::LocalClosingHalf
    }

    /// Whether a local FIN is owed: the owner asked to close and the FIN is
    /// not written yet.
    pub open spec fn spec_fin_owed(self) -> bool {
        self == FSState::LocalClosing || self == FSState::LocalClosingHalf || self
            == FSState::RemoteClosedLocalClosing
    }

    /// The state that follows `self` on `event`.
    pub fn next(self, event: StreamEvent) -> (s: FSState)
        ensures
            s == self.spec_next(event),
    {
        match (self, event) {
            (_, StreamEvent::Reset) => FSState::Closed,
            (FSState::Established, StreamEvent::LocalClose) => FSState::LocalClosing,
            (FSState::Established, StreamEvent::RemoteFin) => FSState::RemoteClosed,
            (FSState::RemoteClosed, StreamEvent::LocalClose) => FSState::RemoteClosedLocalClosing,
            (FSState::RemoteClosedLocalClosing, StreamEvent::FinFlushed) => FSState::Closed,
            (FSState::LocalClosed, StreamEvent::RemoteFin) => FSState::Closed,
            (FSState::LocalClosing, StreamEvent::FinQueued) => FSState::LocalClosingHalf,
            (FSState::LocalClosing, StreamEvent::RemoteFin) => FSState::RemoteClosedLocalClosing,
            (FSState::LocalClosingHalf, StreamEvent::FinFlushed) => FSState::LocalClosed,
            (FSState::LocalClosingHalf, StreamEvent::RemoteFin) => FSState::RemoteClosedLocalClosing,
            (s, _) => s,
        }
    }

    /// Whether the owner may still write.
    pub fn local_open(self) -> (open: bool)
        ensures
            open == self.spec_local_open(),
    {
        match self {
            FSState::Established | FSState::RemoteClosed => true,
            _ => false,
        }
    }

    /// Whether the peer may still send.
    pub fn remote_open(self) -> (open: bool)
        ensures
            open == self.spec_remote_open(),
    {
        match self {
            FSState::Established | FSState::LocalClosed | FSState::LocalClosing
            | FSState::LocalClosingHalf => true,
            _ => false,
        }
    }

    /// Whether a local FIN is owed.
    pub fn fin_owed(self) -> (owed: bool)
        ensures
            owed == self.spec_fin_owed(),
    {
        match self {
            FSState::LocalClosing | FSState::LocalClosingHalf
            | FSState::RemoteClosedLocalClosing => true,
            _ => false,
        }
    }

    /// Whether this is the terminal state.
    pub fn is_closed(self) -> (closed: bool)
        ensures
            closed <==> self == FSState::Closed,
    {
        match self {
            FSState::Closed => true,
            _ => false,
        }
    }
}

/// A reset closes a stream from any state, and nothing reopens a closed
/// stream.
pub proof fn lemma_closed_is_terminal(s: FSState, event: StreamEvent)
    ensures
        s.spec_next(StreamEvent::Reset) == FSState::Closed,
        FSState::Closed.spec_next(event) == FSState::Closed,
{
}

/// A direction that is closed stays closed: no event gives the owner back
/// the right to write, nor the peer the right to send.
pub proof fn lemma_directions_only_close(s: FSState, event: StreamEvent)
    ensures
        s.spec_next(event).spec_local_open() ==> s.spec_local_open(),
        s.spec_next(event).spec_remote_open() ==> s.spec_remote_open(),
{
}

/// A stream reaches `Closed` only when both directions are resolved: by a
/// reset, by the local FIN going out after the peer's FIN came in, or by
/// the peer's FIN coming in after the local FIN went out.
pub proof fn lemma_closed_needs_both_directions(s: FSState, event: StreamEvent)
    requires
        s != FSState::Closed,
        s.spec_next(event) == FSState::Closed,
    ensures
        event == StreamEvent::Reset || (event == StreamEvent::FinFlushed && s
            == FSState::RemoteClosedLocalClosing) || (event == StreamEvent::RemoteFin && s
            == FSState::LocalClosed),
{
}

/// One logical stream of a session.
///
/// The stream holds at most one frame that waits to be written. While that
/// slot is taken, nothing more is accepted from the owner.
#[derive(Clone, Debug, PartialEq, Eq)]
pub struct FramedStream {
    /// The stream's id, unique within its session.
    pub id: u32,
    /// Where the stream stands in its life.
    pub state: FSState,
    /// The frame that waits to be written, if any.
    pub pending_frame: Option<Frame>,
    /// The priority with which the waiting frame is to be written.
    pub pending_priority: Priority,
    /// Whether the stream ended by a reset rather than by two FINs.
    pub reset: bool,
    /// Whether the peer has acknowledged the stream, or needs not.
    pub acked: bool,
    /// How many bytes the peer still allows this side to send.
    pub send_window: u32,
    /// How many bytes this side still allows the peer to send.
    pub recv_window: u32,
    /// The size of a full window, also the most payload of one data frame.
    pub max_window: u32,
    /// Bytes that the owner has read and that are not yet granted again.
    pub consumed: u32,
    /// Bytes received and not yet read by the owner, oldest first.
    pub read_buffer: Vec<u8>,
}

/// What a [`FramedStream`] holds, as mathematical values.
pub struct StreamView {
    pub id: u32,
    pub state: FSState,
    pub pending_frame: Option<FrameView>,
    pub pending_priority: Priority,
    pub reset: bool,
    pub acked: bool,
    pub send_window: u32,
    pub recv_window: u32,
    pub max_window: u32,
    pub consumed: u32,
    pub read_buffer: Seq<u8>,
}

/// What a read gives.
#[derive(Clone, Debug, PartialEq, Eq)]
pub enum ReadOutcome {
    /// The oldest unread bytes.
    Data(Vec<u8>),
    /// Nothing is buffered and the peer will send no more.
    Eof,
    /// Nothing is buffered yet; the reader has to wait.
    Pending,
}

/// A [`ReadOutcome`] as mathematical values.
pub enum ReadOutcomeView {
    Data(Seq<u8>),
    Eof,
    Pending,
}

impl View for ReadOutcome {
    type V = ReadOutcomeView;

    open spec fn view(&self) -> ReadOutcomeView {
        match self {
            ReadOutcome::Data(d) => ReadOutcomeView::Data(d@),
            ReadOutcome::Eof => ReadOutcomeView::Eof,
            ReadOutcome::Pending => ReadOutcomeView::Pending,
        }
    }
}

/// The view of an optional frame.
pub open spec fn spec_frame_option(f: Option<Frame>) -> Option<FrameView> {
    match f {
        Some(fr) => Some(fr@),
        None => None,
    }
}

/// The frame that carries nothing but flags for stream `id`: a window update
/// of no credit.
pub open spec fn spec_flag_frame(id: u32, flags: Flags) -> FrameView {
    FrameView { stream_id: id, ty: FrameType::WindowUpdate, flags, length: 0, payload: Seq::empty() }
}

/// The least of three numbers.
pub open spec fn spec_min3(a: nat, b: nat, c: nat) -> nat {
    if a <= b && a <= c {
        a
    } else if b <= c {
        b
    } else {
        c
    }
}

impl View for FramedStream {
    type V = StreamView;

    open spec fn view(&self) -> StreamView {
        StreamView {
            id: self.id,
            state: self.state,
            pending_frame: spec_frame_option(self.pending_frame),
            pending_priority: self.pending_priority,
            reset: self.reset,
            acked: self.acked,
            send_window: self.send_window,
            recv_window: self.recv_window,
            max_window: self.max_window,
            consumed: self.consumed,
            read_buffer: self.read_buffer@,
        }
    }
}

impl StreamView {
    /// The invariant of a stream.
    ///
    /// Receive credit is conserved: what the peer may still send, what is
    /// buffered and what was read but not granted again add up to one full
    /// window. The waiting frame belongs to this stream and fits the state:
    /// it is a FIN exactly while the local FIN is queued, and a closed
    /// stream has none. A reset stream is closed and holds no unread data.
    pub open spec fn wf(self) -> bool {
        &&& self.recv_window + self.consumed + self.read_buffer.len() == self.max_window
        &&& self.pending_frame matches Some(f) ==> {
            &&& f.wf()
            &&& f.stream_id == self.id
            &&& f.ty == FrameType::Data || f.ty == FrameType::WindowUpdate
            &&& f.ty == FrameType::Data ==> f.length <= self.max_window
        }
        &&& self.reset ==> self.state == FSState::Closed && self.read_buffer.len() == 0
        &&& self.state == FSState::Closed ==> self.pending_frame is None
        &&& self.state == FSState::LocalClosing ==> self.pending_frame is Some
            && !self.pending_frame->0.flags.fin
        &&& self.state == FSState::LocalClosingHalf ==> self.pending_frame is Some
            && self.pending_frame->0.flags.fin
        &&& self.state == FSState::RemoteClosedLocalClosing ==> self.pending_frame is Some
        &&& (self.state == FSState::Established || self.state == FSState::RemoteClosed
            || self.state == FSState::LocalClosed) && self.pending_frame is Some
            ==> !self.pending_frame->0.flags.fin
    }

    /// A fresh stream: established, nothing buffered, both windows full, and
    /// `first` waiting to be written. Only a stream that this side opens
    /// with a SYN waits for the peer's acknowledgement.
    pub open spec fn fresh(
        id: u32,
        max_window: u32,
        first: Option<FrameView>,
        acked: bool,
    ) -> StreamView {
        StreamView {
            id,
            state: FSState::Established,
            pending_frame: first,
            pending_priority: Priority::High,
            reset: false,
            acked,
            send_window: max_window,
            recv_window: max_window,
            max_window,
            consumed: 0,
            read_buffer: Seq::empty(),
        }
    }

    /// Whether the stream still counts as live in its session.
    pub open spec fn live(self) -> bool {
        self.state != FSState::Closed
    }

    /// The stream after a reset: closed, marked as reset, its waiting frame
    /// and its unread bytes discarded.
    pub open spec fn after_reset(self) -> StreamView {
        StreamView {
            state: FSState::Closed,
            reset: true,
            pending_frame: None,
            consumed: (self.consumed + self.read_buffer.len()) as u32,
            read_buffer: Seq::empty(),
            ..self
        }
    }

    /// The stream after it has granted the peer new credit, if the grant is
    /// due: the peer may still send, no frame waits, and at least half a
    /// window has been read since the last grant. The grant is a window
    /// update of all that was read, of high priority.
    pub open spec fn regranted(self) -> StreamView {
        if self.pending_frame is None && self.state.spec_remote_open() && self.consumed > 0 && 2
            * self.consumed >= self.max_window {
            StreamView {
                pending_frame: Some(
                    FrameView {
                        stream_id: self.id,
                        ty: FrameType::WindowUpdate,
                        flags: Flags { syn: false, ack: false, fin: false, rst: false },
                        length: self.consumed,
                        payload: Seq::empty(),
                    },
                ),
                pending_priority: Priority::High,
                recv_window: (self.recv_window + self.consumed) as u32,
                consumed: 0,
                ..self
            }
        } else {
            self
        }
    }

    /// How many of `len` offered bytes a write takes: none while a frame
    /// waits, else as many as the send window and one frame allow.
    pub open spec fn write_len(self, len: nat) -> nat {
        if self.pending_frame is Some {
            0
        } else {
            spec_min3(len, self.send_window as nat, self.max_window as nat)
        }
    }

    /// What a write of `len` bytes returns.
    pub open spec fn write_result(self, len: nat) -> Result<usize, Error> {
        if self.reset {
            Err(Error::StreamReset)
        } else if !self.state.spec_local_open() {
            Err(Error::StreamClosed)
        } else {
            Ok(self.write_len(len) as usize)
        }
    }

    /// The stream after a write of `data`: the bytes taken wait as one data
    /// frame and are charged to the send window.
    pub open spec fn after_write(self, data: Seq<u8>, priority: Priority) -> StreamView {
        let n = self.write_len(data.len());
        if self.write_result(data.len()) is Err || n == 0 {
            self
        } else {
            StreamView {
                pending_frame: Some(
                    FrameView {
                        stream_id: self.id,
                        ty: FrameType::Data,
                        flags: Flags { syn: false, ack: false, fin: false, rst: false },
                        length: n as u32,
                        payload: data.subrange(0, n as int),
                    },
                ),
                pending_priority: priority,
                send_window: (self.send_window - n) as u32,
                ..self
            }
        }
    }

    /// What a window update of `credit` returns: a violation where the send
    /// window cannot hold the credit; a closed stream ignores the update.
    pub open spec fn window_update_result(self, credit: u32) -> Result<(), Error> {
        if self.state != FSState::Closed && self.send_window + credit > u32::MAX {
            Err(Error::WindowViolation)
        } else {
            Ok(())
        }
    }

    /// The stream after a window update of `credit`: the send window grows
    /// by the credit; a violation resets the stream.
    pub open spec fn after_window_update(self, credit: u32) -> StreamView {
        if self.state == FSState::Closed {
            self
        } else if self.send_window + credit > u32::MAX {
            self.after_reset()
        } else {
            StreamView { send_window: (self.send_window + credit) as u32, ..self }
        }
    }

    /// What the arrival of `payload` returns: a violation where the payload
    /// exceeds the receive window; data for a direction that the peer has
    /// closed is ignored.
    pub open spec fn data_result(self, payload: Seq<u8>) -> Result<(), Error> {
        if self.state.spec_remote_open() && payload.len() > self.recv_window {
            Err(Error::WindowViolation)
        } else {
            Ok(())
        }
    }

    /// The stream after the arrival of `payload`: the bytes join the read
    /// buffer and are charged to the receive window; a violation resets the
    /// stream.
    pub open spec fn after_data(self, payload: Seq<u8>) -> StreamView {
        if !self.state.spec_remote_open() {
            self
        } else if payload.len() > self.recv_window {
            self.after_reset()
        } else {
            StreamView {
                recv_window: (self.recv_window - payload.len()) as u32,
                read_buffer: self.read_buffer + payload,
                ..self
            }
        }
    }

    /// How many bytes a read of at most `max` bytes takes.
    pub open spec fn read_len(self, max: nat) -> nat {
        if max <= self.read_buffer.len() {
            max
        } else {
            self.read_buffer.len()
        }
    }

    /// What a read of at most `max` bytes returns: the reset, if there was
    /// one; else the oldest buffered bytes; else whether more can come.
    pub open spec fn read_result(self, max: nat) -> Result<ReadOutcomeView, Error> {
        if self.reset {
            Err(Error::StreamReset)
        } else if self.read_buffer.len() == 0 {
            if self.state.spec_remote_open() {
                Ok(ReadOutcomeView::Pending)
            } else {
                Ok(ReadOutcomeView::Eof)
            }
        } else {
            Ok(ReadOutcomeView::Data(self.read_buffer.subrange(0, self.read_len(max) as int)))
        }
    }

    /// The stream after a read of at most `max` bytes: the bytes read leave
    /// the buffer, and new credit is granted if it is due.
    pub open spec fn after_read(self, max: nat) -> StreamView {
        if self.reset || self.read_buffer.len() == 0 {
            self
        } else {
            let n = self.read_len(max);
            (StreamView {
                consumed: (self.consumed + n) as u32,
                read_buffer: self.read_buffer.subrange(n as int, self.read_buffer.len() as int),
                ..self
            }).regranted()
        }
    }

    /// What a close by the owner returns.
    pub open spec fn close_result(self) -> Result<(), Error> {
        if self.reset {
            Err(Error::StreamReset)
        } else {
            Ok(())
        }
    }

    /// The stream after a close by the owner: the FIN is queued at once if
    /// no frame waits, else it is owed until that frame is written. A second
    /// close changes nothing.
    pub open spec fn after_close(self) -> StreamView {
        if self.reset || !self.state.spec_local_open() {
            self
        } else if self.pending_frame is None {
            StreamView {
                state: self.state.spec_next(StreamEvent::LocalClose).spec_next(
                    StreamEvent::FinQueued,
                ),
                pending_frame: Some(
                    spec_flag_frame(
                        self.id,
                        Flags { syn: false, ack: false, fin: true, rst: false },
                    ),
                ),
                pending_priority: Priority::High,
                ..self
            }
        } else {
            StreamView { state: self.state.spec_next(StreamEvent::LocalClose), ..self }
        }
    }

    /// The stream after the peer's FIN: the remote direction is closed, and
    /// a window update that still waited on a stream that is thereby closed
    /// is dropped.
    pub open spec fn after_fin(self) -> StreamView {
        let next = self.state.spec_next(StreamEvent::RemoteFin);
        StreamView {
            state: next,
            pending_frame: if next == FSState::Closed {
                None
            } else {
                self.pending_frame
            },
            ..self
        }
    }

    /// What the body of a frame from the peer returns: its payload is
    /// taken in if it is a data frame, its credit otherwise.
    pub open spec fn body_result(self, f: FrameView) -> Result<(), Error> {
        if f.ty == FrameType::Data {
            self.data_result(f.payload)
        } else {
            self.window_update_result(f.length)
        }
    }

    /// The stream after the body of a frame from the peer, and after the FIN
    /// and the ACK on it, if it carries them and did not violate flow
    /// control.
    pub open spec fn after_body(self, f: FrameView) -> StreamView {
        let taken = if f.ty == FrameType::Data {
            self.after_data(f.payload)
        } else {
            self.after_window_update(f.length)
        };
        let closed = if self.body_result(f) is Ok && f.flags.fin {
            taken.after_fin()
        } else {
            taken
        };
        if self.body_result(f) is Ok && f.flags.ack {
            StreamView { acked: true, ..closed }
        } else {
            closed
        }
    }

    /// What a frame from the peer returns: a frame with RST is never a
    /// violation.
    pub open spec fn frame_result(self, f: FrameView) -> Result<(), Error> {
        if f.flags.rst {
            Ok(())
        } else {
            self.body_result(f)
        }
    }

    /// The stream after a frame from the peer: a frame with RST resets it,
    /// whatever else the frame holds.
    pub open spec fn after_frame(self, f: FrameView) -> StreamView {
        if f.flags.rst {
            self.after_reset()
        } else {
            self.after_body(f)
        }
    }

    /// The stream after its waiting frame was handed out for writing.
    ///
    /// A FIN that goes out closes the local direction. Behind any other frame
    /// an owed FIN takes the slot. Once the slot is free, new credit is
    /// granted if it is due.
    pub open spec fn after_flush(self) -> StreamView {
        match self.pending_frame {
            None => self,
            Some(f) => {
                if f.flags.fin {
                    (StreamView {
                        state: self.state.spec_next(StreamEvent::FinFlushed),
                        pending_frame: None,
                        ..self
                    }).regranted()
                } else if self.state.spec_fin_owed() {
                    StreamView {
                        state: self.state.spec_next(StreamEvent::FinQueued),
                        pending_frame: Some(
                            spec_flag_frame(
                                self.id,
                                Flags { syn: false, ack: false, fin: true, rst: false },
                            ),
                        ),
                        pending_priority: Priority::High,
                        ..self
                    }
                } else {
                    (StreamView { pending_frame: None, ..self }).regranted()
                }
            },
        }
    }
}

/// The frame that carries nothing but flags for stream `id`.
pub(crate) fn flag_frame(id: u32, flags: Flags) -> (f: Frame)
    ensures
        f@ == spec_flag_frame(id, flags),
{
    Frame { stream_id: id, ty: FrameType::WindowUpdate, flags, length: 0, payload: Vec::new() }
}

impl FramedStream {
    /// A fresh stream with full windows of `max_stream_window_size` bytes and
    /// no frame waiting.
    pub fn new(id: u32, max_stream_window_size: u32) -> (s: FramedStream)
        ensures
            s@ == StreamView::fresh(id, max_stream_window_size, None, true),
            s@.wf(),
    {
        FramedStream {
            id,
            state: FSState::Established,
            pending_frame: None,
            pending_priority: Priority::High,
            reset: false,
            acked: true,
            send_window: max_stream_window_size,
            recv_window: max_stream_window_size,
            max_window: max_stream_window_size,
            consumed: 0,
            read_buffer: Vec::new(),
        }
    }

    /// A fresh stream whose first frame, a SYN where `opening` and an ACK
    /// otherwise, waits to be written.
    pub fn with_handshake(id: u32, max_stream_window_size: u32, opening: bool) -> (s: FramedStream)
        ensures
            s@ == StreamView::fresh(
                id,
                max_stream_window_size,
                Some(
                    spec_flag_frame(
                        id,
                        Flags { syn: opening, ack: !opening, fin: false, rst: false },
                    ),
                ),
                !opening,
            ),
            s@.wf(),
    {
        let first = flag_frame(id, Flags { syn: opening, ack: !opening, fin: false, rst: false });
        FramedStream {
            id,
            state: FSState::Established,
            pending_frame: Some(first),
            pending_priority: Priority::High,
            reset: false,
            acked: !opening,
            send_window: max_stream_window_size,
            recv_window: max_stream_window_size,
            max_window: max_stream_window_size,
            consumed: 0,
            read_buffer: Vec::new(),
        }
    }

    /// Whether the stream is well formed (see [`StreamView::wf`]).
    pub fn is_well_formed(&self) -> (ok: bool)
        ensures
            ok == self@.wf(),
    {
        let buffered: usize = self.read_buffer.len();
        if buffered > u32::MAX as usize {
            return false;
        }
        let total: u64 = self.recv_window as u64 + self.consumed as u64 + buffered as u64;
        if total != self.max_window as u64 {
            return false;
        }
        if self.reset && (!self.state.is_closed() || buffered != 0) {
            return false;
        }
        match &self.pending_frame {
            None => match self.state {
                FSState::LocalClosing | FSState::LocalClosingHalf
                | FSState::RemoteClosedLocalClosing => false,
                _ => true,
            },
            Some(f) => {
                if !f.is_well_formed() || f.stream_id != self.id {
                    return false;
                }
                let fits = match f.ty {
                    FrameType::Data => f.length <= self.max_window,
                    FrameType::WindowUpdate => true,
                    _ => false,
                };
                if !fits {
                    return false;
                }
                match self.state {
                    FSState::Closed => false,
                    FSState::LocalClosingHalf => f.flags.fin,
                    FSState::RemoteClosedLocalClosing => true,
                    _ => !f.flags.fin,
                }
            },
        }
    }

    /// Whether the stream still counts as live in its session.
    pub fn is_live(&self) -> (live: bool)
        ensures
            live == self@.live(),
    {
        !self.state.is_closed()
    }

    /// Resets the stream: it is closed at once, and its waiting frame and its
    /// unread bytes are discarded.
    pub fn reset(&mut self)
        requires
            old(self)@.wf(),
        ensures
            final(self)@ == old(self)@.after_reset(),
            final(self)@.wf(),
    {
        let buffered: u32 = self.read_buffer.len() as u32;
        self.state = FSState::Closed;
        self.reset = true;
        self.pending_frame = None;
        self.consumed = self.consumed + buffered;
        self.read_buffer = Vec::new();
    }

    /// Grants the peer new credit if the grant is due.
    fn regrant(&mut self)
        requires
            old(self)@.wf(),
        ensures
            final(self)@ == old(self)@.regranted(),
            final(self)@.wf(),
    {
        if self.pending_frame.is_none() && self.state.remote_open() && self.consumed > 0
            && self.consumed >= self.max_window - self.consumed {
            self.pending_frame = Some(
                Frame {
                    stream_id: self.id,
                    ty: FrameType::WindowUpdate,
                    flags: Flags::none(),
                    length: self.consumed,
                    payload: Vec::new(),
                },
            );
            self.pending_priority = Priority::High;
            self.recv_window = self.recv_window + self.consumed;
            self.consumed = 0;
        }
    }

    /// Takes bytes from the owner for sending.
    ///
    /// Returns how many bytes were taken: as many as the send window and one
    /// frame allow, and none while a frame still waits to be written. The
    /// owner then has to wait and offer the rest again. Fails once the stream
    /// is reset or the owner has closed it.
    pub fn write(&mut self, data: &[u8], priority: Priority) -> (r: Result<usize, Error>)
        requires
            old(self)@.wf(),
        ensures
            r == old(self)@.write_result(data@.len()),
            final(self)@ == old(self)@.after_write(data@, priority),
            final(self)@.wf(),
    {
        if self.reset {
            return Err(Error::StreamReset);
        }
        if !self.state.local_open() {
            return Err(Error::StreamClosed);
        }
        if self.pending_frame.is_some() {
            return Ok(0);
        }
        let mut n: usize = data.len();
        if n > self.send_window as usize {
            n = self.send_window as usize;
        }
        if n > self.max_window as usize {
            n = self.max_window as usize;
        }
        if n == 0 {
            return Ok(0);
        }
        let payload = slice_to_vec(slice_subrange(data, 0, n));
        self.pending_frame = Some(
            Frame {
                stream_id: self.id,
                ty: FrameType::Data,
                flags: Flags::none(),
                length: n as u32,
                payload,
            },
        );
        self.pending_priority = priority;
        self.send_window = self.send_window - n as u32;
        Ok(n)
    }

    /// Takes in a window update from the peer.
    ///
    /// The send window grows by `credit`. Credit that the window cannot hold
    /// is a violation by the peer and resets the stream.
    pub fn on_window_update(&mut self, credit: u32) -> (r: Result<(), Error>)
        requires
            old(self)@.wf(),
        ensures
            r == old(self)@.window_update_result(credit),
            final(self)@ == old(self)@.after_window_update(credit),
            final(self)@.wf(),
    {
        if self.state.is_closed() {
            return Ok(());
        }
        match self.send_window.checked_add(credit) {
            Some(w) => {
                self.send_window = w;
                Ok(())
            },
            None => {
                self.reset();
                Err(Error::WindowViolation)
            },
        }
    }

    /// Takes in the payload of a data frame from the peer.
    ///
    /// More bytes than the receive window allows are a violation by the peer
    /// and reset the stream.
    pub fn on_data(&mut self, payload: &[u8]) -> (r: Result<(), Error>)
        requires
            old(self)@.wf(),
        ensures
            r == old(self)@.data_result(payload@),
            final(self)@ == old(self)@.after_data(payload@),
            final(self)@.wf(),
    {
        if !self.state.remote_open() {
            return Ok(());
        }
        if payload.len() > self.recv_window as usize {
            self.reset();
            return Err(Error::WindowViolation);
        }
        self.read_buffer.extend_from_slice(payload);
        assert(self.read_buffer@ =~= old(self).read_buffer@ + payload@);
        self.recv_window = self.recv_window - payload.len() as u32;
        Ok(())
    }

    /// Hands the owner up to `max` of the oldest unread bytes.
    ///
    /// A reset stream reports the reset. With nothing buffered, the owner
    /// learns whether the peer can still send (`Pending`) or not (`Eof`).
    pub fn read(&mut self, max: usize) -> (r: Result<ReadOutcome, Error>)
        requires
            old(self)@.wf(),
        ensures
            match old(self)@.read_result(max as nat) {
                Ok(o) => r matches Ok(got) && got@ == o,
                Err(e) => r == Err::<ReadOutcome, Error>(e),
            },
            final(self)@ == old(self)@.after_read(max as nat),
            final(self)@.wf(),
    {
        if self.reset {
            return Err(Error::StreamReset);
        }
        if self.read_buffer.len() == 0 {
            if self.state.remote_open() {
                return Ok(ReadOutcome::Pending);
            } else {
                return Ok(ReadOutcome::Eof);
            }
        }
        let mut n: usize = self.read_buffer.len();
        if max < n {
            n = max;
        }
        let mut head = self.read_buffer.split_off(n);
        core::mem::swap(&mut head, &mut self.read_buffer);
        self.consumed = self.consumed + n as u32;
        self.regrant();
        Ok(ReadOutcome::Data(head))
    }

    /// Closes the local direction on behalf of the owner.
    ///
    /// The FIN is queued at once if no frame waits, else right behind that
    /// frame. Closing twice is allowed; closing a reset stream reports the
    /// reset.
    pub fn close(&mut self) -> (r: Result<(), Error>)
        requires
            old(self)@.wf(),
        ensures
            r == old(self)@.close_result(),
            final(self)@ == old(self)@.after_close(),
            final(self)@.wf(),
    {
        if self.reset {
            return Err(Error::StreamReset);
        }
        if !self.state.local_open() {
            return Ok(());
        }
        let closing = self.state.next(StreamEvent::LocalClose);
        if self.pending_frame.is_none() {
            self.pending_frame = Some(flag_frame(self.id, Flags::fin()));
            self.pending_priority = Priority::High;
            self.state = closing.next(StreamEvent::FinQueued);
        } else {
            self.state = closing;
        }
        Ok(())
    }

    /// Takes in the peer's FIN.
    pub fn on_fin(&mut self)
        requires
            old(self)@.wf(),
        ensures
            final(self)@ == old(self)@.after_fin(),
            final(self)@.wf(),
    {
        self.state = self.state.next(StreamEvent::RemoteFin);
        if self.state.is_closed() {
            self.pending_frame = None;
        }
    }

    /// Takes in a data or window-update frame from the peer: its RST, or
    /// else its payload or credit and then its FIN and its ACK.
    pub fn on_frame(&mut self, frame: &Frame) -> (r: Result<(), Error>)
        requires
            old(self)@.wf(),
        ensures
            r == old(self)@.frame_result(frame@),
            final(self)@ == old(self)@.after_frame(frame@),
            final(self)@.wf(),
    {
        if frame.flags.rst {
            self.reset();
            return Ok(());
        }
        let taken = match frame.ty {
            FrameType::Data => self.on_data(frame.payload.as_slice()),
            _ => self.on_window_update(frame.length),
        };
        if taken.is_ok() && frame.flags.fin {
            self.on_fin();
        }
        if taken.is_ok() && frame.flags.ack {
            self.acked = true;
        }
        taken
    }

    /// Hands out the waiting frame for writing, if there is one.
    pub fn take_pending(&mut self) -> (f: Option<Frame>)
        requires
            old(self)@.wf(),
        ensures
            spec_frame_option(f) == old(self)@.pending_frame,
            final(self)@ == old(self)@.after_flush(),
            final(self)@.wf(),
    {
        let taken = self.pending_frame.take();
        match &taken {
            None => {},
            Some(frame) => {
                if frame.flags.fin {
                    self.state = self.state.next(StreamEvent::FinFlushed);
                    self.regrant();
                } else if self.state.fin_owed() {
                    self.pending_frame = Some(flag_frame(self.id, Flags::fin()));
                    self.pending_priority = Priority::High;
                    self.state = self.state.next(StreamEvent::FinQueued);
                } else {
                    self.regrant();
                }
            },
        }
        taken
    }
}

/// One thing that is done to a stream, by its owner, by the peer or by the
/// session.
pub enum StreamOp {
    /// The owner offers bytes for sending.
    Write(Seq<u8>, Priority),
    /// The waiting frame is handed out for writing.
    Flush,
    /// A window update arrives.
    WindowUpdate(u32),
    /// A data payload arrives.
    Data(Seq<u8>),
    /// The owner reads up to so many bytes.
    Read(nat),
    /// The owner closes the local direction.
    Close,
    /// The peer's FIN arrives.
    RemoteFin,
    /// The stream is reset.
    Reset,
}

impl StreamView {
    /// The stream after `op`.
    pub open spec fn step(self, op: StreamOp) -> StreamView {
        match op {
            StreamOp::Write(data, priority) => self.after_write(data, priority),
            StreamOp::Flush => self.after_flush(),
            StreamOp::WindowUpdate(credit) => self.after_window_update(credit),
            StreamOp::Data(payload) => self.after_data(payload),
            StreamOp::Read(max) => self.after_read(max),
            StreamOp::Close => self.after_close(),
            StreamOp::RemoteFin => self.after_fin(),
            StreamOp::Reset => self.after_reset(),
        }
    }

    /// How many payload bytes `op` commits to the wire: what a successful
    /// write takes.
    pub open spec fn sent_by(self, op: StreamOp) -> nat {
        match op {
            StreamOp::Write(data, _) => if self.write_result(data.len()) is Ok {
                self.write_len(data.len())
            } else {
                0
            },
            _ => 0,
        }
    }

    /// How much send credit `op` brings: what an accepted window update
    /// grants.
    pub open spec fn granted_by(self, op: StreamOp) -> nat {
        match op {
            StreamOp::WindowUpdate(credit) => if self.state != FSState::Closed
                && self.send_window + credit <= u32::MAX {
                credit as nat
            } else {
                0
            },
            _ => 0,
        }
    }

    /// The stream after all of `ops`, in order.
    pub open spec fn run(self, ops: Seq<StreamOp>) -> StreamView
        decreases ops.len(),
    {
        if ops.len() == 0 {
            self
        } else {
            self.run(ops.drop_last()).step(ops.last())
        }
    }

    /// All payload bytes that `ops` commit to the wire.
    pub open spec fn sent_total(self, ops: Seq<StreamOp>) -> nat
        decreases ops.len(),
    {
        if ops.len() == 0 {
            0
        } else {
            self.sent_total(ops.drop_last()) + self.run(ops.drop_last()).sent_by(ops.last())
        }
    }

    /// All send credit that `ops` bring.
    pub open spec fn granted_total(self, ops: Seq<StreamOp>) -> nat
        decreases ops.len(),
    {
        if ops.len() == 0 {
            0
        } else {
            self.granted_total(ops.drop_last()) + self.run(ops.drop_last()).granted_by(ops.last())
        }
    }
}

/// Every operation keeps a well-formed stream well formed.
pub proof fn lemma_step_keeps_wf(v: StreamView, op: StreamOp)
    requires
        v.wf(),
    ensures
        v.step(op).wf(),
{
}

/// A write never takes more than the send window holds, and charges the
/// window with exactly what it takes.
pub proof fn lemma_write_within_window(v: StreamView, data: Seq<u8>, priority: Priority)
    requires
        v.wf(),
    ensures
        v.sent_by(StreamOp::Write(data, priority)) <= v.send_window,
        v.after_write(data, priority).send_window == v.send_window - v.sent_by(
            StreamOp::Write(data, priority),
        ),
{
}

/// A window update on a stream that is not closed raises the send window by
/// exactly the credit it grants, as long as the window can hold it; with
/// credit above zero the window strictly grows.
pub proof fn lemma_window_update_adds_credit(v: StreamView, credit: u32)
    requires
        v.wf(),
        v.state != FSState::Closed,
        v.send_window + credit <= u32::MAX,
    ensures
        v.after_window_update(credit).send_window == v.send_window + credit,
        credit > 0 ==> v.after_window_update(credit).send_window > v.send_window,
        v.window_update_result(credit) is Ok,
{
}

/// Whatever is done to a stream, in whatever order, the send window is the
/// credit received minus the bytes sent: what was sent, counted from a
/// stream's state `v` on, never exceeds the window at `v` plus all credit
/// granted since.
pub proof fn lemma_sent_within_granted(v: StreamView, ops: Seq<StreamOp>)
    requires
        v.wf(),
    ensures
        v.run(ops).wf(),
        v.sent_total(ops) + v.run(ops).send_window == v.send_window + v.granted_total(ops),
        v.sent_total(ops) <= v.send_window + v.granted_total(ops),
    decreases ops.len(),
{
    if ops.len() > 0 {
        lemma_sent_within_granted(v, ops.drop_last());
        lemma_step_keeps_wf(v.run(ops.drop_last()), ops.last());
    }
}

/// A reset closes the stream and discards its unread bytes: a read after it
/// reports the reset and takes nothing, whatever was buffered before.
pub proof fn lemma_reset_discards_unread(v: StreamView, max: nat)
    requires
        v.wf(),
    ensures
        v.after_reset().wf(),
        v.after_reset().state == FSState::Closed,
        v.after_reset().read_buffer == Seq::<u8>::empty(),
        v.after_reset().read_result(max) == Err::<ReadOutcomeView, Error>(Error::StreamReset),
        v.after_reset().after_read(max) == v.after_reset(),
{
}

/// Bytes come out of a stream in the order in which they came in: a payload
/// that arrives while earlier bytes are unread is read after them.
pub proof fn lemma_data_is_read_in_order(v: StreamView, payload: Seq<u8>)
    requires
        v.wf(),
        v.state.spec_remote_open(),
        0 < payload.len() <= v.recv_window,
    ensures
        v.after_data(payload).read_result(
            (v.read_buffer.len() + payload.len()) as nat,
        ) == Ok::<ReadOutcomeView, Error>(ReadOutcomeView::Data(v.read_buffer + payload)),
{
    let w = v.after_data(payload);
    assert(w.read_buffer.subrange(0, w.read_buffer.len() as int) =~= v.read_buffer + payload);
}

/// The send window moves in one direction at a time: a window update never
/// lowers it, a write never raises it, and nothing else touches it.
pub proof fn lemma_window_moves_by_send_and_grant(v: StreamView, op: StreamOp)
    requires
        v.wf(),
    ensures
        match op {
            StreamOp::WindowUpdate(_) => v.step(op).send_window >= v.send_window,
            StreamOp::Write(_, _) => v.step(op).send_window <= v.send_window,
            _ => v.step(op).send_window == v.send_window,
        },
{
}

} // verus!

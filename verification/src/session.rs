//! The session: the table of streams of one connection and everything that
//! happens to it.
//!
//! A session does no I/O. Whoever drives it feeds it the bytes read from the
//! connection, applies the owners' requests, and writes out the frames that
//! the session hands over, one at a time.

use crate::codec::{FrameCodec, FrameCodecView};
use crate::error::Error;
use crate::event::Priority;
use crate::frame::{DecodedView, Flags, Frame, FrameType, FrameView};
use crate::framed_stream::{flag_frame, spec_flag_frame, FSState, FramedStream, StreamView};
use vstd::prelude::*;

verus! {

/// How a session treats its live streams when it is shut down.
#[derive(Clone, Copy, Debug, PartialEq, Eq, Structural)]
pub enum DrainPolicy {
    /// Each stream is closed with a FIN; the session waits until every
    /// stream is closed, or until it is told that the deadline has passed.
    Graceful,
    /// Each stream is reset at once.
    Immediate,
}

/// The limits of a session.
#[derive(Clone, Copy, Debug, PartialEq, Eq, Structural)]
pub struct Config {
    /// The most payload bytes that a data frame may carry.
    pub max_frame_size: u32,
    /// The size of each stream's send and receive window.
    pub initial_window_size: u32,
    /// The most streams that may be live at a time.
    pub max_streams: usize,
    /// The most streams opened by the peer that may wait to be accepted.
    pub accept_backlog: usize,
    /// What a shutdown does to the live streams.
    pub drain: DrainPolicy,
}

impl Default for Config {
    fn default() -> (c: Config)
        ensures
            c == (Config {
                max_frame_size: 262144,
                initial_window_size: 262144,
                max_streams: 65535,
                accept_backlog: 256,
                drain: DrainPolicy::Graceful,
            }),
    {
        Config {
            max_frame_size: 262144,
            initial_window_size: 262144,
            max_streams: 65535,
            accept_backlog: 256,
            drain: DrainPolicy::Graceful,
        }
    }
}

/// Where a session stands in its life.
#[derive(Clone, Copy, Debug, PartialEq, Eq, Structural)]
pub enum SessionState {
    /// Streams are admitted and served.
    Open,
    /// A graceful shutdown is under way: no stream is admitted, the live
    /// ones are being closed.
    Draining,
    /// The session is over: no stream is live.
    Closed,
}

/// The owner's reference to a stream: its id, to be looked up in the session.
#[derive(Clone, Copy, Debug, PartialEq, Eq, Structural)]
pub struct StreamHandle {
    /// The id of the stream.
    pub id: u32,
}

impl StreamHandle {
    /// The id of the stream.
    pub fn id(&self) -> (id: u32)
        ensures
            id == self.id,
    {
        self.id
    }
}

/// Something that happened in the session and that the owner of a stream, or
/// of the session, is to be told.
#[derive(Clone, Copy, Debug, PartialEq, Eq, Structural)]
pub enum SessionEvent {
    /// The peer opened the stream and it was admitted.
    Opened(u32),
    /// The peer tried to open the stream and was refused with a reset.
    Refused(u32),
    /// So many payload bytes arrived on the stream.
    Received(u32, usize),
    /// The peer acknowledged the stream that this side opened.
    Acknowledged(u32),
    /// The peer granted the stream more send credit.
    WindowGranted(u32),
    /// The peer closed its direction of the stream.
    RemoteClosed(u32),
    /// The peer reset the stream.
    Reset(u32),
    /// The peer violated the stream's flow control; the stream was reset.
    Violation(u32),
    /// Both directions of the stream are done: it has ended in good order.
    Finished(u32),
    /// The session closed the stream, its oldest, to make room.
    Evicted(u32),
    /// The peer asked for a ping reply with this nonce; the reply is queued.
    Ping(u32),
    /// The peer answered a ping with this nonce.
    Pong(u32),
    /// The peer announced that it admits no more streams, with this reason.
    GoAway(u32),
}

/// What a frame hands out for writing, and what that did to its stream.
#[derive(Clone, Debug, PartialEq, Eq)]
pub struct Polled {
    /// The frame to write, if one was ready.
    pub frame: Option<Frame>,
    /// What handing the frame out gave rise to, if anything.
    pub event: Option<SessionEvent>,
}

/// The event `e` if `cond` holds, and no event otherwise.
pub open spec fn opt_event(cond: bool, e: SessionEvent) -> Seq<SessionEvent> {
    if cond {
        seq![e]
    } else {
        Seq::empty()
    }
}

/// What a frame from the peer gives rise to on the live stream `s` that it
/// names.
///
/// A reset and a violation end the stream, and nothing else is said of the
/// frame. Otherwise everything that the frame did is reported, in this
/// order: the first acknowledgement, the data that was buffered, the credit
/// that was granted, the peer's close, and the end of the stream where that
/// close was the last step of it.
pub open spec fn stream_events(s: StreamView, f: FrameView) -> Seq<SessionEvent> {
    if f.flags.rst {
        seq![SessionEvent::Reset(s.id)]
    } else if s.body_result(f) is Err {
        seq![SessionEvent::Violation(s.id)]
    } else {
        opt_event(f.flags.ack && !s.acked, SessionEvent::Acknowledged(s.id)) + opt_event(
            f.ty == FrameType::Data && s.state.spec_remote_open() && f.payload.len() > 0,
            SessionEvent::Received(s.id, f.payload.len() as usize),
        ) + opt_event(f.ty != FrameType::Data && f.length > 0, SessionEvent::WindowGranted(s.id))
            + opt_event(
            f.flags.fin && s.state.spec_remote_open(),
            SessionEvent::RemoteClosed(s.id),
        ) + opt_event(s.after_frame(f).state == FSState::Closed, SessionEvent::Finished(s.id))
    }
}

/// The views of a sequence of streams.
pub open spec fn stream_views(streams: Seq<FramedStream>) -> Seq<StreamView> {
    streams.map_values(|s: FramedStream| s@)
}

/// The views of a sequence of frames.
pub open spec fn frame_views(frames: Seq<Frame>) -> Seq<FrameView> {
    frames.map_values(|f: Frame| f@)
}

/// How many of `streams` are live.
pub open spec fn live_count(streams: Seq<StreamView>) -> nat
    decreases streams.len(),
{
    if streams.len() == 0 {
        0
    } else {
        live_count(streams.drop_last()) + if streams.last().live() {
            1nat
        } else {
            0nat
        }
    }
}

/// Whether one of `streams` has the id `id`.
pub open spec fn has_id(streams: Seq<StreamView>, id: u32) -> bool {
    exists|i: int| 0 <= i < streams.len() && (#[trigger] streams[i]).id == id
}

/// The place in `streams` of the stream with the id `id`.
pub open spec fn index_of(streams: Seq<StreamView>, id: u32) -> int {
    choose|i: int| 0 <= i < streams.len() && (#[trigger] streams[i]).id == id
}

/// Whether the stream at `i` is the oldest live one: it is live, and no live
/// stream has a smaller id.
pub open spec fn is_oldest_live(streams: Seq<StreamView>, i: int) -> bool {
    &&& 0 <= i < streams.len()
    &&& streams[i].live()
    &&& forall|j: int|
        0 <= j < streams.len() && (#[trigger] streams[j]).live() ==> streams[i].id <= streams[j].id
}

/// Whether ids of this parity are given out by this side: odd ids by the
/// side that opened the connection, even ids by the other. The id 0 belongs
/// to the connection itself.
pub open spec fn is_local_id(client: bool, id: u32) -> bool {
    id != 0 && ((id % 2 == 1) == client)
}

/// What handing out the waiting frame of a stream gives rise to.
pub open spec fn flush_event(s: StreamView) -> Option<SessionEvent> {
    if s.live() && s.after_flush().state == FSState::Closed {
        Some(SessionEvent::Finished(s.id))
    } else {
        None
    }
}

/// Whether a stream has a frame of the given priority waiting.
pub open spec fn wants(s: StreamView, priority: Priority) -> bool {
    s.pending_frame is Some && s.pending_priority == priority
}

/// Whether the stream at `i` is the first with a frame of the given priority
/// waiting.
pub open spec fn is_first_waiting(streams: Seq<StreamView>, priority: Priority, i: int) -> bool {
    &&& 0 <= i < streams.len()
    &&& wants(streams[i], priority)
    &&& forall|j: int| 0 <= j < i ==> !wants(#[trigger] streams[j], priority)
}

/// Whether some stream has a frame of the given priority waiting.
pub open spec fn has_waiting(streams: Seq<StreamView>, priority: Priority) -> bool {
    exists|i: int| is_first_waiting(streams, priority, i)
}

/// The place of the first stream with a frame of the given priority waiting.
pub open spec fn first_waiting(streams: Seq<StreamView>, priority: Priority) -> int {
    choose|i: int| is_first_waiting(streams, priority, i)
}

/// The go-away that a session sends when it shuts down.
pub open spec fn spec_go_away() -> FrameView {
    FrameView {
        stream_id: 0,
        ty: FrameType::GoAway,
        flags: Flags { syn: false, ack: false, fin: false, rst: false },
        length: 0,
        payload: Seq::empty(),
    }
}

/// The stream after a teardown of its session: reset if it was live.
pub open spec fn torn_down(s: StreamView) -> StreamView {
    if s.live() {
        s.after_reset()
    } else {
        s
    }
}

/// The streams after a teardown of their session.
pub open spec fn reset_all(streams: Seq<StreamView>) -> Seq<StreamView> {
    streams.map_values(|s: StreamView| torn_down(s))
}

/// The streams after each was closed as by its owner.
pub open spec fn closed_all(streams: Seq<StreamView>) -> Seq<StreamView> {
    streams.map_values(|s: StreamView| s.after_close())
}

/// The resets that tell the peer of a teardown: one for each live stream,
/// in the order of the table.
pub open spec fn reset_frames(streams: Seq<StreamView>) -> Seq<FrameView>
    decreases streams.len(),
{
    if streams.len() == 0 {
        Seq::empty()
    } else if streams.last().live() {
        reset_frames(streams.drop_last()).push(
            spec_flag_frame(
                streams.last().id,
                Flags { syn: false, ack: false, fin: false, rst: true },
            ),
        )
    } else {
        reset_frames(streams.drop_last())
    }
}

/// What a [`Session`] holds, as mathematical values.
pub struct SessionView {
    pub config: Config,
    pub client: bool,
    pub next_stream_id: u32,
    pub streams: Seq<StreamView>,
    pub control_queue: Seq<FrameView>,
    pub accept_queue: Seq<u32>,
    pub codec: FrameCodecView,
    pub state: SessionState,
    pub remote_go_away: bool,
}

impl SessionView {
    /// The invariant of a session.
    ///
    /// Every stream is well formed and has an id of its own, other than 0.
    /// No more streams are live than the configuration allows, and none in a
    /// closed session. The ids that this side gives out have its parity and
    /// grow, so that the next one is new. The frames that wait in the control
    /// queue are well formed, and the codec keeps the configured frame limit.
    pub open spec fn wf(self) -> bool {
        &&& forall|i: int| 0 <= i < self.streams.len() ==> (#[trigger] self.streams[i]).wf()
        &&& forall|i: int| 0 <= i < self.streams.len() ==> (#[trigger] self.streams[i]).id != 0
        &&& forall|i: int, j: int|
            0 <= i < j < self.streams.len() ==> (#[trigger] self.streams[i]).id != (
            #[trigger] self.streams[j]).id
        &&& forall|i: int|
            0 <= i < self.streams.len() && is_local_id(self.client, (#[trigger] self.streams[i]).id)
                ==> self.streams[i].id < self.next_stream_id
        &&& live_count(self.streams) <= self.config.max_streams
        &&& self.state == SessionState::Closed ==> live_count(self.streams) == 0
        &&& is_local_id(self.client, self.next_stream_id)
        &&& forall|i: int|
            0 <= i < self.control_queue.len() ==> (#[trigger] self.control_queue[i]).wf()
        &&& self.accept_queue.len() <= self.config.accept_backlog
        &&& self.codec.max_frame_size == self.config.max_frame_size
    }

    /// A new session: open, without streams, nothing queued or buffered. The
    /// side that opened the connection starts its ids at 1, the other at 2.
    pub open spec fn fresh(config: Config, client: bool) -> SessionView {
        SessionView {
            config,
            client,
            next_stream_id: if client {
                1
            } else {
                2
            },
            streams: Seq::empty(),
            control_queue: Seq::empty(),
            accept_queue: Seq::empty(),
            codec: FrameCodecView { max_frame_size: config.max_frame_size, buffer: Seq::empty() },
            state: SessionState::Open,
            remote_go_away: false,
        }
    }

    /// How many streams are live.
    pub open spec fn streams_num(self) -> nat {
        live_count(self.streams)
    }

    /// Whether this side may open a stream now, and why not.
    ///
    /// A session that is shutting down admits nothing. An open one admits a
    /// stream while fewer than `max_streams` are live and an id is left.
    pub open spec fn admits_local(self) -> Result<(), Error> {
        if self.state != SessionState::Open {
            Err(Error::SessionShutdown)
        } else if live_count(self.streams) >= self.config.max_streams || self.next_stream_id + 2
            > u32::MAX {
            Err(Error::StreamsExhausted)
        } else {
            Ok(())
        }
    }

    /// The session after this side was asked to add a stream: where it is
    /// admitted, the stream joins the table under the next local id, with
    /// `first` waiting to be written.
    pub open spec fn after_local_stream(self, first: Option<FrameView>) -> SessionView {
        if self.admits_local() is Ok {
            SessionView {
                streams: self.streams.push(
                    StreamView::fresh(
                        self.next_stream_id,
                        self.config.initial_window_size,
                        first,
                        first is None,
                    ),
                ),
                next_stream_id: (self.next_stream_id + 2) as u32,
                ..self
            }
        } else {
            self
        }
    }

    /// What a request to open a stream returns: the handle of the new
    /// stream, or why none was admitted.
    pub open spec fn open_result(self) -> Result<StreamHandle, Error> {
        match self.admits_local() {
            Ok(_) => Ok(StreamHandle { id: self.next_stream_id }),
            Err(e) => Err(e),
        }
    }

    /// The session after a request to open a stream: the new stream's SYN
    /// waits to be written.
    pub open spec fn after_open(self) -> SessionView {
        self.after_local_stream(
            Some(
                spec_flag_frame(
                    self.next_stream_id,
                    Flags { syn: true, ack: false, fin: false, rst: false },
                ),
            ),
        )
    }

    /// The session after a request to add a stream that is already set up:
    /// it joins without a handshake.
    pub open spec fn after_add(self) -> SessionView {
        self.after_local_stream(None)
    }

    /// Whether there is a live stream.
    pub open spec fn has_live(self) -> bool {
        exists|i: int| is_oldest_live(self.streams, i)
    }

    /// The place of the oldest live stream.
    pub open spec fn oldest_live(self) -> int {
        choose|i: int| is_oldest_live(self.streams, i)
    }

    /// What a request to close the oldest stream returns: the stream that
    /// was closed, if one was live.
    pub open spec fn close_oldest_result(self) -> Result<Option<StreamHandle>, Error> {
        if self.state != SessionState::Open {
            Err(Error::SessionShutdown)
        } else if self.has_live() {
            Ok(Some(StreamHandle { id: self.streams[self.oldest_live()].id }))
        } else {
            Ok(None)
        }
    }

    /// The session after a request to close the oldest stream: the live
    /// stream with the smallest id is closed at once, and a frame with FIN
    /// and RST tells the peer.
    pub open spec fn after_close_oldest(self) -> SessionView {
        if self.state != SessionState::Open || !self.has_live() {
            self
        } else {
            let i = self.oldest_live();
            SessionView {
                streams: self.streams.update(i, self.streams[i].after_reset()),
                control_queue: self.control_queue.push(
                    spec_flag_frame(
                        self.streams[i].id,
                        Flags { syn: false, ack: false, fin: true, rst: true },
                    ),
                ),
                ..self
            }
        }
    }

    /// The session once it has noticed that a graceful shutdown is done:
    /// a draining session without a live stream is closed.
    pub open spec fn settled(self) -> SessionView {
        if self.state == SessionState::Draining && live_count(self.streams) == 0 {
            SessionView { state: SessionState::Closed, ..self }
        } else {
            self
        }
    }

    /// Whether the peer may open a stream with the id `id` now: the session
    /// is open, the id is one of the peer's, fewer than `max_streams`
    /// streams are live and the accept queue has room.
    pub open spec fn admits_remote(self, id: u32) -> bool {
        &&& self.state == SessionState::Open
        &&& id != 0
        &&& !is_local_id(self.client, id)
        &&& live_count(self.streams) < self.config.max_streams
        &&& self.accept_queue.len() < self.config.accept_backlog
    }

    /// The stream that a SYN from the peer creates: fresh, with the ACK
    /// waiting to be written.
    pub open spec fn accepted_stream(self, id: u32) -> StreamView {
        StreamView::fresh(
            id,
            self.config.initial_window_size,
            Some(spec_flag_frame(id, Flags { syn: false, ack: true, fin: false, rst: false })),
            true,
        )
    }

    /// What a frame from the peer gives rise to, in order.
    ///
    /// A closed session drops every frame. Pings and go-aways concern the
    /// connection. Any other frame goes to the stream it names: a closed
    /// stream drops it; a live one takes it in (see [`stream_events`]). For
    /// a stream that the session does not hold, a frame with SYN asks for
    /// admission: where it is granted, the opening is reported, and then
    /// what the frame did to the new stream. Any other frame is dropped.
    pub open spec fn frame_events(self, f: FrameView) -> Seq<SessionEvent> {
        if self.state == SessionState::Closed {
            Seq::empty()
        } else if f.ty == FrameType::Ping {
            if f.flags.syn {
                seq![SessionEvent::Ping(f.length)]
            } else {
                seq![SessionEvent::Pong(f.length)]
            }
        } else if f.ty == FrameType::GoAway {
            seq![SessionEvent::GoAway(f.length)]
        } else if has_id(self.streams, f.stream_id) {
            let s = self.streams[index_of(self.streams, f.stream_id)];
            if !s.live() {
                Seq::empty()
            } else {
                stream_events(s, f)
            }
        } else if f.flags.syn && !f.flags.rst {
            if self.admits_remote(f.stream_id) && self.accepted_stream(f.stream_id).body_result(f)
                is Ok {
                seq![SessionEvent::Opened(f.stream_id)] + stream_events(
                    self.accepted_stream(f.stream_id),
                    f,
                )
            } else {
                seq![SessionEvent::Refused(f.stream_id)]
            }
        } else {
            Seq::empty()
        }
    }

    /// The session after a frame from the peer.
    ///
    /// A ping request queues its reply; a go-away is remembered. A frame for
    /// a live stream changes that stream, and a violation of flow control
    /// queues a reset for the peer. A SYN that is admitted adds the stream,
    /// with what the frame carries already taken in, and queues the stream
    /// for acceptance; a SYN that is refused queues a reset.
    pub open spec fn after_frame(self, f: FrameView) -> SessionView {
        let rst = spec_flag_frame(
            f.stream_id,
            Flags { syn: false, ack: false, fin: false, rst: true },
        );
        if self.state == SessionState::Closed {
            self
        } else if f.ty == FrameType::Ping {
            if f.flags.syn {
                SessionView {
                    control_queue: self.control_queue.push(
                        FrameView {
                            stream_id: 0,
                            ty: FrameType::Ping,
                            flags: Flags { syn: false, ack: true, fin: false, rst: false },
                            length: f.length,
                            payload: Seq::empty(),
                        },
                    ),
                    ..self
                }
            } else {
                self
            }
        } else if f.ty == FrameType::GoAway {
            SessionView { remote_go_away: true, ..self }
        } else if has_id(self.streams, f.stream_id) {
            let i = index_of(self.streams, f.stream_id);
            let s = self.streams[i];
            if !s.live() {
                self
            } else {
                (SessionView {
                    streams: self.streams.update(i, s.after_frame(f)),
                    control_queue: if s.frame_result(f) is Err {
                        self.control_queue.push(rst)
                    } else {
                        self.control_queue
                    },
                    ..self
                }).settled()
            }
        } else if f.flags.syn && !f.flags.rst {
            if self.admits_remote(f.stream_id) && self.accepted_stream(f.stream_id).body_result(f)
                is Ok {
                SessionView {
                    streams: self.streams.push(self.accepted_stream(f.stream_id).after_body(f)),
                    accept_queue: self.accept_queue.push(f.stream_id),
                    ..self
                }
            } else {
                SessionView { control_queue: self.control_queue.push(rst), ..self }
            }
        } else {
            self
        }
    }

    /// The frame that is written next, if any: the oldest frame of the
    /// control queue; else the waiting frame of the first stream that has one
    /// of high priority; else that of the first stream that has one at all.
    pub open spec fn next_frame(self) -> Option<FrameView> {
        if self.control_queue.len() > 0 {
            Some(self.control_queue[0])
        } else if has_waiting(self.streams, Priority::High) {
            self.streams[first_waiting(self.streams, Priority::High)].pending_frame
        } else if has_waiting(self.streams, Priority::Normal) {
            self.streams[first_waiting(self.streams, Priority::Normal)].pending_frame
        } else {
            None
        }
    }

    /// What handing out the next frame gives rise to: the end of the stream
    /// whose last frame, its FIN, thereby goes out after the peer's.
    pub open spec fn poll_event(self) -> Option<SessionEvent> {
        if self.control_queue.len() > 0 {
            None
        } else if has_waiting(self.streams, Priority::High) {
            flush_event(self.streams[first_waiting(self.streams, Priority::High)])
        } else if has_waiting(self.streams, Priority::Normal) {
            flush_event(self.streams[first_waiting(self.streams, Priority::Normal)])
        } else {
            None
        }
    }

    /// The session after the next frame was handed out for writing.
    pub open spec fn after_poll(self) -> SessionView {
        if self.control_queue.len() > 0 {
            SessionView { control_queue: self.control_queue.drop_first(), ..self }
        } else if has_waiting(self.streams, Priority::High) {
            let i = first_waiting(self.streams, Priority::High);
            (SessionView {
                streams: self.streams.update(i, self.streams[i].after_flush()),
                ..self
            }).settled()
        } else if has_waiting(self.streams, Priority::Normal) {
            let i = first_waiting(self.streams, Priority::Normal);
            (SessionView {
                streams: self.streams.update(i, self.streams[i].after_flush()),
                ..self
            }).settled()
        } else {
            self
        }
    }

    /// How many of `len` offered bytes reach the stream in one write: no
    /// more than a frame may carry.
    pub open spec fn offer_len(self, len: nat) -> nat {
        if len <= self.config.max_frame_size {
            len
        } else {
            self.config.max_frame_size as nat
        }
    }

    /// What a write of `len` bytes on the stream `id` returns.
    pub open spec fn write_result(self, id: u32, len: nat) -> Result<usize, Error> {
        if !has_id(self.streams, id) {
            Err(Error::UnknownStream)
        } else {
            self.streams[index_of(self.streams, id)].write_result(self.offer_len(len))
        }
    }

    /// The session after a write of `data` on the stream `id`.
    pub open spec fn after_write(self, id: u32, data: Seq<u8>, priority: Priority) -> SessionView {
        if !has_id(self.streams, id) {
            self
        } else {
            let i = index_of(self.streams, id);
            SessionView {
                streams: self.streams.update(
                    i,
                    self.streams[i].after_write(
                        data.subrange(0, self.offer_len(data.len()) as int),
                        priority,
                    ),
                ),
                ..self
            }
        }
    }

    /// What a read of at most `max` bytes from the stream `id` returns.
    pub open spec fn read_result(self, id: u32, max: nat) -> Result<
        crate::framed_stream::ReadOutcomeView,
        Error,
    > {
        if !has_id(self.streams, id) {
            Err(Error::UnknownStream)
        } else {
            self.streams[index_of(self.streams, id)].read_result(max)
        }
    }

    /// The session after a read of at most `max` bytes from the stream `id`.
    pub open spec fn after_read(self, id: u32, max: nat) -> SessionView {
        if !has_id(self.streams, id) {
            self
        } else {
            let i = index_of(self.streams, id);
            SessionView { streams: self.streams.update(i, self.streams[i].after_read(max)), ..self }
        }
    }

    /// What the owner's close of the stream `id` returns.
    pub open spec fn close_stream_result(self, id: u32) -> Result<(), Error> {
        if !has_id(self.streams, id) {
            Err(Error::UnknownStream)
        } else {
            self.streams[index_of(self.streams, id)].close_result()
        }
    }

    /// The session after the owner's close of the stream `id`.
    pub open spec fn after_close_stream(self, id: u32) -> SessionView {
        if !has_id(self.streams, id) {
            self
        } else {
            let i = index_of(self.streams, id);
            SessionView { streams: self.streams.update(i, self.streams[i].after_close()), ..self }
        }
    }

    /// What giving up the handle of the stream `id` returns.
    pub open spec fn release_result(self, id: u32) -> Result<(), Error> {
        if !has_id(self.streams, id) {
            Err(Error::UnknownStream)
        } else {
            Ok(())
        }
    }

    /// The session after the owner gave up the handle of the stream `id`:
    /// the stream leaves the table, and if it was still live, a reset is
    /// queued for the peer.
    pub open spec fn after_release(self, id: u32) -> SessionView {
        if !has_id(self.streams, id) {
            self
        } else {
            let i = index_of(self.streams, id);
            (SessionView {
                streams: self.streams.remove(i),
                control_queue: if self.streams[i].live() {
                    self.control_queue.push(
                        spec_flag_frame(id, Flags { syn: false, ack: false, fin: false, rst: true }),
                    )
                } else {
                    self.control_queue
                },
                ..self
            }).settled()
        }
    }

    /// The stream that waits longest to be accepted, if any.
    pub open spec fn accept_result(self) -> Option<StreamHandle> {
        if self.accept_queue.len() > 0 {
            Some(StreamHandle { id: self.accept_queue[0] })
        } else {
            None
        }
    }

    /// The session after the owner accepted a stream.
    pub open spec fn after_accept(self) -> SessionView {
        if self.accept_queue.len() > 0 {
            SessionView { accept_queue: self.accept_queue.drop_first(), ..self }
        } else {
            self
        }
    }

    /// The session after it was torn down at once: every live stream is
    /// reset and the session is closed. Where the peer is to be told, a
    /// reset for each of those streams and a go-away are queued.
    pub open spec fn after_abort(self, notify: bool) -> SessionView {
        if self.state == SessionState::Closed {
            self
        } else {
            SessionView {
                streams: reset_all(self.streams),
                control_queue: if notify {
                    (self.control_queue + reset_frames(self.streams)).push(spec_go_away())
                } else {
                    self.control_queue
                },
                state: SessionState::Closed,
                ..self
            }
        }
    }

    /// The session after a request to shut down.
    ///
    /// With the immediate policy the session is torn down at once. With the
    /// graceful one a go-away is queued, every stream is closed as by its
    /// owner, and the session drains until no stream is live. A session that
    /// is already shutting down stays as it is.
    pub open spec fn after_shutdown(self) -> SessionView {
        if self.state != SessionState::Open {
            self
        } else if self.config.drain == DrainPolicy::Immediate {
            self.after_abort(true)
        } else {
            (SessionView {
                streams: closed_all(self.streams),
                control_queue: self.control_queue.push(spec_go_away()),
                state: SessionState::Draining,
                ..self
            }).settled()
        }
    }

    /// The session after the deadline of a graceful shutdown has passed:
    /// what is still live is reset.
    pub open spec fn after_deadline(self) -> SessionView {
        if self.state == SessionState::Draining {
            self.after_abort(true)
        } else {
            self
        }
    }

    /// The session after bytes were read from the connection and before any
    /// of them is decoded.
    pub open spec fn fed(self, bytes: Seq<u8>) -> SessionView {
        SessionView { codec: self.codec.fed(bytes), ..self }
    }

    /// The session after every whole frame at the front of the buffered
    /// bytes was decoded and taken in, in order. Bytes that are not a valid
    /// frame tear the session down and stop the decoding.
    #[verifier::opaque]
    pub open spec fn drained(self) -> SessionView
        decreases self.codec.buffer.len(),
    {
        match self.codec.front() {
            DecodedView::Frame(f, n) => (SessionView {
                codec: self.codec.advanced(),
                ..self
            }).after_frame(f).drained(),
            DecodedView::NeedMoreData => self,
            DecodedView::ProtocolError => self.after_abort(true),
        }
    }

    /// What the frames at the front of the buffered bytes give rise to, in
    /// order.
    #[verifier::opaque]
    pub open spec fn drained_events(self) -> Seq<SessionEvent>
        decreases self.codec.buffer.len(),
    {
        match self.codec.front() {
            DecodedView::Frame(f, n) => {
                let taken = SessionView { codec: self.codec.advanced(), ..self };
                taken.frame_events(f) + taken.after_frame(f).drained_events()
            },
            _ => Seq::empty(),
        }
    }

    /// Whether the buffered bytes are valid frames as far as they are whole.
    #[verifier::opaque]
    pub open spec fn drained_result(self) -> Result<(), Error>
        decreases self.codec.buffer.len(),
    {
        match self.codec.front() {
            DecodedView::Frame(f, n) => (SessionView {
                codec: self.codec.advanced(),
                ..self
            }).after_frame(f).drained_result(),
            DecodedView::NeedMoreData => Ok(()),
            DecodedView::ProtocolError => Err(Error::ProtocolError),
        }
    }

    /// The session after a ping with `nonce` was asked for.
    pub open spec fn after_ping(self, nonce: u32) -> SessionView {
        if self.state == SessionState::Closed {
            self
        } else {
            SessionView {
                control_queue: self.control_queue.push(
                    FrameView {
                        stream_id: 0,
                        ty: FrameType::Ping,
                        flags: Flags { syn: true, ack: false, fin: false, rst: false },
                        length: nonce,
                        payload: Seq::empty(),
                    },
                ),
                ..self
            }
        }
    }

    /// Whether the session holds the stream `id`, and in which state.
    pub open spec fn stream_state(self, id: u32) -> Option<FSState> {
        if has_id(self.streams, id) {
            Some(self.streams[index_of(self.streams, id)].state)
        } else {
            None
        }
    }
}

/// A stream that joins the table counts if it is live.
pub proof fn lemma_live_count_push(streams: Seq<StreamView>, s: StreamView)
    ensures
        live_count(streams.push(s)) == live_count(streams) + if s.live() {
            1nat
        } else {
            0nat
        },
{
    assert(streams.push(s).drop_last() =~= streams);
}

/// Replacing one stream changes the count by that stream alone.
pub proof fn lemma_live_count_update(streams: Seq<StreamView>, i: int, s: StreamView)
    requires
        0 <= i < streams.len(),
    ensures
        live_count(streams.update(i, s)) + (if streams[i].live() {
            1nat
        } else {
            0nat
        }) == live_count(streams) + if s.live() {
            1nat
        } else {
            0nat
        },
    decreases streams.len(),
{
    let last = streams.len() - 1;
    if i == last {
        assert(streams.update(i, s).drop_last() =~= streams.drop_last());
    } else {
        lemma_live_count_update(streams.drop_last(), i, s);
        assert(streams.update(i, s).drop_last() =~= streams.drop_last().update(i, s));
    }
}

/// Taking one stream out of the table changes the count by that stream alone.
pub proof fn lemma_live_count_remove(streams: Seq<StreamView>, i: int)
    requires
        0 <= i < streams.len(),
    ensures
        live_count(streams.remove(i)) + (if streams[i].live() {
            1nat
        } else {
            0nat
        }) == live_count(streams),
    decreases streams.len(),
{
    let last = streams.len() - 1;
    if i == last {
        assert(streams.remove(i) =~= streams.drop_last());
    } else {
        lemma_live_count_remove(streams.drop_last(), i);
        assert(streams.remove(i).drop_last() =~= streams.drop_last().remove(i));
        assert(streams.remove(i).last() == streams.last());
    }
}

/// No stream is live exactly when the count is zero.
pub proof fn lemma_live_count_zero(streams: Seq<StreamView>)
    ensures
        live_count(streams) == 0 <==> forall|i: int|
            0 <= i < streams.len() ==> !(#[trigger] streams[i]).live(),
    decreases streams.len(),
{
    if streams.len() > 0 {
        lemma_live_count_zero(streams.drop_last());
        if live_count(streams) == 0 {
            assert forall|i: int| 0 <= i < streams.len() implies !(#[trigger] streams[i]).live() by {
                if i < streams.len() - 1 {
                    assert(streams.drop_last()[i] == streams[i]);
                }
            }
        } else {
            if forall|i: int| 0 <= i < streams.len() ==> !(#[trigger] streams[i]).live() {
                assert forall|i: int| 0 <= i < streams.drop_last().len() implies !(
                #[trigger] streams.drop_last()[i]).live() by {
                    assert(streams.drop_last()[i] == streams[i]);
                }
                assert(!streams.last().live());
            }
        }
    }
}

/// With ids that are all different, the stream with a given id has one place.
pub proof fn lemma_index_of_unique(streams: Seq<StreamView>, id: u32, i: int)
    requires
        forall|a: int, b: int|
            0 <= a < b < streams.len() ==> (#[trigger] streams[a]).id != (#[trigger] streams[b]).id,
        0 <= i < streams.len(),
        streams[i].id == id,
    ensures
        has_id(streams, id),
        index_of(streams, id) == i,
{
    let k = index_of(streams, id);
    if k < i {
        assert(streams[k].id != streams[i].id);
    } else if i < k {
        assert(streams[i].id != streams[k].id);
    }
}

/// With ids that are all different, the oldest live stream has one place.
pub proof fn lemma_oldest_live_unique(s: SessionView, i: int)
    requires
        s.wf(),
        is_oldest_live(s.streams, i),
    ensures
        s.has_live(),
        s.oldest_live() == i,
{
    let k = s.oldest_live();
    assert(is_oldest_live(s.streams, k));
    if k < i {
        assert(s.streams[k].id != s.streams[i].id);
    } else if i < k {
        assert(s.streams[i].id != s.streams[k].id);
    }
}

/// The multiplexer of one connection.
#[derive(Clone, Debug)]
pub struct Session {
    config: Config,
    client: bool,
    next_stream_id: u32,
    streams: Vec<FramedStream>,
    control_queue: Vec<Frame>,
    accept_queue: Vec<u32>,
    codec: FrameCodec,
    state: SessionState,
    remote_go_away: bool,
}

impl View for Session {
    type V = SessionView;

    closed spec fn view(&self) -> SessionView {
        SessionView {
            config: self.config,
            client: self.client,
            next_stream_id: self.next_stream_id,
            streams: stream_views(self.streams@),
            control_queue: frame_views(self.control_queue@),
            accept_queue: self.accept_queue@,
            codec: self.codec@,
            state: self.state,
            remote_go_away: self.remote_go_away,
        }
    }
}

impl Session {
    /// A new session with the given limits. `client` says whether this side
    /// opened the connection.
    pub fn new(config: Config, client: bool) -> (s: Session)
        ensures
            s@ == SessionView::fresh(config, client),
            s@.wf(),
    {
        let s = Session {
            config,
            client,
            next_stream_id: if client {
                1
            } else {
                2
            },
            streams: Vec::new(),
            control_queue: Vec::new(),
            accept_queue: Vec::new(),
            codec: FrameCodec::default().max_frame_size(config.max_frame_size),
            state: SessionState::Open,
            remote_go_away: false,
        };
        assert(s@.streams =~= Seq::empty());
        assert(s@.control_queue =~= Seq::empty());
        s
    }

    /// The place of the stream with the id `id`, if the session holds it.
    fn find(&self, id: u32) -> (r: Option<usize>)
        requires
            self@.wf(),
        ensures
            r is Some <==> has_id(self@.streams, id),
            r matches Some(i) ==> i < self.streams.len() && index_of(self@.streams, id) == i
                && self@.streams[i as int].id == id,
    {
        let mut i: usize = 0;
        while i < self.streams.len()
            invariant
                i <= self.streams.len(),
                self@.wf(),
                forall|k: int| 0 <= k < i ==> (#[trigger] self@.streams[k]).id != id,
            decreases self.streams.len() - i,
        {
            if self.streams[i].id == id {
                proof {
                    lemma_index_of_unique(self@.streams, id, i as int);
                }
                return Some(i);
            }
            i += 1;
        }
        None
    }

    /// The place of the live stream with the smallest id, if any is live.
    fn find_oldest_live(&self) -> (r: Option<usize>)
        requires
            self@.wf(),
        ensures
            r is Some <==> self@.has_live(),
            r matches Some(i) ==> i < self.streams.len() && self@.oldest_live() == i
                && is_oldest_live(self@.streams, i as int),
    {
        let mut best: Option<usize> = None;
        let mut i: usize = 0;
        while i < self.streams.len()
            invariant
                i <= self.streams.len(),
                self@.wf(),
                match best {
                    Some(b) => b < i && self@.streams[b as int].live() && forall|k: int|
                        0 <= k < i && (#[trigger] self@.streams[k]).live() ==> self@.streams[b as int].id
                            <= self@.streams[k].id,
                    None => forall|k: int| 0 <= k < i ==> !(#[trigger] self@.streams[k]).live(),
                },
            decreases self.streams.len() - i,
        {
            if self.streams[i].is_live() {
                let better = match best {
                    Some(b) => self.streams[i].id < self.streams[b].id,
                    None => true,
                };
                if better {
                    best = Some(i);
                }
            }
            i += 1;
        }
        proof {
            match best {
                Some(b) => {
                    assert(is_oldest_live(self@.streams, b as int));
                    lemma_oldest_live_unique(self@, b as int);
                },
                None => {
                    assert forall|k: int| !is_oldest_live(self@.streams, k) by {
                        if 0 <= k < self@.streams.len() {
                            assert(!self@.streams[k].live());
                        }
                    }
                },
            }
        }
        best
    }

    /// How many streams are live.
    pub fn streams_num(&self) -> (n: usize)
        requires
            self@.wf(),
        ensures
            n == self@.streams_num(),
    {
        let mut n: usize = 0;
        let mut i: usize = 0;
        while i < self.streams.len()
            invariant
                i <= self.streams.len(),
                n <= i,
                n == live_count(self@.streams.take(i as int)),
            decreases self.streams.len() - i,
        {
            proof {
                assert(self@.streams.take(i + 1).drop_last() =~= self@.streams.take(i as int));
            }
            if self.streams[i].is_live() {
                n += 1;
            }
            i += 1;
        }
        proof {
            assert(self@.streams.take(i as int) =~= self@.streams);
        }
        n
    }

    /// Adds a stream under the next local id, with a SYN waiting to be
    /// written where `handshake` is set.
    fn add_local(&mut self, handshake: bool) -> (r: Result<StreamHandle, Error>)
        requires
            old(self)@.wf(),
        ensures
            r == old(self)@.open_result(),
            final(self)@ == old(self)@.after_local_stream(
                if handshake {
                    Some(
                        spec_flag_frame(
                            old(self)@.next_stream_id,
                            Flags { syn: true, ack: false, fin: false, rst: false },
                        ),
                    )
                } else {
                    None
                },
            ),
            final(self)@.wf(),
    {
        match self.state {
            SessionState::Open => {},
            _ => {
                return Err(Error::SessionShutdown);
            },
        }
        if self.streams_num() >= self.config.max_streams || self.next_stream_id > u32::MAX - 2 {
            return Err(Error::StreamsExhausted);
        }
        let id: u32 = self.next_stream_id;
        let stream = if handshake {
            FramedStream::with_handshake(id, self.config.initial_window_size, true)
        } else {
            FramedStream::new(id, self.config.initial_window_size)
        };
        proof {
            lemma_live_count_push(self@.streams, stream@);
        }
        self.streams.push(stream);
        self.next_stream_id = id + 2;
        proof {
            assert(self@.streams =~= old(self)@.streams.push(stream@));
            assert(self@.control_queue =~= old(self)@.control_queue);
            assert forall|i: int, j: int| 0 <= i < j < self@.streams.len() implies (
            #[trigger] self@.streams[i]).id != (#[trigger] self@.streams[j]).id by {
                if j == self@.streams.len() - 1 {
                    assert(old(self)@.streams[i].id != 0);
                    if is_local_id(self.client, old(self)@.streams[i].id) {
                        assert(old(self)@.streams[i].id < id);
                    }
                } else {
                    assert(old(self)@.streams[i].id != old(self)@.streams[j].id);
                }
            }
        }
        Ok(StreamHandle { id })
    }

    /// Opens a stream to the peer.
    ///
    /// The caller gets a handle at once; the stream's SYN is queued, and what
    /// the owner writes before it has gone out waits behind it. Fails with
    /// `SessionShutdown` once the session is shutting down, and with
    /// `StreamsExhausted` while `max_streams` streams are live or no id is
    /// left.
    pub fn open_stream(&mut self) -> (r: Result<StreamHandle, Error>)
        requires
            old(self)@.wf(),
        ensures
            r == old(self)@.open_result(),
            final(self)@ == old(self)@.after_open(),
            final(self)@.wf(),
    {
        self.add_local(true)
    }

    /// Adds a stream whose connection is already set up: it joins the table
    /// under the next local id, without a handshake. Fails as `open_stream`
    /// does.
    pub fn add_stream(&mut self) -> (r: Result<StreamHandle, Error>)
        requires
            old(self)@.wf(),
        ensures
            r == old(self)@.open_result(),
            final(self)@ == old(self)@.after_add(),
            final(self)@.wf(),
    {
        self.add_local(false)
    }

    /// Closes the oldest stream: the live stream with the smallest id is
    /// closed at once, and a frame with FIN and RST is queued for the peer.
    /// Returns the stream that was closed, whose owner is to be told. Does
    /// nothing where no stream is live. Fails with `SessionShutdown` once
    /// the session is shutting down.
    pub fn close_oldest_stream(&mut self) -> (r: Result<Option<StreamHandle>, Error>)
        requires
            old(self)@.wf(),
        ensures
            r == old(self)@.close_oldest_result(),
            final(self)@ == old(self)@.after_close_oldest(),
            final(self)@.wf(),
    {
        match self.state {
            SessionState::Open => {},
            _ => {
                return Err(Error::SessionShutdown);
            },
        }
        match self.find_oldest_live() {
            None => Ok(None),
            Some(i) => {
                let id: u32 = self.streams[i].id;
                proof {
                    lemma_live_count_update(
                        self@.streams,
                        i as int,
                        self@.streams[i as int].after_reset(),
                    );
                }
                self.streams[i].reset();
                self.control_queue.push(
                    flag_frame(id, Flags { syn: false, ack: false, fin: true, rst: true }),
                );
                proof {
                    let gone = old(self)@.streams[i as int];
                    assert(self@.streams =~= old(self)@.streams.update(i as int, gone.after_reset()));
                    assert(self@.control_queue =~= old(self)@.control_queue.push(
                        spec_flag_frame(id, Flags { syn: false, ack: false, fin: true, rst: true }),
                    ));
                    assert forall|a: int, b: int| 0 <= a < b < self@.streams.len() implies (
                    #[trigger] self@.streams[a]).id != (#[trigger] self@.streams[b]).id by {
                        assert(old(self)@.streams[a].id != old(self)@.streams[b].id);
                    }
                    assert forall|a: int| 0 <= a < self@.streams.len() implies (
                    #[trigger] self@.streams[a]).wf() && self@.streams[a].id != 0 && (is_local_id(
                        self.client,
                        self@.streams[a].id,
                    ) ==> self@.streams[a].id < self.next_stream_id) by {
                        assert(old(self)@.streams[a].wf());
                    }
                }
                Ok(Some(StreamHandle { id }))
            },
        }
    }
}

/// The first stream with a frame waiting has one place.
pub proof fn lemma_first_waiting_unique(streams: Seq<StreamView>, priority: Priority, i: int)
    requires
        is_first_waiting(streams, priority, i),
    ensures
        has_waiting(streams, priority),
        first_waiting(streams, priority) == i,
{
    let k = first_waiting(streams, priority);
    assert(is_first_waiting(streams, priority, k));
    if k < i {
        assert(!wants(streams[k], priority));
    } else if i < k {
        assert(!wants(streams[i], priority));
    }
}

/// Replacing a stream by a well-formed one of the same id that is live only
/// if the old one was keeps the session well formed, and makes no more
/// streams live.
pub proof fn lemma_update_keeps_wf(s: SessionView, i: int, new: StreamView)
    requires
        s.wf(),
        0 <= i < s.streams.len(),
        new.wf(),
        new.id == s.streams[i].id,
        new.live() ==> s.streams[i].live(),
    ensures
        (SessionView { streams: s.streams.update(i, new), ..s }).wf(),
        live_count(s.streams.update(i, new)) <= live_count(s.streams),
{
    let t = SessionView { streams: s.streams.update(i, new), ..s };
    lemma_live_count_update(s.streams, i, new);
    assert forall|a: int, b: int| 0 <= a < b < t.streams.len() implies (#[trigger] t.streams[a]).id
        != (#[trigger] t.streams[b]).id by {
        assert(s.streams[a].id != s.streams[b].id);
    }
    assert forall|a: int| 0 <= a < t.streams.len() implies (#[trigger] t.streams[a]).wf()
        && t.streams[a].id != 0 && (is_local_id(t.client, t.streams[a].id) ==> t.streams[a].id
        < t.next_stream_id) by {
        assert(s.streams[a].wf());
    }
}

/// Adds the event `e` to `events` if `cond` holds.
fn push_if(events: &mut Vec<SessionEvent>, cond: bool, e: SessionEvent)
    ensures
        final(events)@ == old(events)@ + opt_event(cond, e),
{
    if cond {
        events.push(e);
        assert(events@ =~= old(events)@ + opt_event(cond, e));
    } else {
        assert(events@ =~= old(events)@ + opt_event(cond, e));
    }
}

/// What a frame gave rise to on the live stream `id`, from what the stream
/// was before the frame and what became of it.
fn events_of_frame(
    id: u32,
    frame: &Frame,
    was_acked: bool,
    was_open: bool,
    taken: bool,
    now_closed: bool,
) -> (events: Vec<SessionEvent>)
    ensures
        events@ == if frame.flags.rst {
            seq![SessionEvent::Reset(id)]
        } else if !taken {
            seq![SessionEvent::Violation(id)]
        } else {
            opt_event(frame.flags.ack && !was_acked, SessionEvent::Acknowledged(id)) + opt_event(
                frame.ty == FrameType::Data && was_open && frame.payload@.len() > 0,
                SessionEvent::Received(id, frame.payload@.len() as usize),
            ) + opt_event(
                frame.ty != FrameType::Data && frame.length > 0,
                SessionEvent::WindowGranted(id),
            ) + opt_event(frame.flags.fin && was_open, SessionEvent::RemoteClosed(id)) + opt_event(
                now_closed,
                SessionEvent::Finished(id),
            )
        },
{
    let mut events: Vec<SessionEvent> = Vec::new();
    if frame.flags.rst {
        events.push(SessionEvent::Reset(id));
        assert(events@ =~= seq![SessionEvent::Reset(id)]);
        return events;
    }
    if !taken {
        events.push(SessionEvent::Violation(id));
        assert(events@ =~= seq![SessionEvent::Violation(id)]);
        return events;
    }
    let is_data = match frame.ty {
        FrameType::Data => true,
        _ => false,
    };
    push_if(&mut events, frame.flags.ack && !was_acked, SessionEvent::Acknowledged(id));
    assert(events@ =~= opt_event(frame.flags.ack && !was_acked, SessionEvent::Acknowledged(id)));
    push_if(
        &mut events,
        is_data && was_open && frame.payload.len() > 0,
        SessionEvent::Received(id, frame.payload.len()),
    );
    push_if(&mut events, !is_data && frame.length > 0, SessionEvent::WindowGranted(id));
    push_if(&mut events, frame.flags.fin && was_open, SessionEvent::RemoteClosed(id));
    push_if(&mut events, now_closed, SessionEvent::Finished(id));
    events
}

impl Session {
    /// Closes a draining session once no stream is live.
    fn settle(&mut self)
        requires
            old(self)@.wf(),
        ensures
            final(self)@ == old(self)@.settled(),
            final(self)@.wf(),
    {
        match self.state {
            SessionState::Draining => {
                if self.streams_num() == 0 {
                    self.state = SessionState::Closed;
                }
            },
            _ => {},
        }
    }

    /// Queues a frame that concerns the connection or tears a stream down.
    fn queue_control(&mut self, frame: Frame)
        requires
            old(self)@.wf(),
            frame@.wf(),
        ensures
            final(self)@ == (SessionView {
                control_queue: old(self)@.control_queue.push(frame@),
                ..old(self)@
            }),
            final(self)@.wf(),
    {
        self.control_queue.push(frame);
        proof {
            assert(self@.control_queue =~= old(self)@.control_queue.push(frame@));
            assert(self@.streams =~= old(self)@.streams);
        }
    }

    /// Takes in a frame from the peer and says what it gave rise to, in
    /// order.
    pub fn handle_frame(&mut self, frame: &Frame) -> (events: Vec<SessionEvent>)
        requires
            old(self)@.wf(),
        ensures
            events@ == old(self)@.frame_events(frame@),
            final(self)@ == old(self)@.after_frame(frame@),
            final(self)@.wf(),
    {
        let mut events: Vec<SessionEvent> = Vec::new();
        match self.state {
            SessionState::Closed => {
                return events;
            },
            _ => {},
        }
        match frame.ty {
            FrameType::Ping => {
                if frame.flags.syn {
                    self.queue_control(Frame::new_ping(true, frame.length));
                    events.push(SessionEvent::Ping(frame.length));
                } else {
                    events.push(SessionEvent::Pong(frame.length));
                }
                proof {
                    assert(events@ =~= old(self)@.frame_events(frame@));
                }
                events
            },
            FrameType::GoAway => {
                self.remote_go_away = true;
                events.push(SessionEvent::GoAway(frame.length));
                proof {
                    assert(events@ =~= old(self)@.frame_events(frame@));
                }
                events
            },
            _ => {
                let id: u32 = frame.stream_id;
                match self.find(id) {
                    Some(i) => {
                        if !self.streams[i].is_live() {
                            return events;
                        }
                        proof {
                            lemma_update_keeps_wf(
                                self@,
                                i as int,
                                self@.streams[i as int].after_frame(frame@),
                            );
                        }
                        let was_acked = self.streams[i].acked;
                        let was_open = self.streams[i].state.remote_open();
                        let taken = self.streams[i].on_frame(frame);
                        proof {
                            assert(self@.streams =~= old(self)@.streams.update(
                                i as int,
                                old(self)@.streams[i as int].after_frame(frame@),
                            ));
                            assert(self@.control_queue =~= old(self)@.control_queue);
                        }
                        let now_closed = self.streams[i].state.is_closed();
                        if taken.is_err() {
                            self.queue_control(flag_frame(id, Flags::rst()));
                        }
                        self.settle();
                        events_of_frame(id, frame, was_acked, was_open, taken.is_ok(), now_closed)
                    },
                    None => {
                        if frame.flags.syn && !frame.flags.rst {
                            self.accept_syn(frame)
                        } else {
                            events
                        }
                    },
                }
            },
        }
    }

    /// Decides on a SYN for a stream that the session does not hold.
    fn accept_syn(&mut self, frame: &Frame) -> (events: Vec<SessionEvent>)
        requires
            old(self)@.wf(),
            old(self)@.state != SessionState::Closed,
            frame.ty != FrameType::Ping,
            frame.ty != FrameType::GoAway,
            !has_id(old(self)@.streams, frame.stream_id),
            frame.flags.syn,
            !frame.flags.rst,
        ensures
            events@ == old(self)@.frame_events(frame@),
            final(self)@ == old(self)@.after_frame(frame@),
            final(self)@.wf(),
    {
        let id: u32 = frame.stream_id;
        let open = match self.state {
            SessionState::Open => true,
            _ => false,
        };
        let parity_local = (id % 2 == 1) == self.client;
        if open && id != 0 && !parity_local && self.streams_num() < self.config.max_streams
            && self.accept_queue.len() < self.config.accept_backlog {
            let mut stream = FramedStream::with_handshake(id, self.config.initial_window_size, false);
            let taken = stream.on_frame(frame);
            if taken.is_ok() {
                let now_closed = stream.state.is_closed();
                proof {
                    lemma_live_count_push(self@.streams, stream@);
                }
                self.streams.push(stream);
                self.accept_queue.push(id);
                proof {
                    assert(self@.streams =~= old(self)@.streams.push(stream@));
                    assert(self@.control_queue =~= old(self)@.control_queue);
                    assert forall|a: int, b: int| 0 <= a < b < self@.streams.len() implies (
                    #[trigger] self@.streams[a]).id != (#[trigger] self@.streams[b]).id by {
                        if b == self@.streams.len() - 1 {
                            assert(old(self)@.streams[a].id != id);
                        } else {
                            assert(old(self)@.streams[a].id != old(self)@.streams[b].id);
                        }
                    }
                }
                let mut events: Vec<SessionEvent> = Vec::new();
                events.push(SessionEvent::Opened(id));
                let mut rest = events_of_frame(id, frame, true, true, true, now_closed);
                events.append(&mut rest);
                proof {
                    assert(events@ =~= old(self)@.frame_events(frame@));
                }
                return events;
            }
        }
        self.queue_control(flag_frame(id, Flags::rst()));
        let mut events: Vec<SessionEvent> = Vec::new();
        events.push(SessionEvent::Refused(id));
        proof {
            assert(events@ =~= old(self)@.frame_events(frame@));
        }
        events
    }

    /// The place of the first stream with a frame of the given priority
    /// waiting, if there is one.
    fn find_waiting(&self, priority: Priority) -> (r: Option<usize>)
        requires
            self@.wf(),
        ensures
            r is Some <==> has_waiting(self@.streams, priority),
            r matches Some(i) ==> i < self.streams.len() && first_waiting(self@.streams, priority)
                == i && is_first_waiting(self@.streams, priority, i as int),
    {
        let mut i: usize = 0;
        while i < self.streams.len()
            invariant
                i <= self.streams.len(),
                forall|k: int| 0 <= k < i ==> !wants(#[trigger] self@.streams[k], priority),
            decreases self.streams.len() - i,
        {
            let same = match (self.streams[i].pending_priority, priority) {
                (Priority::High, Priority::High) => true,
                (Priority::Normal, Priority::Normal) => true,
                _ => false,
            };
            if self.streams[i].pending_frame.is_some() && same {
                proof {
                    lemma_first_waiting_unique(self@.streams, priority, i as int);
                }
                return Some(i);
            }
            i += 1;
        }
        proof {
            assert forall|k: int| !is_first_waiting(self@.streams, priority, k) by {
                if 0 <= k < self@.streams.len() {
                    assert(!wants(self@.streams[k], priority));
                }
            }
        }
        None
    }

    /// Hands out the waiting frame of the stream at `i`.
    fn flush_stream(&mut self, i: usize) -> (p: Polled)
        requires
            old(self)@.wf(),
            i < old(self)@.streams.len(),
        ensures
            crate::framed_stream::spec_frame_option(p.frame) == old(
                self,
            )@.streams[i as int].pending_frame,
            p.event == flush_event(old(self)@.streams[i as int]),
            final(self)@ == (SessionView {
                streams: old(self)@.streams.update(
                    i as int,
                    old(self)@.streams[i as int].after_flush(),
                ),
                ..old(self)@
            }).settled(),
            final(self)@.wf(),
    {
        proof {
            lemma_update_keeps_wf(self@, i as int, self@.streams[i as int].after_flush());
        }
        let was_live = self.streams[i].is_live();
        let id: u32 = self.streams[i].id;
        let frame = self.streams[i].take_pending();
        proof {
            assert(self@.streams =~= old(self)@.streams.update(
                i as int,
                old(self)@.streams[i as int].after_flush(),
            ));
            assert(self@.control_queue =~= old(self)@.control_queue);
        }
        let event = if was_live && self.streams[i].state.is_closed() {
            Some(SessionEvent::Finished(id))
        } else {
            None
        };
        self.settle();
        Polled { frame, event }
    }

    /// Hands out the next frame to write to the connection, if any.
    ///
    /// Frames of the control queue go first, oldest first. Then comes the
    /// waiting frame of the first stream that has one of high priority, then
    /// that of the first stream that has one of normal priority. Where the
    /// frame is the FIN that ends its stream, that end is reported with it.
    pub fn poll_frame(&mut self) -> (p: Polled)
        requires
            old(self)@.wf(),
        ensures
            crate::framed_stream::spec_frame_option(p.frame) == old(self)@.next_frame(),
            p.event == old(self)@.poll_event(),
            final(self)@ == old(self)@.after_poll(),
            final(self)@.wf(),
    {
        if self.control_queue.len() > 0 {
            let frame = self.control_queue.remove(0);
            proof {
                assert(self@.control_queue =~= old(self)@.control_queue.drop_first());
                assert(self@.streams =~= old(self)@.streams);
                assert(frame@ == old(self)@.control_queue[0]);
            }
            return Polled { frame: Some(frame), event: None };
        }
        match self.find_waiting(Priority::High) {
            Some(i) => self.flush_stream(i),
            None => match self.find_waiting(Priority::Normal) {
                Some(i) => self.flush_stream(i),
                None => Polled { frame: None, event: None },
            },
        }
    }
}

/// After a teardown no stream is live.
pub proof fn lemma_reset_all_none_live(streams: Seq<StreamView>)
    ensures
        live_count(reset_all(streams)) == 0,
{
    lemma_live_count_zero(reset_all(streams));
}

/// Closing every stream as by its owner leaves as many live as before.
pub proof fn lemma_closed_all_same_live(streams: Seq<StreamView>)
    requires
        forall|i: int| 0 <= i < streams.len() ==> (#[trigger] streams[i]).wf(),
    ensures
        live_count(closed_all(streams)) == live_count(streams),
    decreases streams.len(),
{
    if streams.len() > 0 {
        let front = streams.drop_last();
        assert forall|i: int| 0 <= i < front.len() implies (#[trigger] front[i]).wf() by {
            assert(streams[i].wf());
        }
        lemma_closed_all_same_live(front);
        assert(closed_all(streams).drop_last() =~= closed_all(front));
        assert(streams.last().wf());
    }
}

/// Every reset that tells of a teardown is a well-formed frame.
pub proof fn lemma_reset_frames_wf(streams: Seq<StreamView>)
    ensures
        forall|i: int|
            0 <= i < reset_frames(streams).len() ==> (#[trigger] reset_frames(streams)[i]).wf(),
    decreases streams.len(),
{
    if streams.len() > 0 {
        let front = reset_frames(streams.drop_last());
        lemma_reset_frames_wf(streams.drop_last());
        assert forall|i: int| 0 <= i < reset_frames(streams).len() implies (
        #[trigger] reset_frames(streams)[i]).wf() by {
            if i < front.len() {
                assert(front[i].wf());
                assert(reset_frames(streams)[i] == front[i]);
            }
        }
    }
}

impl Session {
    /// Takes bytes from the owner of the stream behind `handle` for sending.
    ///
    /// Returns how many bytes were taken: no more than one frame may carry
    /// and the stream's send window allows, and none while the stream still
    /// has a frame waiting to be written. The owner offers the rest again
    /// once the session has moved on.
    pub fn write(&mut self, handle: StreamHandle, data: &[u8], priority: Priority) -> (r: Result<
        usize,
        Error,
    >)
        requires
            old(self)@.wf(),
        ensures
            r == old(self)@.write_result(handle.id, data@.len()),
            final(self)@ == old(self)@.after_write(handle.id, data@, priority),
            final(self)@.wf(),
    {
        match self.find(handle.id) {
            None => Err(Error::UnknownStream),
            Some(i) => {
                let mut n: usize = data.len();
                if n > self.config.max_frame_size as usize {
                    n = self.config.max_frame_size as usize;
                }
                let offer = vstd::slice::slice_subrange(data, 0, n);
                proof {
                    lemma_update_keeps_wf(
                        self@,
                        i as int,
                        self@.streams[i as int].after_write(offer@, priority),
                    );
                }
                let r = self.streams[i].write(offer, priority);
                proof {
                    assert(self@.streams =~= old(self)@.streams.update(
                        i as int,
                        old(self)@.streams[i as int].after_write(offer@, priority),
                    ));
                    assert(self@.control_queue =~= old(self)@.control_queue);
                }
                r
            },
        }
    }

    /// Hands the owner of the stream behind `handle` up to `max` of its
    /// oldest unread bytes.
    pub fn read(&mut self, handle: StreamHandle, max: usize) -> (r: Result<
        crate::framed_stream::ReadOutcome,
        Error,
    >)
        requires
            old(self)@.wf(),
        ensures
            match old(self)@.read_result(handle.id, max as nat) {
                Ok(o) => r matches Ok(got) && got@ == o,
                Err(e) => r == Err::<crate::framed_stream::ReadOutcome, Error>(e),
            },
            final(self)@ == old(self)@.after_read(handle.id, max as nat),
            final(self)@.wf(),
    {
        match self.find(handle.id) {
            None => Err(Error::UnknownStream),
            Some(i) => {
                proof {
                    lemma_update_keeps_wf(
                        self@,
                        i as int,
                        self@.streams[i as int].after_read(max as nat),
                    );
                }
                let r = self.streams[i].read(max);
                proof {
                    assert(self@.streams =~= old(self)@.streams.update(
                        i as int,
                        old(self)@.streams[i as int].after_read(max as nat),
                    ));
                    assert(self@.control_queue =~= old(self)@.control_queue);
                }
                r
            },
        }
    }

    /// Closes the local direction of the stream behind `handle`.
    pub fn close_stream(&mut self, handle: StreamHandle) -> (r: Result<(), Error>)
        requires
            old(self)@.wf(),
        ensures
            r == old(self)@.close_stream_result(handle.id),
            final(self)@ == old(self)@.after_close_stream(handle.id),
            final(self)@.wf(),
    {
        match self.find(handle.id) {
            None => Err(Error::UnknownStream),
            Some(i) => {
                proof {
                    lemma_update_keeps_wf(self@, i as int, self@.streams[i as int].after_close());
                }
                let r = self.streams[i].close();
                proof {
                    assert(self@.streams =~= old(self)@.streams.update(
                        i as int,
                        old(self)@.streams[i as int].after_close(),
                    ));
                    assert(self@.control_queue =~= old(self)@.control_queue);
                }
                r
            },
        }
    }

    /// Gives up the handle of a stream: the stream leaves the table. A
    /// stream that is still live is thereby reset, and the peer is told.
    pub fn release(&mut self, handle: StreamHandle) -> (r: Result<(), Error>)
        requires
            old(self)@.wf(),
        ensures
            r == old(self)@.release_result(handle.id),
            final(self)@ == old(self)@.after_release(handle.id),
            final(self)@.wf(),
    {
        match self.find(handle.id) {
            None => Err(Error::UnknownStream),
            Some(i) => {
                proof {
                    lemma_live_count_remove(self@.streams, i as int);
                }
                let gone = self.streams.remove(i);
                proof {
                    assert(self@.streams =~= old(self)@.streams.remove(i as int));
                    assert(self@.control_queue =~= old(self)@.control_queue);
                    assert forall|a: int, b: int| 0 <= a < b < self@.streams.len() implies (
                    #[trigger] self@.streams[a]).id != (#[trigger] self@.streams[b]).id by {
                        let a0 = if a < i { a } else { a + 1 };
                        let b0 = if b < i { b } else { b + 1 };
                        assert(old(self)@.streams[a0].id != old(self)@.streams[b0].id);
                    }
                    assert forall|a: int| 0 <= a < self@.streams.len() implies (
                    #[trigger] self@.streams[a]).wf() && self@.streams[a].id != 0 && (is_local_id(
                        self.client,
                        self@.streams[a].id,
                    ) ==> self@.streams[a].id < self.next_stream_id) by {
                        let a0 = if a < i { a } else { a + 1 };
                        assert(old(self)@.streams[a0].wf());
                    }
                }
                if gone.is_live() {
                    self.queue_control(flag_frame(handle.id, Flags::rst()));
                }
                self.settle();
                Ok(())
            },
        }
    }

    /// Hands the owner the stream opened by the peer that waits longest to
    /// be accepted, if any.
    pub fn accept(&mut self) -> (r: Option<StreamHandle>)
        requires
            old(self)@.wf(),
        ensures
            r == old(self)@.accept_result(),
            final(self)@ == old(self)@.after_accept(),
            final(self)@.wf(),
    {
        if self.accept_queue.len() == 0 {
            return None;
        }
        let id: u32 = self.accept_queue.remove(0);
        proof {
            assert(self@.accept_queue =~= old(self)@.accept_queue.drop_first());
            assert(self@.streams =~= old(self)@.streams);
            assert(self@.control_queue =~= old(self)@.control_queue);
        }
        Some(StreamHandle { id })
    }

    /// Tears the session down at once: every live stream is reset and the
    /// session is closed. With `notify`, a reset for each of those streams
    /// and a go-away are queued for the peer; without, as when the
    /// connection is lost, nothing is queued.
    pub fn abort(&mut self, notify: bool)
        requires
            old(self)@.wf(),
        ensures
            final(self)@ == old(self)@.after_abort(notify),
            final(self)@.wf(),
            final(self)@.state == SessionState::Closed,
    {
        match self.state {
            SessionState::Closed => {
                return ;
            },
            _ => {},
        }
        let ghost before = self@;
        let mut i: usize = 0;
        while i < self.streams.len()
            invariant
                i <= self.streams.len(),
                self@.streams.len() == before.streams.len(),
                before.wf(),
                before == old(self)@,
                forall|k: int| 0 <= k < i ==> #[trigger] self@.streams[k] == torn_down(before.streams[k]),
                forall|k: int|
                    i <= k < self@.streams.len() ==> #[trigger] self@.streams[k] == before.streams[k],
                self@.control_queue == if notify {
                    before.control_queue + reset_frames(before.streams.take(i as int))
                } else {
                    before.control_queue
                },
                self@ == (SessionView {
                    streams: self@.streams,
                    control_queue: self@.control_queue,
                    ..before
                }),
            decreases self.streams.len() - i,
        {
            proof {
                assert(before.streams.take(i + 1).drop_last() =~= before.streams.take(i as int));
                assert(before.streams[i as int].wf());
            }
            let ghost queue = self@.control_queue;
            let ghost mid = self@.streams;
            proof {
                assert(before.streams.take(i + 1).last() == before.streams[i as int]);
                assert(mid[i as int] == before.streams[i as int]);
            }
            if self.streams[i].is_live() {
                if notify {
                    let rst = flag_frame(self.streams[i].id, Flags::rst());
                    self.control_queue.push(rst);
                    proof {
                        assert(self@.control_queue =~= queue.push(rst@));
                        assert(self@.streams =~= mid);
                    }
                }
                let ghost told = self@.control_queue;
                self.streams[i].reset();
                proof {
                    assert(self@.streams =~= mid.update(i as int, mid[i as int].after_reset()));
                    assert(self@.control_queue =~= told);
                }
            }
            proof {
                if notify {
                    assert(self@.control_queue =~= before.control_queue + reset_frames(
                        before.streams.take(i + 1),
                    ));
                } else {
                    assert(self@.control_queue =~= before.control_queue);
                }
            }
            i += 1;
        }
        if notify {
            self.control_queue.push(Frame::new_go_away(0));
        }
        self.state = SessionState::Closed;
        proof {
            assert(before.streams.take(i as int) =~= before.streams);
            assert(self@.streams =~= reset_all(before.streams));
            lemma_reset_all_none_live(before.streams);
            lemma_reset_frames_wf(before.streams);
            if notify {
                assert(self@.control_queue =~= (before.control_queue + reset_frames(
                    before.streams,
                )).push(spec_go_away()));
            } else {
                assert(self@.control_queue =~= before.control_queue);
            }
            assert forall|a: int, b: int| 0 <= a < b < self@.streams.len() implies (
            #[trigger] self@.streams[a]).id != (#[trigger] self@.streams[b]).id by {
                assert(before.streams[a].id != before.streams[b].id);
            }
            assert forall|a: int| 0 <= a < self@.streams.len() implies (
            #[trigger] self@.streams[a]).wf() && self@.streams[a].id != 0 && (is_local_id(
                self.client,
                self@.streams[a].id,
            ) ==> self@.streams[a].id < self.next_stream_id) by {
                assert(before.streams[a].wf());
            }
        }
    }

    /// Shuts the session down as its drain policy says.
    pub fn shutdown(&mut self)
        requires
            old(self)@.wf(),
        ensures
            final(self)@ == old(self)@.after_shutdown(),
            final(self)@.wf(),
            final(self)@.state != SessionState::Open,
    {
        match self.state {
            SessionState::Open => {},
            _ => {
                return ;
            },
        }
        match self.config.drain {
            DrainPolicy::Immediate => {
                self.abort(true);
            },
            DrainPolicy::Graceful => {
                let ghost before = self@;
                self.control_queue.push(Frame::new_go_away(0));
                proof {
                    assert(self@.control_queue =~= before.control_queue.push(spec_go_away()));
                    assert(self@.streams =~= before.streams);
                }
                let mut i: usize = 0;
                while i < self.streams.len()
                    invariant
                        i <= self.streams.len(),
                        self@.streams.len() == before.streams.len(),
                        before.wf(),
                        forall|k: int|
                            0 <= k < i ==> #[trigger] self@.streams[k]
                                == before.streams[k].after_close(),
                        forall|k: int|
                            i <= k < self@.streams.len() ==> #[trigger] self@.streams[k]
                                == before.streams[k],
                        self@ == (SessionView {
                            streams: self@.streams,
                            control_queue: before.control_queue.push(spec_go_away()),
                            ..before
                        }),
                    decreases self.streams.len() - i,
                {
                    proof {
                        assert(before.streams[i as int].wf());
                    }
                    let ghost mid = self@.streams;
                    let ghost queue = self@.control_queue;
                    let _ = self.streams[i].close();
                    proof {
                        assert(self@.streams =~= mid.update(i as int, mid[i as int].after_close()));
                        assert(self@.control_queue =~= queue);
                    }
                    i += 1;
                }
                self.state = SessionState::Draining;
                proof {
                    assert(self@.streams =~= closed_all(before.streams));
                    lemma_closed_all_same_live(before.streams);
                    assert forall|a: int, b: int| 0 <= a < b < self@.streams.len() implies (
                    #[trigger] self@.streams[a]).id != (#[trigger] self@.streams[b]).id by {
                        assert(before.streams[a].id != before.streams[b].id);
                    }
                    assert forall|a: int| 0 <= a < self@.streams.len() implies (
                    #[trigger] self@.streams[a]).wf() && self@.streams[a].id != 0 && (is_local_id(
                        self.client,
                        self@.streams[a].id,
                    ) ==> self@.streams[a].id < self.next_stream_id) by {
                        assert(before.streams[a].wf());
                    }
                    assert forall|a: int| 0 <= a < self@.control_queue.len() implies (
                    #[trigger] self@.control_queue[a]).wf() by {
                        if a < before.control_queue.len() {
                            assert(before.control_queue[a].wf());
                        }
                    }
                }
                self.settle();
            },
        }
    }

    /// Tells a draining session that its deadline has passed: what is still
    /// live is reset, and the session is closed.
    pub fn drain_deadline(&mut self)
        requires
            old(self)@.wf(),
        ensures
            final(self)@ == old(self)@.after_deadline(),
            final(self)@.wf(),
    {
        match self.state {
            SessionState::Draining => {
                self.abort(true);
            },
            _ => {},
        }
    }
}

/// How the decoding of the buffered bytes goes on from the frame at their
/// front: a whole frame is taken in and the rest follows; a frame that is cut
/// short ends the decoding; an invalid one tears the session down.
pub proof fn lemma_drained_unfold(s: SessionView)
    ensures
        match s.codec.front() {
            DecodedView::Frame(f, n) => {
                let taken = SessionView { codec: s.codec.advanced(), ..s };
                &&& s.drained() == taken.after_frame(f).drained()
                &&& s.drained_result() == taken.after_frame(f).drained_result()
                &&& s.drained_events() == taken.frame_events(f) + taken.after_frame(
                    f,
                ).drained_events()
                &&& taken.after_frame(f).codec.buffer.len() < s.codec.buffer.len()
            },
            DecodedView::NeedMoreData => {
                &&& s.drained() == s
                &&& s.drained_result() == Ok::<(), Error>(())
                &&& s.drained_events() == Seq::<SessionEvent>::empty()
            },
            DecodedView::ProtocolError => {
                &&& s.drained() == s.after_abort(true)
                &&& s.drained_result() == Err::<(), Error>(Error::ProtocolError)
                &&& s.drained_events() == Seq::<SessionEvent>::empty()
            },
        },
{
    reveal(SessionView::drained);
    reveal(SessionView::drained_events);
    reveal(SessionView::drained_result);
}

impl Session {
    /// Takes in bytes read from the connection.
    ///
    /// Every whole frame that the bytes complete is decoded and taken in, in
    /// order; what is left of a frame waits for more bytes. Returns what the
    /// frames gave rise to. Bytes that are not a valid frame are fatal: the
    /// session is torn down, with resets and a go-away queued for the peer,
    /// and the call fails with `ProtocolError`.
    pub fn on_bytes(&mut self, bytes: &[u8]) -> (r: Result<Vec<SessionEvent>, Error>)
        requires
            old(self)@.wf(),
        ensures
            final(self)@ == old(self)@.fed(bytes@).drained(),
            final(self)@.wf(),
            match r {
                Ok(events) => old(self)@.fed(bytes@).drained_result() is Ok && events@ == old(
                    self,
                )@.fed(bytes@).drained_events(),
                Err(e) => old(self)@.fed(bytes@).drained_result() == Err::<(), Error>(e),
            },
    {
        self.codec.feed(bytes);
        let ghost start = self@;
        proof {
            assert(self@.streams =~= old(self)@.streams);
            assert(self@.control_queue =~= old(self)@.control_queue);
            assert(start == old(self)@.fed(bytes@));
        }
        let mut events: Vec<SessionEvent> = Vec::new();
        loop
            invariant
                self@.wf(),
                start == old(self)@.fed(bytes@),
                start.drained() == self@.drained(),
                start.drained_events() == events@ + self@.drained_events(),
                start.drained_result() == self@.drained_result(),
            decreases self@.codec.buffer.len(),
        {
            let ghost before = self@;
            let next = self.codec.decode_next();
            proof {
                assert(self@.streams =~= before.streams);
                assert(self@.control_queue =~= before.control_queue);
                assert(self@ == (SessionView { codec: before.codec.advanced(), ..before }));
                lemma_drained_unfold(before);
            }
            match next {
                Ok(Some(frame)) => {
                    let ghost sofar = events@;
                    let mut more = self.handle_frame(&frame);
                    let ghost added = more@;
                    events.append(&mut more);
                    proof {
                        assert(events@ =~= sofar + added);
                        assert((sofar + added) + self@.drained_events() =~= sofar + (added
                            + self@.drained_events()));
                    }
                },
                Ok(None) => {
                    proof {
                        assert(self@ == before);
                        assert(events@ + Seq::<SessionEvent>::empty() =~= events@);
                    }
                    return Ok(events);
                },
                Err(_) => {
                    self.abort(true);
                    return Err(Error::ProtocolError);
                },
            }
        }
    }

    /// Queues a ping for the peer, which is to answer it with the same
    /// nonce. A closed session sends none.
    pub fn ping(&mut self, nonce: u32)
        requires
            old(self)@.wf(),
        ensures
            final(self)@ == old(self)@.after_ping(nonce),
            final(self)@.wf(),
    {
        match self.state {
            SessionState::Closed => {},
            _ => {
                self.queue_control(Frame::new_ping(false, nonce));
            },
        }
    }

    /// Tells the session that the connection is gone: every live stream is
    /// reset and the session is closed. Nothing is queued for the peer.
    pub fn connection_lost(&mut self)
        requires
            old(self)@.wf(),
        ensures
            final(self)@ == old(self)@.after_abort(false),
            final(self)@.wf(),
    {
        self.abort(false);
    }

    /// Where the session stands in its life.
    pub fn state(&self) -> (s: SessionState)
        ensures
            s == self@.state,
    {
        self.state
    }

    /// Whether the session is over.
    pub fn is_closed(&self) -> (closed: bool)
        ensures
            closed <==> self@.state == SessionState::Closed,
    {
        match self.state {
            SessionState::Closed => true,
            _ => false,
        }
    }

    /// The limits that the session was made with.
    pub fn config(&self) -> (c: Config)
        ensures
            c == self@.config,
    {
        self.config
    }

    /// The state of the stream behind `handle`, if the session holds it.
    pub fn stream_state(&self, handle: StreamHandle) -> (s: Option<FSState>)
        requires
            self@.wf(),
        ensures
            s == self@.stream_state(handle.id),
    {
        match self.find(handle.id) {
            Some(i) => Some(self.streams[i].state),
            None => None,
        }
    }

    /// The stream behind `handle`, if the session holds it.
    pub fn stream(&self, handle: StreamHandle) -> (s: Option<&FramedStream>)
        requires
            self@.wf(),
        ensures
            s is Some <==> has_id(self@.streams, handle.id),
            s matches Some(st) ==> st@ == self@.streams[index_of(self@.streams, handle.id)],
    {
        match self.find(handle.id) {
            Some(i) => Some(&self.streams[i]),
            None => None,
        }
    }

    /// Whether the peer has announced that it takes no new streams.
    pub fn peer_went_away(&self) -> (away: bool)
        ensures
            away == self@.remote_go_away,
    {
        self.remote_go_away
    }

    /// Whether this side opened the connection.
    pub fn is_client(&self) -> (client: bool)
        ensures
            client == self@.client,
    {
        self.client
    }

    /// Whether a frame waits to be written.
    pub fn has_outgoing(&self) -> (waiting: bool)
        requires
            self@.wf(),
        ensures
            waiting <==> self@.next_frame() is Some,
    {
        if self.control_queue.len() > 0 {
            return true;
        }
        match self.find_waiting(Priority::High) {
            Some(i) => true,
            None => match self.find_waiting(Priority::Normal) {
                Some(i) => true,
                None => false,
            },
        }
    }
}

/// A frame from the peer never takes a stream off the table, and adds one
/// only if it carries a SYN for an id that the session does not hold and
/// that it may admit.
pub proof fn lemma_only_syn_opens(s: SessionView, f: FrameView)
    requires
        s.wf(),
    ensures
        s.after_frame(f).streams.len() >= s.streams.len(),
        s.after_frame(f).streams.len() > s.streams.len() ==> f.flags.syn && !has_id(
            s.streams,
            f.stream_id,
        ) && s.admits_remote(f.stream_id),
{
}

/// A SYN that arrives while as many streams are live as may be is answered
/// with a reset, and no stream is added.
pub proof fn lemma_syn_at_capacity_is_reset(s: SessionView, f: FrameView)
    requires
        s.wf(),
        s.state == SessionState::Open,
        f.ty == FrameType::Data || f.ty == FrameType::WindowUpdate,
        f.flags.syn,
        !f.flags.rst,
        !has_id(s.streams, f.stream_id),
        live_count(s.streams) >= s.config.max_streams,
    ensures
        s.frame_events(f) == seq![SessionEvent::Refused(f.stream_id)],
        s.after_frame(f).streams == s.streams,
        s.after_frame(f).control_queue == s.control_queue.push(
            spec_flag_frame(f.stream_id, Flags { syn: false, ack: false, fin: false, rst: true }),
        ),
{
}

/// A frame with RST for a live stream closes that stream at once and
/// discards what it had buffered: the next read on it reports the reset.
pub proof fn lemma_rst_frame_resets(s: SessionView, f: FrameView, max: nat)
    requires
        s.wf(),
        s.state != SessionState::Closed,
        f.ty == FrameType::Data || f.ty == FrameType::WindowUpdate,
        f.flags.rst,
        has_id(s.streams, f.stream_id),
        s.streams[index_of(s.streams, f.stream_id)].live(),
    ensures
        s.frame_events(f) == seq![SessionEvent::Reset(f.stream_id)],
        s.after_frame(f).stream_state(f.stream_id) == Some(FSState::Closed),
        s.after_frame(f).streams[index_of(s.streams, f.stream_id)].read_buffer == Seq::<u8>::empty(),
        s.after_frame(f).read_result(f.stream_id, max) == Err::<
            crate::framed_stream::ReadOutcomeView,
            Error,
        >(Error::StreamReset),
{
    let i = index_of(s.streams, f.stream_id);
    let t = s.after_frame(f);
    lemma_update_keeps_wf(s, i, s.streams[i].after_frame(f));
    assert(t.streams[i].id == f.stream_id);
    lemma_index_of_unique(t.streams, f.stream_id, i);
}

/// A frame changes no stream but the one it names: whatever it does to that
/// stream, a reset or a violation included, every other stream stays as it
/// is.
pub proof fn lemma_frame_touches_one_stream(s: SessionView, f: FrameView, j: int)
    requires
        s.wf(),
        0 <= j < s.streams.len(),
        s.streams[j].id != f.stream_id,
    ensures
        s.after_frame(f).streams[j] == s.streams[j],
{
}

} // verus!

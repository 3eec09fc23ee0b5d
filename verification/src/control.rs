//! The control plane: the commands that drive a session and the handle that
//! issues them.

use crate::error::Error;
use crate::framed_stream::{spec_frame_option, FSState, StreamView};
use crate::session::{
    is_local_id, is_oldest_live, lemma_live_count_push, lemma_live_count_update,
    lemma_live_count_zero, live_count, Polled, Session, SessionEvent, SessionState, SessionView,
    StreamHandle,
};
use vstd::prelude::*;

verus! {

/// A request to a session.
#[derive(Clone, Copy, Debug, PartialEq, Eq, Structural)]
pub enum Command {
    /// Open a stream to the peer.
    OpenStream,
    /// Shut the session down.
    Shutdown,
    /// Add a stream whose connection is already set up.
    AddStream,
    /// Close the oldest live stream.
    CloseOldestStream,
    /// Say how many streams are live.
    GetStreamsNum,
}

/// A session's answer to a request.
#[derive(Clone, Copy, Debug, PartialEq, Eq, Structural)]
pub enum Reply {
    /// The handle of the stream that was opened or added.
    Stream(StreamHandle),
    /// The number of live streams.
    StreamsNum(usize),
    /// The oldest stream was closed: this one.
    Closed(StreamHandle),
    /// The request was carried out and has nothing to return.
    Done,
    /// The request was not carried out.
    Failed(Error),
}

impl SessionView {
    /// What the session answers to `command`.
    ///
    /// Once a shutdown has begun, every request but a shutdown is refused
    /// with `SessionShutdown`; a shutdown is always granted.
    pub open spec fn command_reply(self, command: Command) -> Reply {
        match command {
            Command::OpenStream | Command::AddStream => match self.open_result() {
                Ok(h) => Reply::Stream(h),
                Err(e) => Reply::Failed(e),
            },
            Command::Shutdown => Reply::Done,
            Command::CloseOldestStream => match self.close_oldest_result() {
                Ok(Some(h)) => Reply::Closed(h),
                Ok(None) => Reply::Done,
                Err(e) => Reply::Failed(e),
            },
            Command::GetStreamsNum => if self.state == SessionState::Open {
                Reply::StreamsNum(self.streams_num() as usize)
            } else {
                Reply::Failed(Error::SessionShutdown)
            },
        }
    }

    /// What a handle returns for a request to add a stream: the request is
    /// taken while the session is open, and refused once a shutdown has
    /// begun. Whether the stream found room is not part of the answer.
    pub open spec fn add_result(self) -> Result<(), Error> {
        if self.state == SessionState::Open {
            Ok(())
        } else {
            Err(Error::SessionShutdown)
        }
    }

    /// The session after it has carried out `command`.
    pub open spec fn after_command(self, command: Command) -> SessionView {
        match command {
            Command::OpenStream => self.after_open(),
            Command::AddStream => self.after_add(),
            Command::Shutdown => self.after_shutdown(),
            Command::CloseOldestStream => self.after_close_oldest(),
            Command::GetStreamsNum => self,
        }
    }
}

impl Session {
    /// Carries out a request and answers it.
    pub fn handle_command(&mut self, command: Command) -> (reply: Reply)
        requires
            old(self)@.wf(),
        ensures
            reply == old(self)@.command_reply(command),
            final(self)@ == old(self)@.after_command(command),
            final(self)@.wf(),
    {
        match command {
            Command::OpenStream => match self.open_stream() {
                Ok(h) => Reply::Stream(h),
                Err(e) => Reply::Failed(e),
            },
            Command::AddStream => match self.add_stream() {
                Ok(h) => Reply::Stream(h),
                Err(e) => Reply::Failed(e),
            },
            Command::Shutdown => {
                self.shutdown();
                Reply::Done
            },
            Command::CloseOldestStream => match self.close_oldest_stream() {
                Ok(Some(h)) => Reply::Closed(h),
                Ok(None) => Reply::Done,
                Err(e) => Reply::Failed(e),
            },
            Command::GetStreamsNum => match self.state() {
                SessionState::Open => Reply::StreamsNum(self.streams_num()),
                _ => Reply::Failed(Error::SessionShutdown),
            },
        }
    }
}

/// A session control is used to open the stream or close the session.
///
/// The handle holds nothing of its own: each operation is a request to the
/// session it is used on, and what it returns is read off the session's
/// answer.
#[derive(Clone, Copy, Debug, PartialEq, Eq, Structural)]
pub struct Control {}

impl Control {
    /// A handle.
    pub fn new() -> (c: Control)
        ensures
            c == (Control {  }),
    {
        Control {  }
    }

    /// Reads the handle of a stream off an answer. An answer of another kind
    /// means that the session is gone.
    pub fn stream_of(reply: Reply) -> (r: Result<StreamHandle, Error>)
        ensures
            r == match reply {
                Reply::Stream(h) => Ok::<StreamHandle, Error>(h),
                Reply::Failed(e) => Err(e),
                _ => Err(Error::SessionShutdown),
            },
    {
        match reply {
            Reply::Stream(h) => Ok(h),
            Reply::Failed(e) => Err(e),
            _ => Err(Error::SessionShutdown),
        }
    }

    /// Reads success or failure off an answer.
    pub fn done_of(reply: Reply) -> (r: Result<(), Error>)
        ensures
            r == match reply {
                Reply::Failed(e) => Err::<(), Error>(e),
                _ => Ok(()),
            },
    {
        match reply {
            Reply::Failed(e) => Err(e),
            _ => Ok(()),
        }
    }

    /// Reads the number of streams off an answer. An answer of another kind
    /// means that the session is gone.
    pub fn streams_num_of(reply: Reply) -> (r: Result<usize, Error>)
        ensures
            r == match reply {
                Reply::StreamsNum(n) => Ok::<usize, Error>(n),
                Reply::Failed(e) => Err(e),
                _ => Err(Error::SessionShutdown),
            },
    {
        match reply {
            Reply::StreamsNum(n) => Ok(n),
            Reply::Failed(e) => Err(e),
            _ => Err(Error::SessionShutdown),
        }
    }

    /// Open a new stream to remote session.
    ///
    /// Fails with `SessionShutdown` once the session is shutting down, and
    /// with `StreamsExhausted`, at once, while the session is full.
    pub fn open_stream(&mut self, session: &mut Session) -> (r: Result<StreamHandle, Error>)
        requires
            old(session)@.wf(),
        ensures
            r == old(session)@.open_result(),
            final(session)@ == old(session)@.after_open(),
            final(session)@.wf(),
    {
        Self::stream_of(session.handle_command(Command::OpenStream))
    }

    /// Shuts the session down, with all its streams. Closing a session that
    /// is already shutting down does nothing.
    pub fn close(&mut self, session: &mut Session)
        requires
            old(session)@.wf(),
        ensures
            final(session)@ == old(session)@.after_shutdown(),
            final(session)@.state != SessionState::Open,
            final(session)@.wf(),
    {
        if session.is_closed() {
            return ;
        }
        let _ = session.handle_command(Command::Shutdown);
    }

    /// Adds a stream whose connection is already set up.
    ///
    /// The request is handed to the session and no answer is waited for: the
    /// call succeeds whenever the session is open, and fails, with
    /// `SessionShutdown`, only once a shutdown has begun. A stream for which
    /// the session has no room is not added.
    pub fn add_stream(&mut self, session: &mut Session) -> (r: Result<(), Error>)
        requires
            old(session)@.wf(),
        ensures
            r == old(session)@.add_result(),
            final(session)@ == old(session)@.after_add(),
            final(session)@.wf(),
    {
        match session.state() {
            SessionState::Open => {
                let _ = session.handle_command(Command::AddStream);
                Ok(())
            },
            _ => Err(Error::SessionShutdown),
        }
    }

    /// Closes the oldest live stream of the session. Fails with
    /// `SessionShutdown` once the session is shutting down.
    pub fn close_oldest_stream(&mut self, session: &mut Session) -> (r: Result<(), Error>)
        requires
            old(session)@.wf(),
        ensures
            r == match old(session)@.close_oldest_result() {
                Ok(_) => Ok::<(), Error>(()),
                Err(e) => Err(e),
            },
            final(session)@ == old(session)@.after_close_oldest(),
            final(session)@.wf(),
    {
        Self::done_of(session.handle_command(Command::CloseOldestStream))
    }

    /// The number of live streams of the session. Fails with
    /// `SessionShutdown` once the session is shutting down.
    pub fn get_streams_num(&mut self, session: &mut Session) -> (r: Result<usize, Error>)
        requires
            old(session)@.wf(),
        ensures
            r == if old(session)@.state == SessionState::Open {
                Ok::<usize, Error>(old(session)@.streams_num() as usize)
            } else {
                Err(Error::SessionShutdown)
            },
            final(session)@ == old(session)@,
            final(session)@.wf(),
    {
        Self::streams_num_of(session.handle_command(Command::GetStreamsNum))
    }
}

/// Among streams of which one is live, one is the oldest live.
pub proof fn lemma_oldest_live_exists(streams: Seq<StreamView>)
    requires
        live_count(streams) > 0,
    ensures
        exists|i: int| is_oldest_live(streams, i),
    decreases streams.len(),
{
    let front = streams.drop_last();
    let last = streams.len() - 1;
    if live_count(front) > 0 {
        lemma_oldest_live_exists(front);
        let k = choose|i: int| is_oldest_live(front, i);
        assert(front[k] == streams[k]);
        if streams[last].live() && streams[last].id < streams[k].id {
            assert forall|j: int| 0 <= j < streams.len() && (#[trigger] streams[j]).live() implies streams[last].id
                <= streams[j].id by {
                if j < last {
                    assert(front[j] == streams[j]);
                }
            }
            assert(is_oldest_live(streams, last));
        } else {
            assert forall|j: int| 0 <= j < streams.len() && (#[trigger] streams[j]).live() implies streams[k].id
                <= streams[j].id by {
                if j < last {
                    assert(front[j] == streams[j]);
                }
            }
            assert(is_oldest_live(streams, k));
        }
    } else {
        lemma_live_count_zero(front);
        assert forall|j: int| 0 <= j < streams.len() && (#[trigger] streams[j]).live() implies streams[last].id
            <= streams[j].id by {
            if j < last {
                assert(front[j] == streams[j]);
            }
        }
        assert(is_oldest_live(streams, last));
    }
}

/// A stream that is opened is one more live stream.
pub proof fn lemma_open_adds_one(s: SessionView)
    requires
        s.wf(),
        s.open_result() is Ok,
    ensures
        live_count(s.after_open().streams) == live_count(s.streams) + 1,
        live_count(s.after_add().streams) == live_count(s.streams) + 1,
{
    lemma_live_count_push(s.streams, s.after_open().streams.last());
    lemma_live_count_push(s.streams, s.after_add().streams.last());
}

/// A full session refuses to open a stream at once, with `StreamsExhausted`
/// and no change. Once the oldest stream is closed, which leaves that stream
/// in the state `Closed`, the session opens a stream again.
pub proof fn lemma_evict_then_open(s: SessionView)
    requires
        s.wf(),
        s.state == SessionState::Open,
        s.config.max_streams > 0,
        live_count(s.streams) == s.config.max_streams,
        s.next_stream_id + 2 <= u32::MAX,
    ensures
        s.open_result() == Err::<StreamHandle, Error>(Error::StreamsExhausted),
        s.after_open() == s,
        s.has_live(),
        s.close_oldest_result() == Ok::<Option<StreamHandle>, Error>(
            Some(StreamHandle { id: s.streams[s.oldest_live()].id }),
        ),
        s.after_close_oldest().streams[s.oldest_live()].state == FSState::Closed,
        s.after_close_oldest().streams[s.oldest_live()].id == s.streams[s.oldest_live()].id,
        s.after_close_oldest().open_result() == Ok::<StreamHandle, Error>(
            StreamHandle { id: s.next_stream_id },
        ),
{
    lemma_oldest_live_exists(s.streams);
    let i = s.oldest_live();
    assert(is_oldest_live(s.streams, i));
    lemma_live_count_update(s.streams, i, s.streams[i].after_reset());
}

/// A shutdown ends the control plane: whatever the session was, after it every
/// request to open or add a stream, to close the oldest stream or to count
/// the streams is refused with `SessionShutdown` and changes nothing, and
/// another shutdown changes nothing either.
pub proof fn lemma_shutdown_is_final(s: SessionView)
    requires
        s.wf(),
    ensures
        ({
            let t = s.after_shutdown();
            &&& t.state != SessionState::Open
            &&& t.command_reply(Command::OpenStream) == Reply::Failed(Error::SessionShutdown)
            &&& t.command_reply(Command::AddStream) == Reply::Failed(Error::SessionShutdown)
            &&& t.command_reply(Command::CloseOldestStream) == Reply::Failed(
                Error::SessionShutdown,
            )
            &&& t.command_reply(Command::GetStreamsNum) == Reply::Failed(Error::SessionShutdown)
            &&& t.add_result() == Err::<(), Error>(Error::SessionShutdown)
            &&& t.after_command(Command::OpenStream) == t
            &&& t.after_command(Command::AddStream) == t
            &&& t.after_command(Command::CloseOldestStream) == t
            &&& t.after_command(Command::GetStreamsNum) == t
            &&& t.command_reply(Command::Shutdown) == Reply::Done
            &&& t.after_command(Command::Shutdown) == t
        }),
{
}

/// Two requests to open a stream that wait in the queue of an open session
/// with room for both are both granted, in whichever order they were
/// accepted: each gets an id of its own, both of this side's parity, so that
/// no stream that the peer opened can have either, and two more streams are
/// live afterwards.
pub proof fn lemma_two_opens_distinct(s: SessionView)
    requires
        s.wf(),
        s.state == SessionState::Open,
        live_count(s.streams) + 2 <= s.config.max_streams,
        s.next_stream_id + 4 <= u32::MAX,
    ensures
        ({
            let first = s.open_result();
            let second = s.after_open().open_result();
            let both = seq![Command::OpenStream, Command::OpenStream];
            &&& first matches Ok(a) && second matches Ok(b) && a.id != b.id && is_local_id(
                s.client,
                a.id,
            ) && is_local_id(s.client, b.id) && b.id == a.id + 2
            &&& forall|id: u32|
                !is_local_id(s.client, id) ==> id != first->Ok_0.id && id != second->Ok_0.id
            &&& s.replies_to(both) == seq![
                Reply::Stream(first->Ok_0),
                Reply::Stream(second->Ok_0),
            ]
            &&& s.after_commands(both) == s.after_open().after_open()
            &&& live_count(s.after_commands(both).streams) == live_count(s.streams) + 2
        }),
{
    let one = Seq::<Command>::empty().push(Command::OpenStream);
    let both = seq![Command::OpenStream, Command::OpenStream];
    lemma_live_count_push(s.streams, s.after_open().streams.last());
    lemma_live_count_push(s.after_open().streams, s.after_open().after_open().streams.last());
    lemma_commands_in_order(s, Seq::empty(), Command::OpenStream);
    lemma_commands_in_order(s, one, Command::OpenStream);
    assert(both =~= one.push(Command::OpenStream));
    assert(s.after_commands(Seq::empty()) == s);
    assert(s.replies_to(Seq::empty()) =~= Seq::<Reply>::empty());
    assert(s.replies_to(both) =~= seq![
        Reply::Stream(s.open_result()->Ok_0),
        Reply::Stream(s.after_open().open_result()->Ok_0),
    ]);
}

/// The bounded queue on which requests wait for the session, oldest first.
///
/// The queue is closed from the sending side once no more requests will
/// come, and from the receiving side once the session is over. What was
/// accepted before stays in the queue until it is served.
#[derive(Clone, Debug, PartialEq, Eq)]
pub struct CommandQueue {
    capacity: usize,
    pending: Vec<Command>,
    closed: bool,
}

/// What a [`CommandQueue`] holds, as mathematical values.
pub struct CommandQueueView {
    pub capacity: usize,
    pub pending: Seq<Command>,
    pub closed: bool,
}

/// What became of a request that was offered to the queue.
#[derive(Clone, Copy, Debug, PartialEq, Eq, Structural)]
pub enum Offer {
    /// The request waits in the queue.
    Accepted,
    /// The queue is full: the sender has to wait and offer again.
    Full,
}

impl View for CommandQueue {
    type V = CommandQueueView;

    closed spec fn view(&self) -> CommandQueueView {
        CommandQueueView { capacity: self.capacity, pending: self.pending@, closed: self.closed }
    }
}

impl CommandQueueView {
    /// No more requests wait than the queue has room for.
    pub open spec fn wf(self) -> bool {
        self.pending.len() <= self.capacity
    }

    /// What offering a request returns: a closed queue refuses it, a full
    /// one makes the sender wait.
    pub open spec fn send_result(self) -> Result<Offer, Error> {
        if self.closed {
            Err(Error::SessionShutdown)
        } else if self.pending.len() >= self.capacity {
            Ok(Offer::Full)
        } else {
            Ok(Offer::Accepted)
        }
    }

    /// The queue after a request was offered: it joins at the back if it
    /// was accepted.
    pub open spec fn after_send(self, command: Command) -> CommandQueueView {
        if self.send_result() == Ok::<Offer, Error>(Offer::Accepted) {
            CommandQueueView { pending: self.pending.push(command), ..self }
        } else {
            self
        }
    }
}

impl SessionView {
    /// The session after it has carried out `commands`, in order.
    pub open spec fn after_commands(self, commands: Seq<Command>) -> SessionView
        decreases commands.len(),
    {
        if commands.len() == 0 {
            self
        } else {
            self.after_commands(commands.drop_last()).after_command(commands.last())
        }
    }

    /// The answers of the session to `commands`, in order.
    pub open spec fn replies_to(self, commands: Seq<Command>) -> Seq<Reply>
        decreases commands.len(),
    {
        if commands.len() == 0 {
            Seq::empty()
        } else {
            self.replies_to(commands.drop_last()).push(
                self.after_commands(commands.drop_last()).command_reply(commands.last()),
            )
        }
    }

    /// The session after it has served a queue: every waiting request is
    /// carried out, in order, and if the queue was closed by its senders,
    /// the session is shut down.
    pub open spec fn after_serving(self, queue: CommandQueueView) -> SessionView {
        let served = self.after_commands(queue.pending);
        if queue.closed {
            served.after_shutdown()
        } else {
            served
        }
    }
}

impl CommandQueue {
    /// An open, empty queue with room for `capacity` requests.
    pub fn new(capacity: usize) -> (q: CommandQueue)
        ensures
            q@ == (CommandQueueView { capacity, pending: Seq::empty(), closed: false }),
            q@.wf(),
    {
        CommandQueue { capacity, pending: Vec::new(), closed: false }
    }

    /// Offers a request. Fails with `SessionShutdown` once the queue is
    /// closed.
    pub fn send(&mut self, command: Command) -> (r: Result<Offer, Error>)
        requires
            old(self)@.wf(),
        ensures
            r == old(self)@.send_result(),
            final(self)@ == old(self)@.after_send(command),
            final(self)@.wf(),
    {
        if self.closed {
            return Err(Error::SessionShutdown);
        }
        if self.pending.len() >= self.capacity {
            return Ok(Offer::Full);
        }
        self.pending.push(command);
        Ok(Offer::Accepted)
    }

    /// Closes the queue. What waits in it stays.
    pub fn close(&mut self)
        ensures
            final(self)@ == (CommandQueueView { closed: true, ..old(self)@ }),
    {
        self.closed = true;
    }

    /// Whether the queue is closed.
    pub fn is_closed(&self) -> (closed: bool)
        ensures
            closed == self@.closed,
    {
        self.closed
    }

    /// How many requests wait.
    pub fn len(&self) -> (n: usize)
        ensures
            n == self@.pending.len(),
    {
        self.pending.len()
    }
}

impl Session {
    /// Serves a queue of requests.
    ///
    /// Every waiting request is carried out, oldest first, and its answer
    /// returned in that order. If the senders have closed the queue, the
    /// session is then shut down; and once the session is over, the queue
    /// is closed, so that later requests fail at once.
    pub fn serve(&mut self, queue: &mut CommandQueue) -> (replies: Vec<Reply>)
        requires
            old(self)@.wf(),
            old(queue)@.wf(),
        ensures
            final(self)@ == old(self)@.after_serving(old(queue)@),
            replies@ == old(self)@.replies_to(old(queue)@.pending),
            final(queue)@ == (CommandQueueView {
                capacity: old(queue)@.capacity,
                pending: Seq::empty(),
                closed: old(queue)@.closed || final(self)@.state == SessionState::Closed,
            }),
            final(self)@.wf(),
            final(queue)@.wf(),
    {
        let mut replies: Vec<Reply> = Vec::new();
        let mut i: usize = 0;
        while i < queue.pending.len()
            invariant
                i <= queue.pending.len(),
                queue@ == old(queue)@,
                self@.wf(),
                self@ == old(self)@.after_commands(queue@.pending.take(i as int)),
                replies@ == old(self)@.replies_to(queue@.pending.take(i as int)),
            decreases queue.pending.len() - i,
        {
            proof {
                assert(queue@.pending.take(i + 1).drop_last() =~= queue@.pending.take(i as int));
            }
            let reply = self.handle_command(queue.pending[i]);
            replies.push(reply);
            i += 1;
        }
        proof {
            assert(queue@.pending.take(i as int) =~= queue@.pending);
        }
        queue.pending = Vec::new();
        if queue.closed {
            self.shutdown();
        }
        if self.is_closed() {
            queue.closed = true;
        }
        replies
    }
}

/// Requests are served in the order in which they were accepted: serving a
/// queue and then one more request is serving the queue with that request
/// at its back.
pub proof fn lemma_commands_in_order(s: SessionView, commands: Seq<Command>, next: Command)
    ensures
        s.after_commands(commands.push(next)) == s.after_commands(commands).after_command(next),
        s.replies_to(commands.push(next)) == s.replies_to(commands).push(
            s.after_commands(commands).command_reply(next),
        ),
{
    assert(commands.push(next).drop_last() =~= commands);
}

/// A request that was accepted before the queue was closed is still served,
/// and one that is offered after is refused at once and leaves the queue as
/// it is.
pub proof fn lemma_close_keeps_accepted(q: CommandQueueView, command: Command)
    requires
        q.wf(),
        q.send_result() == Ok::<Offer, Error>(Offer::Accepted),
    ensures
        ({
            let closed = CommandQueueView { closed: true, ..q.after_send(command) };
            &&& closed.pending == q.pending.push(command)
            &&& closed.send_result() == Err::<Offer, Error>(Error::SessionShutdown)
            &&& closed.after_send(command) == closed
        }),
{
}

/// What the loop that drives a session can hand to it in one turn.
#[derive(Clone, Debug, PartialEq, Eq)]
pub enum Input {
    /// Bytes were read from the connection.
    Bytes(Vec<u8>),
    /// A request arrived.
    Command(Command),
    /// The connection can take a frame.
    Writable,
    /// The connection is gone.
    ConnectionLost,
    /// The deadline of a graceful shutdown has passed.
    DrainDeadline,
}

/// What the session hands back for the loop to act on.
#[derive(Clone, Debug, PartialEq, Eq)]
pub enum Output {
    /// What the frames in the bytes gave rise to.
    Events(Vec<SessionEvent>),
    /// The answer to the request.
    Reply(Reply),
    /// The frame to write, if one is ready, and what handing it out gave
    /// rise to.
    Frame(Polled),
    /// The session has failed as a whole, with this error.
    Failed(Error),
    /// There is nothing to do.
    Nothing,
}

impl Session {
    /// Takes one turn of the loop: whatever the input is, the session deals
    /// with it and says what the loop has to do next.
    pub fn step(&mut self, input: Input) -> (output: Output)
        requires
            old(self)@.wf(),
        ensures
            final(self)@.wf(),
            match input {
                Input::Bytes(bytes) => {
                    &&& final(self)@ == old(self)@.fed(bytes@).drained()
                    &&& match old(self)@.fed(bytes@).drained_result() {
                        Ok(_) => output matches Output::Events(events) && events@ == old(
                            self,
                        )@.fed(bytes@).drained_events(),
                        Err(e) => output == Output::Failed(e),
                    }
                },
                Input::Command(command) => {
                    &&& final(self)@ == old(self)@.after_command(command)
                    &&& output == Output::Reply(old(self)@.command_reply(command))
                },
                Input::Writable => {
                    &&& final(self)@ == old(self)@.after_poll()
                    &&& output matches Output::Frame(polled) && spec_frame_option(polled.frame)
                        == old(self)@.next_frame() && polled.event == old(self)@.poll_event()
                },
                Input::ConnectionLost => {
                    &&& final(self)@ == old(self)@.after_abort(false)
                    &&& output == Output::Nothing
                },
                Input::DrainDeadline => {
                    &&& final(self)@ == old(self)@.after_deadline()
                    &&& output == Output::Nothing
                },
            },
    {
        match input {
            Input::Bytes(bytes) => match self.on_bytes(bytes.as_slice()) {
                Ok(events) => Output::Events(events),
                Err(e) => Output::Failed(e),
            },
            Input::Command(command) => Output::Reply(self.handle_command(command)),
            Input::Writable => Output::Frame(self.poll_frame()),
            Input::ConnectionLost => {
                self.connection_lost();
                Output::Nothing
            },
            Input::DrainDeadline => {
                self.drain_deadline();
                Output::Nothing
            },
        }
    }
}

} // verus!

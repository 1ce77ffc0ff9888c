//! The rules of the live session: when to connect, what to answer, when to
//! give up a connection and wait before the next.

use vstd::prelude::*;

verus! {

/// Seconds to wait after a session ended before connecting again.
pub const RECONNECT_WAIT: u64 = 5;

/// Seconds between two keepalive pings.
pub const PING_INTERVAL_IN_SECONDS: u64 = 60 * 10;

/// Number of items the channel to the consumer holds.
pub const CHANNEL_CAPACITY: usize = 100;

/// Where the session stands.
#[derive(Debug, Clone, Copy, PartialEq, Eq, Structural)]
pub enum ConnectionState {
    /// Nothing runs.
    Disconnected,
    /// A connection is being opened.
    Connecting,
    /// A connection is open and its keepalive runs.
    Connected,
    /// The last connection ended and the wait before the next one runs.
    Backoff,
}

/// The kinds of inbound frames.
#[derive(Debug, Clone, Copy, PartialEq, Eq, Structural)]
pub enum Frame {
    Text,
    Ping,
    Close,
    Other,
}

/// What can happen to the session.
#[derive(Debug, Clone, Copy, PartialEq, Eq, Structural)]
pub enum SessionEvent {
    /// The consumer asks for live candles.
    Start,
    /// The connection was opened.
    Opened,
    /// The connection could not be opened.
    OpenFailed,
    /// The keepalive interval passed.
    KeepaliveDue,
    /// The keepalive ping could not be sent.
    PingFailed,
    /// A frame came in.
    Received(Frame),
    /// The consumer took an item.
    Delivered,
    /// The consumer no longer takes items.
    ConsumerGone,
    /// The answer to a ping could not be sent.
    PongFailed,
    /// Receiving failed.
    TransportFailed,
    /// The connection ended without a close frame.
    Ended,
    /// The wait before the next connection is over.
    WaitOver,
}

/// What the session's runner has to do next.
#[derive(Debug, Clone, Copy, PartialEq, Eq, Structural)]
pub enum SessionAction {
    /// Go on waiting for events.
    Nothing,
    /// Open a connection.
    Open,
    /// Start the keepalive of the connection just opened.
    StartKeepalive,
    /// Send a ping frame.
    SendPing,
    /// Answer the ping with a pong frame that carries its payload.
    SendPong,
    /// Decode the text frame and hand the candle, or the decoding error as
    /// one failed item, to the consumer.
    Forward,
    /// Stop the keepalive and wait before connecting again.
    Wait,
    /// Hand the transport error to the consumer as one failed item, stop
    /// the keepalive, and wait before connecting again.
    ReportAndWait,
    /// Stop the keepalive and end the session.
    Stop,
}

/// Whether the keepalive runs in `state`.
pub open spec fn keepalive_runs(state: ConnectionState) -> bool {
    state is Connected
}

/// Whether `action` stops the keepalive.
pub open spec fn stops_keepalive(action: SessionAction) -> bool {
    action is Wait || action is ReportAndWait || action is Stop
}

/// The state after `event` and what to do then. An event that does not
/// concern the state changes nothing.
pub open spec fn transition(state: ConnectionState, event: SessionEvent) -> (ConnectionState, SessionAction) {
    match (state, event) {
        (ConnectionState::Disconnected, SessionEvent::Start) => (ConnectionState::Connecting, SessionAction::Open),
        (ConnectionState::Connecting, SessionEvent::Opened) => (
            ConnectionState::Connected,
            SessionAction::StartKeepalive,
        ),
        (ConnectionState::Connecting, SessionEvent::OpenFailed) => (ConnectionState::Backoff, SessionAction::Wait),
        (ConnectionState::Connected, SessionEvent::KeepaliveDue) => (
            ConnectionState::Connected,
            SessionAction::SendPing,
        ),
        (ConnectionState::Connected, SessionEvent::Received(Frame::Text)) => (
            ConnectionState::Connected,
            SessionAction::Forward,
        ),
        (ConnectionState::Connected, SessionEvent::Received(Frame::Ping)) => (
            ConnectionState::Connected,
            SessionAction::SendPong,
        ),
        (ConnectionState::Connected, SessionEvent::Received(Frame::Close)) => (
            ConnectionState::Backoff,
            SessionAction::Wait,
        ),
        (ConnectionState::Connected, SessionEvent::PongFailed) => (ConnectionState::Backoff, SessionAction::Wait),
        (ConnectionState::Connected, SessionEvent::Ended) => (ConnectionState::Backoff, SessionAction::Wait),
        (ConnectionState::Connected, SessionEvent::TransportFailed) => (
            ConnectionState::Backoff,
            SessionAction::ReportAndWait,
        ),
        (ConnectionState::Connected, SessionEvent::ConsumerGone) => (
            ConnectionState::Disconnected,
            SessionAction::Stop,
        ),
        (ConnectionState::Backoff, SessionEvent::WaitOver) => (ConnectionState::Connecting, SessionAction::Open),
        _ => (state, SessionAction::Nothing),
    }
}

/// The live session of one consumer.
#[derive(Debug, Clone, Copy, PartialEq, Eq)]
pub struct Stream {
    state: ConnectionState,
}

impl View for Stream {
    type V = ConnectionState;

    closed spec fn view(&self) -> ConnectionState {
        self.state
    }
}

impl Stream {
    /// A session in which nothing runs yet.
    pub fn new() -> (res: Self)
        ensures
            res@ == ConnectionState::Disconnected,
    {
        Stream { state: ConnectionState::Disconnected }
    }

    /// Where the session stands.
    pub fn state(&self) -> (res: ConnectionState)
        ensures
            res == self@,
    {
        self.state
    }

    /// Takes note of `event` and tells the runner what to do next.
    pub fn manage_connection(&mut self, event: SessionEvent) -> (res: SessionAction)
        ensures
            (final(self)@, res) == transition(old(self)@, event),
    {
        let (state, action) = match self.state {
            ConnectionState::Disconnected => match event {
                SessionEvent::Start => (ConnectionState::Connecting, SessionAction::Open),
                _ => (self.state, SessionAction::Nothing),
            },
            ConnectionState::Connecting => match event {
                SessionEvent::Opened => (ConnectionState::Connected, SessionAction::StartKeepalive),
                SessionEvent::OpenFailed => (ConnectionState::Backoff, SessionAction::Wait),
                _ => (self.state, SessionAction::Nothing),
            },
            ConnectionState::Connected => match event {
                SessionEvent::KeepaliveDue => (ConnectionState::Connected, SessionAction::SendPing),
                SessionEvent::Received(frame) => Stream::handle_frame(frame),
                SessionEvent::PongFailed | SessionEvent::Ended => (ConnectionState::Backoff, SessionAction::Wait),
                SessionEvent::TransportFailed => (ConnectionState::Backoff, SessionAction::ReportAndWait),
                SessionEvent::ConsumerGone => (ConnectionState::Disconnected, SessionAction::Stop),
                _ => (self.state, SessionAction::Nothing),
            },
            ConnectionState::Backoff => match event {
                SessionEvent::WaitOver => (ConnectionState::Connecting, SessionAction::Open),
                _ => (self.state, SessionAction::Nothing),
            },
        };
        self.state = state;
        action
    }

    /// What an inbound frame does to an open connection: text is forwarded,
    /// a ping is answered, a close frame ends the connection, and any other
    /// frame is passed over.
    pub fn handle_frame(frame: Frame) -> (res: (ConnectionState, SessionAction))
        ensures
            res == transition(ConnectionState::Connected, SessionEvent::Received(frame)),
    {
        match frame {
            Frame::Text => (ConnectionState::Connected, SessionAction::Forward),
            Frame::Ping => (ConnectionState::Connected, SessionAction::SendPong),
            Frame::Close => (ConnectionState::Backoff, SessionAction::Wait),
            Frame::Other => (ConnectionState::Connected, SessionAction::Nothing),
        }
    }

    /// What handing an item to the consumer comes to: the session goes on
    /// where the consumer took it.
    pub fn handle_text_message(delivered: bool) -> (res: SessionEvent)
        ensures
            res == if delivered {
                SessionEvent::Delivered
            } else {
                SessionEvent::ConsumerGone
            },
    {
        if delivered {
            SessionEvent::Delivered
        } else {
            SessionEvent::ConsumerGone
        }
    }
}

/// The keepalive starts with every connection that opens.
pub proof fn lemma_keepalive_starts(state: ConnectionState, event: SessionEvent)
    requires
        !keepalive_runs(state),
        keepalive_runs(transition(state, event).0),
    ensures
        transition(state, event).1 is StartKeepalive,
        state is Connecting,
        event is Opened,
{
}

/// The keepalive is stopped with every connection that ends.
pub proof fn lemma_keepalive_stops(state: ConnectionState, event: SessionEvent)
    requires
        keepalive_runs(state),
        !keepalive_runs(transition(state, event).0),
    ensures
        stops_keepalive(transition(state, event).1),
{
}

/// Nothing stops the keepalive while the connection stays open.
pub proof fn lemma_keepalive_stays(state: ConnectionState, event: SessionEvent)
    requires
        keepalive_runs(state),
        keepalive_runs(transition(state, event).0),
    ensures
        !stops_keepalive(transition(state, event).1),
        !(transition(state, event).1 is StartKeepalive),
{
}

/// After a connection ended or failed to open, the session waits, and when
/// the wait is over it connects again, every time.
pub proof fn lemma_retries_forever(state: ConnectionState, event: SessionEvent)
    ensures
        transition(ConnectionState::Backoff, SessionEvent::WaitOver) == (
            ConnectionState::Connecting,
            SessionAction::Open,
        ),
        transition(state, event).0 is Backoff && !(state is Backoff) ==> stops_keepalive(transition(state, event).1),
        transition(state, event).0 is Connected ==> state is Connected || state is Connecting,
{
}

/// A frame that cannot be decoded, a ping that cannot be sent, and a frame
/// of another kind leave the connection open.
pub proof fn lemma_connection_survives()
    ensures
        transition(ConnectionState::Connected, SessionEvent::Received(Frame::Text)).0 is Connected,
        transition(ConnectionState::Connected, SessionEvent::Delivered).0 is Connected,
        transition(ConnectionState::Connected, SessionEvent::PingFailed).0 is Connected,
        transition(ConnectionState::Connected, SessionEvent::Received(Frame::Other)).0 is Connected,
{
}

} // verus!

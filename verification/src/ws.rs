//! Websocket connections: the subjects a multiplexed connection is subscribed
//! to, what each client frame does to them, and what each connection event
//! makes the connection loop do.
use crate::seq_sets::{lemma_push_to_set, lemma_remove_to_set};
use vstd::prelude::*;

verus! {

/// How many frames may sit in a connection's outbound queue before producers
/// have to wait.
pub const OUTBOUND_CHANNEL_CAPACITY: usize = 256;

/// Seconds between pings that detect dead connections.
pub const PING_INTERVAL_SECS: u64 = 30;

/// Seconds between mempool statistics frames.
pub const MEMPOOL_STATS_INTERVAL_SECS: u64 = 5;

/// A subject a client can subscribe to.
#[derive(Debug, Clone, Copy, PartialEq, Eq, Structural, Hash)]
pub enum WsSubject {
    ClusterDelta,
    MempoolDelta,
    MempoolStats,
    ChainTip,
}

/// A frame a client sends.
#[derive(Debug, Clone, Copy, PartialEq, Eq, Structural)]
pub enum ClientFrame {
    Subscribe(WsSubject),
    Unsubscribe(WsSubject),
}

/// What applying a client frame asks of the connection.
#[derive(Debug, Clone, Copy, PartialEq, Eq, Structural)]
pub enum FrameAction {
    /// Start the subscription task of this subject.
    Spawn(WsSubject),
    /// Stop the subscription task of this subject.
    Abort(WsSubject),
    /// Nothing changes.
    Ignore,
}

/// Applying `frame` to the subscribed set `before` leaves `after` and asks for
/// `action`: subscribing to a new subject spawns it, unsubscribing from a
/// subscribed one aborts it, and anything else changes nothing.
pub open spec fn apply_step(
    before: Set<WsSubject>,
    frame: ClientFrame,
    after: Set<WsSubject>,
    action: FrameAction,
) -> bool {
    match frame {
        ClientFrame::Subscribe(s) => if before.contains(s) {
            action == FrameAction::Ignore && after == before
        } else {
            action == FrameAction::Spawn(s) && after == before.insert(s)
        },
        ClientFrame::Unsubscribe(s) => if before.contains(s) {
            action == FrameAction::Abort(s) && after == before.remove(s)
        } else {
            action == FrameAction::Ignore && after == before
        },
    }
}

/// The subjects one connection is subscribed to.
#[derive(Debug)]
pub struct Subscriptions {
    pub subjects: Vec<WsSubject>,
}

impl Subscriptions {
    /// Each subject is held once.
    pub open spec fn wf(&self) -> bool {
        self.subjects@.no_duplicates()
    }

    /// The set of subscribed subjects.
    pub open spec fn subscribed(&self) -> Set<WsSubject> {
        self.subjects@.to_set()
    }

    /// A connection subscribed to nothing.
    pub fn new() -> (s: Self)
        ensures
            s.wf(),
            s.subscribed() == Set::<WsSubject>::empty(),
    {
        let s = Subscriptions { subjects: Vec::new() };
        assert(s.subscribed() =~= Set::<WsSubject>::empty());
        s
    }

    /// Where `subject` stands among the subscribed subjects, if it does.
    fn position(&self, subject: WsSubject) -> (pos: Option<usize>)
        ensures
            pos matches Some(i) ==> i < self.subjects@.len() && self.subjects@[i as int]
                == subject,
            pos is None ==> !self.subjects@.contains(subject),
    {
        let mut i: usize = 0;
        while i < self.subjects.len()
            invariant
                i <= self.subjects@.len(),
                forall|j: int| 0 <= j < i ==> self.subjects@[j] != subject,
            decreases self.subjects@.len() - i,
        {
            if self.subjects[i] == subject {
                return Some(i);
            }
            i = i + 1;
        }
        None
    }

    /// Applies a client frame. Subscribing to a subject already subscribed and
    /// unsubscribing from one not subscribed change nothing.
    pub fn apply(&mut self, frame: ClientFrame) -> (action: FrameAction)
        requires
            old(self).wf(),
        ensures
            final(self).wf(),
            apply_step(old(self).subscribed(), frame, final(self).subscribed(), action),
    {
        match frame {
            ClientFrame::Subscribe(s) => {
                match self.position(s) {
                    Some(_) => FrameAction::Ignore,
                    None => {
                        proof {
                            lemma_push_to_set(self.subjects@, s);
                        }
                        self.subjects.push(s);
                        FrameAction::Spawn(s)
                    },
                }
            },
            ClientFrame::Unsubscribe(s) => {
                match self.position(s) {
                    Some(i) => {
                        proof {
                            lemma_remove_to_set(self.subjects@, i as int);
                        }
                        self.subjects.remove(i);
                        FrameAction::Abort(s)
                    },
                    None => FrameAction::Ignore,
                }
            },
        }
    }
}

/// What a connection's socket delivered.
#[derive(Debug)]
pub enum Inbound {
    /// A text frame.
    Text(String),
    /// The client asked to close.
    Close,
    /// Receiving failed.
    Failed,
    /// The client went away.
    Gone,
    /// Any other frame (binary, ping, pong).
    Other,
}

/// One thing a connection loop waited for and got.
#[derive(Debug)]
pub enum ConnectionEvent {
    /// A frame queued for the client, or `None` once every producer is gone.
    Outbound(Option<String>),
    /// Something arrived from the client.
    Inbound(Inbound),
    /// The ping interval elapsed.
    PingDue,
}

/// What a connection loop does next.
#[derive(Debug)]
pub enum ConnectionAction {
    /// Send this text frame to the client.
    Send(String),
    /// Apply this client frame.
    HandleFrame(String),
    /// Send a ping.
    Ping,
    /// Close the connection.
    Close,
    /// Keep waiting.
    Continue,
}

/// The step of a multiplexed connection for one event: queued frames go out,
/// text frames from the client are applied, pings keep the connection checked,
/// and a closed queue, a close, a failed receive or a vanished client end it.
pub fn connection_step(event: ConnectionEvent) -> (action: ConnectionAction)
    ensures
        match event {
            ConnectionEvent::Outbound(Some(text)) => action matches ConnectionAction::Send(t)
                && t == text,
            ConnectionEvent::Outbound(None) => action is Close,
            ConnectionEvent::Inbound(Inbound::Text(text)) => action matches ConnectionAction::HandleFrame(
                t,
            ) && t == text,
            ConnectionEvent::Inbound(Inbound::Other) => action is Continue,
            ConnectionEvent::Inbound(_) => action is Close,
            ConnectionEvent::PingDue => action is Ping,
        },
{
    match event {
        ConnectionEvent::Outbound(Some(text)) => ConnectionAction::Send(text),
        ConnectionEvent::Outbound(None) => ConnectionAction::Close,
        ConnectionEvent::Inbound(Inbound::Text(text)) => ConnectionAction::HandleFrame(text),
        ConnectionEvent::Inbound(Inbound::Other) => ConnectionAction::Continue,
        ConnectionEvent::Inbound(_) => ConnectionAction::Close,
        ConnectionEvent::PingDue => ConnectionAction::Ping,
    }
}

/// One thing a single-stream connection loop waited for and got.
#[derive(Debug)]
pub enum StreamEvent {
    /// The next item of the stream, serialized, or `Err` when serializing it
    /// failed; `None` once the stream has ended.
    Item(Option<Result<String, ()>>),
    /// Something arrived from the client.
    Inbound(Inbound),
    /// The ping interval elapsed.
    PingDue,
}

/// The step of a connection that serves one stream: items go out (one that
/// could not be serialized is skipped), the stream's end or the client's going
/// closes it, and whatever else the client sends is ignored.
pub fn stream_step(event: StreamEvent) -> (action: ConnectionAction)
    ensures
        match event {
            StreamEvent::Item(Some(Ok(text))) => action matches ConnectionAction::Send(t) && t
                == text,
            StreamEvent::Item(Some(Err(_))) => action is Continue,
            StreamEvent::Item(None) => action is Close,
            StreamEvent::Inbound(Inbound::Text(_)) => action is Continue,
            StreamEvent::Inbound(Inbound::Other) => action is Continue,
            StreamEvent::Inbound(_) => action is Close,
            StreamEvent::PingDue => action is Ping,
        },
{
    match event {
        StreamEvent::Item(Some(Ok(text))) => ConnectionAction::Send(text),
        StreamEvent::Item(Some(Err(_))) => ConnectionAction::Continue,
        StreamEvent::Item(None) => ConnectionAction::Close,
        StreamEvent::Inbound(Inbound::Text(_)) => ConnectionAction::Continue,
        StreamEvent::Inbound(Inbound::Other) => ConnectionAction::Continue,
        StreamEvent::Inbound(_) => ConnectionAction::Close,
        StreamEvent::PingDue => ConnectionAction::Ping,
    }
}

/// Subscribing twice to a subject starts its task once.
pub proof fn subscribing_twice_spawns_once(
    s0: Set<WsSubject>,
    subject: WsSubject,
    s1: Set<WsSubject>,
    a1: FrameAction,
    s2: Set<WsSubject>,
    a2: FrameAction,
)
    requires
        apply_step(s0, ClientFrame::Subscribe(subject), s1, a1),
        apply_step(s1, ClientFrame::Subscribe(subject), s2, a2),
    ensures
        a2 == FrameAction::Ignore,
        s2 == s1,
        s1.contains(subject),
{
}

/// Unsubscribing undoes a subscription: the task that subscribing started is
/// stopped, and the connection is subscribed to what it was before.
pub proof fn unsubscribe_undoes_subscribe(
    s0: Set<WsSubject>,
    subject: WsSubject,
    s1: Set<WsSubject>,
    a1: FrameAction,
    s2: Set<WsSubject>,
    a2: FrameAction,
)
    requires
        !s0.contains(subject),
        apply_step(s0, ClientFrame::Subscribe(subject), s1, a1),
        apply_step(s1, ClientFrame::Unsubscribe(subject), s2, a2),
    ensures
        a1 == FrameAction::Spawn(subject),
        a2 == FrameAction::Abort(subject),
        s2 == s0,
{
    assert(s2 =~= s0);
}

} // verus!

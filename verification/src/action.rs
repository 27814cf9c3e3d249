//! The vocabulary between the node and the network under it: what the
//! network reports, what the node is told, and what the node asks for.
use vstd::prelude::*;
use crate::address::Multiaddr;
use crate::channel::ChannelView;
use crate::channel::SourceView;
use crate::command::Command;
use crate::command::CommandView;
use crate::event::Event;
use crate::event::EventView;
use crate::event::MessageEventView;
use crate::message::decoding;
use crate::model::views;
use crate::peer::PeerId;

verus! {

/// Something that happened on the overlay or the transport.
#[derive(Debug, PartialEq, Eq)]
pub enum Occurrence {
    /// Local discovery announced these peers.
    Discovered(Vec<PeerId>),
    /// Local discovery lost these peers.
    Expired(Vec<PeerId>),
    /// A peer told us at which address it sees us.
    Identified(Multiaddr),
    /// The overlay delivered a payload.
    Message { source: PeerId, topic: String, data: Vec<u8> },
    /// A listen address was bound.
    NewListenAddr(Multiaddr),
    /// Anything else.
    Other,
}

/// An [`Occurrence`] as mathematics.
pub enum OccurrenceView {
    Discovered(Seq<Seq<u8>>),
    Expired(Seq<Seq<u8>>),
    Identified(Seq<char>),
    Message { source: Seq<u8>, topic: Seq<char>, data: Seq<u8> },
    NewListenAddr(Seq<char>),
    Other,
}

impl View for Occurrence {
    type V = OccurrenceView;

    open spec fn view(&self) -> OccurrenceView {
        match self {
            Occurrence::Discovered(peers) => OccurrenceView::Discovered(views(peers@)),
            Occurrence::Expired(peers) => OccurrenceView::Expired(views(peers@)),
            Occurrence::Identified(address) => OccurrenceView::Identified(address@),
            Occurrence::Message { source, topic, data } => OccurrenceView::Message {
                source: source@,
                topic: topic@,
                data: data@,
            },
            Occurrence::NewListenAddr(address) => OccurrenceView::NewListenAddr(address@),
            Occurrence::Other => OccurrenceView::Other,
        }
    }
}

/// What the node asks of the network and of the event bus.
#[derive(Debug, PartialEq, Eq)]
pub enum Action {
    /// Dial a peer.
    Dial(Multiaddr),
    /// Bind a listen address.
    Listen(Multiaddr),
    /// Subscribe to a topic.
    Subscribe(String),
    /// Publish a payload on a topic.
    Publish { topic: String, payload: Vec<u8> },
    /// Treat a peer as an explicit overlay peer.
    AddExplicitPeer(PeerId),
    /// Stop treating a peer as an explicit overlay peer.
    RemoveExplicitPeer(PeerId),
    /// Register an address at which others see this node.
    AddExternalAddress(Multiaddr),
    /// Hand an event to the subscribers.
    Emit(Event),
}

/// An [`Action`] as mathematics.
pub enum ActionView {
    Dial(Seq<char>),
    Listen(Seq<char>),
    Subscribe(Seq<char>),
    Publish { topic: Seq<char>, payload: Seq<u8> },
    AddExplicitPeer(Seq<u8>),
    RemoveExplicitPeer(Seq<u8>),
    AddExternalAddress(Seq<char>),
    Emit(EventView),
}

impl View for Action {
    type V = ActionView;

    open spec fn view(&self) -> ActionView {
        match self {
            Action::Dial(address) => ActionView::Dial(address@),
            Action::Listen(address) => ActionView::Listen(address@),
            Action::Subscribe(topic) => ActionView::Subscribe(topic@),
            Action::Publish { topic, payload } => ActionView::Publish {
                topic: topic@,
                payload: payload@,
            },
            Action::AddExplicitPeer(peer) => ActionView::AddExplicitPeer(peer@),
            Action::RemoveExplicitPeer(peer) => ActionView::RemoveExplicitPeer(peer@),
            Action::AddExternalAddress(address) => ActionView::AddExternalAddress(address@),
            Action::Emit(event) => ActionView::Emit(event@),
        }
    }
}

/// What the node is told, one thing at a time.
#[derive(Debug, PartialEq, Eq)]
pub enum Input {
    /// The node is to start.
    Start,
    /// A dial failed, for this reason.
    DialFailed(String),
    /// The bind that the node asked for last could not be made, for this
    /// reason.
    ListenFailed(String),
    /// The bind that the node asked for last was made.
    Bound,
    /// Subscribing failed, for this reason.
    SubscribeFailed(String),
    /// The default channel is joined.
    Joined,
    /// Publishing failed, for this reason.
    PublishFailed(String),
    /// The next command from the queue.
    Command(Command),
    /// The queue is closed: no producer is left.
    Closed,
    /// The network reports something.
    Occurrence(Occurrence),
}

/// An [`Input`] as mathematics.
pub enum InputView {
    Start,
    DialFailed(Seq<char>),
    ListenFailed(Seq<char>),
    Bound,
    SubscribeFailed(Seq<char>),
    Joined,
    PublishFailed(Seq<char>),
    Command(CommandView),
    Closed,
    Occurrence(OccurrenceView),
}

impl View for Input {
    type V = InputView;

    open spec fn view(&self) -> InputView {
        match self {
            Input::Start => InputView::Start,
            Input::DialFailed(reason) => InputView::DialFailed(reason@),
            Input::ListenFailed(reason) => InputView::ListenFailed(reason@),
            Input::Bound => InputView::Bound,
            Input::SubscribeFailed(reason) => InputView::SubscribeFailed(reason@),
            Input::Joined => InputView::Joined,
            Input::PublishFailed(reason) => InputView::PublishFailed(reason@),
            Input::Command(command) => InputView::Command(command@),
            Input::Closed => InputView::Closed,
            Input::Occurrence(occurrence) => InputView::Occurrence(occurrence@),
        }
    }
}

/// For each announced peer, in order: make it an explicit overlay peer, then
/// tell the subscribers.
pub open spec fn welcome(peers: Seq<Seq<u8>>) -> Seq<ActionView> {
    Seq::new(
        2 * peers.len(),
        |k: int|
            if k % 2 == 0 {
                ActionView::AddExplicitPeer(peers[k / 2])
            } else {
                ActionView::Emit(EventView::DiscoveredNode(peers[k / 2]))
            },
    )
}

/// For each lost peer, in order: stop treating it as an explicit overlay
/// peer.
pub open spec fn farewell(peers: Seq<Seq<u8>>) -> Seq<ActionView> {
    Seq::new(peers.len(), |i: int| ActionView::RemoveExplicitPeer(peers[i]))
}

/// What a payload delivered on `topic` leads to: one event with the message
/// it carries, or nothing where it carries none.
pub open spec fn delivery(topic: Seq<char>, data: Seq<u8>) -> Seq<ActionView> {
    match decoding(data) {
        Some(message) => seq![
            ActionView::Emit(
                EventView::ReceivedMessage(
                    MessageEventView {
                        message,
                        source: SourceView::Channel(ChannelView::fresh(topic, None)),
                    },
                ),
            ),
        ],
        None => Seq::empty(),
    }
}

/// What the node asks for when the network reports `occurrence`.
pub open spec fn reaction(occurrence: OccurrenceView) -> Seq<ActionView> {
    match occurrence {
        OccurrenceView::Discovered(peers) => welcome(peers),
        OccurrenceView::Expired(peers) => farewell(peers),
        OccurrenceView::Identified(address) => seq![ActionView::AddExternalAddress(address)],
        OccurrenceView::Message { source, topic, data } => delivery(topic, data),
        OccurrenceView::NewListenAddr(_) => Seq::empty(),
        OccurrenceView::Other => Seq::empty(),
    }
}

} // verus!

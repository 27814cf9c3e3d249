//! Events: what the node tells its subscribers.
use vstd::prelude::*;
use crate::channel::Channel;
use crate::channel::ChannelView;
use crate::channel::Source;
use crate::channel::SourceView;
use crate::error::Error;
use crate::error::ErrorView;
use crate::message::Message;
use crate::message::MessageView;
use crate::peer::PeerId;

verus! {

/// An observation, delivered at most once to each live subscriber.
#[derive(Debug, PartialEq, Eq)]
pub enum Event {
    /// Local discovery announced a peer.
    DiscoveredNode(PeerId),
    /// A message arrived over the overlay.
    ReceivedMessage(MessageEvent),
    /// Reserved: a channel was joined. The node does not emit it yet.
    JoinedChannel(Channel),
    /// Reserved: a channel was left. The node does not emit it yet.
    LeftChannel(Channel),
    /// Reserved: a friend was added. The node does not emit it yet.
    AddedFriend(PeerId),
    /// Reserved: a friend was removed. The node does not emit it yet.
    RemovedFriend(PeerId),
    /// Something failed while the node went on running.
    Error(Error),
}

/// A received message and where it came from.
#[derive(Debug, PartialEq, Eq)]
pub struct MessageEvent {
    pub message: Message,
    pub source: Source,
}

/// A [`MessageEvent`] as mathematics.
pub struct MessageEventView {
    pub message: MessageView,
    pub source: SourceView,
}

/// An [`Event`] as mathematics.
pub enum EventView {
    DiscoveredNode(Seq<u8>),
    ReceivedMessage(MessageEventView),
    JoinedChannel(ChannelView),
    LeftChannel(ChannelView),
    AddedFriend(Seq<u8>),
    RemovedFriend(Seq<u8>),
    Error(ErrorView),
}

impl View for MessageEvent {
    type V = MessageEventView;

    open spec fn view(&self) -> MessageEventView {
        MessageEventView { message: self.message@, source: self.source@ }
    }
}

impl View for Event {
    type V = EventView;

    open spec fn view(&self) -> EventView {
        match self {
            Event::DiscoveredNode(peer) => EventView::DiscoveredNode(peer@),
            Event::ReceivedMessage(received) => EventView::ReceivedMessage(received@),
            Event::JoinedChannel(channel) => EventView::JoinedChannel(channel@),
            Event::LeftChannel(channel) => EventView::LeftChannel(channel@),
            Event::AddedFriend(peer) => EventView::AddedFriend(peer@),
            Event::RemovedFriend(peer) => EventView::RemovedFriend(peer@),
            Event::Error(error) => EventView::Error(error@),
        }
    }
}

impl Clone for MessageEvent {
    fn clone(&self) -> (copy: Self)
        ensures
            copy@ == self@,
    {
        MessageEvent { message: self.message.clone(), source: self.source.clone() }
    }
}

impl Clone for Event {
    fn clone(&self) -> (copy: Self)
        ensures
            copy@ == self@,
    {
        match self {
            Event::DiscoveredNode(peer) => Event::DiscoveredNode(peer.clone()),
            Event::ReceivedMessage(received) => Event::ReceivedMessage(received.clone()),
            Event::JoinedChannel(channel) => Event::JoinedChannel(channel.clone()),
            Event::LeftChannel(channel) => Event::LeftChannel(channel.clone()),
            Event::AddedFriend(peer) => Event::AddedFriend(peer.clone()),
            Event::RemovedFriend(peer) => Event::RemovedFriend(peer.clone()),
            Event::Error(error) => Event::Error(error.clone()),
        }
    }
}

} // verus!

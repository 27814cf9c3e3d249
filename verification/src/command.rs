//! Commands: what callers ask the node to do.
use vstd::prelude::*;
use crate::channel::Channel;
use crate::channel::ChannelView;
use crate::channel::Target;
use crate::channel::TargetView;
use crate::peer::PeerId;

verus! {

/// An intent, consumed exactly once by the node.
///
/// Only `SendMessage` to a channel and `Shutdown` are served. The other
/// commands are reserved: the node asks nothing of the network for them and
/// reports each as unsupported.
#[derive(Debug, PartialEq, Eq)]
pub enum Command {
    /// Reserved: ask whether a peer is there.
    Ping(PeerId),
    /// Publish a text message.
    SendMessage(MessageCommand),
    /// Reserved: join a channel.
    JoinChannel(Channel),
    /// Reserved: leave a channel.
    LeaveChannel(Channel),
    /// Reserved: remember a peer as a friend.
    AddFriend(PeerId),
    /// Reserved: forget a friend.
    RemoveFriend(PeerId),
    /// Stop the node.
    Shutdown,
}

/// The text to send and where it is to go.
#[derive(Debug, PartialEq, Eq)]
pub struct MessageCommand {
    pub message: String,
    pub target: Target,
}

/// A [`MessageCommand`] as mathematics.
pub struct MessageCommandView {
    pub message: Seq<char>,
    pub target: TargetView,
}

/// A [`Command`] as mathematics.
pub enum CommandView {
    Ping(Seq<u8>),
    SendMessage(MessageCommandView),
    JoinChannel(ChannelView),
    LeaveChannel(ChannelView),
    AddFriend(Seq<u8>),
    RemoveFriend(Seq<u8>),
    Shutdown,
}

impl View for MessageCommand {
    type V = MessageCommandView;

    open spec fn view(&self) -> MessageCommandView {
        MessageCommandView { message: self.message@, target: self.target@ }
    }
}

impl View for Command {
    type V = CommandView;

    open spec fn view(&self) -> CommandView {
        match self {
            Command::Ping(peer) => CommandView::Ping(peer@),
            Command::SendMessage(send) => CommandView::SendMessage(send@),
            Command::JoinChannel(channel) => CommandView::JoinChannel(channel@),
            Command::LeaveChannel(channel) => CommandView::LeaveChannel(channel@),
            Command::AddFriend(peer) => CommandView::AddFriend(peer@),
            Command::RemoveFriend(peer) => CommandView::RemoveFriend(peer@),
            Command::Shutdown => CommandView::Shutdown,
        }
    }
}

impl Clone for MessageCommand {
    fn clone(&self) -> (copy: Self)
        ensures
            copy@ == self@,
    {
        MessageCommand { message: self.message.clone(), target: self.target.clone() }
    }
}

impl Clone for Command {
    fn clone(&self) -> (copy: Self)
        ensures
            copy@ == self@,
    {
        match self {
            Command::Ping(peer) => Command::Ping(peer.clone()),
            Command::SendMessage(send) => Command::SendMessage(send.clone()),
            Command::JoinChannel(channel) => Command::JoinChannel(channel.clone()),
            Command::LeaveChannel(channel) => Command::LeaveChannel(channel.clone()),
            Command::AddFriend(peer) => Command::AddFriend(peer.clone()),
            Command::RemoveFriend(peer) => Command::RemoveFriend(peer.clone()),
            Command::Shutdown => Command::Shutdown,
        }
    }
}

} // verus!

//! Channels: named scopes of publish and subscribe.
use vstd::prelude::*;
use crate::message::Message;
use crate::message::MessageView;
use crate::model::views;
use crate::peer::NodeRepr;
use crate::peer::NodeReprView;
use crate::peer::PeerId;

verus! {

/// A channel. It corresponds to the overlay topic of the same name. The
/// password is carried and nowhere enforced.
#[derive(Debug, PartialEq, Eq)]
pub struct Channel {
    pub name: String,
    password: Option<String>,
    nodes: Vec<NodeRepr>,
    messages: Vec<Message>,
}

/// A [`Channel`] as mathematics.
pub struct ChannelView {
    pub name: Seq<char>,
    pub password: Option<Seq<char>>,
    pub nodes: Seq<NodeReprView>,
    pub messages: Seq<MessageView>,
}

impl ChannelView {
    /// The channel of this name that [`Channel::new`] makes.
    pub open spec fn fresh(name: Seq<char>, password: Option<Seq<char>>) -> ChannelView {
        ChannelView { name, password, nodes: Seq::empty(), messages: Seq::empty() }
    }
}

impl View for Channel {
    type V = ChannelView;

    closed spec fn view(&self) -> ChannelView {
        ChannelView {
            name: self.name@,
            password: match self.password {
                Some(p) => Some(p@),
                None => None,
            },
            nodes: views(self.nodes@),
            messages: views(self.messages@),
        }
    }
}

/// A copy of a list of remembered peers.
pub fn clone_nodes(list: &Vec<NodeRepr>) -> (copy: Vec<NodeRepr>)
    ensures
        views(copy@) == views(list@),
{
    let mut copy: Vec<NodeRepr> = Vec::new();
    let mut i: usize = 0;
    while i < list.len()
        invariant
            i <= list@.len(),
            copy@.len() == i,
            forall|k: int| 0 <= k < i ==> (#[trigger] copy@[k])@ == list@[k]@,
        decreases list@.len() - i,
    {
        copy.push(list[i].clone());
        i = i + 1;
    }
    proof {
        assert(views(copy@) =~= views(list@));
    }
    copy
}

/// A copy of a list of messages.
pub fn clone_messages(list: &Vec<Message>) -> (copy: Vec<Message>)
    ensures
        views(copy@) == views(list@),
{
    let mut copy: Vec<Message> = Vec::new();
    let mut i: usize = 0;
    while i < list.len()
        invariant
            i <= list@.len(),
            copy@.len() == i,
            forall|k: int| 0 <= k < i ==> (#[trigger] copy@[k])@ == list@[k]@,
        decreases list@.len() - i,
    {
        copy.push(list[i].clone());
        i = i + 1;
    }
    proof {
        assert(views(copy@) =~= views(list@));
    }
    copy
}

impl Clone for Channel {
    fn clone(&self) -> (copy: Self)
        ensures
            copy@ == self@,
    {
        Channel {
            name: self.name.clone(),
            password: match &self.password {
                Some(p) => Some(p.clone()),
                None => None,
            },
            nodes: clone_nodes(&self.nodes),
            messages: clone_messages(&self.messages),
        }
    }
}

impl Channel {
    /// The channel `name`, with no known member and no message yet.
    pub fn new(name: String, password: Option<String>) -> (channel: Channel)
        ensures
            channel@ == ChannelView::fresh(
                name@,
                match password {
                    Some(p) => Some(p@),
                    None => None,
                },
            ),
    {
        let channel = Channel { name, password, nodes: Vec::new(), messages: Vec::new() };
        proof {
            assert(views(channel.nodes@) =~= Seq::empty());
            assert(views(channel.messages@) =~= Seq::empty());
        }
        channel
    }

    /// The name of the channel, taken out of it.
    pub fn into_name(self) -> (name: String)
        ensures
            name@ == self@.name,
    {
        self.name
    }

    /// The name of the channel, which is the name of its topic.
    pub fn name(&self) -> (name: &str)
        ensures
            name@ == self@.name,
    {
        self.name.as_str()
    }

    /// Whether the channel has a name: the empty name names no topic.
    pub fn is_named(&self) -> (named: bool)
        ensures
            named == (self@.name.len() > 0),
    {
        self.name.as_str().unicode_len() > 0
    }
}

/// Where a message is to go.
#[derive(Debug, PartialEq, Eq)]
pub enum Target {
    /// To one peer.
    Direct(PeerId),
    /// To everyone on a channel.
    Channel(Channel),
}

/// A [`Target`] as mathematics.
pub enum TargetView {
    Direct(Seq<u8>),
    Channel(ChannelView),
}

impl View for Target {
    type V = TargetView;

    open spec fn view(&self) -> TargetView {
        match self {
            Target::Direct(peer) => TargetView::Direct(peer@),
            Target::Channel(channel) => TargetView::Channel(channel@),
        }
    }
}

impl Clone for Target {
    fn clone(&self) -> (copy: Self)
        ensures
            copy@ == self@,
    {
        match self {
            Target::Direct(peer) => Target::Direct(peer.clone()),
            Target::Channel(channel) => Target::Channel(channel.clone()),
        }
    }
}

/// Where a message came from.
#[derive(Debug, PartialEq, Eq)]
pub enum Source {
    /// From one peer, directly.
    Direct(PeerId),
    /// From a channel.
    Channel(Channel),
}

/// A [`Source`] as mathematics.
pub enum SourceView {
    Direct(Seq<u8>),
    Channel(ChannelView),
}

impl View for Source {
    type V = SourceView;

    open spec fn view(&self) -> SourceView {
        match self {
            Source::Direct(peer) => SourceView::Direct(peer@),
            Source::Channel(channel) => SourceView::Channel(channel@),
        }
    }
}

impl Clone for Source {
    fn clone(&self) -> (copy: Self)
        ensures
            copy@ == self@,
    {
        match self {
            Source::Direct(peer) => Source::Direct(peer.clone()),
            Source::Channel(channel) => Source::Channel(channel.clone()),
        }
    }
}

} // verus!

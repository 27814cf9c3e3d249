//! Networks: named overlays and who may join them.
use vstd::prelude::*;
use crate::action::Action;
use crate::action::ActionView;
use crate::error::Error;
use crate::error::ErrorView;
use crate::message::Message;
use crate::message::MessageView;
use crate::model::views;
use crate::node::unsupported;
use crate::peer::PeerId;
use crate::text::joined;

verus! {

/// How a network decides who may join.
#[derive(Debug, PartialEq, Eq)]
pub enum NetworkType {
    /// Anyone may join.
    Public,
    /// Several nodes; joining takes a secret.
    Protected(String),
    /// Two nodes that talk to each other directly.
    Private(PeerId),
}

/// A [`NetworkType`] as mathematics.
pub enum NetworkTypeView {
    Public,
    Protected(Seq<char>),
    Private(Seq<u8>),
}

impl View for NetworkType {
    type V = NetworkTypeView;

    open spec fn view(&self) -> NetworkTypeView {
        match self {
            NetworkType::Public => NetworkTypeView::Public,
            NetworkType::Protected(secret) => NetworkTypeView::Protected(secret@),
            NetworkType::Private(peer) => NetworkTypeView::Private(peer@),
        }
    }
}

impl Clone for NetworkType {
    fn clone(&self) -> (copy: Self)
        ensures
            copy@ == self@,
    {
        match self {
            NetworkType::Public => NetworkType::Public,
            NetworkType::Protected(secret) => NetworkType::Protected(secret.clone()),
            NetworkType::Private(peer) => NetworkType::Private(peer.clone()),
        }
    }
}

/// A network: its name, its kind, who takes part and what was said.
#[derive(Debug, PartialEq, Eq)]
pub struct Network {
    name: String,
    t: NetworkType,
    participants: Vec<PeerId>,
    messages: Vec<Message>,
}

/// A [`Network`] as mathematics.
pub struct NetworkView {
    pub name: Seq<char>,
    pub t: NetworkTypeView,
    pub participants: Seq<Seq<u8>>,
    pub messages: Seq<MessageView>,
}

impl View for Network {
    type V = NetworkView;

    closed spec fn view(&self) -> NetworkView {
        NetworkView {
            name: self.name@,
            t: self.t@,
            participants: views(self.participants@),
            messages: views(self.messages@),
        }
    }
}

/// What joining `network` asks for: a public network is joined by
/// subscribing to the topic of its name; the other kinds are not served.
pub open spec fn joining(network: NetworkView) -> Result<ActionView, ErrorView> {
    match network.t {
        NetworkTypeView::Public => Ok(ActionView::Subscribe(network.name)),
        NetworkTypeView::Protected(_) => Err(unsupported("connect to a protected network"@)),
        NetworkTypeView::Private(_) => Err(unsupported("connect to a private network"@)),
    }
}

impl Network {
    /// The network `name` of kind `t`, with nobody in it and nothing said.
    /// The empty name is refused.
    pub fn new(name: String, t: NetworkType) -> (network: Result<Network, Error>)
        ensures
            network is Err <==> name@.len() == 0,
            network matches Err(e) ==> e@ == ErrorView::Swarm("Invalid network name: "@ + name@),
            network matches Ok(n) ==> n@ == (NetworkView {
                name: name@,
                t: t@,
                participants: Seq::empty(),
                messages: Seq::empty(),
            }),
    {
        if name.as_str().unicode_len() == 0 {
            return Err(Error::Swarm(joined("Invalid network name: ", name.as_str())));
        }
        let network = Network { name, t, participants: Vec::new(), messages: Vec::new() };
        proof {
            assert(views(network.participants@) =~= Seq::empty());
            assert(views(network.messages@) =~= Seq::empty());
        }
        Ok(network)
    }

    /// The name of the network.
    pub fn name(&self) -> (name: String)
        ensures
            name@ == self@.name,
    {
        self.name.clone()
    }

    /// The kind of the network.
    pub fn network_type(&self) -> (t: NetworkType)
        ensures
            t@ == self@.t,
    {
        self.t.clone()
    }

    /// What joining this network asks for.
    pub fn connect_public(&self) -> (action: Result<Action, Error>)
        ensures
            match joining(self@) {
                Ok(a) => action matches Ok(got) && got@ == a,
                Err(e) => action matches Err(got) && got@ == e,
            },
    {
        match &self.t {
            NetworkType::Public => Ok(Action::Subscribe(self.name.clone())),
            NetworkType::Protected(_) => Err(
                Error::Swarm(joined("Unsupported command: ", "connect to a protected network")),
            ),
            NetworkType::Private(_) => Err(
                Error::Swarm(joined("Unsupported command: ", "connect to a private network")),
            ),
        }
    }
}

/// Decides which topics peers may subscribe to: every one.
#[derive(Debug, Clone, Copy, Default, PartialEq, Eq)]
pub struct NetworkSubscriptionFilter;

impl NetworkSubscriptionFilter {
    /// Whether a peer may subscribe to `topic`: always.
    pub fn can_subscribe(&mut self, topic: &str) -> (allowed: bool)
        ensures
            allowed,
    {
        true
    }
}

} // verus!

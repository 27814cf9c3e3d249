//! The node: the decisions of its runtime.
//!
//! The node decides and the network acts. Each thing that happens is handed
//! to the node as an [`Input`]; the node answers with the [`Action`]s it
//! asks for and moves through its states: it initialises, listens, runs and
//! stops. Whoever drives the node performs the actions: dialing, binding,
//! publishing, handing events to the subscribers.
use vstd::prelude::*;
use vstd::utf8::encode_utf8;
use crate::action::reaction;
use crate::action::Action;
use crate::action::ActionView;
use crate::action::Input;
use crate::action::InputView;
use crate::action::Occurrence;
use crate::action::OccurrenceView;
use crate::action::farewell;
use crate::action::welcome;
use crate::bus::CommandQueue;
use crate::bus::QueueView;
use crate::bus::SubscriberView;
use crate::channel::Channel;
use crate::channel::ChannelView;
use crate::channel::Source;
use crate::channel::SourceView;
use crate::channel::Target;
use crate::channel::TargetView;
use crate::command::Command;
use crate::command::CommandView;
use crate::command::MessageCommand;
use crate::command::MessageCommandView;
use crate::config::default_addresses;
use crate::config::Config;
use crate::data::Data;
use crate::error::Error;
use crate::error::ErrorView;
use crate::event::Event;
use crate::event::EventView;
use crate::event::MessageEvent;
use crate::event::MessageEventView;
use crate::message::encoding;
use crate::message::fresh_id;
use crate::message::is_random_id;
use crate::message::lemma_decoding_of_encoding;
use crate::message::now_millis;
use crate::message::Message;
use crate::message::MessageView;
use crate::model::lemma_views_push;
use crate::model::view_of;
use crate::model::views;
use crate::peer::is_peer_id;
use crate::peer::peer_id_of;
use crate::peer::NodeRepr;
use crate::peer::NodeReprView;
use crate::peer::PeerId;
use crate::text::joined;
use crate::wire::pow256;

verus! {

/// The name of the channel that every node joins at startup.
pub const MAIN_NET: &'static str = "main";

/// The capacity of the command queue and of each subscriber's backlog.
pub const CHANNEL_SIZE: usize = 1024;

/// Where a node is in its life.
#[derive(Debug, Clone, Copy, PartialEq, Eq, Structural)]
pub enum NodeState {
    /// Dialing the bootstrap peers and binding the listen addresses.
    Initializing,
    /// Bound; joining the default channel.
    Listening,
    /// Taking commands and occurrences.
    Running,
    /// Done. Nothing is processed any more.
    Stopped,
}

/// What makes a message this message and no other: its id and its time.
#[derive(Debug, Clone, Copy, PartialEq, Eq, Structural)]
pub struct Stamp {
    pub id: u128,
    pub now: i64,
}

impl Stamp {
    /// A new random id and the wall clock's time. The id is laid out as
    /// the standard lays out a random identifier; of the time nothing holds
    /// whenever it is asked.
    pub fn fresh() -> (stamp: Stamp)
        ensures
            is_random_id(stamp.id),
    {
        Stamp { id: fresh_id(), now: now_millis() }
    }
}

/// The node.
#[derive(Debug)]
pub struct Node {
    config: Config,
    data: Data,
    state: NodeState,
    asked: usize,
    failure: Option<Error>,
}

/// A [`Node`] as mathematics.
pub struct NodeView {
    pub name: Seq<char>,
    pub keypair: libp2p::identity::Keypair,
    pub id: Seq<u8>,
    pub addresses: Seq<Seq<char>>,
    pub bootnodes: Seq<Seq<char>>,
    /// The peers that the node remembers.
    pub nodes: Seq<NodeReprView>,
    pub channels: Seq<ChannelView>,
    pub state: NodeState,
    /// How many binds the node has asked for since it started; none before
    /// it was started.
    pub asked: nat,
    pub failure: Option<ErrorView>,
}

/// The error for a command or a target that the node does not serve yet.
pub open spec fn unsupported(what: Seq<char>) -> ErrorView {
    ErrorView::Swarm("Unsupported command: "@ + what)
}

/// The event that reports `error` to the subscribers.
pub open spec fn report(error: ErrorView) -> Seq<ActionView> {
    seq![ActionView::Emit(EventView::Error(error))]
}

impl NodeView {
    /// What holds of every node that can be built: its id is the peer
    /// identifier of its keypair; name and id are short enough for their
    /// lengths to be written in eight bytes; it has an address to listen on
    /// and has asked for no more binds than it has addresses; only a stopped
    /// node has recorded an error; a node that has not run yet has joined no
    /// channel, and a running node has joined the default channel and no
    /// other.
    pub open spec fn wf(self) -> bool {
        &&& self.id == peer_id_of(self.keypair)
        &&& self.addresses.len() > 0
        &&& self.asked <= self.addresses.len()
        &&& is_peer_id(self.id)
        &&& self.id.len() < pow256(8)
        &&& encode_utf8(self.name).len() < pow256(8)
        &&& self.failure is Some ==> self.state == NodeState::Stopped
        &&& self.state == NodeState::Initializing || self.state == NodeState::Listening
            ==> self.channels.len() == 0
        &&& self.state == NodeState::Running ==> self.channels == seq![
            ChannelView::fresh(MAIN_NET@, None),
        ]
    }

    /// One dial for each bootstrap peer, in order.
    pub open spec fn dial_actions(self) -> Seq<ActionView> {
        Seq::new(self.bootnodes.len(), |i: int| ActionView::Dial(self.bootnodes[i]))
    }

    /// The bind whose turn it is: that of the first address that no bind
    /// was asked for yet; nothing where every address had its turn.
    pub open spec fn next_bind(self) -> Seq<ActionView> {
        if self.asked < self.addresses.len() {
            seq![ActionView::Listen(self.addresses[self.asked as int])]
        } else {
            Seq::empty()
        }
    }

    /// The node after it asked for one more bind.
    pub open spec fn asking(self) -> NodeView {
        NodeView { asked: self.asked + 1, ..self }
    }

    /// The message that this node authors with `content` and `stamp`.
    pub open spec fn authored(self, content: Seq<char>, stamp: Stamp) -> MessageView {
        MessageView {
            id: stamp.id,
            author_name: self.name,
            author_id: self.id,
            content,
            timestamp: stamp.now,
        }
    }

    /// What sending leads to: to a channel, the message is published on the
    /// topic of the channel's name; to a single peer, it is refused.
    pub open spec fn sent(self, send: MessageCommandView, stamp: Stamp) -> Result<
        ActionView,
        ErrorView,
    > {
        match send.target {
            TargetView::Channel(channel) => Ok(
                ActionView::Publish {
                    topic: channel.name,
                    payload: encoding(self.authored(send.message, stamp)),
                },
            ),
            TargetView::Direct(_) => Err(unsupported("SendMessage to a single peer"@)),
        }
    }

    /// What a command leads to. Only sending to a channel is served. The
    /// reserved commands do nothing and say so with an error. Shutdown asks
    /// nothing of the network.
    pub open spec fn commanded(self, command: CommandView, stamp: Stamp) -> Result<
        Seq<ActionView>,
        ErrorView,
    > {
        match command {
            CommandView::SendMessage(send) => match self.sent(send, stamp) {
                Ok(action) => Ok(seq![action]),
                Err(error) => Err(error),
            },
            CommandView::Ping(_) => Err(unsupported("Ping"@)),
            CommandView::JoinChannel(_) => Err(unsupported("JoinChannel"@)),
            CommandView::LeaveChannel(_) => Err(unsupported("LeaveChannel"@)),
            CommandView::AddFriend(_) => Err(unsupported("AddFriend"@)),
            CommandView::RemoveFriend(_) => Err(unsupported("RemoveFriend"@)),
            CommandView::Shutdown => Ok(Seq::empty()),
        }
    }

    /// The node in another state.
    pub open spec fn in_state(self, state: NodeState) -> NodeView {
        NodeView { state, ..self }
    }

    /// The node stopped by `error`.
    pub open spec fn failed(self, error: ErrorView) -> NodeView {
        NodeView { state: NodeState::Stopped, failure: Some(error), ..self }
    }

    /// The node running, with the default channel among its channels.
    pub open spec fn joined(self) -> NodeView {
        NodeView {
            channels: self.channels.push(ChannelView::fresh(MAIN_NET@, None)),
            state: NodeState::Running,
            ..self
        }
    }

    /// How the run ended: `None` while the node has not stopped, then
    /// success or the error that stopped it.
    pub open spec fn outcome(self) -> Option<Result<(), ErrorView>> {
        if self.state != NodeState::Stopped {
            None
        } else {
            match self.failure {
                Some(error) => Some(Err(error)),
                None => Some(Ok(())),
            }
        }
    }

    /// One step: the node after `input`, and what it asks for.
    ///
    /// A stopped node stays as it is and asks for nothing. Otherwise:
    ///
    /// - Starting, once, asks for a dial of every bootstrap peer and for the
    ///   bind of the first listen address. Each bind that was made leads to
    ///   the next, one at a time and in the order of the addresses; after
    ///   the last the node listens and asks to subscribe to the default
    ///   channel. Once joined, it runs.
    /// - A failed bind or subscription stops the node with that error, so
    ///   that no further bind is asked for. A failed dial or publish is
    ///   reported to the subscribers and changes nothing.
    /// - Commands are taken only while the node runs: shutdown and the
    ///   closing of the queue stop it with success; any other command is
    ///   served, and one that fails is reported. A node that does not run
    ///   leaves a command alone.
    /// - An occurrence is answered in every state.
    #[verifier::opaque]
    pub open spec fn step(self, input: InputView, stamp: Stamp) -> (NodeView, Seq<ActionView>) {
        if self.state == NodeState::Stopped {
            (self, Seq::empty())
        } else {
            match input {
                InputView::Start => if self.state == NodeState::Initializing && self.asked == 0 {
                    (self.asking(), self.dial_actions() + self.next_bind())
                } else {
                    (self, Seq::empty())
                },
                InputView::DialFailed(reason) => (
                    self,
                    report(ErrorView::Swarm("Failed dialing known nodes: "@ + reason)),
                ),
                InputView::ListenFailed(reason) => (
                    self.failed(ErrorView::Swarm("Failed running the swarm: "@ + reason)),
                    Seq::empty(),
                ),
                InputView::Bound => if self.state == NodeState::Initializing && self.asked > 0 {
                    if self.asked < self.addresses.len() {
                        (self.asking(), self.next_bind())
                    } else {
                        (
                            self.in_state(NodeState::Listening),
                            seq![ActionView::Subscribe(MAIN_NET@)],
                        )
                    }
                } else {
                    (self, Seq::empty())
                },
                InputView::SubscribeFailed(reason) => (
                    self.failed(ErrorView::Swarm("Failed subscribing to topic: "@ + reason)),
                    Seq::empty(),
                ),
                InputView::Joined => if self.state == NodeState::Listening {
                    (self.joined(), Seq::empty())
                } else {
                    (self, Seq::empty())
                },
                InputView::PublishFailed(reason) => (
                    self,
                    report(ErrorView::Swarm("Failed to send message: "@ + reason)),
                ),
                InputView::Command(command) => if self.state != NodeState::Running {
                    (self, Seq::empty())
                } else if command == CommandView::Shutdown {
                    (self.in_state(NodeState::Stopped), Seq::empty())
                } else {
                    match self.commanded(command, stamp) {
                        Ok(actions) => (self, actions),
                        Err(error) => (self, report(error)),
                    }
                },
                InputView::Closed => if self.state != NodeState::Running {
                    (self, Seq::empty())
                } else {
                    (self.in_state(NodeState::Stopped), Seq::empty())
                },
                InputView::Occurrence(occurrence) => (self, reaction(occurrence)),
            }
        }
    }

    /// What serving the queue once leads to: the node, the queue and what
    /// the node asks for. A node that runs takes the oldest command that
    /// waits and makes one step with it; where none waits and the queue is
    /// closed, it is told so. A node that does not run leaves the queue as
    /// it is.
    pub open spec fn served_next(self, queue: QueueView, stamp: Stamp) -> (
        NodeView,
        QueueView,
        Seq<ActionView>,
    ) {
        if self.state != NodeState::Running {
            (self, queue, Seq::empty())
        } else if queue.pending.len() > 0 {
            let made = self.step(InputView::Command(queue.pending[0]), stamp);
            (made.0, queue.taken(), made.1)
        } else if queue.closed {
            let made = self.step(InputView::Closed, stamp);
            (made.0, queue, made.1)
        } else {
            (self, queue, Seq::empty())
        }
    }

    /// What serving the queue once for each of `stamps` leads to, with
    /// nothing else told to the node in between.
    pub open spec fn served(self, queue: QueueView, stamps: Seq<Stamp>) -> (
        NodeView,
        QueueView,
        Seq<ActionView>,
    )
        decreases stamps.len(),
    {
        if stamps.len() == 0 {
            (self, queue, Seq::empty())
        } else {
            let before = self.served(queue, stamps.drop_last());
            let last = before.0.served_next(before.1, stamps.last());
            (last.0, last.1, before.2 + last.2)
        }
    }

    /// A whole run: one step for each input of `told`, in order, each with
    /// the stamp that stands beside it.
    pub open spec fn run(self, told: Seq<(InputView, Stamp)>) -> (NodeView, Seq<ActionView>)
        decreases told.len(),
    {
        if told.len() == 0 {
            (self, Seq::empty())
        } else {
            let before = self.run(told.drop_last());
            let last = before.0.step(told.last().0, told.last().1);
            (last.0, before.1 + last.1)
        }
    }
}

impl View for Node {
    type V = NodeView;

    closed spec fn view(&self) -> NodeView {
        NodeView {
            name: self.config@.name,
            keypair: self.config@.keypair,
            id: self.data@.local_peer_id,
            addresses: self.config@.addresses,
            bootnodes: self.config@.bootnodes,
            nodes: self.data@.nodes,
            channels: self.data@.channels,
            state: self.state,
            asked: self.asked as nat,
            failure: view_of(self.failure),
        }
    }
}

/// A stopped node stays as it is and asks for nothing, whatever it is told.
pub proof fn lemma_stopped_is_final(node: NodeView, input: InputView, stamp: Stamp)
    requires
        node.state == NodeState::Stopped,
    ensures
        node.step(input, stamp) == (node, Seq::<ActionView>::empty()),
{
    reveal(NodeView::step);
}

/// Every step leaves a node one that can be built.
pub proof fn lemma_step_keeps_wf(node: NodeView, input: InputView, stamp: Stamp)
    requires
        node.wf(),
    ensures
        node.step(input, stamp).0.wf(),
{
    reveal(NodeView::step);
    if node.state == NodeState::Listening {
        assert(node.channels.push(ChannelView::fresh(MAIN_NET@, None)) =~= seq![
            ChannelView::fresh(MAIN_NET@, None),
        ]);
    }
}

/// What a node is stays what it is: no step changes its name, its keypair,
/// its id, its addresses, its bootstrap peers or the peers it remembers.
pub proof fn lemma_identity_is_kept(node: NodeView, input: InputView, stamp: Stamp)
    ensures
        node.step(input, stamp).0.name == node.name,
        node.step(input, stamp).0.keypair == node.keypair,
        node.step(input, stamp).0.id == node.id,
        node.step(input, stamp).0.addresses == node.addresses,
        node.step(input, stamp).0.bootnodes == node.bootnodes,
        node.step(input, stamp).0.nodes == node.nodes,
{
    reveal(NodeView::step);
}

/// Commands are taken only while the node runs: a node that does not run
/// stays as it is and asks for nothing when it is handed a command or told
/// that the queue is closed.
pub proof fn lemma_commands_wait_for_running(node: NodeView, input: InputView, stamp: Stamp)
    requires
        node.state != NodeState::Running,
        input is Command || input is Closed,
    ensures
        node.step(input, stamp) == (node, Seq::<ActionView>::empty()),
{
    reveal(NodeView::step);
}

/// Startup binds one address at a time. Starting asks for the dials and the
/// first bind; each bind that was made leads to the bind of the next
/// address in the list, and the last to the subscription to the default
/// channel. A bind that failed stops the node with a swarm error and leads
/// to nothing: the addresses behind it are never asked for.
pub proof fn lemma_binds_one_at_a_time(node: NodeView, reason: Seq<char>, stamp: Stamp)
    requires
        node.state == NodeState::Initializing,
    ensures
        node.asked == 0 ==> node.step(InputView::Start, stamp) == (
            node.asking(),
            node.dial_actions() + node.next_bind(),
        ),
        node.asked == 0 ==> node.step(InputView::Bound, stamp) == (
            node,
            Seq::<ActionView>::empty(),
        ),
        0 < node.asked < node.addresses.len() ==> node.step(InputView::Bound, stamp) == (
            node.asking(),
            seq![ActionView::Listen(node.addresses[node.asked as int])],
        ),
        0 < node.asked && node.asked >= node.addresses.len() ==> node.step(
            InputView::Bound,
            stamp,
        ) == (node.in_state(NodeState::Listening), seq![ActionView::Subscribe(MAIN_NET@)]),
        node.step(InputView::ListenFailed(reason), stamp) == (
            node.failed(ErrorView::Swarm("Failed running the swarm: "@ + reason)),
            Seq::<ActionView>::empty(),
        ),
        forall|next: InputView, later: Stamp|
            (#[trigger] node.step(InputView::ListenFailed(reason), stamp).0.step(next, later)).1
                == Seq::<ActionView>::empty(),
{
    reveal(NodeView::step);
}

/// What a node is told during a startup in which the first `made` binds
/// succeed: to start, and then of each bind that it was made.
pub open spec fn startup(made: nat) -> Seq<(InputView, Stamp)> {
    Seq::new(
        made + 1,
        |k: int|
            if k == 0 {
                (InputView::Start, Stamp { id: 0, now: 0 })
            } else {
                (InputView::Bound, Stamp { id: 0, now: 0 })
            },
    )
}

/// The binds are asked for in the order of the addresses: a new node that is
/// started and told of `made` binds, fewer than it has addresses, has asked
/// for its dials and then for the binds of the first `made + 1` addresses,
/// in order, and for nothing else.
pub proof fn lemma_binds_in_order(node: NodeView, made: nat)
    requires
        node.state == NodeState::Initializing,
        node.asked == 0,
        made < node.addresses.len(),
    ensures
        node.run(startup(made)) == (
            NodeView { asked: made + 1, ..node },
            node.dial_actions() + Seq::new(
                made + 1,
                |i: int| ActionView::Listen(node.addresses[i]),
            ),
        ),
    decreases made,
{
    reveal(NodeView::step);
    let told = startup(made);
    let binds = Seq::new(made + 1, |i: int| ActionView::Listen(node.addresses[i]));
    if made == 0 {
        assert(told.drop_last() =~= Seq::<(InputView, Stamp)>::empty());
        assert(node.run(told.drop_last()) == (node, Seq::<ActionView>::empty()));
        assert(Seq::<ActionView>::empty() + (node.dial_actions() + node.next_bind())
            =~= node.dial_actions() + binds);
    } else {
        let fewer = (made - 1) as nat;
        lemma_binds_in_order(node, fewer);
        assert(told.drop_last() =~= startup(fewer));
        let before = NodeView { asked: made, ..node };
        let earlier = Seq::new(fewer + 1, |i: int| ActionView::Listen(node.addresses[i]));
        assert((node.dial_actions() + earlier) + before.next_bind() =~= node.dial_actions()
            + binds);
        assert(before.asking() == (NodeView { asked: made + 1, ..node }));
    }
}

/// The default channel is joined last and once: a new node that is started
/// and told of the bind of each of its addresses has asked, in this order,
/// for its dials, for the bind of every address and then for one
/// subscription, to the default channel. Only then does it listen, and only
/// when it is told that it has joined does it run and take commands.
pub proof fn lemma_startup_joins_main_last(node: NodeView, stamp: Stamp)
    requires
        node.wf(),
        node.state == NodeState::Initializing,
        node.asked == 0,
    ensures
        node.run(startup(node.addresses.len())) == (
            NodeView { asked: node.addresses.len(), state: NodeState::Listening, ..node },
            node.dial_actions() + Seq::new(
                node.addresses.len(),
                |i: int| ActionView::Listen(node.addresses[i]),
            ) + seq![ActionView::Subscribe(MAIN_NET@)],
        ),
        node.run(startup(node.addresses.len())).0.step(InputView::Joined, stamp).0.state
            == NodeState::Running,
        node.run(startup(node.addresses.len())).0.step(InputView::Joined, stamp).1
            == Seq::<ActionView>::empty(),
{
    reveal(NodeView::step);
    let all = node.addresses.len();
    let fewer = (all - 1) as nat;
    lemma_binds_in_order(node, fewer);
    assert(startup(all).drop_last() =~= startup(fewer));
    assert(startup(all).last().0 == InputView::Bound);
    let before = NodeView { asked: all, ..node };
    assert(before.in_state(NodeState::Listening) == (NodeView {
        asked: all,
        state: NodeState::Listening,
        ..node
    }));
}

/// Shutdown always stops a node that runs, with success, and asks nothing of
/// the network. So does the closing of the queue.
pub proof fn lemma_shutdown_stops(node: NodeView, stamp: Stamp)
    requires
        node.wf(),
        node.state == NodeState::Running,
    ensures
        node.step(InputView::Command(CommandView::Shutdown), stamp).0.outcome() == Some(
            Ok::<(), ErrorView>(()),
        ),
        node.step(InputView::Command(CommandView::Shutdown), stamp).1.len() == 0,
        node.step(InputView::Closed, stamp).0.outcome() == Some(Ok::<(), ErrorView>(())),
        node.step(InputView::Closed, stamp).1.len() == 0,
{
    reveal(NodeView::step);
}

/// A failed publish is reported, whatever waits in the queue: a node that
/// has not stopped answers it with one error event and stays as it is.
pub proof fn lemma_failed_publish_is_reported(node: NodeView, reason: Seq<char>, stamp: Stamp)
    requires
        node.state != NodeState::Stopped,
    ensures
        node.step(InputView::PublishFailed(reason), stamp) == (
            node,
            seq![
                ActionView::Emit(
                    EventView::Error(ErrorView::Swarm("Failed to send message: "@ + reason)),
                ),
            ],
        ),
{
    reveal(NodeView::step);
}

/// Only a failed bind or a failed subscription stops a node with an error:
/// after any other input a node that had recorded none has recorded none.
pub proof fn lemma_only_startup_fails(node: NodeView, input: InputView, stamp: Stamp)
    requires
        node.failure is None,
        !(input is ListenFailed),
        !(input is SubscribeFailed),
    ensures
        node.step(input, stamp).0.failure is None,
{
    reveal(NodeView::step);
}

/// Every run leaves a node one that can be built.
pub proof fn lemma_run_keeps_wf(node: NodeView, told: Seq<(InputView, Stamp)>)
    requires
        node.wf(),
    ensures
        node.run(told).0.wf(),
    decreases told.len(),
{
    if told.len() > 0 {
        lemma_run_keeps_wf(node, told.drop_last());
        lemma_step_keeps_wf(node.run(told.drop_last()).0, told.last().0, told.last().1);
    }
}

/// A run over a stopped node changes nothing and asks for nothing.
pub proof fn lemma_run_of_stopped(node: NodeView, told: Seq<(InputView, Stamp)>)
    requires
        node.state == NodeState::Stopped,
    ensures
        node.run(told) == (node, Seq::<ActionView>::empty()),
    decreases told.len(),
{
    reveal(NodeView::step);
    if told.len() > 0 {
        lemma_run_of_stopped(node, told.drop_last());
        assert(Seq::<ActionView>::empty() + Seq::<ActionView>::empty() =~= Seq::<
            ActionView,
        >::empty());
    }
}

/// A run can be cut in two: what was told first, then the rest.
pub proof fn lemma_run_split(node: NodeView, told: Seq<(InputView, Stamp)>, at: int)
    requires
        0 <= at <= told.len(),
    ensures
        ({
            let first = node.run(told.subrange(0, at));
            let rest = first.0.run(told.subrange(at, told.len() as int));
            node.run(told) == (rest.0, first.1 + rest.1)
        }),
    decreases told.len() - at,
{
    let first = node.run(told.subrange(0, at));
    let tail = told.subrange(at, told.len() as int);
    if at == told.len() {
        assert(told.subrange(0, at) =~= told);
        assert(first.1 + Seq::<ActionView>::empty() =~= first.1);
    } else {
        let shorter = told.drop_last();
        lemma_run_split(node, shorter, at);
        assert(shorter.subrange(0, at) =~= told.subrange(0, at));
        assert(shorter.subrange(at, shorter.len() as int) =~= tail.drop_last());
        let mid = first.0.run(tail.drop_last());
        assert(tail.last() == told.last());
        let last = mid.0.step(told.last().0, told.last().1);
        assert((first.1 + mid.1) + last.1 =~= first.1 + (mid.1 + last.1));
    }
}

/// Once a running node has been handed a shutdown, nothing that it is told
/// afterwards is processed: the run ends where the shutdown stood, with
/// success.
pub proof fn lemma_shutdown_ends_run(node: NodeView, told: Seq<(InputView, Stamp)>, at: int)
    requires
        node.wf(),
        0 <= at < told.len(),
        told[at].0 == InputView::Command(CommandView::Shutdown),
        node.run(told.subrange(0, at)).0.state == NodeState::Running,
    ensures
        node.run(told) == node.run(told.subrange(0, at + 1)),
        node.run(told).0.outcome() == Some(Ok::<(), ErrorView>(())),
{
    reveal(NodeView::step);
    let upto = told.subrange(0, at + 1);
    let first = node.run(upto);
    lemma_run_split(node, told, at + 1);
    assert(upto.drop_last() =~= told.subrange(0, at));
    assert(upto.last() == told[at]);
    lemma_run_keeps_wf(node, told.subrange(0, at));
    assert(first.0.state == NodeState::Stopped);
    lemma_run_of_stopped(first.0, told.subrange(at + 1, told.len() as int));
    assert(first.1 + Seq::<ActionView>::empty() =~= first.1);
}

/// A node that does not run leaves the queue as it is, however often the
/// queue is served.
pub proof fn lemma_served_waits_for_running(node: NodeView, queue: QueueView, stamps: Seq<Stamp>)
    requires
        node.state != NodeState::Running,
    ensures
        node.served(queue, stamps) == (node, queue, Seq::<ActionView>::empty()),
    decreases stamps.len(),
{
    if stamps.len() > 0 {
        lemma_served_waits_for_running(node, queue, stamps.drop_last());
        assert(Seq::<ActionView>::empty() + Seq::<ActionView>::empty() =~= Seq::<
            ActionView,
        >::empty());
    }
}

/// Serving the queue takes one command each time, oldest first, up to the
/// first shutdown, which stops the node with success; what waits behind
/// that shutdown is left in the queue, however often the queue is served.
pub proof fn lemma_serving(
    node: NodeView,
    queue: QueueView,
    stamps: Seq<Stamp>,
    at: int,
    times: int,
)
    requires
        node.wf(),
        node.state == NodeState::Running,
        0 <= at < queue.pending.len(),
        queue.pending[at] == CommandView::Shutdown,
        forall|k: int| 0 <= k < at ==> queue.pending[k] != CommandView::Shutdown,
        0 <= times <= stamps.len(),
    ensures
        ({
            let now = node.served(queue, stamps.subrange(0, times));
            let all = queue.pending.len() as int;
            &&& times <= at ==> now.0.state == NodeState::Running && now.0.wf() && now.1 == (
                QueueView { pending: queue.pending.subrange(times, all), ..queue }
            )
            &&& times > at ==> now.0.outcome() == Some(Ok::<(), ErrorView>(())) && now.1 == (
                QueueView { pending: queue.pending.subrange(at + 1, all), ..queue }
            )
        }),
    decreases times,
{
    reveal(NodeView::step);
    let all = queue.pending.len() as int;
    if times == 0 {
        assert(queue.pending.subrange(0, all) =~= queue.pending);
    } else {
        lemma_serving(node, queue, stamps, at, times - 1);
        assert(stamps.subrange(0, times).drop_last() =~= stamps.subrange(0, times - 1));
        let before = node.served(queue, stamps.subrange(0, times - 1));
        if times - 1 <= at {
            assert(before.1.pending[0] == queue.pending[times - 1]);
            assert(queue.pending.subrange(times - 1, all).drop_first() =~= queue.pending.subrange(
                times,
                all,
            ));
            lemma_step_keeps_wf(
                before.0,
                InputView::Command(queue.pending[times - 1]),
                stamps[times - 1],
            );
        }
    }
}

/// A shutdown always ends the run with success, and no command behind it is
/// processed: where a running node serves a queue in which a shutdown
/// waits, often enough to reach it, the node has stopped with success and
/// every command behind the first shutdown is still in the queue.
pub proof fn lemma_shutdown_leaves_the_rest(
    node: NodeView,
    queue: QueueView,
    stamps: Seq<Stamp>,
    at: int,
)
    requires
        node.wf(),
        node.state == NodeState::Running,
        0 <= at < queue.pending.len(),
        queue.pending[at] == CommandView::Shutdown,
        forall|k: int| 0 <= k < at ==> queue.pending[k] != CommandView::Shutdown,
        stamps.len() > at,
    ensures
        node.served(queue, stamps).0.outcome() == Some(Ok::<(), ErrorView>(())),
        node.served(queue, stamps).1.pending == queue.pending.subrange(
            at + 1,
            queue.pending.len() as int,
        ),
{
    lemma_serving(node, queue, stamps, at, stamps.len() as int);
    assert(stamps.subrange(0, stamps.len() as int) =~= stamps);
}

/// Only a command takes a stamp: every other input leads to the same step
/// whatever the stamp.
pub proof fn lemma_stamp_is_for_commands(node: NodeView, input: InputView, a: Stamp, b: Stamp)
    requires
        !(input is Command),
    ensures
        node.step(input, a) == node.step(input, b),
{
    reveal(NodeView::step);
}

/// A peer that local discovery announces is told to the subscribers: a
/// node that has not stopped makes the peer an explicit overlay peer and
/// emits one event that names it. So two nodes that discovery announces to
/// each other each observe the other.
pub proof fn lemma_discovered_is_reported(node: NodeView, peer: Seq<u8>, stamp: Stamp)
    requires
        node.state != NodeState::Stopped,
    ensures
        node.step(InputView::Occurrence(OccurrenceView::Discovered(seq![peer])), stamp) == (
            node,
            seq![
                ActionView::AddExplicitPeer(peer),
                ActionView::Emit(EventView::DiscoveredNode(peer)),
            ],
        ),
{
    reveal(NodeView::step);
    assert(welcome(seq![peer]) =~= seq![
        ActionView::AddExplicitPeer(peer),
        ActionView::Emit(EventView::DiscoveredNode(peer)),
    ]);
}

/// What one node publishes, another receives: the payload that a node
/// publishes for a message to a channel leads, at any node it is delivered
/// to, to exactly one event, which carries that message field for field and
/// names that channel.
pub proof fn lemma_published_is_received(
    sender: NodeView,
    content: Seq<char>,
    channel: ChannelView,
    stamp: Stamp,
    from: Seq<u8>,
)
    requires
        sender.wf(),
        encode_utf8(content).len() < pow256(8),
    ensures
        sender.sent(
            MessageCommandView { message: content, target: TargetView::Channel(channel) },
            stamp,
        ) matches Ok(ActionView::Publish { topic, payload }) && topic == channel.name
            && reaction(OccurrenceView::Message { source: from, topic, data: payload })
            == seq![
            ActionView::Emit(
                EventView::ReceivedMessage(
                    MessageEventView {
                        message: sender.authored(content, stamp),
                        source: SourceView::Channel(ChannelView::fresh(channel.name, None)),
                    },
                ),
            ),
        ],
{
    lemma_decoding_of_encoding(sender.authored(content, stamp), Seq::empty());
}

/// What a node is told when it is commanded to send the first `n` of
/// `contents` to `channel`, one command for each.
pub open spec fn sends(
    contents: Seq<Seq<char>>,
    channel: ChannelView,
    stamps: Seq<Stamp>,
    n: int,
) -> Seq<(InputView, Stamp)> {
    Seq::new(
        n as nat,
        |k: int|
            (
                InputView::Command(
                    CommandView::SendMessage(
                        MessageCommandView {
                            message: contents[k],
                            target: TargetView::Channel(channel),
                        },
                    ),
                ),
                stamps[k],
            ),
    )
}

/// What a node is told when the overlay delivers `payloads` to it, each
/// once and in order, on `topic`.
pub open spec fn deliveries(from: Seq<u8>, topic: Seq<char>, payloads: Seq<Seq<u8>>) -> Seq<
    (InputView, Stamp),
> {
    Seq::new(
        payloads.len(),
        |k: int|
            (
                InputView::Occurrence(
                    OccurrenceView::Message { source: from, topic, data: payloads[k] },
                ),
                Stamp { id: 0, now: 0 },
            ),
    )
}

/// The payloads that `sender` publishes for the first `n` of `contents`.
pub open spec fn payloads_of(
    sender: NodeView,
    contents: Seq<Seq<char>>,
    stamps: Seq<Stamp>,
    n: int,
) -> Seq<Seq<u8>> {
    Seq::new(n as nat, |k: int| encoding(sender.authored(contents[k], stamps[k])))
}

/// The events with which a node reports the first `n` of `contents`,
/// received from `sender` on `topic`.
pub open spec fn arrivals(
    sender: NodeView,
    contents: Seq<Seq<char>>,
    topic: Seq<char>,
    stamps: Seq<Stamp>,
    n: int,
) -> Seq<EventView> {
    Seq::new(
        n as nat,
        |k: int|
            EventView::ReceivedMessage(
                MessageEventView {
                    message: sender.authored(contents[k], stamps[k]),
                    source: SourceView::Channel(ChannelView::fresh(topic, None)),
                },
            ),
    )
}

/// A node that runs publishes one payload for each message it is
/// commanded to send to a channel, on the topic of the channel's name, and
/// stays as it is.
pub proof fn lemma_sends_publish(
    sender: NodeView,
    contents: Seq<Seq<char>>,
    channel: ChannelView,
    stamps: Seq<Stamp>,
    n: int,
)
    requires
        sender.state == NodeState::Running,
        0 <= n <= contents.len(),
        n <= stamps.len(),
    ensures
        sender.run(sends(contents, channel, stamps, n)) == (
            sender,
            Seq::new(
                n as nat,
                |k: int|
                    ActionView::Publish {
                        topic: channel.name,
                        payload: payloads_of(sender, contents, stamps, n)[k],
                    },
            ),
        ),
    decreases n,
{
    reveal(NodeView::step);
    let told = sends(contents, channel, stamps, n);
    let asked = Seq::new(
        n as nat,
        |k: int|
            ActionView::Publish {
                topic: channel.name,
                payload: payloads_of(sender, contents, stamps, n)[k],
            },
    );
    if n == 0 {
        assert(sender.run(told).1 =~= asked);
    } else {
        lemma_sends_publish(sender, contents, channel, stamps, n - 1);
        assert(told.drop_last() =~= sends(contents, channel, stamps, n - 1));
        assert(sender.run(told).1 =~= asked);
    }
}

/// A node that has not stopped emits exactly one event for each payload of
/// a message that is delivered to it, in order, and stays as it is.
pub proof fn lemma_deliveries_emit(
    receiver: NodeView,
    sender: NodeView,
    contents: Seq<Seq<char>>,
    topic: Seq<char>,
    stamps: Seq<Stamp>,
    from: Seq<u8>,
    n: int,
)
    requires
        receiver.state != NodeState::Stopped,
        sender.wf(),
        0 <= n <= contents.len(),
        n <= stamps.len(),
        forall|k: int| 0 <= k < n ==> encode_utf8(#[trigger] contents[k]).len() < pow256(8),
    ensures
        receiver.run(deliveries(from, topic, payloads_of(sender, contents, stamps, n))) == (
            receiver,
            Seq::new(
                n as nat,
                |k: int| ActionView::Emit(arrivals(sender, contents, topic, stamps, n)[k]),
            ),
        ),
    decreases n,
{
    reveal(NodeView::step);
    let payloads = payloads_of(sender, contents, stamps, n);
    let told = deliveries(from, topic, payloads);
    let asked = Seq::new(
        n as nat,
        |k: int| ActionView::Emit(arrivals(sender, contents, topic, stamps, n)[k]),
    );
    if n == 0 {
        assert(receiver.run(told).1 =~= asked);
    } else {
        lemma_deliveries_emit(receiver, sender, contents, topic, stamps, from, n - 1);
        assert(told.drop_last() =~= deliveries(
            from,
            topic,
            payloads_of(sender, contents, stamps, n - 1),
        ));
        assert(contents[n - 1] == contents[n - 1]);
        lemma_decoding_of_encoding(
            sender.authored(contents[n - 1], stamps[n - 1]),
            Seq::empty(),
        );
        assert(receiver.run(told).1 =~= asked);
    }
}

/// Every message that is sent arrives once: where one node is commanded to
/// send N messages to a channel and the overlay delivers each payload once
/// to another node, that node emits exactly N events, one for each message
/// and in the order of sending, and a subscriber that had subscribed before,
/// with room for N events, has exactly these N events waiting and has
/// missed none.
pub proof fn lemma_every_message_arrives(
    sender: NodeView,
    receiver: NodeView,
    subscriber: SubscriberView,
    capacity: nat,
    contents: Seq<Seq<char>>,
    channel: ChannelView,
    stamps: Seq<Stamp>,
    from: Seq<u8>,
)
    requires
        sender.wf(),
        sender.state == NodeState::Running,
        receiver.state != NodeState::Stopped,
        stamps.len() == contents.len(),
        forall|k: int|
            0 <= k < contents.len() ==> encode_utf8(#[trigger] contents[k]).len() < pow256(8),
        subscriber.live,
        subscriber.backlog.len() == 0,
        subscriber.missed == 0,
        contents.len() <= capacity,
    ensures
        ({
            let n = contents.len() as int;
            let published = sender.run(sends(contents, channel, stamps, n)).1;
            let payloads = payloads_of(sender, contents, stamps, n);
            let emitted = receiver.run(deliveries(from, channel.name, payloads)).1;
            let events = arrivals(sender, contents, channel.name, stamps, n);
            let after = subscriber.received_all(events, capacity);
            &&& published == Seq::new(
                n as nat,
                |k: int| ActionView::Publish { topic: channel.name, payload: payloads[k] },
            )
            &&& emitted == Seq::new(n as nat, |k: int| ActionView::Emit(events[k]))
            &&& events.len() == n
            &&& after.backlog == events
            &&& after.missed == 0
        }),
{
    let n = contents.len() as int;
    lemma_sends_publish(sender, contents, channel, stamps, n);
    lemma_deliveries_emit(receiver, sender, contents, channel.name, stamps, from, n);
    let events = arrivals(sender, contents, channel.name, stamps, n);
    crate::bus::lemma_lagging_subscriber(subscriber, events, capacity);
    assert((subscriber.backlog + events).subrange(0, n) =~= events);
}

/// The views of a result of actions.
pub open spec fn outcome_views(result: Result<Vec<Action>, Error>) -> Result<
    Seq<ActionView>,
    ErrorView,
> {
    match result {
        Ok(actions) => Ok(views(actions@)),
        Err(error) => Err(error@),
    }
}

fn unsupported_command(what: &str) -> (error: Error)
    ensures
        error@ == unsupported(what@),
{
    Error::Swarm(joined("Unsupported command: ", what))
}

fn single(action: Action) -> (actions: Vec<Action>)
    ensures
        views(actions@) == seq![action@],
{
    let mut actions: Vec<Action> = Vec::new();
    actions.push(action);
    proof {
        assert(views(actions@) =~= seq![action@]);
    }
    actions
}

fn nothing() -> (actions: Vec<Action>)
    ensures
        views(actions@) == Seq::<ActionView>::empty(),
{
    let actions: Vec<Action> = Vec::new();
    proof {
        assert(views(actions@) =~= Seq::<ActionView>::empty());
    }
    actions
}

fn reported(error: Error) -> (actions: Vec<Action>)
    ensures
        views(actions@) == report(error@),
{
    single(Action::Emit(Event::Error(error)))
}

impl Node {
    /// A node with the default configuration.
    pub fn new() -> (node: Result<Node, Error>)
        ensures
            node matches Ok(n) && n@.wf() && n@.state == NodeState::Initializing && n@.asked == 0
                && n@.failure is None && n@.addresses == default_addresses()
                && n@.bootnodes.len() == 0 && n@.nodes.len() == 0 && n@.channels.len() == 0
                && exists|id: u128|
                is_random_id(id) && n@.name == "Node-"@ + #[trigger] crate::config::uuid_text(
                    id,
                ),
    {
        let config = Config::default();
        Node::with_config(config)
    }

    /// A node with this configuration, about to initialise: its name and its
    /// keypair are those of the configuration, and its id is the peer
    /// identifier of that keypair. It is refused, as a configuration error,
    /// exactly where the configuration names no address to listen on.
    pub fn with_config(config: Config) -> (node: Result<Node, Error>)
        ensures
            node is Err <==> config@.addresses.len() == 0,
            node matches Err(e) ==> e@ == ErrorView::Config(
                "At least one interface is required."@,
            ),
            node matches Ok(n) ==> n@.wf() && n@.name == config@.name && n@.keypair
                == config@.keypair && n@.id == peer_id_of(config@.keypair) && n@.addresses
                == config@.addresses && n@.bootnodes == config@.bootnodes && n@.nodes.len() == 0
                && n@.channels.len() == 0 && n@.state == NodeState::Initializing && n@.asked == 0
                && n@.failure is None,
    {
        let addresses = config.interfaces();
        if addresses.is_empty() {
            return Err(Error::Config("At least one interface is required.".to_owned()));
        }
        let keypair = config.keypair();
        let id = PeerId::from_keypair(&keypair);
        let bytes: &[u8] = id.as_bytes();
        config.note_name_fits();
        proof {
            crate::wire::lemma_pow256_values();
            vstd::slice::axiom_spec_len(bytes);
        }
        let data = Data::new(id);
        Ok(Node { config, data, state: NodeState::Initializing, asked: 0, failure: None })
    }

    /// Notes that name and id are short enough and the id is one: each
    /// length is one that the machine can hold.
    fn note_fits(&self)
        ensures
            is_peer_id(self@.id),
            self@.id.len() < pow256(8),
            encode_utf8(self@.name).len() < pow256(8),
    {
        let bytes: &[u8] = self.data.local_peer_id.as_bytes();
        self.config.note_name_fits();
        proof {
            crate::wire::lemma_pow256_values();
            vstd::slice::axiom_spec_len(bytes);
        }
    }

    /// The identity of the node.
    pub fn keypair(&self) -> (keypair: libp2p::identity::Keypair)
        ensures
            keypair == self@.keypair,
    {
        self.config.keypair()
    }

    /// The peer identifier of the node.
    pub fn id(&self) -> (id: PeerId)
        ensures
            id@ == self@.id,
            is_peer_id(id@),
    {
        self.note_fits();
        self.data.local_peer_id.clone()
    }

    /// The display name of the node.
    pub fn name(&self) -> (name: String)
        ensures
            name@ == self@.name,
    {
        self.config.name()
    }

    /// The channels that the node has joined.
    pub fn channels(&self) -> (channels: Vec<Channel>)
        ensures
            views(channels@) == self@.channels,
    {
        let mut channels: Vec<Channel> = Vec::new();
        let mut i: usize = 0;
        while i < self.data.channels.len()
            invariant
                i <= self.data.channels@.len(),
                channels@.len() == i,
                forall|k: int|
                    0 <= k < i ==> (#[trigger] channels@[k])@ == self.data.channels@[k]@,
            decreases self.data.channels@.len() - i,
        {
            channels.push(self.data.channels[i].clone());
            i = i + 1;
        }
        proof {
            assert(views(channels@) =~= views(self.data.channels@));
        }
        channels
    }

    /// The peers that the node remembers.
    pub fn nodes(&self) -> (nodes: Vec<NodeRepr>)
        ensures
            views(nodes@) == self@.nodes,
    {
        crate::channel::clone_nodes(&self.data.nodes)
    }

    /// Whether the node has stopped. Whoever drives the node asks this
    /// before each action: a stopped node wants none any more.
    pub fn is_stopped(&self) -> (stopped: bool)
        ensures
            stopped == (self@.state == NodeState::Stopped),
    {
        match self.state {
            NodeState::Stopped => true,
            _ => false,
        }
    }

    fn is_initializing(&self) -> (yes: bool)
        ensures
            yes == (self@.state == NodeState::Initializing),
    {
        match self.state {
            NodeState::Initializing => true,
            _ => false,
        }
    }

    fn is_running(&self) -> (yes: bool)
        ensures
            yes == (self@.state == NodeState::Running),
    {
        match self.state {
            NodeState::Running => true,
            _ => false,
        }
    }

    /// Where the node is in its life.
    pub fn state(&self) -> (state: NodeState)
        ensures
            state == self@.state,
    {
        self.state
    }

    /// How the run ended: `None` while the node has not stopped, then
    /// success or the error that stopped it.
    pub fn outcome(&self) -> (outcome: Option<Result<(), Error>>)
        ensures
            match self@.outcome() {
                None => outcome is None,
                Some(Ok(_)) => outcome matches Some(Ok(_)),
                Some(Err(e)) => outcome matches Some(Err(x)) && x@ == e,
            },
    {
        match self.state {
            NodeState::Stopped => match &self.failure {
                Some(error) => Some(Err(error.clone())),
                None => Some(Ok(())),
            },
            _ => None,
        }
    }

    /// One dial for each bootstrap peer, in order.
    pub fn dial_known_nodes(&self) -> (actions: Vec<Action>)
        ensures
            views(actions@) == self@.dial_actions(),
    {
        let peers = self.config.bootnodes();
        let mut actions: Vec<Action> = Vec::new();
        let mut i: usize = 0;
        while i < peers.len()
            invariant
                i <= peers@.len(),
                actions@.len() == i,
                views(peers@) == self@.bootnodes,
                forall|k: int| 0 <= k < i ==> (#[trigger] actions@[k])@ == ActionView::Dial(
                    peers@[k]@,
                ),
            decreases peers@.len() - i,
        {
            actions.push(Action::Dial(peers[i].clone()));
            i = i + 1;
        }
        proof {
            assert forall|k: int| 0 <= k < peers@.len() implies views(actions@)[k]
                == self@.dial_actions()[k] by {
                assert(views(peers@)[k] == peers@[k]@);
            }
            assert(views(actions@) =~= self@.dial_actions());
        }
        actions
    }

    /// The bind whose turn it is: that of the first address that no bind
    /// was asked for yet; nothing where every address had its turn.
    pub fn start_listening(&self) -> (actions: Vec<Action>)
        ensures
            views(actions@) == self@.next_bind(),
    {
        let addresses = self.config.interfaces();
        if self.asked < addresses.len() {
            proof {
                assert(views(addresses@)[self.asked as int] == addresses@[self.asked as int]@);
            }
            single(Action::Listen(addresses[self.asked].clone()))
        } else {
            nothing()
        }
    }

    /// The subscription to `topic`.
    pub fn connect(&self, topic: String) -> (action: Action)
        ensures
            action@ == ActionView::Subscribe(topic@),
    {
        Action::Subscribe(topic)
    }

    /// What sending leads to, with a new stamp.
    pub fn send_message(&self, send: MessageCommand) -> (action: Result<Action, Error>)
        ensures
            exists|stamp: Stamp|
                is_random_id(stamp.id) && match #[trigger] self@.sent(send@, stamp) {
                    Ok(a) => action matches Ok(got) && got@ == a,
                    Err(e) => action matches Err(got) && got@ == e,
                },
    {
        let stamp = Stamp::fresh();
        let action = self.send_message_at(send, stamp);
        proof {
            assert(is_random_id(stamp.id) && match self@.sent(send@, stamp) {
                Ok(a) => action matches Ok(got) && got@ == a,
                Err(e) => action matches Err(got) && got@ == e,
            });
        }
        action
    }

    /// What sending leads to: to a channel, the message authored by this
    /// node with `stamp` is published on the topic of the channel's name; to
    /// a single peer, it is refused as unsupported.
    pub fn send_message_at(&self, send: MessageCommand, stamp: Stamp) -> (action: Result<
        Action,
        Error,
    >)
        ensures
            match self@.sent(send@, stamp) {
                Ok(a) => action matches Ok(got) && got@ == a,
                Err(e) => action matches Err(got) && got@ == e,
            },
    {
        self.note_fits();
        match send.target {
            Target::Channel(channel) => {
                let message = Message::stamped(
                    stamp.id,
                    self.name(),
                    self.data.local_peer_id.clone(),
                    send.message,
                    stamp.now,
                );
                let payload = message.encode();
                Ok(Action::Publish { topic: channel.into_name(), payload })
            },
            Target::Direct(_) => Err(unsupported_command("SendMessage to a single peer")),
        }
    }

    /// What a command leads to, with a new stamp.
    pub fn process_command(&self, command: Command) -> (result: Result<Vec<Action>, Error>)
        ensures
            exists|stamp: Stamp|
                is_random_id(stamp.id) && outcome_views(result) == #[trigger] self@.commanded(
                    command@,
                    stamp,
                ),
    {
        let stamp = Stamp::fresh();
        let result = self.process_command_at(command, stamp);
        proof {
            assert(is_random_id(stamp.id) && outcome_views(result) == self@.commanded(
                command@,
                stamp,
            ));
        }
        result
    }

    /// What a command leads to. Only sending to a channel is served. The
    /// reserved commands do nothing and say so with an error. Shutdown asks
    /// nothing of the network.
    pub fn process_command_at(&self, command: Command, stamp: Stamp) -> (result: Result<
        Vec<Action>,
        Error,
    >)
        ensures
            outcome_views(result) == self@.commanded(command@, stamp),
    {
        match command {
            Command::SendMessage(send) => match self.send_message_at(send, stamp) {
                Ok(action) => Ok(single(action)),
                Err(error) => Err(error),
            },
            Command::Ping(_) => Err(unsupported_command("Ping")),
            Command::JoinChannel(_) => Err(unsupported_command("JoinChannel")),
            Command::LeaveChannel(_) => Err(unsupported_command("LeaveChannel")),
            Command::AddFriend(_) => Err(unsupported_command("AddFriend")),
            Command::RemoveFriend(_) => Err(unsupported_command("RemoveFriend")),
            Command::Shutdown => Ok(nothing()),
        }
    }

    /// What the node asks for when the network reports `occurrence`.
    ///
    /// Each announced peer becomes an explicit overlay peer and is told to
    /// the subscribers; each lost peer stops being one; an address at which
    /// a peer sees this node is registered; a payload that carries a message
    /// becomes one event, and one that carries none is dropped; a bound
    /// address and anything else ask for nothing.
    pub fn process_event(&self, occurrence: Occurrence) -> (actions: Vec<Action>)
        ensures
            views(actions@) == reaction(occurrence@),
    {
        match occurrence {
            Occurrence::Discovered(peers) => {
                let mut actions: Vec<Action> = Vec::new();
                let mut i: usize = 0;
                while i < peers.len()
                    invariant
                        i <= peers@.len(),
                        actions@.len() == 2 * i,
                        forall|k: int|
                            0 <= k < 2 * i ==> (#[trigger] actions@[k])@ == welcome(
                                views(peers@),
                            )[k],
                    decreases peers@.len() - i,
                {
                    let peer = peers[i].clone();
                    let again = peers[i].clone();
                    proof {
                        assert(views(peers@)[i as int] == peers@[i as int]@);
                    }
                    actions.push(Action::AddExplicitPeer(peer));
                    actions.push(Action::Emit(Event::DiscoveredNode(again)));
                    i = i + 1;
                }
                proof {
                    assert(views(actions@) =~= welcome(views(peers@)));
                }
                actions
            },
            Occurrence::Expired(peers) => {
                let mut actions: Vec<Action> = Vec::new();
                let mut i: usize = 0;
                while i < peers.len()
                    invariant
                        i <= peers@.len(),
                        actions@.len() == i,
                        forall|k: int|
                            0 <= k < i ==> (#[trigger] actions@[k])@
                                == ActionView::RemoveExplicitPeer(peers@[k]@),
                    decreases peers@.len() - i,
                {
                    actions.push(Action::RemoveExplicitPeer(peers[i].clone()));
                    i = i + 1;
                }
                proof {
                    assert forall|k: int| 0 <= k < peers@.len() implies views(actions@)[k]
                        == farewell(views(peers@))[k] by {
                        assert(views(peers@)[k] == peers@[k]@);
                    }
                    assert(views(actions@) =~= farewell(views(peers@)));
                }
                actions
            },
            Occurrence::Identified(address) => single(Action::AddExternalAddress(address)),
            Occurrence::Message { source, topic, data } => {
                match Message::decode(data.as_slice()) {
                    Some(message) => single(
                        Action::Emit(
                            Event::ReceivedMessage(
                                MessageEvent {
                                    message,
                                    source: Source::Channel(Channel::new(topic, None)),
                                },
                            ),
                        ),
                    ),
                    None => nothing(),
                }
            },
            Occurrence::NewListenAddr(_) => nothing(),
            Occurrence::Other => nothing(),
        }
    }

    /// Serves the queue once. A node that runs takes the oldest command
    /// that waits and processes it; where none waits and the queue is
    /// closed, it stops with success. A node that does not run leaves the
    /// queue as it is. What the node asks for is handed back, so that it can
    /// be done, and its failure told to the node, before the next command is
    /// taken.
    pub fn run(&mut self, queue: &mut CommandQueue) -> (actions: Vec<Action>)
        ensures
            exists|stamp: Stamp|
                is_random_id(stamp.id) && (final(self)@, final(queue)@, views(actions@))
                    == #[trigger] old(self)@.served_next(old(queue)@, stamp),
            old(self)@.wf() ==> final(self)@.wf(),
            old(queue)@.wf() ==> final(queue)@.wf(),
    {
        let ghost node = self@;
        let ghost waiting = queue@;
        if let NodeState::Running = self.state {
            match queue.recv() {
                Some(command) => {
                    let actions = self.step(Input::Command(command));
                    proof {
                        let stamp = choose|stamp: Stamp|
                            is_random_id(stamp.id) && (self@, views(actions@))
                                == #[trigger] node.step(InputView::Command(command@), stamp);
                        assert(is_random_id(stamp.id) && (self@, queue@, views(actions@))
                            == node.served_next(waiting, stamp));
                    }
                    actions
                },
                None => {
                    if queue.is_closed() {
                        let actions = self.step(Input::Closed);
                        proof {
                            let stamp = choose|stamp: Stamp|
                                is_random_id(stamp.id) && (self@, views(actions@))
                                    == #[trigger] node.step(InputView::Closed, stamp);
                            assert(is_random_id(stamp.id) && (self@, queue@, views(actions@))
                                == node.served_next(waiting, stamp));
                        }
                        actions
                    } else {
                        let stamp = Stamp::fresh();
                        let actions = nothing();
                        proof {
                            assert(is_random_id(stamp.id) && (self@, queue@, views(actions@))
                                == node.served_next(waiting, stamp));
                        }
                        actions
                    }
                },
            }
        } else {
            let stamp = Stamp::fresh();
            let actions = nothing();
            proof {
                assert(is_random_id(stamp.id) && (self@, queue@, views(actions@))
                    == node.served_next(waiting, stamp));
            }
            actions
        }
    }

    /// One step, with a new stamp.
    pub fn step(&mut self, input: Input) -> (actions: Vec<Action>)
        ensures
            exists|stamp: Stamp|
                is_random_id(stamp.id) && (final(self)@, views(actions@))
                    == #[trigger] old(self)@.step(input@, stamp),
            old(self)@.wf() ==> final(self)@.wf(),
            old(self)@.state == NodeState::Stopped ==> final(self)@ == old(self)@ && actions@.len()
                == 0,
    {
        let stamp = Stamp::fresh();
        let actions = self.step_at(input, stamp);
        proof {
            assert(is_random_id(stamp.id) && (self@, views(actions@)) == old(self)@.step(
                input@,
                stamp,
            ));
            assert(views(actions@).len() == actions@.len());
            if old(self)@.state == NodeState::Stopped {
                lemma_stopped_is_final(old(self)@, input@, stamp);
            }
        }
        actions
    }

    /// One step: the node takes `input`, moves on and says what it asks
    /// for.
    pub fn step_at(&mut self, input: Input, stamp: Stamp) -> (actions: Vec<Action>)
        ensures
            final(self)@ == old(self)@.step(input@, stamp).0,
            views(actions@) == old(self)@.step(input@, stamp).1,
            old(self)@.wf() ==> final(self)@.wf(),
    {
        proof {
            reveal(NodeView::step);
            if old(self)@.wf() {
                lemma_step_keeps_wf(old(self)@, input@, stamp);
            }
        }
        if let NodeState::Stopped = self.state {
            return nothing();
        }
        match input {
            Input::Start => {
                if self.is_initializing() && self.asked == 0 {
                    let mut actions = self.dial_known_nodes();
                    let mut binds = self.start_listening();
                    proof {
                        crate::model::lemma_views_concat(actions@, binds@);
                    }
                    actions.append(&mut binds);
                    self.asked = 1;
                    actions
                } else {
                    nothing()
                }
            },
            Input::DialFailed(reason) => reported(
                Error::Swarm(joined("Failed dialing known nodes: ", reason.as_str())),
            ),
            Input::ListenFailed(reason) => {
                self.failure = Some(
                    Error::Swarm(joined("Failed running the swarm: ", reason.as_str())),
                );
                self.state = NodeState::Stopped;
                nothing()
            },
            Input::Bound => {
                if self.is_initializing() && self.asked > 0 {
                    if self.asked < self.config.interface_count() {
                        let binds = self.start_listening();
                        self.asked = self.asked + 1;
                        binds
                    } else {
                        self.state = NodeState::Listening;
                        single(self.connect(MAIN_NET.to_owned()))
                    }
                } else {
                    nothing()
                }
            },
            Input::SubscribeFailed(reason) => {
                self.failure = Some(
                    Error::Swarm(joined("Failed subscribing to topic: ", reason.as_str())),
                );
                self.state = NodeState::Stopped;
                nothing()
            },
            Input::Joined => {
                if let NodeState::Listening = self.state {
                    let channel = Channel::new(MAIN_NET.to_owned(), None);
                    proof {
                        lemma_views_push(self.data.channels@, channel);
                    }
                    self.data.channels.push(channel);
                    self.state = NodeState::Running;
                }
                nothing()
            },
            Input::PublishFailed(reason) => reported(
                Error::Swarm(joined("Failed to send message: ", reason.as_str())),
            ),
            Input::Command(command) => {
                if !self.is_running() {
                    nothing()
                } else if let Command::Shutdown = command {
                    self.state = NodeState::Stopped;
                    nothing()
                } else {
                    match self.process_command_at(command, stamp) {
                        Ok(actions) => actions,
                        Err(error) => reported(error),
                    }
                }
            },
            Input::Closed => {
                if self.is_running() {
                    self.state = NodeState::Stopped;
                }
                nothing()
            },
            Input::Occurrence(occurrence) => self.process_event(occurrence),
        }
    }
}

} // verus!

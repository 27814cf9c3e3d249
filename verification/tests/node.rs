use libp2p::identity::Keypair;
use retoro::action::Action;
use retoro::action::Input;
use retoro::action::Occurrence;
use retoro::address::Multiaddr;
use retoro::bus::CommandQueue;
use retoro::bus::Delivery;
use retoro::bus::EventBus;
use retoro::channel::Channel;
use retoro::channel::Source;
use retoro::channel::Target;
use retoro::command::Command;
use retoro::command::MessageCommand;
use retoro::config::Config;
use retoro::error::Error;
use retoro::event::Event;
use retoro::event::MessageEvent;
use retoro::message::Message;
use retoro::node::Node;
use retoro::node::NodeState;
use retoro::node::Stamp;
use retoro::node::CHANNEL_SIZE;
use retoro::node::MAIN_NET;
use retoro::peer::PeerId;

fn addr(text: &str) -> Multiaddr {
    Multiaddr::parse(text.to_string()).unwrap()
}

fn node_named(name: &str, boot: Vec<Multiaddr>) -> Node {
    let config = Config::new(
        name.to_string(),
        Keypair::generate_ed25519(),
        vec![addr("/ip4/127.0.0.1/tcp/5511"), addr("/ip4/127.0.0.1/udp/5511/quic-v1")],
        boot,
    )
    .unwrap();
    Node::with_config(config).unwrap()
}

fn running(name: &str) -> Node {
    let mut node = node_named(name, vec![]);
    node.step(Input::Start);
    node.step(Input::Bound);
    node.step(Input::Bound);
    node.step(Input::Joined);
    assert_eq!(node.state(), NodeState::Running);
    node
}

fn send(text: &str, channel: &str) -> Command {
    Command::SendMessage(MessageCommand {
        message: text.to_string(),
        target: Target::Channel(Channel::new(channel.to_string(), None)),
    })
}

fn swarm_error(text: &str) -> Vec<Action> {
    vec![Action::Emit(Event::Error(Error::Swarm(text.to_string())))]
}

#[test]
fn constants_are_the_documented_ones() {
    assert_eq!(MAIN_NET, "main");
    assert_eq!(CHANNEL_SIZE, 1024);
}

#[test]
fn construction_without_listen_addresses_is_a_config_error() {
    let refused = Config::new("n".to_string(), Keypair::generate_ed25519(), vec![], vec![]);
    assert_eq!(
        refused.err(),
        Some(Error::Config("At least one interface is required.".to_string()))
    );
    let bare = Config::new_from_key("n".to_string(), Keypair::generate_ed25519());
    assert!(bare.interfaces().is_empty());
    assert_eq!(
        Node::with_config(bare).err(),
        Some(Error::Config("At least one interface is required.".to_string()))
    );
}

#[test]
fn config_gives_back_what_it_was_given() {
    let keypair = Keypair::generate_ed25519();
    let listen = vec![addr("/ip4/127.0.0.1/tcp/1")];
    let boot = vec![addr("/ip4/10.0.0.1/tcp/2"), addr("/ip4/10.0.0.2/tcp/3")];
    let config = Config::new("N".to_string(), keypair.clone(), listen.clone(), boot.clone()).unwrap();
    assert_eq!(config.name(), "N");
    assert_eq!(config.interfaces(), listen);
    assert_eq!(config.bootnodes(), boot);
    assert_eq!(config.keypair().public(), keypair.public());
}

#[test]
fn default_config_listens_on_tcp_and_quic_port_5511() {
    let config = Config::default();
    let name = config.name();
    assert!(name.starts_with("Node-"));
    assert_eq!(uuid::Uuid::parse_str(&name["Node-".len()..]).unwrap().get_version_num(), 4);
    let listen: Vec<String> = config.interfaces().iter().map(|a| a.as_str().to_string()).collect();
    assert_eq!(listen, vec!["/ip4/0.0.0.0/tcp/5511", "/ip4/0.0.0.0/udp/5511/quic-v1"]);
    assert!(config.bootnodes().is_empty());
    assert_ne!(Config::default().name(), name);
    assert_ne!(Config::default().keypair().public(), config.keypair().public());
}

#[test]
fn a_new_node_is_initializing_and_knows_who_it_is() {
    let keypair = Keypair::generate_ed25519();
    let config =
        Config::new("N".to_string(), keypair.clone(), vec![addr("/ip4/127.0.0.1/tcp/1")], vec![])
            .unwrap();
    let node = Node::with_config(config).unwrap();
    assert_eq!(node.state(), NodeState::Initializing);
    assert_eq!(node.outcome(), None);
    assert_eq!(node.name(), "N");
    assert_eq!(node.id().to_bytes(), keypair.public().to_peer_id().to_bytes());
    assert_eq!(node.keypair().public(), keypair.public());
    let plain = Node::new().unwrap();
    assert_eq!(plain.state(), NodeState::Initializing);
    assert!(plain.name().starts_with("Node-"));
}

#[test]
fn startup_dials_then_binds_one_address_at_a_time_then_joins_main() {
    let boot = vec![addr("/ip4/10.0.0.1/tcp/2"), addr("/ip4/10.0.0.2/tcp/3")];
    let first = || Action::Listen(addr("/ip4/127.0.0.1/tcp/5511"));
    let second = || Action::Listen(addr("/ip4/127.0.0.1/udp/5511/quic-v1"));
    let mut node = node_named("n", boot.clone());
    assert_eq!(
        node.dial_known_nodes(),
        vec![Action::Dial(boot[0].clone()), Action::Dial(boot[1].clone())]
    );
    assert_eq!(node.start_listening(), vec![first()]);
    assert_eq!(node.connect("t".to_string()), Action::Subscribe("t".to_string()));
    assert_eq!(node.step(Input::Bound), vec![]);
    assert_eq!(
        node.step(Input::Start),
        vec![Action::Dial(boot[0].clone()), Action::Dial(boot[1].clone()), first()]
    );
    assert_eq!(node.state(), NodeState::Initializing);
    assert_eq!(node.step(Input::Start), vec![]);
    assert_eq!(node.step(Input::Joined), vec![]);
    assert_eq!(node.start_listening(), vec![second()]);
    assert_eq!(node.step(Input::Bound), vec![second()]);
    assert_eq!(node.state(), NodeState::Initializing);
    assert_eq!(node.start_listening(), vec![]);
    assert_eq!(node.step(Input::Bound), vec![Action::Subscribe("main".to_string())]);
    assert_eq!(node.state(), NodeState::Listening);
    assert_eq!(node.step(Input::Bound), vec![]);
    assert_eq!(node.step(Input::Start), vec![]);
    assert!(node.channels().is_empty());
    assert_eq!(node.step(Input::Joined), vec![]);
    assert_eq!(node.state(), NodeState::Running);
    assert_eq!(node.channels(), vec![Channel::new("main".to_string(), None)]);
    assert!(node.nodes().is_empty());
    assert_eq!(node.outcome(), None);
    assert!(!node.is_stopped());
}

#[test]
fn a_failed_dial_is_reported_and_startup_goes_on() {
    let mut node = node_named("n", vec![addr("/ip4/10.0.0.1/tcp/2")]);
    node.step(Input::Start);
    assert_eq!(
        node.step(Input::DialFailed("refused".to_string())),
        swarm_error("Failed dialing known nodes: refused")
    );
    assert_eq!(node.state(), NodeState::Initializing);
    assert_eq!(
        node.step(Input::Bound),
        vec![Action::Listen(addr("/ip4/127.0.0.1/udp/5511/quic-v1"))]
    );
}

#[test]
fn a_failed_bind_is_fatal_and_no_bind_behind_it_is_asked_for() {
    let mut node = node_named("n", vec![]);
    assert_eq!(node.step(Input::Start), vec![Action::Listen(addr("/ip4/127.0.0.1/tcp/5511"))]);
    assert_eq!(node.step(Input::ListenFailed("in use".to_string())), vec![]);
    assert_eq!(node.state(), NodeState::Stopped);
    assert!(node.is_stopped());
    assert_eq!(
        node.outcome(),
        Some(Err(Error::Swarm("Failed running the swarm: in use".to_string())))
    );
    assert_eq!(node.step(Input::Bound), vec![]);
    assert_eq!(node.step(Input::Start), vec![]);
    assert_eq!(node.step(Input::Command(Command::Shutdown)), vec![]);
    assert_eq!(
        node.outcome(),
        Some(Err(Error::Swarm("Failed running the swarm: in use".to_string())))
    );
}

#[test]
fn a_failed_second_bind_is_fatal_too() {
    let mut node = node_named("n", vec![]);
    node.step(Input::Start);
    assert_eq!(
        node.step(Input::Bound),
        vec![Action::Listen(addr("/ip4/127.0.0.1/udp/5511/quic-v1"))]
    );
    assert_eq!(node.step(Input::ListenFailed("no udp".to_string())), vec![]);
    assert_eq!(
        node.outcome(),
        Some(Err(Error::Swarm("Failed running the swarm: no udp".to_string())))
    );
    assert_eq!(node.step(Input::Bound), vec![]);
}

#[test]
fn a_failed_subscription_is_fatal() {
    let mut node = node_named("n", vec![]);
    node.step(Input::Start);
    node.step(Input::Bound);
    assert_eq!(node.step(Input::Bound), vec![Action::Subscribe("main".to_string())]);
    assert_eq!(node.step(Input::SubscribeFailed("no".to_string())), vec![]);
    assert_eq!(
        node.outcome(),
        Some(Err(Error::Swarm("Failed subscribing to topic: no".to_string())))
    );
}

#[test]
fn send_message_publishes_the_encoded_message_on_the_channel() {
    let node = running("alice");
    let stamp = Stamp { id: 42, now: 1_700_000_000_000 };
    let action = node
        .send_message_at(
            MessageCommand {
                message: "hello".to_string(),
                target: Target::Channel(Channel::new("test".to_string(), Some("pw".to_string()))),
            },
            stamp,
        )
        .unwrap();
    let expected = Message::stamped(42, "alice".to_string(), node.id(), "hello".to_string(), 1_700_000_000_000);
    assert_eq!(action, Action::Publish { topic: "test".to_string(), payload: expected.encode() });
}

#[test]
fn send_message_stamps_each_message_anew() {
    let node = running("alice");
    let payload = |action: Action| match action {
        Action::Publish { topic, payload } => {
            assert_eq!(topic, "main");
            Message::decode(&payload).unwrap()
        }
        other => panic!("not a publish: {:?}", other),
    };
    let target = || MessageCommand {
        message: "x".to_string(),
        target: Target::Channel(Channel::new("main".to_string(), None)),
    };
    let a = payload(node.send_message(target()).unwrap());
    let b = payload(node.send_message(target()).unwrap());
    assert_ne!(a.id(), b.id());
    assert!(a.timestamp() <= b.timestamp());
    assert_eq!(a.author_name(), "alice");
    assert_eq!(a.author_id(), &node.id());
    assert_eq!(a.content(), "x");
}

#[test]
fn sending_to_a_single_peer_is_unsupported() {
    let node = running("alice");
    let peer = PeerId::from_keypair(&Keypair::generate_ed25519());
    let refused = node.send_message(MessageCommand {
        message: "x".to_string(),
        target: Target::Direct(peer),
    });
    assert_eq!(
        refused,
        Err(Error::Swarm("Unsupported command: SendMessage to a single peer".to_string()))
    );
}

#[test]
fn reserved_commands_say_that_they_are_unsupported() {
    let mut node = running("alice");
    let peer = || PeerId::from_keypair(&Keypair::generate_ed25519());
    let channel = || Channel::new("c".to_string(), None);
    let cases = vec![
        (Command::Ping(peer()), "Ping"),
        (Command::JoinChannel(channel()), "JoinChannel"),
        (Command::LeaveChannel(channel()), "LeaveChannel"),
        (Command::AddFriend(peer()), "AddFriend"),
        (Command::RemoveFriend(peer()), "RemoveFriend"),
    ];
    for (command, name) in cases {
        let text = format!("Unsupported command: {name}");
        assert_eq!(node.process_command(command.clone()), Err(Error::Swarm(text.clone())));
        assert_eq!(node.step(Input::Command(command)), swarm_error(&text));
        assert_eq!(node.state(), NodeState::Running);
    }
    assert_eq!(node.process_command(Command::Shutdown), Ok(vec![]));
}

#[test]
fn a_failed_publish_is_reported_and_the_node_runs_on() {
    let mut node = running("alice");
    assert_eq!(
        node.step(Input::PublishFailed("InsufficientPeers".to_string())),
        swarm_error("Failed to send message: InsufficientPeers")
    );
    assert_eq!(node.state(), NodeState::Running);
    assert_eq!(node.outcome(), None);
}

#[test]
fn shutdown_ends_the_run_with_success_and_nothing_is_processed_after_it() {
    let mut node = running("alice");
    assert_eq!(node.step(Input::Command(Command::Shutdown)), vec![]);
    assert_eq!(node.state(), NodeState::Stopped);
    assert_eq!(node.outcome(), Some(Ok(())));
    assert_eq!(node.step(Input::Command(send("late", "main"))), vec![]);
    let peer = PeerId::from_keypair(&Keypair::generate_ed25519());
    assert_eq!(node.step(Input::Occurrence(Occurrence::Discovered(vec![peer]))), vec![]);
    assert_eq!(node.step(Input::Start), vec![]);
    assert_eq!(node.step(Input::ListenFailed("late".to_string())), vec![]);
    assert_eq!(node.outcome(), Some(Ok(())));
}

#[test]
fn commands_are_left_alone_until_the_node_runs() {
    let startup = |i: usize| if i == 0 { Input::Start } else { Input::Bound };
    for steps in 0..=3 {
        let mut node = node_named("n", vec![]);
        let mut queue = CommandQueue::new(4);
        assert_eq!(queue.try_send(send("early", "main")), Ok(()));
        assert_eq!(queue.try_send(Command::Shutdown), Ok(()));
        for i in 0..steps {
            node.step(startup(i));
        }
        let state = node.state();
        assert_ne!(state, NodeState::Running);
        assert_eq!(node.run(&mut queue), vec![]);
        assert_eq!(queue.len(), 2);
        assert_eq!(node.step(Input::Command(send("early", "main"))), vec![]);
        assert_eq!(node.step(Input::Command(Command::Shutdown)), vec![]);
        assert_eq!(node.step(Input::Closed), vec![]);
        assert_eq!(node.state(), state);
        assert_eq!(node.outcome(), None);
    }
}

#[test]
fn closing_the_queue_ends_the_run_with_success() {
    let mut node = running("alice");
    assert_eq!(node.step(Input::Closed), vec![]);
    assert_eq!(node.outcome(), Some(Ok(())));
}

#[test]
fn discovered_peers_become_explicit_peers_and_events() {
    let node = running("alice");
    let a = PeerId::from_keypair(&Keypair::generate_ed25519());
    let b = PeerId::from_keypair(&Keypair::generate_ed25519());
    assert_eq!(
        node.process_event(Occurrence::Discovered(vec![a.clone(), b.clone()])),
        vec![
            Action::AddExplicitPeer(a.clone()),
            Action::Emit(Event::DiscoveredNode(a.clone())),
            Action::AddExplicitPeer(b.clone()),
            Action::Emit(Event::DiscoveredNode(b.clone())),
        ]
    );
    assert_eq!(
        node.process_event(Occurrence::Expired(vec![a.clone(), b.clone()])),
        vec![Action::RemoveExplicitPeer(a), Action::RemoveExplicitPeer(b)]
    );
    assert_eq!(node.process_event(Occurrence::Discovered(vec![])), vec![]);
}

#[test]
fn other_occurrences_are_answered_as_documented() {
    let node = running("alice");
    let seen = addr("/ip4/1.2.3.4/tcp/5");
    assert_eq!(
        node.process_event(Occurrence::Identified(seen.clone())),
        vec![Action::AddExternalAddress(seen.clone())]
    );
    assert_eq!(node.process_event(Occurrence::NewListenAddr(seen)), vec![]);
    assert_eq!(node.process_event(Occurrence::Other), vec![]);
}

#[test]
fn a_malformed_payload_is_dropped_without_an_event() {
    let node = running("alice");
    let from = PeerId::from_keypair(&Keypair::generate_ed25519());
    for data in [vec![], vec![1, 2, 3], b"plain text, not a record".to_vec()] {
        assert_eq!(
            node.process_event(Occurrence::Message {
                source: from.clone(),
                topic: "main".to_string(),
                data,
            }),
            vec![]
        );
    }
}

#[test]
fn every_message_sent_is_received_once() {
    let mut alice = running("alice");
    let mut bob = running("bob");
    let mut bus = EventBus::new(CHANNEL_SIZE);
    let subscriber = bus.subscribe();
    let mut received: Vec<Event> = Vec::new();
    let count = 25;
    for i in 0..count {
        let actions = alice.step(Input::Command(send(&format!("message {i}"), "main")));
        assert_eq!(actions.len(), 1);
        for action in actions {
            match action {
                Action::Publish { topic, payload } => {
                    let delivered = bob.step(Input::Occurrence(Occurrence::Message {
                        source: alice.id(),
                        topic,
                        data: payload,
                    }));
                    for action in delivered {
                        match action {
                            Action::Emit(event) => {
                                assert_eq!(bus.publish(event.clone()), Ok(()));
                                received.push(event)
                            }
                            other => panic!("not an event: {:?}", other),
                        }
                    }
                }
                other => panic!("not a publish: {:?}", other),
            }
        }
    }
    assert_eq!(received.len(), count);
    for event in &received {
        assert_eq!(bus.poll(subscriber), Delivery::Event(event.clone()));
    }
    assert_eq!(bus.poll(subscriber), Delivery::Empty);
    for (i, event) in received.into_iter().enumerate() {
        match event {
            Event::ReceivedMessage(MessageEvent { message, source }) => {
                assert_eq!(message.content(), format!("message {i}"));
                assert_eq!(message.author_name(), "alice");
                assert_eq!(message.author_id(), &alice.id());
                assert_eq!(source, Source::Channel(Channel::new("main".to_string(), None)));
            }
            other => panic!("not a message: {:?}", other),
        }
    }
}

#[test]
fn step_at_is_step_with_a_given_stamp() {
    let mut node = running("alice");
    let stamp = Stamp { id: 7, now: -5 };
    let actions = node.step_at(Input::Command(send("hi", "room")), stamp);
    let expected = Message::stamped(7, "alice".to_string(), node.id(), "hi".to_string(), -5);
    assert_eq!(
        actions,
        vec![Action::Publish { topic: "room".to_string(), payload: expected.encode() }]
    );
    assert_eq!(
        node.process_command_at(send("hi", "room"), stamp),
        Ok(vec![Action::Publish { topic: "room".to_string(), payload: expected.encode() }])
    );
}

#[test]
fn channel_keeps_its_name() {
    let channel = Channel::new("room".to_string(), Some("secret".to_string()));
    assert_eq!(channel.name, "room");
    assert_eq!(channel.name(), "room");
    assert!(channel.is_named());
    assert!(!Channel::new(String::new(), None).is_named());
    assert_eq!(channel.clone(), channel);
    assert_ne!(channel, Channel::new("room".to_string(), None));
    assert_eq!(channel.into_name(), "room");
}

#[test]
fn error_prints_its_kind_and_its_message() {
    assert_eq!(Error::Swarm("a".to_string()).to_string(), "Swarm error: a");
    assert_eq!(Error::Config("b".to_string()).to_string(), "Config error: b");
    assert_eq!(Error::Data("c".to_string()).to_string(), "Invalid profile: c");
    assert_eq!(Error::Keypair("d".to_string()).to_string(), "Keypair error: d");
    assert_eq!(Error::Transmission("e".to_string()).to_string(), "Transmission error: e");
}

fn told(action: &Action) -> String {
    match action {
        Action::Publish { topic, payload } => {
            assert_eq!(topic, "main");
            Message::decode(payload).unwrap().content().to_string()
        }
        Action::Emit(Event::Error(e)) => e.to_string(),
        other => panic!("unexpected: {:?}", other),
    }
}

#[test]
fn run_takes_one_command_at_a_time_up_to_the_first_shutdown() {
    let mut node = running("alice");
    let mut queue = CommandQueue::new(8);
    for command in [
        send("one", "main"),
        Command::Ping(node.id()),
        send("two", "main"),
        Command::Shutdown,
        send("never", "main"),
        Command::Shutdown,
    ] {
        assert_eq!(queue.try_send(command), Ok(()));
    }
    let mut seen: Vec<String> = Vec::new();
    for left in [5, 4, 3] {
        let actions = node.run(&mut queue);
        assert_eq!(actions.len(), 1);
        seen.push(told(&actions[0]));
        assert_eq!(queue.len(), left);
        assert_eq!(node.outcome(), None);
    }
    assert_eq!(seen, vec!["one", "Swarm error: Unsupported command: Ping", "two"]);
    assert_eq!(node.run(&mut queue), vec![]);
    assert_eq!(node.outcome(), Some(Ok(())));
    assert_eq!(queue.len(), 2);
    assert_eq!(node.run(&mut queue), vec![]);
    assert_eq!(node.run(&mut queue), vec![]);
    assert_eq!(queue.len(), 2);
    assert_eq!(queue.recv(), Some(send("never", "main")));
    assert_eq!(queue.recv(), Some(Command::Shutdown));
}

#[test]
fn a_failed_publish_is_reported_though_a_shutdown_waits_behind_it() {
    let mut node = running("alice");
    let mut queue = CommandQueue::new(8);
    for command in [send("first", "main"), send("second", "main"), Command::Shutdown] {
        assert_eq!(queue.try_send(command), Ok(()));
    }
    let mut events: Vec<Event> = Vec::new();
    let mut publishes = 0;
    while !node.is_stopped() {
        for action in node.run(&mut queue) {
            match action {
                Action::Publish { payload, .. } => {
                    publishes += 1;
                    if Message::decode(&payload).unwrap().content() == "first" {
                        for reply in node.step(Input::PublishFailed("no peers".to_string())) {
                            match reply {
                                Action::Emit(event) => events.push(event),
                                other => panic!("unexpected: {:?}", other),
                            }
                        }
                    }
                }
                other => panic!("unexpected: {:?}", other),
            }
        }
    }
    assert_eq!(publishes, 2);
    assert_eq!(
        events,
        vec![Event::Error(Error::Swarm("Failed to send message: no peers".to_string()))]
    );
    assert_eq!(node.outcome(), Some(Ok(())));
    assert!(queue.is_empty());
}

#[test]
fn run_waits_on_an_open_queue_and_ends_on_a_closed_one() {
    let mut node = running("alice");
    let mut queue = CommandQueue::new(8);
    assert_eq!(node.run(&mut queue), vec![]);
    assert_eq!(node.outcome(), None);
    assert_eq!(queue.try_send(send("one", "main")), Ok(()));
    assert_eq!(node.run(&mut queue).len(), 1);
    assert_eq!(node.outcome(), None);
    assert!(queue.is_empty());
    assert_eq!(queue.try_send(send("two", "main")), Ok(()));
    queue.close();
    assert_eq!(node.run(&mut queue).len(), 1);
    assert_eq!(node.outcome(), None);
    assert_eq!(node.run(&mut queue), vec![]);
    assert_eq!(node.outcome(), Some(Ok(())));
    assert!(queue.is_empty());
}

#[test]
fn two_nodes_that_are_announced_to_each_other_observe_each_other() {
    let mut alice = running("alice");
    let mut bob = running("bob");
    let at_alice = alice.step(Input::Occurrence(Occurrence::Discovered(vec![bob.id()])));
    let at_bob = bob.step(Input::Occurrence(Occurrence::Discovered(vec![alice.id()])));
    assert_eq!(
        at_alice,
        vec![Action::AddExplicitPeer(bob.id()), Action::Emit(Event::DiscoveredNode(bob.id()))]
    );
    assert_eq!(
        at_bob,
        vec![
            Action::AddExplicitPeer(alice.id()),
            Action::Emit(Event::DiscoveredNode(alice.id()))
        ]
    );
}

#[test]
fn a_fresh_stamp_has_a_random_id_and_the_clock() {
    let before = chrono::Utc::now().timestamp_millis();
    let a = Stamp::fresh();
    let b = Stamp::fresh();
    let after = chrono::Utc::now().timestamp_millis();
    assert_ne!(a.id, b.id);
    for stamp in [a, b] {
        assert_eq!(stamp.id & 0xf000_c000_0000_0000_0000, 0x4000_8000_0000_0000_0000);
        assert_eq!(uuid::Uuid::from_u128(stamp.id).get_version_num(), 4);
        assert_eq!(uuid::Uuid::from_u128(stamp.id).get_variant(), uuid::Variant::RFC4122);
        assert!(before <= stamp.now && stamp.now <= after);
    }
}

use libp2p::identity::Keypair;
use retoro::bus::CommandQueue;
use retoro::bus::Delivery;
use retoro::bus::EventBus;
use retoro::bus::Refusal;
use retoro::channel::Channel;
use retoro::channel::Target;
use retoro::command::Command;
use retoro::command::MessageCommand;
use retoro::error::Error;
use retoro::event::Event;
use retoro::peer::PeerId;

fn say(text: &str) -> Command {
    Command::SendMessage(MessageCommand {
        message: text.to_string(),
        target: Target::Channel(Channel::new("main".to_string(), None)),
    })
}

fn note(text: &str) -> Event {
    Event::Error(Error::Swarm(text.to_string()))
}

#[test]
fn a_full_queue_refuses_the_next_command_until_one_is_taken() {
    let capacity = 8;
    let mut queue = CommandQueue::new(capacity);
    assert_eq!(queue.capacity(), capacity);
    for i in 0..capacity {
        assert!(!queue.is_full());
        assert_eq!(queue.try_send(say(&i.to_string())), Ok(()));
    }
    assert!(queue.is_full());
    assert_eq!(queue.len(), capacity);
    assert_eq!(queue.try_send(say("late")), Err(Refusal::Full(say("late"))));
    assert_eq!(queue.try_send(say("late")), Err(Refusal::Full(say("late"))));
    assert_eq!(queue.len(), capacity);
    assert_eq!(queue.recv(), Some(say("0")));
    assert_eq!(queue.try_send(say("late")), Ok(()));
    assert_eq!(queue.try_send(say("later")), Err(Refusal::Full(say("later"))));
    for i in 1..capacity {
        assert_eq!(queue.recv(), Some(say(&i.to_string())));
    }
    assert_eq!(queue.recv(), Some(say("late")));
    assert_eq!(queue.recv(), None);
    assert!(queue.is_empty());
}

#[test]
fn the_default_queue_holds_1024_commands() {
    let mut queue = CommandQueue::new(retoro::node::CHANNEL_SIZE);
    for _ in 0..1024 {
        assert_eq!(queue.try_send(Command::Shutdown), Ok(()));
    }
    assert_eq!(queue.try_send(Command::Shutdown), Err(Refusal::Full(Command::Shutdown)));
}

#[test]
fn a_closed_queue_takes_nothing_and_gives_what_it_holds() {
    let mut queue = CommandQueue::new(4);
    assert_eq!(queue.try_send(say("a")), Ok(()));
    assert!(!queue.is_closed());
    queue.close();
    assert!(queue.is_closed());
    assert_eq!(queue.try_send(say("b")), Err(Refusal::Closed(say("b"))));
    assert_eq!(queue.recv(), Some(say("a")));
    assert_eq!(queue.recv(), None);
}

#[test]
fn a_queue_without_room_refuses_everything() {
    let mut queue = CommandQueue::new(0);
    assert!(queue.is_full());
    assert_eq!(queue.try_send(Command::Shutdown), Err(Refusal::Full(Command::Shutdown)));
    assert_eq!(queue.recv(), None);
}

#[test]
fn a_subscriber_sees_only_what_is_published_after_it_joined() {
    let mut bus = EventBus::new(4);
    assert_eq!(bus.publish(note("before")), Ok(()));
    let first = bus.subscribe();
    assert_eq!(bus.publish(note("one")), Ok(()));
    let second = bus.subscribe();
    assert_eq!((first, second), (0, 1));
    assert_eq!(bus.subscriber_count(), 2);
    assert_eq!(bus.publish(note("two")), Ok(()));
    assert_eq!(bus.poll(first), Delivery::Event(note("one")));
    assert_eq!(bus.poll(first), Delivery::Event(note("two")));
    assert_eq!(bus.poll(first), Delivery::Empty);
    assert_eq!(bus.poll(second), Delivery::Event(note("two")));
    assert_eq!(bus.poll(second), Delivery::Empty);
}

#[test]
fn a_subscriber_that_never_polls_loses_its_oldest_events_and_counts_them() {
    let capacity = 4;
    let mut bus = EventBus::new(capacity);
    let lazy = bus.subscribe();
    let eager = bus.subscribe();
    let total = 11;
    for i in 0..total {
        assert_eq!(bus.publish(note(&i.to_string())), Ok(()));
        assert_eq!(bus.poll(eager), Delivery::Event(note(&i.to_string())));
        assert_eq!(bus.poll(eager), Delivery::Empty);
    }
    assert_eq!(bus.poll(lazy), Delivery::Lagged((total - capacity) as u64));
    for i in (total - capacity)..total {
        assert_eq!(bus.poll(lazy), Delivery::Event(note(&i.to_string())));
    }
    assert_eq!(bus.poll(lazy), Delivery::Empty);
}

#[test]
fn a_bus_without_backlog_counts_every_event_as_missed() {
    let mut bus = EventBus::new(0);
    let id = bus.subscribe();
    assert_eq!(bus.publish(note("a")), Ok(()));
    assert_eq!(bus.publish(note("b")), Ok(()));
    assert_eq!(bus.poll(id), Delivery::Lagged(2));
    assert_eq!(bus.poll(id), Delivery::Empty);
}

#[test]
fn a_closed_bus_refuses_with_a_transmission_error() {
    let mut bus = EventBus::new(2);
    let id = bus.subscribe();
    assert_eq!(bus.publish(note("a")), Ok(()));
    bus.close();
    assert!(bus.is_closed());
    assert_eq!(
        bus.publish(note("b")),
        Err(Error::Transmission("Failed sending event: channel closed".to_string()))
    );
    assert_eq!(bus.poll(id), Delivery::Event(note("a")));
    assert_eq!(bus.poll(id), Delivery::Closed);
}

#[test]
fn an_unknown_or_gone_subscriber_gets_nothing() {
    let mut bus = EventBus::new(2);
    assert_eq!(bus.poll(0), Delivery::Closed);
    let id = bus.subscribe();
    let other = bus.subscribe();
    assert_eq!(bus.publish(note("a")), Ok(()));
    bus.unsubscribe(id);
    bus.unsubscribe(99);
    assert_eq!(bus.publish(note("b")), Ok(()));
    assert_eq!(bus.poll(id), Delivery::Closed);
    assert_eq!(bus.poll(other), Delivery::Event(note("a")));
    assert_eq!(bus.poll(other), Delivery::Event(note("b")));
}

#[test]
fn events_of_every_kind_pass_through_the_bus() {
    let peer = PeerId::from_keypair(&Keypair::generate_ed25519());
    let channel = Channel::new("c".to_string(), Some("p".to_string()));
    let events = vec![
        Event::DiscoveredNode(peer.clone()),
        Event::JoinedChannel(channel.clone()),
        Event::LeftChannel(channel),
        Event::AddedFriend(peer.clone()),
        Event::RemovedFriend(peer),
        note("e"),
    ];
    let mut bus = EventBus::new(retoro::node::CHANNEL_SIZE);
    assert_eq!(bus.capacity(), 1024);
    let id = bus.subscribe();
    for event in &events {
        assert_eq!(bus.publish(event.clone()), Ok(()));
    }
    for event in events {
        assert_eq!(bus.poll(id), Delivery::Event(event));
    }
}

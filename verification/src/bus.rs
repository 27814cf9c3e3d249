//! The command queue and the event bus.
use std::collections::VecDeque;
use vstd::prelude::*;
use crate::command::Command;
use crate::command::CommandView;
use crate::error::Error;
use crate::error::ErrorView;
use crate::event::Event;
use crate::event::EventView;
use crate::model::views;

verus! {

/// Why a command was not taken into the queue. It is handed back: a
/// command is never lost.
#[derive(Debug, PartialEq, Eq)]
pub enum Refusal {
    /// The queue is full. The producer waits until a command is taken out.
    Full(Command),
    /// The queue is closed.
    Closed(Command),
}

/// A [`Refusal`] as mathematics.
pub enum RefusalView {
    Full(CommandView),
    Closed(CommandView),
}

impl View for Refusal {
    type V = RefusalView;

    open spec fn view(&self) -> RefusalView {
        match self {
            Refusal::Full(command) => RefusalView::Full(command@),
            Refusal::Closed(command) => RefusalView::Closed(command@),
        }
    }
}

/// The bounded queue of commands: any number of producers put commands in,
/// the node alone takes them out, first in, first out.
#[derive(Debug)]
pub struct CommandQueue {
    capacity: usize,
    pending: VecDeque<Command>,
    closed: bool,
}

/// A [`CommandQueue`] as mathematics.
pub struct QueueView {
    pub capacity: nat,
    pub pending: Seq<CommandView>,
    pub closed: bool,
}

impl QueueView {
    /// The queue never holds more than its capacity.
    pub open spec fn wf(self) -> bool {
        self.pending.len() <= self.capacity
    }

    /// Whether the queue takes one more command.
    pub open spec fn accepts(self) -> bool {
        !self.closed && self.pending.len() < self.capacity
    }

    /// The queue after a producer offered `command`: it stands at the end
    /// if the queue took it, else nothing changed.
    pub open spec fn offered(self, command: CommandView) -> QueueView {
        if self.accepts() {
            QueueView {
                capacity: self.capacity,
                pending: self.pending.push(command),
                closed: self.closed,
            }
        } else {
            self
        }
    }

    /// The queue after the node took a command out, if there was one.
    pub open spec fn taken(self) -> QueueView {
        if self.pending.len() > 0 {
            QueueView {
                capacity: self.capacity,
                pending: self.pending.drop_first(),
                closed: self.closed,
            }
        } else {
            self
        }
    }

    /// The queue after producers offered `commands`, in order, while the
    /// node took nothing out.
    pub open spec fn offered_all(self, commands: Seq<CommandView>) -> QueueView
        decreases commands.len(),
    {
        if commands.len() == 0 {
            self
        } else {
            self.offered_all(commands.drop_last()).offered(commands.last())
        }
    }
}

impl View for CommandQueue {
    type V = QueueView;

    closed spec fn view(&self) -> QueueView {
        QueueView {
            capacity: self.capacity as nat,
            pending: views(self.pending@),
            closed: self.closed,
        }
    }
}

/// While the node takes nothing out, a queue takes what is offered up to
/// its capacity and nothing beyond it.
pub proof fn lemma_offered_all(queue: QueueView, commands: Seq<CommandView>)
    requires
        queue.wf(),
        !queue.closed,
    ensures
        queue.offered_all(commands).wf(),
        !queue.offered_all(commands).closed,
        queue.offered_all(commands).capacity == queue.capacity,
        queue.pending.len() + commands.len() <= queue.capacity ==> queue.offered_all(
            commands,
        ).pending == queue.pending + commands,
        queue.pending.len() + commands.len() > queue.capacity ==> queue.offered_all(
            commands,
        ).pending == queue.pending + commands.subrange(0, queue.capacity - queue.pending.len()),
    decreases commands.len(),
{
    if commands.len() == 0 {
        assert(queue.pending + commands =~= queue.pending);
    } else {
        let before = commands.drop_last();
        lemma_offered_all(queue, before);
        let room = queue.capacity - queue.pending.len();
        if queue.pending.len() + commands.len() <= queue.capacity {
            assert((queue.pending + before).push(commands.last()) =~= queue.pending + commands);
        } else if queue.pending.len() + before.len() <= queue.capacity {
            assert(queue.pending + before =~= queue.pending + commands.subrange(0, room));
        } else {
            assert(before.subrange(0, room) =~= commands.subrange(0, room));
        }
    }
}

/// With capacity K and a node that takes nothing out, K commands go into an
/// empty queue and the next one does not: its producer has to wait, and the
/// queue is as it was. As soon as the node has taken one command out, the
/// queue takes one again.
pub proof fn lemma_full_queue_blocks(queue: QueueView, commands: Seq<CommandView>, next: CommandView)
    requires
        !queue.closed,
        queue.pending.len() == 0,
        commands.len() == queue.capacity,
        queue.capacity > 0,
    ensures
        queue.offered_all(commands).pending == commands,
        !queue.offered_all(commands).accepts(),
        queue.offered_all(commands).offered(next) == queue.offered_all(commands),
        queue.offered_all(commands).taken().accepts(),
        queue.offered_all(commands).taken().offered(next).pending == commands.drop_first().push(
            next,
        ),
{
    lemma_offered_all(queue, commands);
    assert(queue.pending + commands =~= commands);
}

impl CommandQueue {
    /// An empty, open queue that holds up to `capacity` commands.
    pub fn new(capacity: usize) -> (queue: CommandQueue)
        ensures
            queue@ == (QueueView {
                capacity: capacity as nat,
                pending: Seq::empty(),
                closed: false,
            }),
            queue@.wf(),
    {
        let queue = CommandQueue { capacity, pending: VecDeque::new(), closed: false };
        proof {
            assert(views(queue.pending@) =~= Seq::empty());
        }
        queue
    }

    /// How many commands the queue holds at most.
    pub fn capacity(&self) -> (capacity: usize)
        ensures
            capacity == self@.capacity,
    {
        self.capacity
    }

    /// How many commands wait in the queue.
    pub fn len(&self) -> (len: usize)
        ensures
            len == self@.pending.len(),
    {
        self.pending.len()
    }

    /// Whether no command waits in the queue.
    pub fn is_empty(&self) -> (empty: bool)
        ensures
            empty == (self@.pending.len() == 0),
    {
        self.pending.len() == 0
    }

    /// Whether the queue holds as many commands as it can.
    pub fn is_full(&self) -> (full: bool)
        ensures
            full == (self@.pending.len() >= self@.capacity),
    {
        self.pending.len() >= self.capacity
    }

    /// Whether the queue is closed.
    pub fn is_closed(&self) -> (closed: bool)
        ensures
            closed == self@.closed,
    {
        self.closed
    }

    /// Offers a command. The queue takes it at its end unless it is closed
    /// or full; then it hands the command back and stays as it was.
    pub fn try_send(&mut self, command: Command) -> (sent: Result<(), Refusal>)
        ensures
            final(self)@ == old(self)@.offered(command@),
            old(self)@.wf() ==> final(self)@.wf(),
            sent is Ok <==> old(self)@.accepts(),
            sent matches Err(refusal) ==> refusal@ == (if old(self)@.closed {
                RefusalView::Closed(command@)
            } else {
                RefusalView::Full(command@)
            }),
    {
        if self.closed {
            return Err(Refusal::Closed(command));
        }
        if self.pending.len() >= self.capacity {
            return Err(Refusal::Full(command));
        }
        proof {
            crate::model::lemma_views_push(self.pending@, command);
        }
        self.pending.push_back(command);
        Ok(())
    }

    /// Takes the oldest command out, if one waits.
    pub fn recv(&mut self) -> (command: Option<Command>)
        ensures
            final(self)@ == old(self)@.taken(),
            old(self)@.wf() ==> final(self)@.wf(),
            match command {
                Some(c) => old(self)@.pending.len() > 0 && c@ == old(self)@.pending[0],
                None => old(self)@.pending.len() == 0,
            },
    {
        let command = self.pending.pop_front();
        proof {
            if old(self).pending@.len() > 0 {
                assert(views(old(self).pending@.subrange(1, old(self).pending@.len() as int))
                    =~= views(old(self).pending@).drop_first());
            }
        }
        command
    }

    /// Closes the queue: no producer is left. What waits can still be taken
    /// out.
    pub fn close(&mut self)
        ensures
            final(self)@ == (QueueView {
                capacity: old(self)@.capacity,
                pending: old(self)@.pending,
                closed: true,
            }),
    {
        self.closed = true;
    }
}

/// What a subscriber gets when it asks for its next event.
#[derive(Debug, PartialEq, Eq)]
pub enum Delivery {
    /// The oldest event that waited for it.
    Event(Event),
    /// It fell behind: this many of its oldest events were dropped since it
    /// was last told.
    Lagged(u64),
    /// Nothing waits.
    Empty,
    /// Nothing waits and nothing will come: the bus is closed, or the
    /// subscriber is unknown or gone.
    Closed,
}

/// A [`Delivery`] as mathematics.
pub enum DeliveryView {
    Event(EventView),
    Lagged(nat),
    Empty,
    Closed,
}

impl View for Delivery {
    type V = DeliveryView;

    open spec fn view(&self) -> DeliveryView {
        match self {
            Delivery::Event(event) => DeliveryView::Event(event@),
            Delivery::Lagged(missed) => DeliveryView::Lagged(*missed as nat),
            Delivery::Empty => DeliveryView::Empty,
            Delivery::Closed => DeliveryView::Closed,
        }
    }
}

/// One subscriber: the events that wait for it and how many it missed.
#[derive(Debug)]
pub struct Subscriber {
    backlog: VecDeque<Event>,
    missed: u64,
    live: bool,
}

/// A [`Subscriber`] as mathematics.
pub struct SubscriberView {
    pub backlog: Seq<EventView>,
    pub missed: nat,
    pub live: bool,
}

/// One more missed event. The count stops at the largest number it can
/// hold.
pub open spec fn bump(missed: nat) -> nat {
    if missed < u64::MAX {
        missed + 1
    } else {
        missed
    }
}

impl SubscriberView {
    /// A subscriber that has just subscribed: nothing waits for it.
    pub open spec fn fresh() -> SubscriberView {
        SubscriberView { backlog: Seq::empty(), missed: 0, live: true }
    }

    /// A subscriber that is gone.
    pub open spec fn gone() -> SubscriberView {
        SubscriberView { backlog: Seq::empty(), missed: 0, live: false }
    }

    /// The subscriber after `event` was published to a backlog of at most
    /// `capacity` events: the event waits at the end; where the backlog was
    /// full, its oldest event is dropped and counted.
    pub open spec fn received(self, event: EventView, capacity: nat) -> SubscriberView {
        if !self.live {
            self
        } else if self.backlog.len() < capacity {
            SubscriberView {
                backlog: self.backlog.push(event),
                missed: self.missed,
                live: true,
            }
        } else if capacity == 0 {
            SubscriberView { backlog: self.backlog, missed: bump(self.missed), live: true }
        } else {
            SubscriberView {
                backlog: self.backlog.drop_first().push(event),
                missed: bump(self.missed),
                live: true,
            }
        }
    }

    /// The subscriber after `events` were published, in order, while it
    /// asked for nothing.
    pub open spec fn received_all(self, events: Seq<EventView>, capacity: nat) -> SubscriberView
        decreases events.len(),
    {
        if events.len() == 0 {
            self
        } else {
            self.received_all(events.drop_last(), capacity).received(events.last(), capacity)
        }
    }

    /// The subscriber after it asked for its next event, and what it got:
    /// first the count of what it missed, once; then its events, oldest
    /// first.
    pub open spec fn polled(self, closed: bool) -> (SubscriberView, DeliveryView) {
        if !self.live {
            (self, DeliveryView::Closed)
        } else if self.missed > 0 {
            (
                SubscriberView { backlog: self.backlog, missed: 0, live: true },
                DeliveryView::Lagged(self.missed),
            )
        } else if self.backlog.len() > 0 {
            (
                SubscriberView { backlog: self.backlog.drop_first(), missed: 0, live: true },
                DeliveryView::Event(self.backlog[0]),
            )
        } else if closed {
            (self, DeliveryView::Closed)
        } else {
            (self, DeliveryView::Empty)
        }
    }
}

impl View for Subscriber {
    type V = SubscriberView;

    closed spec fn view(&self) -> SubscriberView {
        SubscriberView {
            backlog: views(self.backlog@),
            missed: self.missed as nat,
            live: self.live,
        }
    }
}

/// The event bus: every subscriber has a bounded backlog of its own.
#[derive(Debug)]
pub struct EventBus {
    capacity: usize,
    subscribers: Vec<Subscriber>,
    closed: bool,
}

/// An [`EventBus`] as mathematics.
pub struct BusView {
    pub capacity: nat,
    pub subscribers: Seq<SubscriberView>,
    pub closed: bool,
}

impl BusView {
    /// No backlog holds more than the capacity.
    pub open spec fn wf(self) -> bool {
        forall|i: int|
            0 <= i < self.subscribers.len() ==> (#[trigger] self.subscribers[i]).backlog.len()
                <= self.capacity
    }

    /// The bus after `event` was published: every subscriber received it,
    /// each for itself. A closed bus stays as it is.
    pub open spec fn published(self, event: EventView) -> BusView {
        if self.closed {
            self
        } else {
            BusView {
                capacity: self.capacity,
                subscribers: Seq::new(
                    self.subscribers.len(),
                    |i: int| self.subscribers[i].received(event, self.capacity),
                ),
                closed: false,
            }
        }
    }

    /// The bus after one more subscriber joined.
    pub open spec fn subscribed(self) -> BusView {
        BusView {
            capacity: self.capacity,
            subscribers: self.subscribers.push(SubscriberView::fresh()),
            closed: self.closed,
        }
    }

    /// The bus after subscriber `id` asked for its next event, and what it
    /// got.
    pub open spec fn polled(self, id: int) -> (BusView, DeliveryView) {
        if 0 <= id < self.subscribers.len() {
            let (after, delivery) = self.subscribers[id].polled(self.closed);
            (
                BusView {
                    capacity: self.capacity,
                    subscribers: self.subscribers.update(id, after),
                    closed: self.closed,
                },
                delivery,
            )
        } else {
            (self, DeliveryView::Closed)
        }
    }
}

impl View for EventBus {
    type V = BusView;

    closed spec fn view(&self) -> BusView {
        BusView {
            capacity: self.capacity as nat,
            subscribers: views(self.subscribers@),
            closed: self.closed,
        }
    }
}

/// Isolation: what a published event does to one subscriber depends on
/// that subscriber alone. Whether another subscriber keeps up or never asks
/// changes nothing for it, and publishing succeeds either way.
pub proof fn lemma_publish_isolated(bus: BusView, other: BusView, event: EventView, i: int, j: int)
    requires
        !bus.closed,
        !other.closed,
        bus.capacity == other.capacity,
        0 <= i < bus.subscribers.len(),
        0 <= j < other.subscribers.len(),
        bus.subscribers[i] == other.subscribers[j],
    ensures
        bus.published(event).subscribers[i] == other.published(event).subscribers[j],
        bus.published(event).subscribers[i] == bus.subscribers[i].received(event, bus.capacity),
{
}

/// A subscriber that never asks keeps the newest events, as many as its
/// backlog holds, and counts the others as missed.
pub proof fn lemma_lagging_subscriber(sub: SubscriberView, events: Seq<EventView>, capacity: nat)
    requires
        sub.live,
        sub.backlog.len() <= capacity,
        sub.missed + (if sub.backlog.len() + events.len() > capacity {
            sub.backlog.len() + events.len() - capacity
        } else {
            0
        }) <= u64::MAX,
    ensures
        ({
            let all = sub.backlog + events;
            let after = sub.received_all(events, capacity);
            let over = if all.len() > capacity {
                all.len() - capacity
            } else {
                0
            };
            &&& after.live
            &&& after.backlog == all.subrange(over, all.len() as int)
            &&& after.missed == sub.missed + over
        }),
    decreases events.len(),
{
    let all = sub.backlog + events;
    if events.len() == 0 {
        assert(all.subrange(0, all.len() as int) =~= sub.backlog);
    } else {
        let first = events.drop_last();
        lemma_lagging_subscriber(sub, first, capacity);
        let before = sub.received_all(first, capacity);
        let seen = sub.backlog + first;
        assert(all =~= seen.push(events.last()));
        let after = before.received(events.last(), capacity);
        let over = if all.len() > capacity {
            all.len() - capacity
        } else {
            0
        };
        assert(after.backlog =~= all.subrange(over, all.len() as int));
    }
}

impl EventBus {
    /// An open bus without subscribers, whose backlogs hold up to
    /// `capacity` events each.
    pub fn new(capacity: usize) -> (bus: EventBus)
        ensures
            bus@ == (BusView {
                capacity: capacity as nat,
                subscribers: Seq::empty(),
                closed: false,
            }),
            bus@.wf(),
    {
        let bus = EventBus { capacity, subscribers: Vec::new(), closed: false };
        proof {
            assert(views(bus.subscribers@) =~= Seq::empty());
        }
        bus
    }

    /// How many events each backlog holds at most.
    pub fn capacity(&self) -> (capacity: usize)
        ensures
            capacity == self@.capacity,
    {
        self.capacity
    }

    /// Whether the bus is closed.
    pub fn is_closed(&self) -> (closed: bool)
        ensures
            closed == self@.closed,
    {
        self.closed
    }

    /// How many subscribers ever joined.
    pub fn subscriber_count(&self) -> (count: usize)
        ensures
            count == self@.subscribers.len(),
    {
        self.subscribers.len()
    }

    /// A new subscriber. It sees the events published from now on, and its
    /// number is the one to ask with.
    pub fn subscribe(&mut self) -> (id: usize)
        ensures
            final(self)@ == old(self)@.subscribed(),
            id == old(self)@.subscribers.len(),
            old(self)@.wf() ==> final(self)@.wf(),
    {
        let id = self.subscribers.len();
        let subscriber = Subscriber { backlog: VecDeque::new(), missed: 0, live: true };
        proof {
            assert(views(subscriber.backlog@) =~= Seq::empty());
            crate::model::lemma_views_push(self.subscribers@, subscriber);
        }
        self.subscribers.push(subscriber);
        id
    }

    /// Subscriber `id` leaves: what waited for it is dropped, and it gets
    /// nothing any more. An unknown number changes nothing.
    pub fn unsubscribe(&mut self, id: usize)
        ensures
            final(self)@ == (if id < old(self)@.subscribers.len() {
                BusView {
                    capacity: old(self)@.capacity,
                    subscribers: old(self)@.subscribers.update(id as int, SubscriberView::gone()),
                    closed: old(self)@.closed,
                }
            } else {
                old(self)@
            }),
            old(self)@.wf() ==> final(self)@.wf(),
    {
        if id < self.subscribers.len() {
            let gone = Subscriber { backlog: VecDeque::new(), missed: 0, live: false };
            proof {
                assert(views(gone.backlog@) =~= Seq::empty());
                assert(views(self.subscribers@.update(id as int, gone)) =~= views(
                    self.subscribers@,
                ).update(id as int, gone@));
            }
            self.subscribers.set(id, gone);
        }
    }

    /// Publishes `event` to every subscriber. This never waits: a
    /// subscriber whose backlog is full loses its oldest event and counts
    /// it. Only a closed bus refuses, with a transmission error.
    pub fn publish(&mut self, event: Event) -> (sent: Result<(), Error>)
        ensures
            final(self)@ == old(self)@.published(event@),
            old(self)@.wf() ==> final(self)@.wf(),
            sent is Ok <==> !old(self)@.closed,
            sent matches Err(e) ==> e@ == ErrorView::Transmission(
                "Failed sending event: channel closed"@,
            ),
    {
        if self.closed {
            return Err(Error::Transmission("Failed sending event: channel closed".to_owned()));
        }
        let capacity = self.capacity;
        let count = self.subscribers.len();
        let mut i: usize = 0;
        while i < count
            invariant
                i <= count,
                count == self.subscribers@.len(),
                count == old(self).subscribers@.len(),
                capacity == self.capacity,
                self.capacity == old(self).capacity,
                self.closed == old(self).closed,
                !self.closed,
                forall|k: int|
                    0 <= k < i ==> (#[trigger] self.subscribers@[k])@ == old(
                        self,
                    ).subscribers@[k]@.received(event@, capacity as nat),
                forall|k: int|
                    i <= k < count ==> #[trigger] self.subscribers@[k] == old(
                        self,
                    ).subscribers@[k],
            decreases count - i,
        {
            let copy = event.clone();
            let subscriber = &mut self.subscribers[i];
            if subscriber.live {
                if subscriber.backlog.len() < capacity {
                    proof {
                        crate::model::lemma_views_push(subscriber.backlog@, copy);
                    }
                    subscriber.backlog.push_back(copy);
                } else {
                    if capacity > 0 {
                        let ghost before = subscriber.backlog@;
                        let _ = subscriber.backlog.pop_front();
                        proof {
                            assert(views(before.subrange(1, before.len() as int)) =~= views(
                                before,
                            ).drop_first());
                            crate::model::lemma_views_push(subscriber.backlog@, copy);
                        }
                        subscriber.backlog.push_back(copy);
                    }
                    if subscriber.missed < u64::MAX {
                        subscriber.missed = subscriber.missed + 1;
                    }
                }
            }
            i = i + 1;
        }
        proof {
            assert(views(self.subscribers@) =~= old(self)@.published(event@).subscribers);
        }
        Ok(())
    }

    /// The next event for subscriber `id`: first the count of what it
    /// missed, once; then its events, oldest first; `Empty` when nothing
    /// waits; `Closed` when nothing waits and the bus is closed, or the
    /// subscriber is unknown or gone.
    pub fn poll(&mut self, id: usize) -> (delivery: Delivery)
        ensures
            final(self)@ == old(self)@.polled(id as int).0,
            delivery@ == old(self)@.polled(id as int).1,
            old(self)@.wf() ==> final(self)@.wf(),
    {
        if id >= self.subscribers.len() {
            return Delivery::Closed;
        }
        let closed = self.closed;
        let subscriber = &mut self.subscribers[id];
        let delivery = if !subscriber.live {
            Delivery::Closed
        } else if subscriber.missed > 0 {
            let missed = subscriber.missed;
            subscriber.missed = 0;
            Delivery::Lagged(missed)
        } else {
            let ghost backlog = subscriber.backlog@;
            match subscriber.backlog.pop_front() {
                Some(event) => {
                    proof {
                        assert(views(backlog.subrange(1, backlog.len() as int)) =~= views(
                            backlog,
                        ).drop_first());
                    }
                    Delivery::Event(event)
                },
                None => if closed {
                    Delivery::Closed
                } else {
                    Delivery::Empty
                },
            }
        };
        proof {
            assert(views(self.subscribers@) =~= old(self)@.polled(id as int).0.subscribers);
        }
        delivery
    }

    /// Closes the bus: nothing is published any more. What waits can still
    /// be asked for.
    pub fn close(&mut self)
        ensures
            final(self)@ == (BusView {
                capacity: old(self)@.capacity,
                subscribers: old(self)@.subscribers,
                closed: true,
            }),
    {
        self.closed = true;
    }
}

} // verus!

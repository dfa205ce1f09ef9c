//! The queue of timed events: what each client has asked for and when it falls due.
use crate::constant::MAX_SIMULTANEOUS_EVENTS;
use crate::protocol::Id;
use crate::resources::{LevelRequirement, Resource};
use crate::vec2::UPosition;
use vstd::prelude::*;

verus! {

/// What a player does when its turn comes.
#[derive(Debug)]
pub enum Event {
    Broadcast(Vec<u8>),
    Forward,
    Right,
    Left,
    Look,
    Inventory,
    ConnectNbr,
    Fork,
    Eject,
    Take(Resource),
    SetObject(Resource),
    Incantation,
    /// An unreadable command: the player is told so when its turn comes.
    Ko,
    /// Does nothing; it keeps a bound player waiting.
    Phantom,
    /// The end of an incantation: the players bound in it, what it needs, and where.
    IncantationEnd(Vec<Id>, LevelRequirement, UPosition),
}

/// An event with its handle, its owner and the tick at which it falls due.
#[derive(Debug, Clone)]
pub struct TimedEvent<T> {
    pub data: T,
    pub event_id: Id,
    pub player_id: Id,
    pub expiration_tick: u64,
}

impl<T> TimedEvent<T> {
    /// Whether `self` falls due before `other`: at an earlier tick, or at the same
    /// tick with a smaller handle.
    pub open spec fn before(self, other: Self) -> bool {
        self.expiration_tick < other.expiration_tick || (self.expiration_tick
            == other.expiration_tick && self.event_id < other.event_id)
    }

    /// The event moved in time by `shift` ticks if it belongs to `player_id`: the tick
    /// stops at the ends of the 64-bit range and is then raised to `floor` where it is
    /// below. The events of other players stay as they are.
    pub open spec fn shifted(self, player_id: Id, shift: i64, floor: u64) -> Self {
        if self.player_id == player_id {
            let moved: int = self.expiration_tick + shift;
            let kept: int = if moved < 0 {
                0
            } else if moved > u64::MAX {
                u64::MAX as int
            } else {
                moved
            };
            TimedEvent {
                expiration_tick: (if kept < floor {
                    floor as int
                } else {
                    kept
                }) as u64,
                ..self
            }
        } else {
            self
        }
    }
}

/// Whether each event of the queue falls due before all that follow it.
pub open spec fn sorted<T>(queue: Seq<TimedEvent<T>>) -> bool {
    forall|i: int, j: int| 0 <= i < j < queue.len() ==> (#[trigger] queue[i]).before(#[trigger] queue[j])
}

/// Whether no two events of the queue share a handle.
pub open spec fn distinct_ids<T>(queue: Seq<TimedEvent<T>>) -> bool {
    forall|i: int, j: int|
        0 <= i < j < queue.len() ==> (#[trigger] queue[i]).event_id != (#[trigger] queue[j]).event_id
}

/// The place of `event` in a sorted queue: the number of events that fall due before
/// it.
pub open spec fn slot<T>(queue: Seq<TimedEvent<T>>, event: TimedEvent<T>) -> nat
    decreases queue.len(),
{
    if queue.len() > 0 && queue[0].before(event) {
        1 + slot(queue.drop_first(), event)
    } else {
        0
    }
}

/// The queue with `event` put in at its place.
pub open spec fn inserted<T>(queue: Seq<TimedEvent<T>>, event: TimedEvent<T>) -> Seq<TimedEvent<T>> {
    queue.insert(slot(queue, event) as int, event)
}

/// The number of events in the queue that belong to `player_id`.
pub open spec fn count_of<T>(queue: Seq<TimedEvent<T>>, player_id: Id) -> nat
    decreases queue.len(),
{
    if queue.len() == 0 {
        0
    } else {
        count_of(queue.drop_last(), player_id) + if queue.last().player_id == player_id {
            1nat
        } else {
            0nat
        }
    }
}

/// The latest tick at which an event of `player_id` falls due, or `floor` if that is
/// later or the player has no event.
pub open spec fn last_tick_of<T>(queue: Seq<TimedEvent<T>>, player_id: Id, floor: u64) -> u64
    decreases queue.len(),
{
    if queue.len() == 0 {
        floor
    } else {
        let earlier = last_tick_of(queue.drop_last(), player_id, floor);
        if queue.last().player_id == player_id && queue.last().expiration_tick > earlier {
            queue.last().expiration_tick
        } else {
            earlier
        }
    }
}

/// The queue after the events of `player_id` have moved in time and every event has
/// been put back at its place.
pub open spec fn shifted_queue<T>(
    queue: Seq<TimedEvent<T>>,
    player_id: Id,
    shift: i64,
    floor: u64,
) -> Seq<TimedEvent<T>>
    decreases queue.len(),
{
    if queue.len() == 0 {
        Seq::empty()
    } else {
        inserted(
            shifted_queue(queue.drop_first(), player_id, shift, floor),
            queue[0].shifted(player_id, shift, floor),
        )
    }
}

/// The number of events at the head of the queue that fall due at `tick` or before.
pub open spec fn due_count<T>(queue: Seq<TimedEvent<T>>, tick: u64) -> nat
    decreases queue.len(),
{
    if queue.len() > 0 && queue[0].expiration_tick <= tick {
        1 + due_count(queue.drop_first(), tick)
    } else {
        0
    }
}

/// The place of an event lies within the queue; the events before it fall due before
/// the event, and the event at it does not.
pub proof fn lemma_slot<T>(queue: Seq<TimedEvent<T>>, event: TimedEvent<T>)
    ensures
        slot(queue, event) <= queue.len(),
        forall|i: int| 0 <= i < slot(queue, event) ==> (#[trigger] queue[i]).before(event),
        slot(queue, event) < queue.len() ==> !queue[slot(queue, event) as int].before(event),
    decreases queue.len(),
{
    if queue.len() > 0 && queue[0].before(event) {
        lemma_slot(queue.drop_first(), event);
        assert forall|i: int| 0 <= i < slot(queue, event) implies (#[trigger] queue[i]).before(
            event,
        ) by {
            if i > 0 {
                assert(queue[i] == queue.drop_first()[i - 1]);
            }
        }
    }
}

/// Putting an event with a new handle into a sorted queue leaves it sorted, with
/// distinct handles, and one longer.
pub proof fn lemma_inserted<T>(queue: Seq<TimedEvent<T>>, event: TimedEvent<T>)
    requires
        sorted(queue),
        distinct_ids(queue),
        forall|i: int| 0 <= i < queue.len() ==> (#[trigger] queue[i]).event_id != event.event_id,
    ensures
        sorted(inserted(queue, event)),
        distinct_ids(inserted(queue, event)),
        inserted(queue, event).len() == queue.len() + 1,
        forall|i: int|
            0 <= i < inserted(queue, event).len() ==> (#[trigger] inserted(queue, event)[i])
                == event || exists|j: int|
                0 <= j < queue.len() && queue[j] == inserted(queue, event)[i],
{
    lemma_slot(queue, event);
    let at = slot(queue, event) as int;
    let after = inserted(queue, event);
    assert forall|i: int, j: int| 0 <= i < j < after.len() implies (#[trigger] after[i]).before(
        #[trigger] after[j],
    ) by {
        if j < at {
            assert(after[i] == queue[i] && after[j] == queue[j]);
        } else if j == at {
            assert(after[i] == queue[i]);
        } else if i < at {
            assert(after[i] == queue[i] && after[j] == queue[j - 1]);
        } else if i == at {
            assert(after[j] == queue[j - 1]);
            assert(!queue[at].before(event));
            assert(queue[at].event_id != event.event_id);
            if j - 1 > at {
                assert(queue[at].before(queue[j - 1]));
            }
        } else {
            assert(after[i] == queue[i - 1] && after[j] == queue[j - 1]);
        }
    }
    assert forall|i: int, j: int| 0 <= i < j < after.len() implies (#[trigger] after[i]).event_id
        != (#[trigger] after[j]).event_id by {
        if i < at {
            assert(after[i] == queue[i]);
        } else if i > at {
            assert(after[i] == queue[i - 1]);
        }
        if j < at {
            assert(after[j] == queue[j]);
        } else if j > at {
            assert(after[j] == queue[j - 1]);
        }
    }
    assert forall|i: int| 0 <= i < after.len() implies (#[trigger] after[i]) == event || exists|
        j: int,
    |
        0 <= j < queue.len() && queue[j] == after[i] by {
        if i < at {
            assert(queue[i] == after[i]);
        } else if i > at {
            assert(queue[i - 1] == after[i]);
        }
    }
}

/// The count of a player's events after one more event has been put into the queue.
pub proof fn lemma_count_inserted<T>(queue: Seq<TimedEvent<T>>, at: int, event: TimedEvent<T>, player_id: Id)
    requires
        0 <= at <= queue.len(),
    ensures
        count_of(queue.insert(at, event), player_id) == count_of(queue, player_id) + if event.player_id
            == player_id {
            1nat
        } else {
            0nat
        },
    decreases queue.len() - at,
{
    let after = queue.insert(at, event);
    if at == queue.len() {
        assert(after.drop_last() =~= queue);
    } else {
        assert(after.drop_last() =~= queue.drop_last().insert(at, event));
        lemma_count_inserted(queue.drop_last(), at, event, player_id);
    }
}

/// No event of a player falls due after the player's latest tick, and that tick is
/// not below the floor.
pub proof fn lemma_last_tick<T>(queue: Seq<TimedEvent<T>>, player_id: Id, floor: u64)
    ensures
        last_tick_of(queue, player_id, floor) >= floor,
        forall|i: int|
            0 <= i < queue.len() && (#[trigger] queue[i]).player_id == player_id
                ==> queue[i].expiration_tick <= last_tick_of(queue, player_id, floor),
    decreases queue.len(),
{
    if queue.len() > 0 {
        lemma_last_tick(queue.drop_last(), player_id, floor);
        assert forall|i: int|
            0 <= i < queue.len() && (#[trigger] queue[i]).player_id == player_id
                implies queue[i].expiration_tick <= last_tick_of(queue, player_id, floor) by {
            if i < queue.len() - 1 {
                assert(queue[i] == queue.drop_last()[i]);
            }
        }
    }
}

/// In a sorted queue the events that fall due by `tick` are the first `due_count`
/// events, and no other.
pub proof fn lemma_due_count<T>(queue: Seq<TimedEvent<T>>, tick: u64)
    requires
        sorted(queue),
    ensures
        due_count(queue, tick) <= queue.len(),
        forall|i: int| 0 <= i < due_count(queue, tick) ==> (#[trigger] queue[i]).expiration_tick <= tick,
        forall|i: int|
            due_count(queue, tick) <= i < queue.len() ==> (#[trigger] queue[i]).expiration_tick
                > tick,
    decreases queue.len(),
{
    if queue.len() > 0 && queue[0].expiration_tick <= tick {
        let rest = queue.drop_first();
        assert forall|i: int, j: int| 0 <= i < j < rest.len() implies (#[trigger] rest[i]).before(
            #[trigger] rest[j],
        ) by {
            assert(rest[i] == queue[i + 1] && rest[j] == queue[j + 1]);
        }
        lemma_due_count(rest, tick);
        assert forall|i: int| 0 <= i < due_count(queue, tick) implies (#[trigger] queue[i]).expiration_tick
            <= tick by {
            if i > 0 {
                assert(queue[i] == rest[i - 1]);
            }
        }
        assert forall|i: int| due_count(queue, tick) <= i < queue.len() implies (#[trigger] queue[i]).expiration_tick
            > tick by {
            assert(queue[i] == rest[i - 1]);
        }
    } else if queue.len() > 0 {
        assert forall|i: int| 0 <= i < queue.len() implies (#[trigger] queue[i]).expiration_tick
            > tick by {
            if i > 0 {
                assert(queue[0].before(queue[i]));
            }
        }
    }
}

/// A queue as a plain value: the events in order, the clock and the next handle.
pub ghost struct Queue<T> {
    pub events: Seq<TimedEvent<T>>,
    pub current_tick: u64,
    pub next_event_id: Id,
}

impl<T> Queue<T> {
    /// The number of pending events of `player_id`.
    pub open spec fn count(self, player_id: Id) -> nat {
        count_of(self.events, player_id)
    }

    /// The latest tick at which an event of `player_id` falls due, or the current
    /// tick if the player has none.
    pub open spec fn last_tick(self, player_id: Id) -> u64 {
        last_tick_of(self.events, player_id, self.current_tick)
    }

    /// Whether an event can be forced in at `event_ticks` ticks from now: a handle is
    /// left and the tick fits.
    pub open spec fn can_force(self, event_ticks: u64) -> bool {
        self.next_event_id < u64::MAX && self.current_tick + event_ticks <= u64::MAX
    }

    /// The queue after `data` has been forced in for `player_id`.
    pub open spec fn forced(self, data: T, event_ticks: u64, player_id: Id) -> Queue<T> {
        if self.can_force(event_ticks) {
            Queue {
                events: inserted(
                    self.events,
                    TimedEvent {
                        data,
                        event_id: self.next_event_id,
                        player_id,
                        expiration_tick: (self.current_tick + event_ticks) as u64,
                    },
                ),
                next_event_id: (self.next_event_id + 1) as u64,
                ..self
            }
        } else {
            self
        }
    }

    /// The handle that forcing an event in returns.
    pub open spec fn forced_id(self, event_ticks: u64) -> Id {
        if self.can_force(event_ticks) {
            self.next_event_id
        } else {
            0
        }
    }

    /// Whether a scheduled event of `player_id` is taken in: a handle is left, the
    /// player has fewer than ten pending events, and the tick fits.
    pub open spec fn takes(self, event_ticks: u64, player_id: Id) -> bool {
        &&& self.next_event_id < u64::MAX
        &&& self.count(player_id) < MAX_SIMULTANEOUS_EVENTS
        &&& self.last_tick(player_id) + event_ticks <= u64::MAX
    }

    /// The queue after `data` has been scheduled for `player_id`.
    pub open spec fn scheduled(self, data: T, event_ticks: u64, player_id: Id) -> Queue<T> {
        if self.takes(event_ticks, player_id) {
            Queue {
                events: inserted(
                    self.events,
                    TimedEvent {
                        data,
                        event_id: self.next_event_id,
                        player_id,
                        expiration_tick: (self.last_tick(player_id) + event_ticks) as u64,
                    },
                ),
                next_event_id: (self.next_event_id + 1) as u64,
                ..self
            }
        } else if self.next_event_id < u64::MAX {
            Queue { next_event_id: (self.next_event_id + 1) as u64, ..self }
        } else {
            self
        }
    }

    /// The handle that scheduling an event returns.
    pub open spec fn scheduled_id(self, event_ticks: u64, player_id: Id) -> Id {
        if self.takes(event_ticks, player_id) {
            self.next_event_id
        } else {
            0
        }
    }

    /// The queue after the events of `player_id` have moved by `shift_ticks` ticks.
    pub open spec fn moved(self, player_id: Id, shift_ticks: i64) -> Queue<T> {
        Queue {
            events: shifted_queue(self.events, player_id, shift_ticks, self.current_tick),
            ..self
        }
    }
}

impl<T> View for EventScheduler<T> {
    type V = Queue<T>;

    open spec fn view(&self) -> Queue<T> {
        Queue {
            events: self.events@,
            current_tick: self.current_tick,
            next_event_id: self.next_event_id,
        }
    }
}

/// The queue of pending events, kept in the order in which they fall due.
pub struct EventScheduler<T> {
    pub events: Vec<TimedEvent<T>>,
    pub current_tick: u64,
    pub next_event_id: Id,
}

impl<T> EventScheduler<T> {
    /// Whether the queue is in order: it is sorted, no two events share a handle, and
    /// every handle is at least one and below the next handle to be given.
    pub open spec fn ordered(&self) -> bool {
        &&& sorted(self.events@)
        &&& distinct_ids(self.events@)
        &&& self.next_event_id >= 1
        &&& forall|i: int|
            0 <= i < self.events@.len() ==> 1 <= (#[trigger] self.events@[i]).event_id
                < self.next_event_id
    }

    /// What holds of every queue between two calls: it is in order, and no event
    /// falls due before the current tick.
    pub open spec fn wf(&self) -> bool {
        &&& self.ordered()
        &&& forall|i: int|
            0 <= i < self.events@.len() ==> (#[trigger] self.events@[i]).expiration_tick
                >= self.current_tick
    }

    /// The number of pending events of `player_id`.
    pub open spec fn spec_count(&self, player_id: Id) -> nat {
        count_of(self.events@, player_id)
    }

    /// The latest tick at which an event of `player_id` falls due, or the current
    /// tick if the player has none.
    pub open spec fn spec_last_tick(&self, player_id: Id) -> u64 {
        last_tick_of(self.events@, player_id, self.current_tick)
    }

    /// An empty queue at tick zero. Handles start at one: zero is kept for refusals.
    pub fn new() -> (scheduler: Self)
        ensures
            scheduler.wf(),
            scheduler.events@.len() == 0,
            scheduler.current_tick == 0,
            scheduler.next_event_id == 1,
    {
        EventScheduler { events: Vec::new(), current_tick: 0, next_event_id: 1 }
    }

    /// The number of pending events of `player_id` and the latest tick at which one
    /// of them falls due (the current tick if there is none).
    pub fn get_nb_events_by_player_id(&self, player_id: Id) -> (found: (u64, u64))
        ensures
            found.0 == self.spec_count(player_id),
            found.1 == self.spec_last_tick(player_id),
    {
        let mut nb_events: u64 = 0;
        let mut last_action_tick = self.current_tick;
        let mut i: usize = 0;
        assert(self.events@.subrange(0, 0) =~= Seq::<TimedEvent<T>>::empty());
        while i < self.events.len()
            invariant
                i <= self.events.len(),
                nb_events == count_of(self.events@.subrange(0, i as int), player_id),
                nb_events <= i,
                last_action_tick == last_tick_of(
                    self.events@.subrange(0, i as int),
                    player_id,
                    self.current_tick,
                ),
            decreases self.events.len() - i,
        {
            assert(self.events@.subrange(0, i + 1).drop_last() =~= self.events@.subrange(
                0,
                i as int,
            ));
            if self.events[i].player_id == player_id {
                nb_events += 1;
                if self.events[i].expiration_tick > last_action_tick {
                    last_action_tick = self.events[i].expiration_tick;
                }
            }
            i += 1;
        }
        assert(self.events@.subrange(0, i as int) =~= self.events@);
        (nb_events, last_action_tick)
    }

    /// Puts `event` into the queue at its place.
    fn enqueue(&mut self, event: TimedEvent<T>)
        requires
            old(self).wf(),
            1 <= event.event_id < old(self).next_event_id,
            event.expiration_tick >= old(self).current_tick,
            forall|i: int|
                0 <= i < old(self).events@.len() ==> (#[trigger] old(self).events@[i]).event_id
                    != event.event_id,
        ensures
            final(self).wf(),
            final(self).events@ == inserted(old(self).events@, event),
            final(self).current_tick == old(self).current_tick,
            final(self).next_event_id == old(self).next_event_id,
    {
        let at = Self::place(&self.events, &event);
        proof {
            lemma_slot(self.events@, event);
            lemma_inserted(self.events@, event);
        }
        self.events.insert(at, event);
        proof {
            let after = self.events@;
            let before = old(self).events@;
            assert forall|i: int| 0 <= i < after.len() implies 1 <= (#[trigger] after[i]).event_id
                < self.next_event_id && after[i].expiration_tick >= self.current_tick by {
                if after[i] != event {
                    let j = choose|j: int| 0 <= j < before.len() && before[j] == after[i];
                    assert(1 <= before[j].event_id);
                }
            }
        }
    }

    /// The place of `event` in `queue`.
    fn place(queue: &Vec<TimedEvent<T>>, event: &TimedEvent<T>) -> (at: usize)
        ensures
            at == slot(queue@, *event),
            at <= queue@.len(),
    {
        let mut at: usize = 0;
        assert(queue@.subrange(0, queue@.len() as int) =~= queue@);
        while at < queue.len() && (queue[at].expiration_tick < event.expiration_tick || (
        queue[at].expiration_tick == event.expiration_tick && queue[at].event_id < event.event_id))
            invariant
                at <= queue.len(),
                slot(queue@, *event) == at + slot(
                    queue@.subrange(at as int, queue@.len() as int),
                    *event,
                ),
            decreases queue.len() - at,
        {
            assert(queue@.subrange(at as int, queue@.len() as int).drop_first()
                =~= queue@.subrange(at + 1, queue@.len() as int));
            at += 1;
        }
        at
    }

    /// Queues `data` for `player_id` at `event_ticks` ticks from now, whatever else the
    /// player has pending, and returns the handle of the new event. Where no handle
    /// is left or the tick would not fit in 64 bits, nothing is queued and the handle
    /// returned is zero.
    pub fn force_schedule(&mut self, data: T, event_ticks: u64, player_id: Id) -> (event_id: Id)
        requires
            old(self).wf(),
        ensures
            final(self).wf(),
            final(self)@ == old(self)@.forced(data, event_ticks, player_id),
            event_id == old(self)@.forced_id(event_ticks),
    {
        if self.next_event_id == u64::MAX || event_ticks > u64::MAX - self.current_tick {
            return 0;
        }
        let event_id = self.next_event_id;
        self.next_event_id = self.next_event_id + 1;
        let expiration_tick = self.current_tick + event_ticks;
        let event = TimedEvent { data, event_id, player_id, expiration_tick };
        self.enqueue(event);
        event_id
    }

    /// Queues `data` for `player_id` behind everything the player has pending: the
    /// event falls due `event_ticks` ticks after the player's latest pending event, or
    /// after the current tick if it has none. A player with ten pending events is
    /// refused: nothing is queued and the handle returned is zero. The same holds
    /// where no handle is left or the tick would not fit in 64 bits. A handle is used
    /// up whenever one is left.
    pub fn schedule(&mut self, data: T, event_ticks: u64, player_id: Id) -> (event_id: Id)
        requires
            old(self).wf(),
        ensures
            final(self).wf(),
            final(self)@ == old(self)@.scheduled(data, event_ticks, player_id),
            event_id == old(self)@.scheduled_id(event_ticks, player_id),
            event_id != 0 ==> old(self)@.count(player_id) < MAX_SIMULTANEOUS_EVENTS,
            final(self)@.count(player_id) <= if old(self)@.count(player_id)
                < MAX_SIMULTANEOUS_EVENTS {
                MAX_SIMULTANEOUS_EVENTS as nat
            } else {
                old(self)@.count(player_id)
            },
            forall|other: Id|
                other != player_id ==> final(self)@.count(other) == old(self)@.count(other),
            event_id != 0 ==> forall|i: int|
                0 <= i < old(self).events@.len() && (#[trigger] old(self).events@[i]).player_id
                    == player_id ==> old(self).events@[i].expiration_tick <= old(
                    self)@.last_tick(player_id) + event_ticks && old(self).events@[i].event_id
                    < event_id,
    {
        if self.next_event_id == u64::MAX {
            return 0;
        }
        let event_id = self.next_event_id;
        self.next_event_id = self.next_event_id + 1;
        let found = self.get_nb_events_by_player_id(player_id);
        if found.0 >= MAX_SIMULTANEOUS_EVENTS || event_ticks > u64::MAX - found.1 {
            return 0;
        }
        let expiration_tick = found.1 + event_ticks;
        let event = TimedEvent { data, event_id, player_id, expiration_tick };
        proof {
            lemma_slot(self.events@, event);
            lemma_last_tick(self.events@, player_id, self.current_tick);
            assert forall|other: Id| other != player_id implies count_of(
                inserted(self.events@, event),
                other,
            ) == count_of(self.events@, other) by {
                lemma_count_inserted(self.events@, slot(self.events@, event) as int, event, other);
            }
            lemma_count_inserted(self.events@, slot(self.events@, event) as int, event, player_id);
        }
        self.enqueue(event);
        event_id
    }

    /// Moves every pending event of `player_id` by `shift_ticks` ticks, not below the
    /// current tick, and puts the queue back in order.
    pub fn shift_client_events(&mut self, player_id: Id, shift_ticks: i64)
        requires
            old(self).wf(),
        ensures
            final(self).wf(),
            final(self)@ == old(self)@.moved(player_id, shift_ticks),
            final(self).events@.len() == old(self).events@.len(),
            final(self).current_tick == old(self).current_tick,
            final(self).next_event_id == old(self).next_event_id,
            forall|other: Id| final(self).spec_count(other) == old(self).spec_count(other),
    {
        let mut queue: Vec<TimedEvent<T>> = Vec::new();
        let ghost all = self.events@;
        let floor = self.current_tick;
        let bound = self.next_event_id;
        assert(all.subrange(all.len() as int, all.len() as int) =~= Seq::<TimedEvent<T>>::empty());
        assert(all.subrange(0, all.len() as int) =~= all);
        while self.events.len() > 0
            invariant
                self.events@.len() <= all.len(),
                self.events@ == all.subrange(0, self.events@.len() as int),
                self.current_tick == floor,
                self.next_event_id == bound,
                sorted(all),
                distinct_ids(all),
                forall|i: int|
                    0 <= i < all.len() ==> 1 <= (#[trigger] all[i]).event_id < bound
                        && all[i].expiration_tick >= floor,
                forall|j: int| 0 <= j < queue@.len() ==> (#[trigger] queue@[j]).expiration_tick >= floor,
                queue@ == shifted_queue(
                    all.subrange(self.events@.len() as int, all.len() as int),
                    player_id,
                    shift_ticks,
                    floor,
                ),
                queue@.len() == all.len() - self.events@.len(),
                sorted(queue@),
                distinct_ids(queue@),
                forall|j: int|
                    0 <= j < queue@.len() ==> exists|i: int|
                        self.events@.len() <= i < all.len() && all[i].event_id == (
                        #[trigger] queue@[j]).event_id && all[i].player_id == queue@[j].player_id,
                forall|other: Id|
                    count_of(queue@, other) + count_of(self.events@, other) == count_of(all, other),
            decreases self.events@.len(),
        {
            let ghost left = self.events@.len() as int;
            let ghost done = queue@;
            let ghost pending = self.events@;
            let taken = self.events.pop();
            let mut event = taken.unwrap();
            assert(event == all[left - 1]);
            let ghost unmoved = event;
            if event.player_id == player_id {
                let moved = if shift_ticks < 0 {
                    let back: u64 = if shift_ticks == i64::MIN {
                        0x8000_0000_0000_0000
                    } else {
                        (-shift_ticks) as u64
                    };
                    event.expiration_tick.saturating_sub(back)
                } else {
                    event.expiration_tick.saturating_add(shift_ticks as u64)
                };
                event.expiration_tick = if moved < floor {
                    floor
                } else {
                    moved
                };
            }
            assert(event == unmoved.shifted(player_id, shift_ticks, floor));
            proof {
                assert(all.subrange(left - 1, all.len() as int).drop_first() =~= all.subrange(
                    left,
                    all.len() as int,
                ));
                assert(all.subrange(left - 1, all.len() as int)[0] == unmoved);
                assert forall|j: int| 0 <= j < done.len() implies (#[trigger] done[j]).event_id
                    != event.event_id by {
                    let i = choose|i: int|
                        left <= i < all.len() && all[i].event_id == done[j].event_id
                            && all[i].player_id == done[j].player_id;
                    assert(all[left - 1].event_id != all[i].event_id);
                }
                lemma_inserted(done, event);
                lemma_slot(done, event);
            }
            let at = Self::place(&queue, &event);
            queue.insert(at, event);
            proof {
                assert(self.events@ =~= all.subrange(0, left - 1));
                assert(event.expiration_tick >= floor) by {
                    assert(all[left - 1].expiration_tick >= floor);
                }
                assert forall|j: int| 0 <= j < queue@.len() implies (#[trigger] queue@[j]).expiration_tick
                    >= floor by {
                    if queue@[j] != event {
                        let k = choose|k: int| 0 <= k < done.len() && done[k] == queue@[j];
                        assert(done[k].expiration_tick >= floor);
                    }
                }
                assert forall|j: int| 0 <= j < queue@.len() implies exists|i: int|
                    self.events@.len() <= i < all.len() && all[i].event_id == (
                    #[trigger] queue@[j]).event_id && all[i].player_id == queue@[j].player_id by {
                    if queue@[j] == event {
                        assert(all[left - 1].event_id == event.event_id);
                    } else {
                        let k = choose|k: int| 0 <= k < done.len() && done[k] == queue@[j];
                        let i = choose|i: int|
                            left <= i < all.len() && all[i].event_id == done[k].event_id
                                && all[i].player_id == done[k].player_id;
                        assert(self.events@.len() <= i);
                    }
                }
                assert forall|other: Id|
                    count_of(queue@, other) + count_of(self.events@, other) == count_of(
                        all,
                        other,
                    ) by {
                    lemma_count_inserted(done, at as int, event, other);
                    assert(pending.drop_last() =~= self.events@);
                    assert(pending.last() == unmoved);
                    assert(count_of(done, other) + count_of(pending, other) == count_of(all, other));
                }
            }
        }
        assert(all.subrange(0, all.len() as int) =~= all);
        proof {
            assert forall|j: int| 0 <= j < queue@.len() implies 1 <= (#[trigger] queue@[j]).event_id
                < bound && queue@[j].expiration_tick >= floor by {
                let i = choose|i: int|
                    0 <= i < all.len() && all[i].event_id == queue@[j].event_id && all[i].player_id
                        == queue@[j].player_id;
                assert(1 <= all[i].event_id < bound);
            }
            assert forall|other: Id| count_of(queue@, other) == count_of(all, other) by {
                assert(count_of(queue@, other) + count_of(self.events@, other) == count_of(
                    all,
                    other,
                ));
                assert(self.events@.len() == 0);
            }
        }
        self.events = queue;
    }

    /// Moves the clock one tick on and takes out every event that has fallen due, in
    /// the order in which they fall due.
    pub fn tick(&mut self) -> (expired: Vec<TimedEvent<T>>)
        requires
            old(self).wf(),
            old(self).current_tick < u64::MAX,
        ensures
            final(self).wf(),
            final(self).current_tick == old(self).current_tick + 1,
            final(self).next_event_id == old(self).next_event_id,
            expired@ + final(self).events@ == old(self).events@,
            expired@.len() == due_count(old(self).events@, final(self).current_tick),
            forall|i: int|
                0 <= i < expired@.len() ==> (#[trigger] expired@[i]).expiration_tick <= final(self).current_tick,
            forall|i: int|
                0 <= i < final(self).events@.len() ==> (#[trigger] final(self).events@[i]).expiration_tick > final(self).current_tick,
    {
        self.current_tick = self.current_tick + 1;
        self.get_expired_events()
    }

    /// Moves the clock `ticks` ticks on and takes out every event that has fallen due,
    /// in the order in which they fall due.
    pub fn tick_multiple(&mut self, ticks: u64) -> (expired: Vec<TimedEvent<T>>)
        requires
            old(self).wf(),
            old(self).current_tick + ticks <= u64::MAX,
        ensures
            final(self).wf(),
            final(self).current_tick == old(self).current_tick + ticks,
            final(self).next_event_id == old(self).next_event_id,
            expired@ + final(self).events@ == old(self).events@,
            expired@.len() == due_count(old(self).events@, final(self).current_tick),
            forall|i: int|
                0 <= i < expired@.len() ==> (#[trigger] expired@[i]).expiration_tick <= final(self).current_tick,
            forall|i: int|
                0 <= i < final(self).events@.len() ==> (#[trigger] final(self).events@[i]).expiration_tick > final(self).current_tick,
    {
        self.current_tick = self.current_tick + ticks;
        self.get_expired_events()
    }

    /// Takes out every event that falls due at the current tick or before, in the
    /// order in which they fall due.
    pub fn get_expired_events(&mut self) -> (expired: Vec<TimedEvent<T>>)
        requires
            old(self).ordered(),
        ensures
            final(self).wf(),
            final(self).current_tick == old(self).current_tick,
            final(self).next_event_id == old(self).next_event_id,
            expired@ + final(self).events@ == old(self).events@,
            expired@.len() == due_count(old(self).events@, old(self).current_tick),
            forall|i: int|
                0 <= i < expired@.len() ==> (#[trigger] expired@[i]).expiration_tick <= old(self).current_tick,
            forall|i: int|
                0 <= i < final(self).events@.len() ==> (#[trigger] final(self).events@[i]).expiration_tick > old(self).current_tick,
    {
        let mut due: usize = 0;
        let ghost all = self.events@;
        assert(all.subrange(0, all.len() as int) =~= all);
        while due < self.events.len() && self.events[due].expiration_tick <= self.current_tick
            invariant
                due <= self.events.len(),
                self.events@ == all,
                self.current_tick == old(self).current_tick,
                due_count(all, self.current_tick) == due + due_count(
                    all.subrange(due as int, all.len() as int),
                    self.current_tick,
                ),
            decreases self.events.len() - due,
        {
            assert(all.subrange(due as int, all.len() as int).drop_first() =~= all.subrange(
                due + 1,
                all.len() as int,
            ));
            due += 1;
        }
        proof {
            lemma_due_count(all, self.current_tick);
        }
        let mut rest = self.events.split_off(due);
        core::mem::swap(&mut self.events, &mut rest);
        proof {
            assert(rest@ + self.events@ =~= all);
            assert forall|i: int, j: int| 0 <= i < j < self.events@.len() implies (
            #[trigger] self.events@[i]).before(#[trigger] self.events@[j]) by {
                assert(self.events@[i] == all[due + i] && self.events@[j] == all[due + j]);
            }
            assert forall|i: int, j: int| 0 <= i < j < self.events@.len() implies (
            #[trigger] self.events@[i]).event_id != (#[trigger] self.events@[j]).event_id by {
                assert(self.events@[i] == all[due + i] && self.events@[j] == all[due + j]);
            }
            assert forall|i: int| 0 <= i < self.events@.len() implies 1 <= (
            #[trigger] self.events@[i]).event_id < self.next_event_id by {
                assert(self.events@[i] == all[due + i]);
            }
            assert forall|i: int| 0 <= i < self.events@.len() implies (
            #[trigger] self.events@[i]).expiration_tick > self.current_tick by {
                assert(self.events@[i] == all[due + i]);
            }
            assert forall|i: int| 0 <= i < rest@.len() implies (#[trigger] rest@[i]).expiration_tick
                <= self.current_tick by {
                assert(rest@[i] == all[i]);
            }
        }
        rest
    }

    /// Takes the event with the handle `event_id` out of the queue. Returns whether
    /// there was one.
    pub fn cancel(&mut self, event_id: Id) -> (found: bool)
        requires
            old(self).wf(),
        ensures
            final(self).wf(),
            final(self).current_tick == old(self).current_tick,
            final(self).next_event_id == old(self).next_event_id,
            found == exists|i: int|
                0 <= i < old(self).events@.len() && (#[trigger] old(self).events@[i]).event_id
                    == event_id,
            !found ==> final(self).events@ == old(self).events@,
            found ==> exists|i: int|
                0 <= i < old(self).events@.len() && (#[trigger] old(self).events@[i]).event_id
                    == event_id && final(self).events@ == old(self).events@.remove(i),
    {
        let mut i: usize = 0;
        while i < self.events.len()
            invariant
                i <= self.events.len(),
                self.wf(),
                self.events@ == old(self).events@,
                self.current_tick == old(self).current_tick,
                self.next_event_id == old(self).next_event_id,
                forall|j: int| 0 <= j < i ==> (#[trigger] self.events@[j]).event_id != event_id,
            decreases self.events.len() - i,
        {
            if self.events[i].event_id == event_id {
                let ghost all = self.events@;
                let _ = self.events.remove(i);
                proof {
                    let after = self.events@;
                    assert forall|a: int, b: int| 0 <= a < b < after.len() implies (
                    #[trigger] after[a]).before(#[trigger] after[b]) && after[a].event_id
                        != after[b].event_id by {
                        let a0 = if a < i {
                            a
                        } else {
                            a + 1
                        };
                        let b0 = if b < i {
                            b
                        } else {
                            b + 1
                        };
                        assert(after[a] == all[a0] && after[b] == all[b0]);
                    }
                    assert forall|a: int| 0 <= a < after.len() implies 1 <= (
                    #[trigger] after[a]).event_id < self.next_event_id by {
                        let a0 = if a < i {
                            a
                        } else {
                            a + 1
                        };
                        assert(after[a] == all[a0]);
                    }
                    assert(all[i as int].event_id == event_id);
                }
                return true;
            }
            i += 1;
        }
        false
    }

    /// The tick that the clock shows.
    pub fn current_tick(&self) -> (tick: u64)
        ensures
            tick == self.current_tick,
    {
        self.current_tick
    }

    /// The number of pending events.
    pub fn pending_count(&self) -> (count: usize)
        ensures
            count == self.events@.len(),
    {
        self.events.len()
    }

    /// The handle of every pending event with the ticks left until it falls due, in
    /// the order in which they fall due.
    pub fn display_pending_events(&self) -> (pending: Vec<(u64, u64)>)
        ensures
            pending@.len() == self.events@.len(),
            forall|i: int|
                0 <= i < pending@.len() ==> (#[trigger] pending@[i]).0 == self.events@[i].event_id
                    && pending@[i].1 == if self.events@[i].expiration_tick >= self.current_tick {
                    self.events@[i].expiration_tick - self.current_tick
                } else {
                    0
                },
    {
        let mut pending: Vec<(u64, u64)> = Vec::new();
        let mut i: usize = 0;
        while i < self.events.len()
            invariant
                i <= self.events.len(),
                pending@.len() == i,
                forall|j: int|
                    0 <= j < i ==> (#[trigger] pending@[j]).0 == self.events@[j].event_id
                        && pending@[j].1 == if self.events@[j].expiration_tick
                        >= self.current_tick {
                        self.events@[j].expiration_tick - self.current_tick
                    } else {
                        0
                    },
            decreases self.events.len() - i,
        {
            let left = self.events[i].expiration_tick.saturating_sub(self.current_tick);
            pending.push((self.events[i].event_id, left));
            i += 1;
        }
        pending
    }
}

/// Scheduling keeps every client within the cap: a client with at most ten pending
/// events has at most ten after one more call of `schedule`, whoever the call is for.
pub proof fn lemma_schedule_keeps_cap<T>(
    before: Seq<TimedEvent<T>>,
    event: TimedEvent<T>,
    client: Id,
)
    requires
        count_of(before, client) <= MAX_SIMULTANEOUS_EVENTS,
        count_of(before, event.player_id) < MAX_SIMULTANEOUS_EVENTS,
    ensures
        count_of(inserted(before, event), client) <= MAX_SIMULTANEOUS_EVENTS,
{
    lemma_slot(before, event);
    lemma_count_inserted(before, slot(before, event) as int, event, client);
}

/// Queueing an event with a new handle and then cancelling it gives back the queue
/// as it was.
pub proof fn lemma_schedule_then_cancel<T>(before: Seq<TimedEvent<T>>, event: TimedEvent<T>)
    requires
        forall|i: int| 0 <= i < before.len() ==> (#[trigger] before[i]).event_id != event.event_id,
    ensures
        forall|i: int|
            0 <= i < inserted(before, event).len() && (#[trigger] inserted(
                before,
                event,
            )[i]).event_id == event.event_id ==> inserted(before, event).remove(i) == before,
        exists|i: int|
            0 <= i < inserted(before, event).len() && (#[trigger] inserted(
                before,
                event,
            )[i]).event_id == event.event_id,
{
    lemma_slot(before, event);
    let at = slot(before, event) as int;
    let after = inserted(before, event);
    assert(after[at] == event);
    assert forall|i: int|
        0 <= i < after.len() && (#[trigger] after[i]).event_id == event.event_id implies after.remove(
        i,
    ) == before by {
        if i < at {
            assert(after[i] == before[i]);
        } else if i > at {
            assert(after[i] == before[i - 1]);
        }
        assert(after.remove(at) =~= before);
    }
}

/// Events that one client schedules one after the other fall due in that order: the
/// later one never falls due at an earlier tick, and at the same tick it has the
/// greater handle, so it stands behind the earlier one in the queue.
pub proof fn lemma_schedule_order<T>(
    before: Seq<TimedEvent<T>>,
    floor: u64,
    first: TimedEvent<T>,
    second: TimedEvent<T>,
    first_ticks: u64,
    second_ticks: u64,
)
    requires
        first.expiration_tick == last_tick_of(before, first.player_id, floor) + first_ticks,
        second.player_id == first.player_id,
        second.expiration_tick == last_tick_of(
            inserted(before, first),
            first.player_id,
            floor,
        ) + second_ticks,
        first.event_id < second.event_id,
    ensures
        first.expiration_tick <= second.expiration_tick,
        first.before(second),
{
    lemma_slot(before, first);
    let after = inserted(before, first);
    lemma_last_tick(after, first.player_id, floor);
    assert(after[slot(before, first) as int] == first);
}

} // verus!

use zappy_server::event::{Event, EventScheduler, TimedEvent};

fn keys(queue: &EventScheduler<u32>) -> Vec<(u64, u64, u64)> {
    queue
        .events
        .iter()
        .map(|event| (event.expiration_tick, event.event_id, event.player_id))
        .collect()
}

fn ids(events: &[TimedEvent<u32>]) -> Vec<u64> {
    events.iter().map(|event| event.event_id).collect()
}

#[test]
fn a_new_queue_is_empty_at_tick_zero() {
    let queue: EventScheduler<u32> = EventScheduler::new();
    assert_eq!(queue.current_tick(), 0);
    assert_eq!(queue.pending_count(), 0);
    assert_eq!(queue.get_nb_events_by_player_id(3), (0, 0));
    assert_eq!(queue.display_pending_events(), vec![]);
}

#[test]
fn one_client_is_served_in_the_order_of_its_commands() {
    let mut queue = EventScheduler::new();
    assert_eq!(queue.schedule(10u32, 7, 1), 1);
    assert_eq!(queue.schedule(11, 1, 1), 2);
    assert_eq!(queue.schedule(12, 0, 1), 3);
    assert_eq!(queue.schedule(20, 7, 2), 4);
    assert_eq!(keys(&queue), vec![(7, 1, 1), (7, 4, 2), (8, 2, 1), (8, 3, 1)]);
    assert_eq!(queue.get_nb_events_by_player_id(1), (3, 8));
    assert_eq!(queue.get_nb_events_by_player_id(2), (1, 7));
    assert_eq!(queue.display_pending_events(), vec![(1, 7), (4, 7), (2, 8), (3, 8)]);
}

#[test]
fn the_eleventh_pending_event_of_a_client_is_refused() {
    let mut queue = EventScheduler::new();
    for expected in 1..=10u64 {
        assert_eq!(queue.schedule(0u32, 7, 5), expected);
    }
    assert_eq!(queue.get_nb_events_by_player_id(5).0, 10);
    assert_eq!(queue.schedule(0, 7, 5), 0);
    assert_eq!(queue.schedule(0, 0, 5), 0);
    assert_eq!(queue.pending_count(), 10);
    assert_eq!(queue.schedule(0, 7, 6), 13);
    assert_eq!(queue.pending_count(), 11);
    assert_eq!(queue.force_schedule(0, 300, 5), 14);
    assert_eq!(queue.get_nb_events_by_player_id(5), (11, 300));
}

#[test]
fn ticks_give_back_what_has_fallen_due_in_order() {
    let mut queue = EventScheduler::new();
    queue.schedule(1u32, 2, 1);
    queue.schedule(2, 0, 2);
    queue.schedule(3, 1, 2);
    queue.force_schedule(4, 1, 3);
    assert_eq!(ids(&queue.tick()), vec![2, 3, 4]);
    assert_eq!(queue.current_tick(), 1);
    assert_eq!(ids(&queue.tick()), vec![1]);
    assert_eq!(ids(&queue.tick()), Vec::<u64>::new());
    assert_eq!(queue.current_tick(), 3);
    queue.schedule(5, 7, 1);
    assert_eq!(keys(&queue), vec![(10, 5, 1)]);
    assert_eq!(ids(&queue.tick_multiple(6)), Vec::<u64>::new());
    assert_eq!(ids(&queue.tick_multiple(1)), vec![5]);
    assert_eq!(queue.current_tick(), 10);
    assert_eq!(ids(&queue.get_expired_events()), Vec::<u64>::new());
}

#[test]
fn forced_events_ignore_what_is_pending() {
    let mut queue = EventScheduler::new();
    queue.schedule(1u32, 42, 1);
    assert_eq!(queue.force_schedule(2, 5, 1), 2);
    assert_eq!(keys(&queue), vec![(5, 2, 1), (42, 1, 1)]);
}

#[test]
fn shifting_moves_only_the_events_of_one_client() {
    let mut queue = EventScheduler::new();
    queue.schedule(1u32, 7, 1);
    queue.schedule(2, 7, 2);
    queue.schedule(3, 7, 1);
    queue.shift_client_events(1, 300);
    assert_eq!(keys(&queue), vec![(7, 2, 2), (307, 1, 1), (314, 3, 1)]);
    queue.shift_client_events(1, -303);
    assert_eq!(keys(&queue), vec![(4, 1, 1), (7, 2, 2), (11, 3, 1)]);
    queue.tick_multiple(5);
    queue.schedule(4, 7, 1);
    queue.shift_client_events(1, -100);
    assert_eq!(keys(&queue), vec![(5, 3, 1), (5, 4, 1), (7, 2, 2)]);
    queue.shift_client_events(2, i64::MAX);
    queue.shift_client_events(2, i64::MAX);
    queue.shift_client_events(2, i64::MAX);
    assert_eq!(keys(&queue), vec![(5, 3, 1), (5, 4, 1), (u64::MAX, 2, 2)]);
    queue.shift_client_events(2, i64::MIN);
    queue.shift_client_events(2, i64::MIN);
    queue.shift_client_events(2, i64::MIN);
    assert_eq!(keys(&queue), vec![(5, 2, 2), (5, 3, 1), (5, 4, 1)]);
}

#[test]
fn cancelling_takes_one_event_out() {
    let mut queue = EventScheduler::new();
    queue.schedule(1u32, 7, 1);
    let before = keys(&queue);
    let id = queue.schedule(2, 3, 2);
    assert!(queue.cancel(id));
    assert_eq!(keys(&queue), before);
    assert!(!queue.cancel(id));
    assert!(!queue.cancel(0));
    assert!(queue.cancel(1));
    assert_eq!(queue.pending_count(), 0);
}

#[test]
fn scheduling_stops_where_the_numbers_end() {
    let mut queue: EventScheduler<u32> = EventScheduler::new();
    queue.tick_multiple(u64::MAX - 3);
    assert_eq!(queue.schedule(1, 7, 1), 0);
    assert_eq!(queue.force_schedule(1, 4, 1), 0);
    assert_eq!(queue.pending_count(), 0);
    assert_eq!(queue.schedule(1, 3, 1), 2);
    assert_eq!(keys(&queue), vec![(u64::MAX, 2, 1)]);
    let mut full: EventScheduler<u32> = EventScheduler::new();
    full.next_event_id = u64::MAX;
    assert_eq!(full.schedule(1, 0, 1), 0);
    assert_eq!(full.force_schedule(1, 0, 1), 0);
    assert_eq!(full.next_event_id, u64::MAX);
}

#[test]
fn events_carry_their_data() {
    let mut queue = EventScheduler::new();
    queue.schedule(Event::Broadcast(b"hi".to_vec()), 7, 1);
    queue.schedule(Event::Forward, 7, 1);
    let due = queue.tick_multiple(7);
    assert_eq!(due.len(), 1);
    assert!(matches!(&due[0].data, Event::Broadcast(words) if words == b"hi"));
    assert_eq!(due[0].player_id, 1);
    assert_eq!(due[0].expiration_tick, 7);
}

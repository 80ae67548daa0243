//! Ring buffer, reactor, and stream adapter tests, including the stale
//! cursor policy.

use tata_core::{
    event_callback, DrainError, Event, EventStream, NetworkEventStream, PeerId, Reactor, RingVec,
    BUFFER_SIZE,
};

fn ev(n: u64) -> Event {
    Event::SentPlainTextMessage { timestamp: n }
}

fn ts(e: &Event) -> u64 {
    match e {
        Event::SentPlainTextMessage { timestamp } => *timestamp,
        _ => panic!("unexpected event"),
    }
}

#[test]
fn ring_vec_window() {
    let mut r: RingVec<u64> = RingVec::new(4);
    assert!(r.get(0).is_none());
    for i in 0..6u64 {
        r.push(i);
    }
    // 6 pushed into capacity 4: 0 and 1 are gone, 2..=5 retrievable.
    assert!(r.get(0).is_none());
    assert!(r.get(1).is_none());
    for i in 2..6usize {
        assert_eq!(*r.get(i).expect("in window"), i as u64);
    }
    assert!(r.get(6).is_none());
}

#[test]
fn reactor_drain_in_window() {
    let mut r: Reactor<u32> = Reactor::new();
    for i in 0..5u64 {
        r.push_event(ev(i));
    }
    let (events, cursor) = r.drain_from(2).expect("cursor in window");
    assert_eq!(cursor, 5);
    assert_eq!(events.len(), 3);
    for (k, e) in events.iter().enumerate() {
        assert_eq!(ts(e), 2 + k as u64);
    }
    // Draining at the end yields nothing and keeps the cursor.
    let (events, cursor) = r.drain_from(5).expect("cursor at end");
    assert!(events.is_empty());
    assert_eq!(cursor, 5);
}

#[test]
fn drain_from_origin_within_capacity_yields_everything() {
    // Up to the capacity, the origin cursor is still answerable and yields
    // every event pushed so far, in order.
    let mut r: Reactor<u32> = Reactor::new();
    for i in 0..BUFFER_SIZE as u64 {
        r.push_event(ev(i));
    }
    let (events, cursor) = r.drain_from(0).expect("origin still in window");
    assert_eq!(cursor, BUFFER_SIZE);
    assert_eq!(events.len(), BUFFER_SIZE);
    for (k, e) in events.iter().enumerate() {
        assert_eq!(ts(e), k as u64);
    }
    // One more push and the origin goes stale.
    r.push_event(ev(BUFFER_SIZE as u64));
    assert!(r.drain_from(0).is_err());
}

#[test]
fn reactor_drain_ahead_is_refused() {
    let mut r: Reactor<u32> = Reactor::new();
    r.push_event(ev(1));
    match r.drain_from(2) {
        Err(e) => assert_eq!(e, DrainError::Ahead),
        Ok(_) => panic!("cursor ahead of the count must be refused"),
    }
}

#[test]
fn overflowed_ring_refuses_origin_cursor() {
    // Pushing 40 events into the 32-slot ring must not answer a drain from
    // cursor 0 with events 0..=7 as if they were still valid.
    let mut r: Reactor<u32> = Reactor::new();
    for i in 0..40u64 {
        r.push_event(ev(i));
    }
    match r.drain_from(0) {
        Err(DrainError::Stale { oldest }) => assert_eq!(oldest, 40 - BUFFER_SIZE),
        _ => panic!("stale cursor must be refused"),
    }
    // From the oldest surviving event on, the drain is answered.
    let (events, cursor) = r.drain_from(8).expect("oldest survivor");
    assert_eq!(cursor, 40);
    assert_eq!(events.len(), 32);
    assert_eq!(ts(&events[0]), 8);
    assert_eq!(ts(&events[31]), 39);
}

#[test]
fn event_callback_hands_out_wakers_once() {
    let mut r: Reactor<u32> = Reactor::new();
    r.subscribe(7);
    r.subscribe(9);
    let woken = event_callback(&mut r, ev(0));
    assert_eq!(woken, vec![7, 9]);
    // The registration list is one-shot.
    let woken = event_callback(&mut r, ev(1));
    assert!(woken.is_empty());
}

#[test]
fn event_stream_yields_in_order_without_gaps() {
    let mut r: Reactor<u32> = Reactor::new();
    let mut s = EventStream::new();
    // Nothing yet: the consumer suspends (registers a waker).
    assert!(s.poll_next(&mut r, 1).is_none());
    for i in 0..3u64 {
        r.push_event(ev(i));
    }
    for i in 0..3u64 {
        let e = s.poll_next(&mut r, 1).expect("event available");
        assert_eq!(ts(&e), i);
    }
    assert!(s.poll_next(&mut r, 1).is_none());
}

#[test]
fn event_stream_skips_to_oldest_survivor_when_lapped() {
    let mut r: Reactor<u32> = Reactor::new();
    let mut s = EventStream::new();
    for i in 0..40u64 {
        r.push_event(ev(i));
    }
    // The first 8 events are gone; the stream resumes at the oldest kept.
    let e = s.poll_next(&mut r, 1).expect("resumes at survivor");
    assert_eq!(ts(&e), 8);
}

#[test]
fn network_event_stream_starts_at_the_present() {
    let mut r: Reactor<u32> = Reactor::new();
    r.push_event(ev(0));
    let mut s = NetworkEventStream::new();
    // First poll anchors the cursor after the events already pushed.
    assert!(s.poll_next(&mut r, 1).is_none());
    assert!(s.poll_next(&mut r, 1).is_none());
    r.push_event(ev(1));
    let e = s.poll_next(&mut r, 1).expect("only the new event");
    assert_eq!(ts(&e), 1);
    assert!(s.poll_next(&mut r, 1).is_none());
}

#[test]
fn peer_events_survive_the_reactor_unchanged() {
    let mut r: Reactor<u32> = Reactor::new();
    r.push_event(Event::PeerDiscovered { peer_id: PeerId::new(b"QmSomePeer".to_vec()) });
    let (events, _) = r.drain_from(0).expect("drain");
    match &events[0] {
        Event::PeerDiscovered { peer_id } => {
            assert!(peer_id.equals(&PeerId::new(b"QmSomePeer".to_vec())))
        },
        _ => panic!("wrong event"),
    }
}

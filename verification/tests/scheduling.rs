use peerlink::reactor::readiness::{Carryover, PollEvent, Readiness};
use peerlink::reactor::scheduler::Scheduler;
use peerlink::reactor::token::{
    is_connection, is_listener, listener_of_token, token_of_listener, Token, WAKER,
};
use peerlink::time::Duration;

fn event(token: usize, readable: bool, writable: bool) -> PollEvent {
    PollEvent { token: Token(token), readable, writable }
}

fn carry(r: bool, w: bool) -> Option<Carryover> {
    Some(Carryover { r, w })
}

#[test]
fn is_listener_test() {
    assert!(!is_listener(0, Token(WAKER)));
    assert!(!is_listener(0, Token(WAKER - 1)));
    assert!(!is_listener(0, Token(usize::MIN)));

    assert!(!is_listener(1, Token(WAKER)));
    assert!(is_listener(1, Token(WAKER - 1)));
    assert!(!is_listener(1, Token(WAKER - 2)));

    assert!(!is_listener(3, Token(WAKER)));
    assert!(is_listener(3, Token(WAKER - 1)));
    assert!(is_listener(3, Token(WAKER - 2)));
    assert!(is_listener(3, Token(WAKER - 3)));
    assert!(!is_listener(3, Token(WAKER - 4)));
}

#[test]
fn is_connection_test() {
    assert!(!is_connection(0, Token(WAKER)));
    assert!(is_connection(0, Token(WAKER - 1)));
    assert!(is_connection(0, Token(usize::MIN)));

    assert!(!is_connection(1, Token(WAKER)));
    assert!(!is_connection(1, Token(WAKER - 1)));
    assert!(is_connection(1, Token(WAKER - 2)));

    assert!(!is_connection(3, Token(WAKER)));
    assert!(!is_connection(3, Token(WAKER - 1)));
    assert!(!is_connection(3, Token(WAKER - 2)));
    assert!(!is_connection(3, Token(WAKER - 3)));
    assert!(is_connection(3, Token(WAKER - 4)));
}

#[test]
fn listener_tokens_lead_back() {
    for offset in 0..5 {
        let token = token_of_listener(offset);
        assert_eq!(token.0, WAKER - 1 - offset);
        assert_eq!(listener_of_token(token), offset);
        assert!(is_listener(5, token));
        assert!(!is_connection(5, token));
    }
}

#[test]
fn readiness_is_drained_once_per_round() {
    let mut readiness = Readiness::new(event(1, true, false), 4);
    assert!(readiness.is_handled(4));
    assert!(!readiness.is_handled(3));
    assert!(readiness.drain_readable());
    assert!(!readiness.drain_readable());
    assert!(!readiness.drain_writable());

    readiness.update(4, Some(event(1, true, true)));
    assert!(!readiness.drain_readable());
    assert!(readiness.drain_writable());

    assert!(readiness.will_carryover(Carryover { r: true, w: false }));
    assert!(!readiness.drain_readable());
    readiness.update(5, None);
    assert!(readiness.drain_readable());
    assert!(!readiness.will_carryover(Carryover::none()));
    assert_eq!(Carryover::default(), Carryover { r: false, w: false });
}

#[test]
fn poll_does_not_wait_for_leftover_work() {
    let mut scheduler = Scheduler::new(0);
    assert_eq!(scheduler.poll_interval(), Duration::from_secs(1));
    scheduler.update(vec![event(3, true, false)]);
    let mut pass = scheduler.connections(0);
    let turn = scheduler.next_turn(&mut pass).unwrap();
    assert!(scheduler.settle(turn, carry(true, false)));
    assert!(scheduler.next_turn(&mut pass).is_none());
    assert_eq!(scheduler.poll_interval(), Duration::zero());
}

#[test]
fn waker_and_listeners_are_drained() {
    let mut scheduler = Scheduler::new(2);
    assert!(!scheduler.waker());
    assert!(scheduler.listeners().is_empty());
    scheduler.update(vec![
        event(WAKER, true, false),
        event(WAKER - 2, true, false),
        event(0, true, true),
        event(WAKER - 1, true, false),
    ]);
    assert_eq!(scheduler.listener_count(), 2);
    assert!(scheduler.waker());
    assert!(!scheduler.waker());
    assert_eq!(scheduler.listeners(), vec![Token(WAKER - 2), Token(WAKER - 1)]);
    assert!(scheduler.listeners().is_empty());
}

#[test]
fn events_of_connections_get_turns_in_order() {
    let mut scheduler = Scheduler::new(1);
    scheduler.update(vec![
        event(7, true, false),
        event(WAKER - 1, true, false),
        event(2, false, true),
        event(WAKER, true, false),
    ]);
    let mut pass = scheduler.connections(0);
    let turn = scheduler.next_turn(&mut pass).unwrap();
    assert_eq!(turn.token, Token(7));
    assert_eq!((turn.readable, turn.writable, turn.standalone), (true, false, false));
    assert!(scheduler.settle(turn, carry(false, false)));
    let turn = scheduler.next_turn(&mut pass).unwrap();
    assert_eq!(turn.token, Token(2));
    assert_eq!((turn.readable, turn.writable, turn.standalone), (false, true, false));
    assert!(scheduler.settle(turn, carry(false, false)));
    assert!(scheduler.next_turn(&mut pass).is_none());
    assert!(scheduler.next_turn(&mut pass).is_none());
}

#[test]
fn carryover_gets_a_turn_in_the_next_round() {
    let mut scheduler = Scheduler::new(0);
    scheduler.update(vec![event(1, true, true), event(2, true, true), event(3, true, false)]);
    let mut pass = scheduler.connections(0);
    let turn = scheduler.next_turn(&mut pass).unwrap();
    scheduler.settle(turn, carry(true, false));
    let turn = scheduler.next_turn(&mut pass).unwrap();
    scheduler.settle(turn, carry(false, true));
    let turn = scheduler.next_turn(&mut pass).unwrap();
    scheduler.settle(turn, carry(true, true));
    assert!(scheduler.next_turn(&mut pass).is_none());

    // an event joins the carryover of the second connection
    scheduler.update(vec![event(2, true, false)]);
    let mut pass = scheduler.connections(1);
    let turn = scheduler.next_turn(&mut pass).unwrap();
    assert_eq!(turn.token, Token(2));
    assert_eq!((turn.readable, turn.writable, turn.standalone), (true, true, false));
    scheduler.settle(turn, carry(false, false));
    let mut standalone = Vec::new();
    while let Some(turn) = scheduler.next_turn(&mut pass) {
        assert!(turn.standalone);
        standalone.push((turn.token.0, turn.readable, turn.writable));
        scheduler.settle(turn, carry(false, false));
    }
    standalone.sort();
    assert_eq!(standalone, vec![(1, true, false), (3, true, true)]);
    assert_eq!(scheduler.poll_interval(), Duration::from_secs(1));
}

#[test]
fn carryover_is_not_used_twice_in_a_round() {
    let mut scheduler = Scheduler::new(0);
    scheduler.update(vec![event(1, true, false), event(1, true, false)]);
    let mut pass = scheduler.connections(0);
    let turn = scheduler.next_turn(&mut pass).unwrap();
    assert!(turn.readable);
    scheduler.settle(turn, carry(true, false));
    let turn = scheduler.next_turn(&mut pass).unwrap();
    assert!(!turn.readable);
    scheduler.settle(turn, carry(true, false));
    assert!(scheduler.next_turn(&mut pass).is_none());
}

#[test]
fn failed_turns() {
    let mut scheduler = Scheduler::new(0);
    scheduler.update(vec![event(1, true, false), event(2, true, false)]);
    let mut pass = scheduler.connections(0);
    for _ in 0..2 {
        let turn = scheduler.next_turn(&mut pass).unwrap();
        assert!(scheduler.settle(turn, carry(true, false)));
    }
    assert!(scheduler.next_turn(&mut pass).is_none());

    // a failed carryover is dropped and the others go on
    scheduler.update(Vec::new());
    let mut pass = scheduler.connections(1);
    let turn = scheduler.next_turn(&mut pass).unwrap();
    let failed = turn.token;
    assert!(scheduler.settle(turn, None));
    let turn = scheduler.next_turn(&mut pass).unwrap();
    assert_ne!(turn.token, failed);
    assert!(scheduler.settle(turn, carry(false, false)));
    assert!(scheduler.next_turn(&mut pass).is_none());

    // an event whose turn has failed ends the pass
    scheduler.update(vec![event(5, true, false)]);
    let mut pass = scheduler.connections(2);
    let turn = scheduler.next_turn(&mut pass).unwrap();
    assert!(!scheduler.settle(turn, None));
}

//! What a whole pass through the connections comes to.

use vstd::prelude::*;

use crate::reactor::readiness::{Carryover, PollEvent};
use crate::reactor::scheduler;
use crate::reactor::scheduler::{Pass, Scheduler, Turn};
use crate::reactor::token;

verus! {

/// A turn that was asked for and ended.
pub struct TurnTaken {
    /// The turn.
    pub turn: Turn,
    /// What carried over from the turn, unless it has failed.
    pub carryover: Option<Carryover>,
    /// The scheduler during the turn.
    pub during: Scheduler,
    /// The scheduler once the turn was ended.
    pub after: Scheduler,
    /// How far the pass has come.
    pub pass: Pass,
}

/// The events of connections at or behind a certain position, in order.
pub open spec fn connection_events(
    events: Seq<PollEvent>,
    n_listeners: usize,
    from: int,
) -> Seq<PollEvent>
    decreases events.len() - from,
{
    if from >= events.len() {
        Seq::empty()
    } else if token::connection_token(n_listeners, events[from].token) {
        seq![events[from]] + connection_events(events, n_listeners, from + 1)
    } else {
        connection_events(events, n_listeners, from + 1)
    }
}

/// The scheduler before a certain turn.
pub open spec fn scheduler_at(start: Scheduler, turns: Seq<TurnTaken>, i: int) -> Scheduler {
    if i <= 0 {
        start
    } else {
        turns[i - 1].after
    }
}

/// How far the pass has come before a certain turn.
pub open spec fn pass_at(first: Pass, turns: Seq<TurnTaken>, i: int) -> Pass {
    if i <= 0 {
        first
    } else {
        turns[i - 1].pass
    }
}

/// Whether a turn was the next one, and the pass went on after it.
pub open spec fn turn_taken(
    start: Scheduler,
    first: Pass,
    turns: Seq<TurnTaken>,
    i: int,
) -> bool {
    let before = scheduler_at(start, turns, i);
    let taken = turns[i];
    &&& before.turn_effect(
        &pass_at(first, turns, i),
        &taken.during,
        &taken.pass,
        Some(taken.turn),
    )
    &&& taken.during.settle_effect(taken.turn, taken.carryover, &taken.after)
    &&& taken.carryover is Some || taken.turn.standalone
}

/// Whether a pass that has just begun leads through the turns, and no turn follows the last one.
pub open spec fn whole_pass(start: Scheduler, first: Pass, turns: Seq<TurnTaken>) -> bool {
    &&& start.ready_for(first.round())
    &&& first.next_event() == 0
    &&& first.waiting() is None
    &&& forall|i: int| 0 <= i < turns.len() ==> #[trigger] turn_taken(start, first, turns, i)
    &&& exists|after: Scheduler, passed: Pass| #[trigger]
        scheduler_at(start, turns, turns.len() as int).turn_effect(
            &pass_at(first, turns, turns.len() as int),
            &after,
            &passed,
            None,
        )
}

/// A whole pass gives every event of a connection one turn, in the order of the events. Then it
/// gives each connection exactly one turn that is carried over from the round before and had no
/// event. No other connection gets a turn.
pub proof fn law_whole_pass_is_fair(start: Scheduler, first: Pass, turns: Seq<TurnTaken>)
    requires
        whole_pass(start, first, turns),
    ensures
        ({
            let events = connection_events(start.events(), start.n_listeners(), 0);
            &&& events.len() <= turns.len()
            &&& forall|i: int|
                0 <= i < events.len() ==> (#[trigger] turns[i]).turn.token == events[i].token
                    && !turns[i].turn.standalone
            &&& forall|i: int|
                events.len() <= i < turns.len() ==> (#[trigger] turns[i]).turn.standalone
                    && start.carried().contains_key(turns[i].turn.token.0)
            &&& forall|i: int, j: int|
                0 <= i < j < turns.len() && events.len() <= j ==> (#[trigger] turns[i]).turn.token
                    != (#[trigger] turns[j]).turn.token
            &&& forall|key: usize| #[trigger]
                start.carried().contains_key(key) ==> exists|i: int|
                    0 <= i < turns.len() && (#[trigger] turns[i]).turn.token.0 == key
        }),
{
    let n = turns.len() as int;
    lemma_turns_so_far(start, first, turns, n);
    let last = scheduler_at(start, turns, n);
    let pass = pass_at(first, turns, n);
    lemma_first_event(start.events(), start.n_listeners(), pass.next_event() as int);
    let events = connection_events(start.events(), start.n_listeners(), 0);
    if n < events.len() {
        assert(events.skip(n).len() > 0);
    }
    assert(last.settled(first.round()));
    assert forall|key: usize| #[trigger] start.carried().contains_key(key) implies exists|i: int|
        0 <= i < turns.len() && (#[trigger] turns[i]).turn.token.0 == key by {
        assert(left_over(last, first.round(), key) <==> !had_turn(turns, n, key));
    }
}

/// Whether no connection has two events.
pub open spec fn distinct_tokens(events: Seq<PollEvent>) -> bool {
    forall|i: int, j: int|
        0 <= i < j < events.len() ==> (#[trigger] events[i]).token != (#[trigger] events[j]).token
}

/// What is carried over for a connection.
pub open spec fn carried_for(scheduler: Scheduler, key: usize) -> Carryover {
    if scheduler.carried().contains_key(key) {
        scheduler.carried()[key].ready
    } else {
        Carryover { r: false, w: false }
    }
}

/// Whether something carries over from a turn.
pub open spec fn leaves_work(taken: TurnTaken) -> bool {
    taken.carryover matches Some(carryover) && (carryover.r || carryover.w)
}

/// A whole pass offers what is ready, and carries over what is left, provided that no connection
/// has two events. In the turn of an event the connection may be read from if the event says so or
/// if that was carried over, and likewise for writing. In any other turn it may be read from or
/// written to if that was carried over. After the pass exactly that is carried over which the turns
/// have left undone.
pub proof fn law_whole_pass_offers_what_is_ready(
    start: Scheduler,
    first: Pass,
    turns: Seq<TurnTaken>,
)
    requires
        whole_pass(start, first, turns),
        distinct_tokens(connection_events(start.events(), start.n_listeners(), 0)),
    ensures
        ({
            let events = connection_events(start.events(), start.n_listeners(), 0);
            let end = scheduler_at(start, turns, turns.len() as int);
            &&& forall|i: int|
                0 <= i < turns.len() ==> {
                    let turn = (#[trigger] turns[i]).turn;
                    let carried = carried_for(start, turn.token.0);
                    &&& turn.readable == (carried.r || (i < events.len() && events[i].readable))
                    &&& turn.writable == (carried.w || (i < events.len() && events[i].writable))
                }
            &&& forall|i: int|
                0 <= i < turns.len() ==> {
                    let key = (#[trigger] turns[i]).turn.token.0;
                    &&& end.carried().contains_key(key) <==> leaves_work(turns[i])
                    &&& leaves_work(turns[i]) ==> Some(end.carried()[key].ready)
                        == turns[i].carryover
                }
            &&& forall|key: usize| #[trigger]
                end.carried().contains_key(key) ==> exists|i: int|
                    0 <= i < turns.len() && (#[trigger] turns[i]).turn.token.0 == key
        }),
{
    let n = turns.len() as int;
    let end = scheduler_at(start, turns, n);
    lemma_work_so_far(start, first, turns, n);
    law_whole_pass_is_fair(start, first, turns);
    assert forall|key: usize| #[trigger] end.carried().contains_key(key) implies exists|i: int|
        0 <= i < turns.len() && (#[trigger] turns[i]).turn.token.0 == key by {
        if !had_turn(turns, n, key) {
            assert(untouched(start, end, key));
        }
    }
}

/// Whether the same is carried over for a connection as at the start.
spec fn untouched(start: Scheduler, now: Scheduler, key: usize) -> bool {
    &&& now.carried().contains_key(key) <==> start.carried().contains_key(key)
    &&& now.carried().contains_key(key) ==> now.carried()[key] == start.carried()[key]
}

/// What the first turns of a pass have offered and left undone.
proof fn lemma_work_so_far(start: Scheduler, first: Pass, turns: Seq<TurnTaken>, n: int)
    requires
        whole_pass(start, first, turns),
        distinct_tokens(connection_events(start.events(), start.n_listeners(), 0)),
        0 <= n <= turns.len(),
    ensures
        ({
            let events = connection_events(start.events(), start.n_listeners(), 0);
            let now = scheduler_at(start, turns, n);
            &&& forall|i: int|
                0 <= i < n ==> {
                    let turn = (#[trigger] turns[i]).turn;
                    let carried = carried_for(start, turn.token.0);
                    &&& turn.readable == (carried.r || (i < events.len() && events[i].readable))
                    &&& turn.writable == (carried.w || (i < events.len() && events[i].writable))
                }
            &&& forall|i: int|
                0 <= i < n ==> {
                    let key = (#[trigger] turns[i]).turn.token.0;
                    &&& now.carried().contains_key(key) <==> leaves_work(turns[i])
                    &&& leaves_work(turns[i]) ==> Some(now.carried()[key].ready)
                        == turns[i].carryover
                }
            &&& forall|key: usize|
                !had_turn(turns, n, key) ==> #[trigger] untouched(start, now, key)
        }),
    decreases n,
{
    if n > 0 {
        let k = n - 1;
        let events = connection_events(start.events(), start.n_listeners(), 0);
        let before = scheduler_at(start, turns, k);
        let pass = pass_at(first, turns, k);
        let taken = turns[k];
        let key = taken.turn.token.0;
        lemma_work_so_far(start, first, turns, k);
        lemma_turns_so_far(start, first, turns, n);
        lemma_turns_so_far(start, first, turns, k);
        assert(turn_taken(start, first, turns, k));
        lemma_first_event(start.events(), start.n_listeners(), pass.next_event() as int);
        if k < events.len() {
            assert(events.skip(k)[0] == events[k]);
        }
        assert(!had_turn(turns, k, key)) by {
            if had_turn(turns, k, key) {
                let i = choose|i: int| 0 <= i < k && (#[trigger] turns[i]).turn.token.0 == key;
                assert(turns[i].turn.token == turns[k].turn.token);
                if k < events.len() {
                    assert(events[i].token != events[k].token);
                }
            }
        }
        assert(untouched(start, before, key));
        assert forall|i: int| 0 <= i < k implies (#[trigger] turns[i]).turn.token.0 != key by {
            if turns[i].turn.token.0 == key {
                assert(had_turn(turns, k, key));
            }
        }
        assert forall|other: usize| !had_turn(turns, n, other) implies #[trigger] untouched(
            start,
            taken.after,
            other,
        ) by {
            assert(turns[k].turn.token.0 == key);
            assert(other != key);
            if had_turn(turns, k, other) {
                let i = choose|i: int| 0 <= i < k && (#[trigger] turns[i]).turn.token.0 == other;
                assert(had_turn(turns, n, other));
            }
            assert(untouched(start, before, other));
        }
    }
}

/// Whether something is carried over for a connection that was not handled in a certain round.
spec fn left_over(scheduler: Scheduler, round: u64, key: usize) -> bool {
    scheduler.carried().contains_key(key) && scheduler.carried()[key].processed_in_round != round
}

/// Whether one of the first turns was that of a certain connection.
spec fn had_turn(turns: Seq<TurnTaken>, n: int, key: usize) -> bool {
    exists|i: int| 0 <= i < n && (#[trigger] turns[i]).turn.token.0 == key
}

/// The first event of a connection comes in front of the others.
proof fn lemma_first_event(events: Seq<PollEvent>, n_listeners: usize, from: int)
    requires
        0 <= from,
    ensures
        ({
            let i = scheduler::first_connection(events, n_listeners, from);
            connection_events(events, n_listeners, from) == (if i < events.len() {
                seq![events[i]] + connection_events(events, n_listeners, i + 1)
            } else {
                Seq::empty()
            })
        }),
    decreases events.len() - from,
{
    if from < events.len() && !token::connection_token(n_listeners, events[from].token) {
        lemma_first_event(events, n_listeners, from + 1);
    }
}

/// What the first turns of a pass have come to.
proof fn lemma_turns_so_far(start: Scheduler, first: Pass, turns: Seq<TurnTaken>, n: int)
    requires
        whole_pass(start, first, turns),
        0 <= n <= turns.len(),
    ensures
        ({
            let round = first.round();
            let events = connection_events(start.events(), start.n_listeners(), 0);
            let now = scheduler_at(start, turns, n);
            let pass = pass_at(first, turns, n);
            &&& now.same_poll(&start)
            &&& pass.round() == round
            &&& connection_events(
                start.events(),
                start.n_listeners(),
                pass.next_event() as int,
            ) == (if n < events.len() {
                events.skip(n)
            } else {
                Seq::empty()
            })
            &&& forall|i: int|
                0 <= i < n && i < events.len() ==> (#[trigger] turns[i]).turn.token
                    == events[i].token && !turns[i].turn.standalone
            &&& forall|i: int|
                events.len() <= i < n ==> (#[trigger] turns[i]).turn.standalone
                    && start.carried().contains_key(turns[i].turn.token.0)
            &&& forall|i: int, j: int|
                0 <= i < j < n && events.len() <= j ==> (#[trigger] turns[i]).turn.token != (
                #[trigger] turns[j]).turn.token
            &&& forall|key: usize| #[trigger]
                left_over(now, round, key) <==> start.carried().contains_key(key) && !had_turn(
                    turns,
                    n,
                    key,
                )
        }),
    decreases n,
{
    let round = first.round();
    let all = start.events();
    let listeners = start.n_listeners();
    let events = connection_events(all, listeners, 0);
    if n == 0 {
        assert(events.skip(0) =~= events);
    } else {
        let k = n - 1;
        lemma_turns_so_far(start, first, turns, k);
        assert(turn_taken(start, first, turns, k));
        let before = scheduler_at(start, turns, k);
        let pass = pass_at(first, turns, k);
        let taken = turns[k];
        let key = taken.turn.token.0;
        lemma_first_event(all, listeners, pass.next_event() as int);
        if k < events.len() {
            assert(events.skip(k)[0] == events[k]);
            assert(events.skip(k).skip(1) =~= events.skip(n));
            let i = scheduler::first_connection(all, listeners, pass.next_event() as int);
            let rest = connection_events(all, listeners, i + 1);
            assert((seq![all[i]] + rest).skip(1) =~= rest);
            if n >= events.len() {
                assert(events.skip(n) =~= Seq::empty());
            }
        } else {
            assert(left_over(before, round, key));
            assert(!had_turn(turns, k, key));
        }
        assert forall|other: usize| #[trigger] left_over(taken.after, round, other) <==> (
        start.carried().contains_key(other) && !had_turn(turns, n, other)) by {
            assert(left_over(before, round, other) <==> start.carried().contains_key(other)
                && !had_turn(turns, k, other));
            assert(turns[k].turn.token.0 == key);
            if other == key {
                assert(had_turn(turns, n, other));
            } else if had_turn(turns, n, other) {
                assert(had_turn(turns, k, other));
            }
        }
    }
}

} // verus!

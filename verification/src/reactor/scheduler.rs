//! Decides which connections get a turn, and when.
//!
//! A driver polls for events, hands them to the scheduler, and then goes through the connections
//! in passes, one pass per round. In a pass it asks for one turn after the other, and tells what
//! each of them left undone.

use rustc_hash::FxHashMap;

use vstd::prelude::*;

use crate::reactor::carried::{carried_get, carried_insert, carried_keys, carried_remove};
use crate::reactor::readiness::{Carryover, PollEvent, Readiness};
use crate::reactor::token;
use crate::reactor::token::{is_connection, is_listener, Token, WAKER};
use crate::time::Duration;

verus! {

/// How many seconds a poll waits for events if there is nothing else to do.
pub const POLL_INTERVAL_SECS: u64 = 1;

/// The tokens of the listeners among some events, in their order.
pub open spec fn listener_tokens(events: Seq<PollEvent>, n_listeners: usize) -> Seq<Token>
    decreases events.len(),
{
    if events.len() == 0 {
        Seq::empty()
    } else {
        let tokens = listener_tokens(events.drop_last(), n_listeners);
        if token::listener_token(n_listeners, events.last().token) {
            tokens.push(events.last().token)
        } else {
            tokens
        }
    }
}

/// The position of the first event of a connection at or behind a certain position, or the number
/// of events if there is none.
pub open spec fn first_connection(events: Seq<PollEvent>, n_listeners: usize, from: int) -> int
    decreases events.len() - from,
{
    if from >= events.len() {
        events.len() as int
    } else if token::connection_token(n_listeners, events[from].token) {
        from
    } else {
        first_connection(events, n_listeners, from + 1)
    }
}

/// The turn of a connection.
#[derive(Debug)]
pub struct Turn {
    /// The connection whose turn it is.
    pub token: Token,
    /// Whether the connection may be read from.
    pub readable: bool,
    /// Whether the connection may be written to.
    pub writable: bool,
    /// Whether the readiness is a pure carryover.
    pub standalone: bool,
    /// What is left of the readiness during the turn.
    pub readiness: Readiness,
}

impl Turn {
    /// The turn that a readiness leads to.
    pub open spec fn offering(token: Token, readiness: Readiness, standalone: bool) -> Turn {
        Turn {
            token,
            readable: readiness.readable(),
            writable: readiness.writable(),
            standalone,
            readiness: readiness.drained(),
        }
    }

    /// Creates the turn that a readiness leads to.
    fn offer(token: Token, mut readiness: Readiness, standalone: bool) -> (turn: Self)
        ensures
            turn == Turn::offering(token, readiness, standalone),
    {
        let readable: bool = readiness.drain_readable();
        let writable: bool = readiness.drain_writable();
        Turn { token, readable, writable, standalone, readiness }
    }
}

/// A pass through the connections that are ready.
#[derive(Debug)]
pub struct Pass {
    round: u64,
    next_event: usize,
    waiting: Option<Vec<usize>>,
}

impl Pass {
    /// The round that the pass belongs to.
    pub closed spec fn round(&self) -> u64 {
        self.round
    }

    /// The position of the event that the pass goes on with.
    pub closed spec fn next_event(&self) -> nat {
        self.next_event as nat
    }

    /// The connections that the pass still looks at once it is done with the events, last one
    /// first.
    pub closed spec fn waiting(&self) -> Option<Seq<usize>> {
        match self.waiting {
            Some(keys) => Some(keys@),
            None => None,
        }
    }
}

/// A resource readiness scheduler.
#[derive(Debug)]
pub struct Scheduler {
    events: Vec<PollEvent>,
    has_waker: bool,
    listeners: Vec<Token>,
    carryover: FxHashMap<usize, Readiness>,
    n_listeners: usize,
}

impl Scheduler {
    /// The events of the last poll.
    pub closed spec fn events(&self) -> Seq<PollEvent> {
        self.events@
    }

    /// Whether the waker has become ready.
    pub closed spec fn waker_ready(&self) -> bool {
        self.has_waker
    }

    /// The listeners that have become ready.
    pub closed spec fn ready_listeners(&self) -> Seq<Token> {
        self.listeners@
    }

    /// The readiness that is carried over, by the numbers of the connections' tokens.
    pub closed spec fn carried(&self) -> Map<usize, Readiness> {
        self.carryover@
    }

    /// The number of listeners.
    pub closed spec fn n_listeners(&self) -> usize {
        self.n_listeners
    }

    /// Whether everything that is carried over was handled in a certain round.
    pub open spec fn settled(&self, round: u64) -> bool {
        forall|key: usize| #[trigger]
            self.carried().contains_key(key) ==> self.carried()[key].processed_in_round == round
    }

    /// Whether a certain round can begin: everything that is carried over was handled in the round
    /// before.
    pub open spec fn ready_for(&self, round: u64) -> bool {
        forall|key: usize| #[trigger]
            self.carried().contains_key(key) ==> self.carried()[key].processed_in_round + 1 == round
    }

    /// Whether a pass is under way: what is carried over was handled in the round of the pass, or
    /// in the round before and is still going to be looked at.
    pub open spec fn in_pass(&self, pass: &Pass) -> bool {
        &&& pass.next_event() <= self.events().len()
        &&& pass.waiting() is Some ==> pass.next_event() == self.events().len()
        &&& forall|key: usize| #[trigger]
            self.carried().contains_key(key) ==> {
                ||| self.carried()[key].processed_in_round == pass.round()
                ||| self.carried()[key].processed_in_round + 1 == pass.round() && (
                pass.waiting() matches Some(keys) ==> keys.contains(key))
            }
    }

    /// Whether nothing has changed but what is carried over.
    pub open spec fn same_poll(&self, other: &Scheduler) -> bool {
        &&& self.events() == other.events()
        &&& self.waker_ready() == other.waker_ready()
        &&& self.ready_listeners() == other.ready_listeners()
        &&& self.n_listeners() == other.n_listeners()
    }

    /// Whether the same is carried over for all connections but one.
    closed spec fn differs_at(&self, other: &Scheduler, except: usize) -> bool {
        forall|key: usize| #[trigger]
            self.carried().contains_key(key) && key != except ==> other.carried().contains_key(key)
                && self.carried()[key] == other.carried()[key]
    }

    /// The readiness that an event leads to in a certain round.
    pub open spec fn readiness_of(&self, event: PollEvent, round: u64) -> Readiness {
        if self.carried().contains_key(event.token.0) {
            self.carried()[event.token.0].updated(round, Some(event))
        } else {
            Readiness::fresh(event, round)
        }
    }

    /// What the events of a poll do.
    pub open spec fn update_effect(&self, events: Seq<PollEvent>, after: &Scheduler) -> bool {
        &&& after.events() == events
        &&& after.waker_ready() == (self.waker_ready() || exists|i: int|
            0 <= i < events.len() && (#[trigger] events[i]).token.0 == WAKER)
        &&& after.ready_listeners() == self.ready_listeners() + listener_tokens(
            events,
            self.n_listeners(),
        )
        &&& after.carried() == self.carried()
        &&& after.n_listeners() == self.n_listeners()
    }

    /// What asking for the next turn of a pass does and leads to. The next event of a connection
    /// leads to a turn. Once there is none, something that was carried over from the round before
    /// and has not been handled yet leads to a turn of its own. There is no turn once everything
    /// that is carried over was handled.
    pub open spec fn turn_effect(
        &self,
        pass: &Pass,
        after: &Scheduler,
        passed: &Pass,
        turn: Option<Turn>,
    ) -> bool {
        let round = pass.round();
        let events = self.events();
        let i = first_connection(events, self.n_listeners(), pass.next_event() as int);
        &&& after.same_poll(self)
        &&& passed.round() == round
        &&& if i < events.len() {
            let readiness = self.readiness_of(events[i], round);
            &&& turn == Some(Turn::offering(events[i].token, readiness, false))
            &&& passed.next_event() == i + 1
            &&& passed.waiting() == pass.waiting()
            &&& after.carried() == (if self.carried().contains_key(events[i].token.0) {
                self.carried().insert(events[i].token.0, readiness.drained())
            } else {
                self.carried()
            })
        } else {
            &&& passed.next_event() == events.len()
            &&& passed.waiting() is Some
            &&& match turn {
                Some(turn) => {
                    let readiness = self.carried()[turn.token.0].updated(round, None);
                    &&& self.carried().contains_key(turn.token.0)
                    &&& self.carried()[turn.token.0].processed_in_round + 1 == round
                    &&& turn == Turn::offering(turn.token, readiness, true)
                    &&& after.carried() == self.carried().insert(
                        turn.token.0,
                        readiness.drained(),
                    )
                },
                None => {
                    &&& self.settled(round)
                    &&& after.carried() == self.carried()
                },
            }
        }
    }

    /// What ending a turn does.
    pub open spec fn settle_effect(
        &self,
        turn: Turn,
        carryover: Option<Carryover>,
        after: &Scheduler,
    ) -> bool {
        &&& after.same_poll(self)
        &&& after.carried() == (match carryover {
            Some(carryover) => if carryover.r || carryover.w {
                self.carried().insert(turn.token.0, turn.readiness.carrying(carryover))
            } else {
                self.carried().remove(turn.token.0)
            },
            None => if turn.standalone {
                self.carried().remove(turn.token.0)
            } else {
                self.carried()
            },
        })
    }

    /// Creates a new scheduler.
    pub fn new(n_listeners: usize) -> (scheduler: Self)
        ensures
            scheduler.events().len() == 0,
            !scheduler.waker_ready(),
            scheduler.ready_listeners().len() == 0,
            scheduler.carried() == Map::<usize, Readiness>::empty(),
            scheduler.n_listeners() == n_listeners,
    {
        Scheduler {
            events: Vec::new(),
            has_waker: false,
            listeners: Vec::new(),
            carryover: Default::default(),
            n_listeners,
        }
    }

    /// Returns how long the next poll may wait for events: not at all if there is work left over
    /// from the last round.
    pub fn poll_interval(&self) -> (interval: Duration)
        ensures
            interval.nanos == (if self.carried() == Map::<usize, Readiness>::empty() {
                1_000_000_000int
            } else {
                0
            }),
    {
        assert(self.carryover@.is_empty() <==> self.carryover@ =~= Map::empty());
        if !self.carryover.is_empty() {
            Duration::zero()
        } else {
            Duration::from_secs(POLL_INTERVAL_SECS)
        }
    }

    /// Updates internal resource readiness with the events of a poll. There are never more
    /// listeners ready than one in addition to those that exist.
    pub fn update(&mut self, events: Vec<PollEvent>)
        requires
            old(self).ready_listeners().len() + listener_tokens(
                events@,
                old(self).n_listeners(),
            ).len() <= old(self).n_listeners() + 1,
        ensures
            old(self).update_effect(events@, final(self)),
            final(self).events() == events@,
            final(self).waker_ready() == (old(self).waker_ready() || exists|i: int|
                0 <= i < events@.len() && (#[trigger] events@[i]).token.0 == usize::MAX),
            forall|token: Token| #[trigger]
                final(self).ready_listeners().contains(token) <==> old(
                    self).ready_listeners().contains(token) || (usize::MAX - old(
                    self).n_listeners() <= token.0 < usize::MAX && exists|i: int|
                    0 <= i < events@.len() && (#[trigger] events@[i]).token == token),
            final(self).carried() == old(self).carried(),
            final(self).n_listeners() == old(self).n_listeners(),
    {
        let mut i: usize = 0;
        assert(events@.take(0).len() == 0);
        while i < events.len()
            invariant
                i <= events@.len(),
                self.has_waker == (old(self).has_waker || exists|n: int|
                    0 <= n < i && (#[trigger] events@[n]).token.0 == WAKER),
                self.listeners@ == old(self).listeners@ + listener_tokens(
                    events@.take(i as int),
                    self.n_listeners,
                ),
                self.carryover@ == old(self).carryover@,
                self.n_listeners == old(self).n_listeners,
            decreases events@.len() - i,
        {
            let event: PollEvent = events[i];
            proof {
                let seen = events@.take(i as int + 1);
                assert(seen.drop_last() =~= events@.take(i as int));
                assert(seen.last() == event);
                token::law_tokens_are_told_apart(self.n_listeners, event.token);
            }
            if event.token.0 == WAKER {
                self.has_waker = true;
            } else if is_listener(self.n_listeners, event.token) {
                self.listeners.push(event.token);
            }
            i = i + 1;
        }
        assert(events@.take(events@.len() as int) =~= events@);
        self.events = events;
        proof {
            law_listeners_become_ready(*old(self), self.events@, *self);
        }
    }

    /// Returns the number of listeners.
    pub fn listener_count(&self) -> (count: usize)
        ensures
            count == self.n_listeners(),
    {
        self.n_listeners
    }

    /// Drains waker readiness.
    pub fn waker(&mut self) -> (ready: bool)
        ensures
            ready == old(self).waker_ready(),
            !final(self).waker_ready(),
            final(self).events() == old(self).events(),
            final(self).ready_listeners() == old(self).ready_listeners(),
            final(self).carried() == old(self).carried(),
            final(self).n_listeners() == old(self).n_listeners(),
    {
        let result: bool = self.has_waker;
        self.has_waker = false;
        result
    }

    /// Drains listener readiness.
    pub fn listeners(&mut self) -> (ready: Vec<Token>)
        ensures
            ready@ == old(self).ready_listeners(),
            final(self).ready_listeners().len() == 0,
            final(self).events() == old(self).events(),
            final(self).waker_ready() == old(self).waker_ready(),
            final(self).carried() == old(self).carried(),
            final(self).n_listeners() == old(self).n_listeners(),
    {
        let mut drained: Vec<Token> = Vec::new();
        drained.append(&mut self.listeners);
        assert(drained@ =~= old(self).listeners@);
        drained
    }

    /// Starts a pass through the connections that are ready.
    pub fn connections(&self, round: u64) -> (pass: Pass)
        requires
            self.ready_for(round),
        ensures
            self.in_pass(&pass),
            pass.round() == round,
            pass.next_event() == 0,
            pass.waiting() is None,
    {
        Pass { round, next_event: 0, waiting: None }
    }

    /// Returns the next turn of a pass. First every event of a connection leads to a turn, in the
    /// order of the events. Then whatever was carried over from the round before and has not been
    /// handled yet leads to a turn of its own, in no particular order. The pass is over once
    /// everything that is carried over was handled.
    pub fn next_turn(&mut self, pass: &mut Pass) -> (turn: Option<Turn>)
        requires
            old(self).in_pass(old(pass)),
        ensures
            final(self).in_pass(final(pass)),
            old(self).turn_effect(old(pass), final(self), final(pass), turn),
    {
        while pass.next_event < self.events.len()
            invariant
                self.in_pass(pass),
                *self == *old(self),
                pass.round == old(pass).round,
                pass.waiting == old(pass).waiting,
                first_connection(
                    self.events(),
                    self.n_listeners(),
                    pass.next_event() as int,
                ) == first_connection(
                    self.events(),
                    self.n_listeners(),
                    old(pass).next_event() as int,
                ),
            decreases self.events@.len() - pass.next_event,
        {
            let event: PollEvent = self.events[pass.next_event];
            pass.next_event = pass.next_event + 1;
            if is_connection(self.n_listeners, event.token) {
                return Some(
                    match carried_get(&self.carryover, event.token.0) {
                        Some(mut readiness) => {
                            readiness.update(pass.round, Some(event));
                            let turn: Turn = Turn::offer(event.token, readiness, false);
                            carried_insert(&mut self.carryover, event.token.0, turn.readiness);
                            assert(self.differs_at(old(self), event.token.0));
                            turn
                        },
                        None => Turn::offer(event.token, Readiness::new(event, pass.round), false),
                    },
                );
            }
        }
        let mut waiting: Vec<usize> = Vec::new();
        match pass.waiting.take() {
            Some(keys) => {
                waiting = keys;
            },
            None => {
                waiting = carried_keys(&self.carryover);
            },
        }
        while waiting.len() > 0
            invariant
                *self == *old(self),
                pass.next_event == self.events@.len(),
                pass.round == old(pass).round,
                pass.waiting is None,
                forall|key: usize| #[trigger]
                    self.carried().contains_key(key) ==> {
                        ||| self.carried()[key].processed_in_round == pass.round
                        ||| self.carried()[key].processed_in_round + 1 == pass.round
                            && waiting@.contains(key)
                    },
                first_connection(
                    self.events(),
                    self.n_listeners(),
                    old(pass).next_event() as int,
                ) == self.events@.len(),
            decreases waiting@.len(),
        {
            let ghost before = waiting@;
            match waiting.pop() {
                Some(key) => {
                    assert forall|k: usize| before.contains(k) && k != key implies #[trigger]
                        waiting@.contains(k) by {
                        let n = choose|n: int| 0 <= n < before.len() && before[n] == k;
                        assert(waiting@[n] == k);
                    }
                    match carried_get(&self.carryover, key) {
                        Some(mut readiness) => {
                            if pass.round > 0 && readiness.is_handled(pass.round - 1) {
                                // carryover standalone readiness not associated with the current
                                // poll never used in this round
                                readiness.update(pass.round, None);
                                let turn: Turn = Turn::offer(Token(key), readiness, true);
                                carried_insert(&mut self.carryover, key, turn.readiness);
                                pass.waiting = Some(waiting);
                                assert(self.differs_at(old(self), key));
                                return Some(turn);
                            }
                        },
                        None => {},
                    }
                },
                None => {},
            }
        }
        pass.waiting = Some(waiting);
        None
    }

    /// Ends a turn, with what carries over into the next round, or without it if the turn has
    /// failed. Returns whether the pass goes on. A pass ends with an event whose turn has failed; a
    /// carryover whose turn has failed is just dropped.
    pub fn settle(&mut self, turn: Turn, carryover: Option<Carryover>) -> (goes_on: bool)
        ensures
            goes_on == (carryover is Some || turn.standalone),
            old(self).settle_effect(turn, carryover, final(self)),
            forall|pass: Pass| #[trigger]
                old(self).in_pass(&pass) && pass.round() == turn.readiness.processed_in_round
                    ==> final(self).in_pass(&pass),
    {
        let mut readiness: Readiness = turn.readiness;
        let goes_on: bool = match carryover {
            Some(carryover) => {
                if readiness.will_carryover(carryover) {
                    carried_insert(&mut self.carryover, turn.token.0, readiness);
                } else {
                    carried_remove(&mut self.carryover, turn.token.0);
                }
                true
            },
            None => {
                if turn.standalone {
                    carried_remove(&mut self.carryover, turn.token.0);
                }
                turn.standalone
            },
        };
        assert(self.differs_at(old(self), turn.token.0));
        goes_on
    }

    /// A round can begin once the pass of the round before is over: nothing that is carried over
    /// is ever left behind.
    pub proof fn law_rounds_follow(&self, round: u64)
        requires
            round < u64::MAX,
            self.settled(round),
        ensures
            self.ready_for((round + 1) as u64),
    {
    }
}

/// After a poll a listener is among those that are ready if and only if it was so before, or one
/// of the events carries its token. The other events, that of the waker included, make no
/// difference to it. Listeners that were ready before stay in front, and those of the events follow
/// in the order of the events, once for each event.
pub proof fn law_listeners_become_ready(
    before: Scheduler,
    events: Seq<PollEvent>,
    after: Scheduler,
)
    requires
        before.update_effect(events, &after),
    ensures
        forall|token: Token| #[trigger]
            after.ready_listeners().contains(token) <==> before.ready_listeners().contains(token)
                || (usize::MAX - before.n_listeners() <= token.0 < usize::MAX && exists|i: int|
                0 <= i < events.len() && (#[trigger] events[i]).token == token),
        after.ready_listeners() == before.ready_listeners() + events.filter(
            |event: PollEvent|
                usize::MAX - before.n_listeners() <= event.token.0 < usize::MAX,
        ).map_values(|event: PollEvent| event.token),
        after.n_listeners() == before.n_listeners(),
        after.carried() == before.carried(),
        after.events() == events,
{
    let n = before.n_listeners();
    let tokens = listener_tokens(events, n);
    lemma_listener_tokens(events, n);
    assert forall|token: Token| #[trigger] after.ready_listeners().contains(
        token,
    ) <==> before.ready_listeners().contains(token) || (usize::MAX - n <= token.0 < usize::MAX
        && exists|i: int| 0 <= i < events.len() && (#[trigger] events[i]).token == token) by {
        let ready = before.ready_listeners();
        assert(tokens.contains(token) <==> usize::MAX - n <= token.0 < usize::MAX && exists|i: int|
            0 <= i < events.len() && (#[trigger] events[i]).token == token);
        if (ready + tokens).contains(token) {
            let i = choose|i: int| 0 <= i < (ready + tokens).len() && (ready + tokens)[i] == token;
            if i < ready.len() {
                assert(ready[i] == token);
            } else {
                assert(tokens[i - ready.len()] == token);
            }
        }
        if ready.contains(token) {
            let i = choose|i: int| 0 <= i < ready.len() && ready[i] == token;
            assert((ready + tokens)[i] == token);
        }
        if tokens.contains(token) {
            let i = choose|i: int| 0 <= i < tokens.len() && tokens[i] == token;
            assert((ready + tokens)[ready.len() + i] == token);
        }
    }
}

/// The tokens of the listeners among some events are the tokens of those events that are of
/// listeners.
proof fn lemma_listener_tokens(events: Seq<PollEvent>, n_listeners: usize)
    ensures
        listener_tokens(events, n_listeners) == events.filter(
            |event: PollEvent| usize::MAX - n_listeners <= event.token.0 < usize::MAX,
        ).map_values(|event: PollEvent| event.token),
        forall|token: Token| #[trigger]
            listener_tokens(events, n_listeners).contains(token) <==> usize::MAX - n_listeners
                <= token.0 < usize::MAX && exists|i: int|
                0 <= i < events.len() && (#[trigger] events[i]).token == token,
    decreases events.len(),
{
    reveal(Seq::filter);
    let tokens = listener_tokens(events, n_listeners);
    if events.len() > 0 {
        let earlier = events.drop_last();
        let some = listener_tokens(earlier, n_listeners);
        lemma_listener_tokens(earlier, n_listeners);
        assert(tokens =~= events.filter(
            |event: PollEvent| usize::MAX - n_listeners <= event.token.0 < usize::MAX,
        ).map_values(|event: PollEvent| event.token));
        assert forall|token: Token| #[trigger] tokens.contains(token) <==> usize::MAX - n_listeners
            <= token.0 < usize::MAX && exists|i: int|
            0 <= i < events.len() && (#[trigger] events[i]).token == token by {
            if tokens.contains(token) && !some.contains(token) {
                let i = choose|i: int| 0 <= i < tokens.len() && tokens[i] == token;
                if i < some.len() {
                    assert(some[i] == token);
                }
                assert(events[events.len() - 1].token == token);
            }
            if some.contains(token) {
                let i = choose|i: int| 0 <= i < some.len() && some[i] == token;
                assert(tokens[i] == token);
                let k = choose|k: int|
                    0 <= k < earlier.len() && (#[trigger] earlier[k]).token == token;
                assert(events[k].token == token);
            }
            if usize::MAX - n_listeners <= token.0 < usize::MAX && exists|i: int|
                0 <= i < events.len() && (#[trigger] events[i]).token == token {
                let k = choose|k: int|
                    0 <= k < events.len() && (#[trigger] events[k]).token == token;
                if k < earlier.len() {
                    assert(earlier[k].token == token);
                    assert(some.contains(token));
                } else {
                    assert(tokens[some.len() as int] == token);
                }
            }
        }
    } else {
        assert(tokens =~= events.filter(
            |event: PollEvent| usize::MAX - n_listeners <= event.token.0 < usize::MAX,
        ).map_values(|event: PollEvent| event.token));
    }
}

/// The waker is ready after a poll if and only if it was so before, or one of the events carries
/// the highest token that there is.
pub proof fn law_waker_becomes_ready(before: Scheduler, events: Seq<PollEvent>, after: Scheduler)
    requires
        before.update_effect(events, &after),
    ensures
        after.waker_ready() <==> before.waker_ready() || exists|i: int|
            0 <= i < events.len() && (#[trigger] events[i]).token.0 == usize::MAX,
{
}

/// The next event of a connection is the first one at or behind the current position whose token
/// is below those of the listeners. All that a pass steps over is not of a connection.
pub proof fn law_no_connection_is_stepped_over(
    events: Seq<PollEvent>,
    n_listeners: usize,
    from: int,
)
    requires
        0 <= from <= events.len(),
    ensures
        ({
            let i = first_connection(events, n_listeners, from);
            &&& from <= i <= events.len()
            &&& i < events.len() ==> events[i].token.0 < usize::MAX - n_listeners
            &&& forall|k: int|
                from <= k < i ==> (#[trigger] events[k]).token.0 >= usize::MAX - n_listeners
        }),
    decreases events.len() - from,
{
    if from < events.len() {
        law_no_connection_is_stepped_over(events, n_listeners, from + 1);
    }
}

/// What the next turn of a pass offers, and what is left of it. A connection may be read from if an
/// event says so or if that was carried over, unless it was read from in this round already; and
/// likewise for writing. What is offered counts as used. Nothing else is used or taken away, and
/// the other connections are left alone.
pub proof fn law_turn_offers_what_is_ready(
    before: Scheduler,
    pass: Pass,
    after: Scheduler,
    passed: Pass,
    turn: Turn,
)
    requires
        before.turn_effect(&pass, &after, &passed, Some(turn)),
    ensures
        ({
            let key = turn.token.0;
            let carried = before.carried().contains_key(key);
            let had = before.carried()[key];
            let round = pass.round();
            let used = carried && had.processed_in_round == round;
            let i = passed.next_event() - 1;
            let read_event = !turn.standalone && before.events()[i].readable;
            let write_event = !turn.standalone && before.events()[i].writable;
            &&& !turn.standalone ==> pass.next_event() <= i < before.events().len()
                && before.events()[i].token == turn.token
            &&& turn.standalone ==> carried && had.processed_in_round + 1 == round
            &&& turn.readable <==> (read_event || (carried && had.ready.r)) && !(used
                && had.used.r)
            &&& turn.writable <==> (write_event || (carried && had.ready.w)) && !(used
                && had.used.w)
            &&& turn.readiness.processed_in_round == round
            &&& turn.readiness.used.r <==> turn.readable || (used && had.used.r)
            &&& turn.readiness.used.w <==> turn.writable || (used && had.used.w)
            &&& turn.readiness.ready.r <==> carried && had.ready.r && !turn.readable
            &&& turn.readiness.ready.w <==> carried && had.ready.w && !turn.writable
            &&& after.carried().contains_key(key) <==> carried
            &&& carried ==> after.carried()[key] == turn.readiness
            &&& forall|other: usize|
                other != key ==> (#[trigger] after.carried().contains_key(other)
                    <==> before.carried().contains_key(other)) && after.carried()[other]
                    == before.carried()[other]
        }),
{
    lemma_first_in_range(before.events(), before.n_listeners(), pass.next_event() as int);
}

/// The first event of a connection is one of those that are looked at.
proof fn lemma_first_in_range(events: Seq<PollEvent>, n_listeners: usize, from: int)
    ensures
        from <= events.len() ==> from <= first_connection(events, n_listeners, from)
            <= events.len(),
        from > events.len() ==> first_connection(events, n_listeners, from) == events.len(),
    decreases events.len() - from,
{
    if from < events.len() {
        lemma_first_in_range(events, n_listeners, from + 1);
    }
}

/// There is no further turn only if nothing is left to be handled: no event of a connection is
/// ahead, and everything that is carried over was handled in this round. Nothing changes then.
pub proof fn law_pass_ends_once_all_is_handled(
    before: Scheduler,
    pass: Pass,
    after: Scheduler,
    passed: Pass,
)
    requires
        before.turn_effect(&pass, &after, &passed, None),
        pass.next_event() <= before.events().len(),
    ensures
        forall|k: int|
            pass.next_event() <= k < before.events().len() ==> (
            #[trigger] before.events()[k]).token.0 >= usize::MAX - before.n_listeners(),
        forall|key: usize| #[trigger]
            before.carried().contains_key(key) ==> before.carried()[key].processed_in_round
                == pass.round(),
        after.carried() == before.carried(),
{
    law_no_connection_is_stepped_over(
        before.events(),
        before.n_listeners(),
        pass.next_event() as int,
    );
}

/// What a turn leaves undone is what carries over for its connection, all of it and nothing else;
/// if it leaves nothing undone, nothing carries over. A turn that has failed drops its readiness if
/// that was a pure carryover. The other connections are left alone, and so is what the last poll
/// has found.
pub proof fn law_what_is_left_carries_over(
    before: Scheduler,
    turn: Turn,
    carryover: Option<Carryover>,
    after: Scheduler,
)
    requires
        before.settle_effect(turn, carryover, &after),
    ensures
        ({
            let key = turn.token.0;
            &&& carryover matches Some(left) ==> {
                &&& after.carried().contains_key(key) <==> left.r || left.w
                &&& left.r || left.w ==> {
                    &&& after.carried()[key].ready.r == left.r
                    &&& after.carried()[key].ready.w == left.w
                    &&& after.carried()[key].used == turn.readiness.used
                    &&& after.carried()[key].processed_in_round
                        == turn.readiness.processed_in_round
                }
            }
            &&& carryover is None && turn.standalone ==> !after.carried().contains_key(key)
            &&& carryover is None && !turn.standalone ==> after.carried() == before.carried()
            &&& forall|other: usize|
                other != key ==> (#[trigger] after.carried().contains_key(other)
                    <==> before.carried().contains_key(other)) && after.carried()[other]
                    == before.carried()[other]
            &&& after.events() == before.events()
            &&& after.waker_ready() == before.waker_ready()
            &&& after.ready_listeners() == before.ready_listeners()
            &&& after.n_listeners() == before.n_listeners()
        }),
{
}

/// Asking for a turn changes nothing about what the last poll has found.
pub proof fn law_turns_keep_the_poll(
    before: Scheduler,
    pass: Pass,
    after: Scheduler,
    passed: Pass,
    turn: Option<Turn>,
)
    requires
        before.turn_effect(&pass, &after, &passed, turn),
    ensures
        after.events() == before.events(),
        after.waker_ready() == before.waker_ready(),
        after.ready_listeners() == before.ready_listeners(),
        after.n_listeners() == before.n_listeners(),
        passed.round() == pass.round(),
{
}

} // verus!

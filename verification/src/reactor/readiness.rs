//! The readiness of connections, and what of it carries over from one round to the next.

use vstd::prelude::*;

use crate::reactor::token::Token;

verus! {

/// What a poll found to be ready.
#[derive(Debug, Clone, Copy, PartialEq, Eq, Structural)]
pub struct PollEvent {
    /// What became ready.
    pub token: Token,
    /// Whether it can be read from.
    pub readable: bool,
    /// Whether it can be written to.
    pub writable: bool,
}

/// Conveys read and write carryover.
#[derive(Debug, Clone, Copy, PartialEq, Eq, Structural)]
pub struct Carryover {
    /// Whether there is more to read.
    pub r: bool,
    /// Whether there is more to write.
    pub w: bool,
}

impl Carryover {
    /// Creates a new, empty carryover.
    pub fn none() -> (carryover: Self)
        ensures
            carryover == (Carryover { r: false, w: false }),
    {
        Carryover { r: false, w: false }
    }
}

impl Default for Carryover {
    fn default() -> (carryover: Self)
        ensures
            carryover == (Carryover { r: false, w: false }),
    {
        Carryover::none()
    }
}

/// What a connection is ready for, and what of that was used in the round in which it was last
/// processed.
#[derive(Debug, Clone, Copy, PartialEq, Eq, Structural)]
pub struct Readiness {
    /// What the connection is ready for.
    pub ready: Carryover,
    /// What was used in the current round.
    pub used: Carryover,
    /// The round in which the readiness was last processed.
    pub processed_in_round: u64,
}

impl Readiness {
    /// The readiness that comes from an event alone.
    pub open spec fn fresh(event: PollEvent, round: u64) -> Readiness {
        Readiness {
            ready: Carryover { r: event.readable, w: event.writable },
            used: Carryover { r: false, w: false },
            processed_in_round: round,
        }
    }

    /// The readiness in a round, along with an event of that round, if any. Nothing is used in a
    /// round that has just begun. An event adds nothing that was used in its round already.
    pub open spec fn updated(self, round: u64, event: Option<PollEvent>) -> Readiness {
        let used = if self.processed_in_round != round {
            Carryover { r: false, w: false }
        } else {
            self.used
        };
        Readiness {
            ready: match event {
                Some(event) => Carryover {
                    r: self.ready.r || (event.readable && !used.r),
                    w: self.ready.w || (event.writable && !used.w),
                },
                None => self.ready,
            },
            used,
            processed_in_round: round,
        }
    }

    /// Whether the connection may be read from in the current round.
    pub open spec fn readable(self) -> bool {
        self.ready.r && !self.used.r
    }

    /// Whether the connection may be written to in the current round.
    pub open spec fn writable(self) -> bool {
        self.ready.w && !self.used.w
    }

    /// The readiness once read readiness was used.
    pub open spec fn without_readable(self) -> Readiness {
        if self.readable() {
            Readiness {
                ready: Carryover { r: false, ..self.ready },
                used: Carryover { r: true, ..self.used },
                ..self
            }
        } else {
            self
        }
    }

    /// The readiness once write readiness was used.
    pub open spec fn without_writable(self) -> Readiness {
        if self.writable() {
            Readiness {
                ready: Carryover { w: false, ..self.ready },
                used: Carryover { w: true, ..self.used },
                ..self
            }
        } else {
            self
        }
    }

    /// The readiness once all of it was used.
    pub open spec fn drained(self) -> Readiness {
        self.without_readable().without_writable()
    }

    /// The readiness with what carries over from the current round.
    pub open spec fn carrying(self, carryover: Carryover) -> Readiness {
        Readiness { ready: carryover, ..self }
    }

    /// Creates a new readiness from an event and a round.
    pub fn new(event: PollEvent, round: u64) -> (readiness: Self)
        ensures
            readiness == Readiness::fresh(event, round),
    {
        Readiness {
            ready: Carryover { r: event.readable, w: event.writable },
            used: Carryover::none(),
            processed_in_round: round,
        }
    }

    /// Updates this readiness with a new round and a possible event, if any.
    pub fn update(&mut self, round: u64, event: Option<PollEvent>)
        ensures
            *final(self) == old(self).updated(round, event),
    {
        if self.processed_in_round != round {
            self.processed_in_round = round;
            self.used = Carryover::none();
        }
        match event {
            Some(event) => {
                self.ready.r = self.ready.r || (event.readable && !self.used.r);
                self.ready.w = self.ready.w || (event.writable && !self.used.w);
            },
            None => {},
        }
    }

    /// Drains and returns readable readiness, if any.
    pub fn drain_readable(&mut self) -> (readable: bool)
        ensures
            readable == old(self).readable(),
            *final(self) == old(self).without_readable(),
    {
        if self.ready.r && !self.used.r {
            self.ready.r = false;
            self.used.r = true;
            true
        } else {
            false
        }
    }

    /// Drains and returns writeable readiness, if any.
    pub fn drain_writable(&mut self) -> (writable: bool)
        ensures
            writable == old(self).writable(),
            *final(self) == old(self).without_writable(),
    {
        if self.ready.w && !self.used.w {
            self.ready.w = false;
            self.used.w = true;
            true
        } else {
            false
        }
    }

    /// Updates this readiness with a carryover and returns whether the readiness will carry
    /// over into the next round.
    pub fn will_carryover(&mut self, carryover: Carryover) -> (carries: bool)
        ensures
            *final(self) == old(self).carrying(carryover),
            carries == (carryover.r || carryover.w),
    {
        self.ready.r = carryover.r;
        self.ready.w = carryover.w;
        self.ready.r || self.ready.w
    }

    /// Returns whether the readiness was handled in a certain round.
    pub fn is_handled(&self, round: u64) -> (handled: bool)
        ensures
            handled == (self.processed_in_round == round),
    {
        self.processed_in_round == round
    }
}

/// What carries over from one round is offered in another: the connection may be read from if
/// there was more to read, or if an event of that round says so, and likewise for writing.
pub proof fn law_carryover_is_offered(
    readiness: Readiness,
    carryover: Carryover,
    round: u64,
    event: Option<PollEvent>,
)
    requires
        readiness.processed_in_round != round,
    ensures
        ({
            let offered = readiness.carrying(carryover).updated(round, event);
            &&& offered.readable() == (carryover.r || (event matches Some(event) && event.readable))
            &&& offered.writable() == (carryover.w || (event matches Some(event) && event.writable))
        }),
{
}

/// A connection whose readiness carries over is read from at most once in a round and written to
/// at most once in a round, whatever the carryover and however many events come in.
pub proof fn law_readiness_is_used_once(
    readiness: Readiness,
    carryover: Carryover,
    event: Option<PollEvent>,
)
    ensures
        ({
            let round = readiness.processed_in_round;
            let again = readiness.drained().carrying(carryover).updated(round, event);
            &&& readiness.readable() ==> !again.readable()
            &&& readiness.writable() ==> !again.writable()
        }),
{
}

} // verus!

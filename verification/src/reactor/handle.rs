//! What a consumer learns from the channels to and from its reactor.

use vstd::prelude::*;

use crate::message::Message;
use crate::Event;

verus! {

/// Why a command could not be sent to a reactor.
#[derive(Debug, Clone, Copy, PartialEq, Eq, Structural)]
pub enum SendError {
    /// The channel to the reactor is currently full and cannot accept more messages.
    Full,
    /// The other side of the channel is disconnected (reactor is likely dead).
    Dead,
}

/// The reactor is irrecoverable.
#[derive(Debug, Clone, Copy, PartialEq, Eq, Structural)]
pub struct RecvError;

/// What came of sending a command to a reactor and waking it up.
#[derive(Debug, Clone, Copy, PartialEq, Eq, Structural)]
pub enum SendOutcome {
    /// The command was sent and the reactor was woken up.
    Woken,
    /// The command was sent but the reactor could not be woken up.
    NotWoken,
    /// The channel has no space left.
    Full,
    /// The other side of the channel is gone.
    Disconnected,
}

impl SendOutcome {
    /// Decides whether a command has reached its reactor.
    pub fn result(self) -> (result: Result<(), SendError>)
        ensures
            result == (match self {
                SendOutcome::Woken => Ok(()),
                SendOutcome::Full => Err(SendError::Full),
                SendOutcome::NotWoken | SendOutcome::Disconnected => Err(SendError::Dead),
            }),
    {
        match self {
            SendOutcome::Woken => Ok(()),
            SendOutcome::NotWoken => Err(SendError::Dead),
            SendOutcome::Full => Err(SendError::Full),
            SendOutcome::Disconnected => Err(SendError::Dead),
        }
    }
}

/// What came of receiving an event from a reactor.
#[derive(Debug)]
pub enum RecvOutcome<M: Message> {
    /// There was an event.
    Received(Event<M>),
    /// There was none, or none in time.
    Nothing,
    /// The other side of the channel is gone.
    Disconnected,
}

impl<M: Message> RecvOutcome<M> {
    /// Decides what the consumer gets. If the inner option is `None`, it means the channel was
    /// empty. If there is a `RecvError`, the reactor is irrecoverable.
    pub fn result(self) -> (result: Result<Option<Event<M>>, RecvError>)
        ensures
            result == (match self {
                RecvOutcome::Received(event) => Ok(Some(event)),
                RecvOutcome::Nothing => Ok(None),
                RecvOutcome::Disconnected => Err(RecvError),
            }),
    {
        match self {
            RecvOutcome::Received(event) => Ok(Some(event)),
            RecvOutcome::Nothing => Ok(None),
            RecvOutcome::Disconnected => Err(RecvError),
        }
    }
}

} // verus!

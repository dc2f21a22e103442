//! Tokens tell apart what can become ready: the waker, the listeners and the connections.

use vstd::prelude::*;

verus! {

/// Associates readiness with what became ready.
#[derive(Debug, Clone, Copy, PartialEq, Eq, PartialOrd, Ord, Hash, Structural)]
pub struct Token(pub usize);

/// The number of the reserved token used for waking the event loop.
pub const WAKER: usize = usize::MAX;

/// Whether a token is associated with one of so many listeners. Those have the highest numbers
/// below that of the waker.
pub open spec fn listener_token(n_listeners: usize, token: Token) -> bool {
    usize::MAX - n_listeners <= token.0 < usize::MAX
}

/// Whether a token is associated with a connection: its number is below those of the listeners.
pub open spec fn connection_token(n_listeners: usize, token: Token) -> bool {
    token.0 < usize::MAX - n_listeners
}

/// Every token is associated with exactly one of the waker, a listener and a connection.
pub proof fn law_tokens_are_told_apart(n_listeners: usize, token: Token)
    ensures
        token.0 == WAKER ==> !listener_token(n_listeners, token) && !connection_token(
            n_listeners,
            token,
        ),
        token.0 != WAKER ==> listener_token(n_listeners, token) != connection_token(
            n_listeners,
            token,
        ),
{
}

/// Checks if a token is associated with the server (connection listener).
pub fn is_listener(n_listeners: usize, token: Token) -> (listener: bool)
    ensures
        listener == listener_token(n_listeners, token),
{
    token.0 >= usize::MAX - n_listeners && token.0 < usize::MAX
}

/// Checks if a token is associated with a connection.
pub fn is_connection(n_listeners: usize, token: Token) -> (connection: bool)
    ensures
        connection == connection_token(n_listeners, token),
{
    token.0 < usize::MAX - n_listeners
}

/// Returns the token of the listener at a certain position in the list of listeners.
pub fn token_of_listener(offset: usize) -> (token: Token)
    requires
        offset < usize::MAX,
    ensures
        token.0 == usize::MAX - 1 - offset,
{
    Token(usize::MAX - 1 - offset)
}

/// Returns the position in the list of listeners that a listener token belongs to.
pub fn listener_of_token(token: Token) -> (offset: usize)
    requires
        token.0 < usize::MAX,
    ensures
        offset == usize::MAX - 1 - token.0,
{
    usize::MAX - 1 - token.0
}

/// The tokens of the listeners are recognized as such, and lead back to their listeners. No other
/// token is taken for one of theirs.
pub proof fn law_listener_tokens(n_listeners: usize, offset: usize, token: Token)
    requires
        offset < usize::MAX,
        token.0 == usize::MAX - 1 - offset,
    ensures
        offset < n_listeners <==> listener_token(n_listeners, token),
        usize::MAX - 1 - token.0 == offset,
{
}

} // verus!

//! What a transport to the device does.

use vstd::prelude::*;

verus! {

/// A transport to the device. The spec functions say what its state is and how a call changes it.
pub trait DglabTransport: Send {
    /// The states of the transport.
    type State;

    /// The state of the transport.
    spec fn state(&self) -> Self::State;

    /// The state counts as connected.
    spec fn is_connected(state: Self::State) -> bool;

    /// The state after the strength was set.
    spec fn with_strength(state: Self::State, strength: u8) -> Self::State;

    /// The state after the transport was disconnected.
    spec fn disconnected(state: Self::State) -> Self::State;

    /// Whether the transport is connected, as far as it can tell.
    fn connected(&self) -> (r: bool)
        ensures
            r == Self::is_connected(self.state()),
    ;

    /// Sets both channels to a strength, meant to be at most 200.
    fn set_strength(&mut self, strength: u8)
        ensures
            final(self).state() == Self::with_strength(old(self).state(), strength),
    ;

    /// Gives the connection up.
    fn disconnect(&mut self)
        ensures
            final(self).state() == Self::disconnected(old(self).state()),
    ;
}

/// A transport: a server that runs here, or a client of an external relay.
pub enum Transport<S, C> {
    Server(S),
    Client(C),
}

/// The states of a transport of either kind.
pub enum TransportState<S, C> {
    Server(S),
    Client(C),
}

impl<S: DglabTransport, C: DglabTransport> DglabTransport for Transport<S, C> {
    type State = TransportState<S::State, C::State>;

    open spec fn state(&self) -> TransportState<S::State, C::State> {
        match self {
            Transport::Server(s) => TransportState::Server(s.state()),
            Transport::Client(c) => TransportState::Client(c.state()),
        }
    }

    open spec fn is_connected(state: TransportState<S::State, C::State>) -> bool {
        match state {
            TransportState::Server(s) => S::is_connected(s),
            TransportState::Client(c) => C::is_connected(c),
        }
    }

    open spec fn with_strength(
        state: TransportState<S::State, C::State>,
        strength: u8,
    ) -> TransportState<S::State, C::State> {
        match state {
            TransportState::Server(s) => TransportState::Server(S::with_strength(s, strength)),
            TransportState::Client(c) => TransportState::Client(C::with_strength(c, strength)),
        }
    }

    open spec fn disconnected(state: TransportState<S::State, C::State>) -> TransportState<
        S::State,
        C::State,
    > {
        match state {
            TransportState::Server(s) => TransportState::Server(S::disconnected(s)),
            TransportState::Client(c) => TransportState::Client(C::disconnected(c)),
        }
    }

    fn connected(&self) -> (r: bool) {
        match self {
            Transport::Server(s) => s.connected(),
            Transport::Client(c) => c.connected(),
        }
    }

    fn set_strength(&mut self, strength: u8) {
        match self {
            Transport::Server(s) => s.set_strength(strength),
            Transport::Client(c) => c.set_strength(strength),
        }
    }

    fn disconnect(&mut self) {
        match self {
            Transport::Server(s) => s.disconnect(),
            Transport::Client(c) => c.disconnect(),
        }
    }
}

}

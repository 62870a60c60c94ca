//! The listener's decisions. Binding a port and accepting connections are
//! the caller's work; what follows from how they went is decided here: a
//! bind that fails is an error for whoever asked to start, and once the
//! port is bound every accepted connection is served and every failed
//! accept is reported, with the listener accepting on in either case.

use vstd::prelude::*;

verus! {

/// The port that the service listens on where none is chosen.
pub const DEFAULT_PORT: u16 = 8888;

/// Why the port could not be acquired.
#[derive(Clone, Copy, Debug, PartialEq, Eq, Structural)]
pub enum BindError {
    /// Another socket holds the port.
    AddressInUse,
    /// The process may not bind the port.
    PermissionDenied,
    /// The address is not one that can be bound.
    InvalidAddress,
    /// The bind failed for any other reason.
    Other,
}

/// How the attempt to bind the port went.
#[derive(Clone, Copy, Debug, PartialEq, Eq, Structural)]
pub enum BindOutcome {
    /// The port is bound.
    Bound,
    /// The port could not be acquired.
    Refused(BindError),
}

/// How one attempt to accept a connection went.
#[derive(Clone, Copy, Debug, PartialEq, Eq, Structural)]
pub enum AcceptOutcome {
    /// A peer connected.
    Connected,
    /// The attempt failed; no connection came of it.
    Failed,
}

/// What to do after an attempt to accept a connection. Both variants are
/// followed by the next attempt: nothing that happens to one connection
/// ends the listener.
#[derive(Clone, Copy, Debug, PartialEq, Eq, Structural)]
pub enum AcceptAction {
    /// Hand the connection to a handler of its own, which starts a fresh
    /// protocol run and works on its own, then accept again.
    Serve,
    /// Report the failed attempt, then accept again.
    Report,
}

/// A listener that has its port chosen and is not bound yet.
#[derive(Debug, PartialEq, Eq, Structural)]
pub struct Listener {
    port: u16,
}

/// A listener whose port is bound: it accepts connections for as long as
/// the process lives.
#[derive(Debug, PartialEq, Eq, Structural)]
pub struct Accepting {
    port: u16,
}

impl Listener {
    /// A listener for `port`.
    pub fn new(port: u16) -> (listener: Listener)
        ensures
            listener.port_spec() == port,
    {
        Listener { port }
    }

    /// The port that this listener is for.
    pub closed spec fn port_spec(&self) -> u16 {
        self.port
    }

    /// The port that this listener is for.
    #[verifier::when_used_as_spec(port_spec)]
    pub fn port(&self) -> (port: u16)
        ensures
            port == self.port_spec(),
    {
        self.port
    }

    /// Settles the start of the service: it has started if and only if the
    /// port was bound, and a refused bind is passed on as the error it is.
    pub fn on_bind(self, outcome: BindOutcome) -> (started: Result<Accepting, BindError>)
        ensures
            match outcome {
                BindOutcome::Bound => started matches Ok(accepting) && accepting.port()
                    == self.port(),
                BindOutcome::Refused(error) => started matches Err(reason) && reason == error,
            },
    {
        match outcome {
            BindOutcome::Bound => Ok(Accepting { port: self.port }),
            BindOutcome::Refused(error) => Err(error),
        }
    }
}

impl Accepting {
    /// The port that is bound.
    pub closed spec fn port_spec(&self) -> u16 {
        self.port
    }

    /// The port that is bound.
    #[verifier::when_used_as_spec(port_spec)]
    pub fn port(&self) -> (port: u16)
        ensures
            port == self.port_spec(),
    {
        self.port
    }

    /// Decides what follows an attempt to accept a connection. The answer
    /// depends on that attempt alone, not on any connection before it.
    pub fn on_accept(&self, outcome: AcceptOutcome) -> (action: AcceptAction)
        ensures
            action == match outcome {
                AcceptOutcome::Connected => AcceptAction::Serve,
                AcceptOutcome::Failed => AcceptAction::Report,
            },
    {
        match outcome {
            AcceptOutcome::Connected => AcceptAction::Serve,
            AcceptOutcome::Failed => AcceptAction::Report,
        }
    }
}

} // verus!

//! The connection to the gateway: what to do after each attempt to receive
//! an event or to connect again.

use crate::mirror::{MirrorView, StateMirror};
use crate::model::{Event, Snapshot};
use crate::text::{append_decimal, decimal};
use vstd::prelude::*;
use vstd::string::StringExecFns;

verus! {

/// Whether the connection is up.
#[derive(Clone, Copy, PartialEq, Eq, Structural, Debug)]
pub enum ConnectionState {
    /// Events can be received.
    Connected,
    /// The connection was dropped and is being opened again.
    Reconnecting,
}

/// Why an attempt to receive an event failed.
#[derive(Clone, Copy, PartialEq, Eq, Structural, Debug)]
pub enum TransportError {
    /// The connection was dropped.
    Dropped,
    /// The other side closed the connection for good.
    Closed,
    /// Anything else.
    Other,
}

/// What came of the step that the manager asked for.
#[derive(Debug, PartialEq, Eq)]
pub enum Outcome {
    /// An event was received.
    Received(Event),
    /// Receiving failed.
    Failed(TransportError),
    /// A new connection is open; its handshake brought this snapshot.
    Reconnected(Snapshot),
    /// No new connection could be opened.
    ReconnectFailed,
}

/// What is to be done next.
#[derive(Debug, PartialEq, Eq)]
pub enum Step {
    /// Wait for the next event.
    Receive,
    /// Log in and open a new connection.
    Reconnect,
    /// Hand this event to the dispatcher, then wait for the next one.
    Deliver(Event),
    /// The stream has ended.
    Stop,
}

/// The manager of the gateway connection.
#[derive(Debug)]
pub struct ConnectionManager {
    state: ConnectionState,
}

/// The state after an outcome. A dropped connection, or a failed attempt to
/// open a new one, leads to another attempt; a new connection is ready for
/// events; anything else leaves the state as it is.
pub open spec fn next_state(state: ConnectionState, outcome: Outcome) -> ConnectionState {
    match outcome {
        Outcome::Received(_) => state,
        Outcome::Failed(TransportError::Dropped) => ConnectionState::Reconnecting,
        Outcome::Failed(_) => state,
        Outcome::Reconnected(_) => ConnectionState::Connected,
        Outcome::ReconnectFailed => ConnectionState::Reconnecting,
    }
}

/// The step after an outcome. An event is delivered; after a dropped
/// connection a new one is opened, again and again until that succeeds; a
/// closed connection ends the stream; any other error is passed over.
pub open spec fn next_step(outcome: Outcome) -> Step {
    match outcome {
        Outcome::Received(event) => Step::Deliver(event),
        Outcome::Failed(TransportError::Dropped) => Step::Reconnect,
        Outcome::Failed(TransportError::Closed) => Step::Stop,
        Outcome::Failed(TransportError::Other) => Step::Receive,
        Outcome::Reconnected(_) => Step::Receive,
        Outcome::ReconnectFailed => Step::Reconnect,
    }
}

/// The mirror after an outcome: the snapshot of a new connection replaces
/// it; anything else leaves it as it is.
pub open spec fn next_mirror(mirror: MirrorView, outcome: Outcome) -> MirrorView {
    match outcome {
        Outcome::Reconnected(snapshot) => snapshot@,
        _ => mirror,
    }
}

/// The line that is logged when the first connection is ready.
pub open spec fn ready_text(snapshot: Snapshot) -> Seq<char> {
    "[Ready] "@ + snapshot.user.name@ + " is serving "@ + decimal(snapshot.servers@.len())
        + " servers."@
}

/// Writes the line that is logged when the first connection is ready.
pub fn ready_line(snapshot: &Snapshot) -> (line: String)
    ensures
        line@ == ready_text(*snapshot),
{
    let mut line = String::new();
    line.append("[Ready] ");
    line.append(snapshot.user.name.as_str());
    line.append(" is serving ");
    append_decimal(&mut line, snapshot.servers.len() as u64);
    line.append(" servers.");
    line
}

impl ConnectionManager {
    /// The state of the connection.
    pub closed spec fn view(&self) -> ConnectionState {
        self.state
    }

    /// Starts with the first connection, whose handshake brought
    /// `snapshot`: the connection is up, and the mirror holds the snapshot.
    pub fn new(snapshot: Snapshot) -> (res: (ConnectionManager, StateMirror))
        ensures
            res.0@ == ConnectionState::Connected,
            res.1@ == snapshot@,
    {
        (ConnectionManager { state: ConnectionState::Connected }, StateMirror::new(snapshot))
    }

    /// The state of the connection.
    pub fn state(&self) -> (res: ConnectionState)
        ensures
            res == self@,
    {
        self.state
    }

    /// Takes the outcome of the last step and says what to do next.
    pub fn advance(&mut self, mirror: &mut StateMirror, outcome: Outcome) -> (step: Step)
        ensures
            final(self)@ == next_state(old(self)@, outcome),
            final(mirror)@ == next_mirror(old(mirror)@, outcome),
            step == next_step(outcome),
    {
        match outcome {
            Outcome::Received(event) => Step::Deliver(event),
            Outcome::Failed(TransportError::Dropped) => {
                self.state = ConnectionState::Reconnecting;
                Step::Reconnect
            },
            Outcome::Failed(TransportError::Closed) => Step::Stop,
            Outcome::Failed(TransportError::Other) => Step::Receive,
            Outcome::Reconnected(snapshot) => {
                *mirror = StateMirror::new(snapshot);
                self.state = ConnectionState::Connected;
                Step::Receive
            },
            Outcome::ReconnectFailed => {
                self.state = ConnectionState::Reconnecting;
                Step::Reconnect
            },
        }
    }
}

/// From a connection that is up, the manager asks for a new connection
/// only after a dropped one, and stops only after a closed one; and once a
/// new connection is open, the mirror holds its snapshot alone.
pub proof fn lemma_recovery(mirror: MirrorView, outcome: Outcome)
    ensures
        next_step(outcome) is Stop <==> outcome == Outcome::Failed(TransportError::Closed),
        next_state(ConnectionState::Connected, outcome) is Reconnecting <==> (outcome
            == Outcome::Failed(TransportError::Dropped) || outcome is ReconnectFailed),
        next_state(ConnectionState::Reconnecting, outcome) is Connected <==> outcome is Reconnected,
        outcome is Reconnected ==> next_mirror(mirror, outcome) == outcome->Reconnected_0@,
        next_step(outcome) is Deliver <==> outcome is Received,
        outcome is Received ==> next_step(outcome) == Step::Deliver(outcome->Received_0),
{
}

} // verus!

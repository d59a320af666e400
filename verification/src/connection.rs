//! The life of one connection, from accept to close.
//!
//! The caller does the work on the socket: it shakes hands, serves requests,
//! closes. After each piece of work it reports what happened, and is told
//! here what to do next. Each connection has a state of its own and no
//! transition looks at another's, so whatever happens on one connection,
//! a failed handshake too, leaves every other where it was.

use vstd::prelude::*;

verus! {

/// Where a connection stands.
#[derive(Clone, Copy, Debug, PartialEq, Eq, Structural)]
pub enum Phase {
    /// The socket is accepted and nothing has been done on it.
    Accepted,
    /// The TLS handshake is under way.
    Handshaking,
    /// The stream is with the HTTP layer, which serves the requests that
    /// come, none or many.
    Serving,
    /// The connection is over.
    Closed,
}

/// What happened on a connection.
#[derive(Clone, Copy, Debug, PartialEq, Eq, Structural)]
pub enum Event {
    /// The task that owns the connection has started.
    Started,
    /// The handshake succeeded.
    HandshakeCompleted,
    /// The handshake failed.
    HandshakeFailed,
    /// The HTTP layer is done: the peer closed, or reading or writing
    /// failed.
    Finished,
}

/// What to do next on a connection.
#[derive(Clone, Copy, Debug, PartialEq, Eq, Structural)]
pub enum Action {
    /// Shake hands with the shared TLS context.
    Handshake,
    /// Hand the stream to the HTTP layer.
    Serve,
    /// Drop the connection and say nothing.
    Discard,
    /// Nothing: the connection is over already.
    Nothing,
}

/// One connection: whether it is to be encrypted, and where it stands.
#[derive(Clone, Copy, Debug, PartialEq, Eq, Structural)]
pub struct Connection {
    pub encrypted: bool,
    pub phase: Phase,
}

/// The connection after `event` and what to do next. An event that does not
/// belong to the phase ends the connection.
pub open spec fn transition(connection: Connection, event: Event) -> (Connection, Action) {
    let to = |phase: Phase| Connection { encrypted: connection.encrypted, phase };
    match (connection.phase, event) {
        (Phase::Closed, _) => (connection, Action::Nothing),
        (Phase::Accepted, Event::Started) => if connection.encrypted {
            (to(Phase::Handshaking), Action::Handshake)
        } else {
            (to(Phase::Serving), Action::Serve)
        },
        (Phase::Handshaking, Event::HandshakeCompleted) => (to(Phase::Serving), Action::Serve),
        _ => (to(Phase::Closed), Action::Discard),
    }
}

/// The connection after a run of events.
pub open spec fn after(connection: Connection, events: Seq<Event>) -> Connection
    decreases events.len(),
{
    if events.len() == 0 {
        connection
    } else {
        transition(after(connection, events.drop_last()), events.last()).0
    }
}

/// The connections after a run of events, each event with the index of the
/// connection that it happened on. An event on a connection that is not
/// there changes nothing.
pub open spec fn fleet_after(fleet: Seq<Connection>, events: Seq<(int, Event)>) -> Seq<Connection>
    decreases events.len(),
{
    if events.len() == 0 {
        fleet
    } else {
        let before = fleet_after(fleet, events.drop_last());
        let (i, event) = events.last();
        if 0 <= i < before.len() {
            before.update(i, transition(before[i], event).0)
        } else {
            before
        }
    }
}

/// The events of a run that happened on connection `i`, in their order.
pub open spec fn events_on(events: Seq<(int, Event)>, i: int) -> Seq<Event>
    decreases events.len(),
{
    if events.len() == 0 {
        Seq::<Event>::empty()
    } else if events.last().0 == i {
        events_on(events.drop_last(), i).push(events.last().1)
    } else {
        events_on(events.drop_last(), i)
    }
}

impl Connection {
    /// A connection that was just accepted.
    pub fn accepted(encrypted: bool) -> (r: Connection)
        ensures
            r == (Connection { encrypted, phase: Phase::Accepted }),
    {
        Connection { encrypted, phase: Phase::Accepted }
    }

    /// Takes note of what happened and tells what to do next.
    pub fn on_event(&mut self, event: Event) -> (r: Action)
        ensures
            (*final(self), r) == transition(*old(self), event),
    {
        let (phase, action) = match (self.phase, event) {
            (Phase::Closed, _) => (Phase::Closed, Action::Nothing),
            (Phase::Accepted, Event::Started) => if self.encrypted {
                (Phase::Handshaking, Action::Handshake)
            } else {
                (Phase::Serving, Action::Serve)
            },
            (Phase::Handshaking, Event::HandshakeCompleted) => (Phase::Serving, Action::Serve),
            _ => (Phase::Closed, Action::Discard),
        };
        self.phase = phase;
        action
    }

    /// Whether the connection is over.
    pub fn is_closed(&self) -> (r: bool)
        ensures
            r == (self.phase == Phase::Closed),
    {
        match self.phase {
            Phase::Closed => true,
            _ => false,
        }
    }
}

/// A failed handshake ends the connection it happened on: the connection
/// is dropped, and nothing that happens on it later brings it back.
pub proof fn lemma_failed_handshake_discards(connection: Connection, later: Seq<Event>)
    requires
        connection.phase == Phase::Handshaking,
    ensures
        transition(connection, Event::HandshakeFailed).1 == Action::Discard,
        transition(connection, Event::HandshakeFailed).0.phase == Phase::Closed,
        after(transition(connection, Event::HandshakeFailed).0, later).phase == Phase::Closed,
    decreases later.len(),
{
    if later.len() > 0 {
        lemma_failed_handshake_discards(connection, later.drop_last());
    }
}

/// Where a connection stands after a run depends on the events of its own
/// alone: whatever happened on the others, it stands where it would stand
/// had they never been.
pub proof fn lemma_connections_are_isolated(
    fleet: Seq<Connection>,
    events: Seq<(int, Event)>,
    i: int,
)
    requires
        0 <= i < fleet.len(),
    ensures
        fleet_after(fleet, events).len() == fleet.len(),
        fleet_after(fleet, events)[i] == after(fleet[i], events_on(events, i)),
    decreases events.len(),
{
    if events.len() > 0 {
        lemma_connections_are_isolated(fleet, events.drop_last(), i);
        let own = events_on(events.drop_last(), i);
        if events.last().0 == i {
            assert(events_on(events, i).drop_last() =~= own);
        }
    }
}

/// A client that shakes hands well is served, whatever happens on the other
/// connections meanwhile, failed handshakes too.
pub proof fn lemma_good_client_is_served(
    fleet: Seq<Connection>,
    events: Seq<(int, Event)>,
    i: int,
)
    requires
        0 <= i < fleet.len(),
        fleet[i] == (Connection { encrypted: true, phase: Phase::Accepted }),
        events_on(events, i) == seq![Event::Started, Event::HandshakeCompleted],
    ensures
        fleet_after(fleet, events)[i].phase == Phase::Serving,
{
    lemma_connections_are_isolated(fleet, events, i);
    let own = events_on(events, i);
    assert(own.drop_last() =~= seq![Event::Started]);
    assert(own.drop_last().drop_last() =~= Seq::<Event>::empty());
    reveal_with_fuel(after, 3);
}

} // verus!

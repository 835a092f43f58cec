//! Connections from the sequencer to the components that consume its
//! events: an activation flag per destination.

use vstd::prelude::*;

verus! {

/// The possible destinations for sequencer events.
#[derive(Debug, Clone, Copy, PartialEq, Eq, Structural)]
pub enum EventDestination {
    /// User-interface events (highlighting the current step, and so on).
    UI,
    /// Audio and sampler events (playing sounds).
    Sampler,
    /// MIDI output events.
    MIDI,
}

/// A connection to another component: its destination, and whether events
/// flow to it.
pub struct Connection {
    destination: EventDestination,
    active: bool,
}

impl Connection {
    /// Where this connection delivers.
    pub closed spec fn spec_destination(self) -> EventDestination {
        self.destination
    }

    /// Whether events flow.
    pub closed spec fn spec_active(self) -> bool {
        self.active
    }

    /// A new, inactive connection to `destination`.
    pub fn new(destination: EventDestination) -> (c: Connection)
        ensures
            c.spec_destination() == destination,
            !c.spec_active(),
    {
        Connection { destination, active: false }
    }

    /// Let events flow.
    pub fn activate(&mut self)
        ensures
            final(self).spec_active(),
            final(self).spec_destination() == old(self).spec_destination(),
    {
        self.active = true;
    }

    /// Stop events from flowing.
    pub fn deactivate(&mut self)
        ensures
            !final(self).spec_active(),
            final(self).spec_destination() == old(self).spec_destination(),
    {
        self.active = false;
    }

    /// Whether events flow.
    pub fn is_active(&self) -> (active: bool)
        ensures
            active == self.spec_active(),
    {
        self.active
    }
}

/// A connection for the user interface, not yet active.
pub fn setup_ui_connection() -> (c: Connection)
    ensures
        c.spec_destination() == EventDestination::UI,
        !c.spec_active(),
{
    Connection::new(EventDestination::UI)
}

/// A connection for the sampler, not yet active.
pub fn setup_sampler_connection() -> (c: Connection)
    ensures
        c.spec_destination() == EventDestination::Sampler,
        !c.spec_active(),
{
    Connection::new(EventDestination::Sampler)
}

} // verus!

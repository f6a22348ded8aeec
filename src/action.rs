use crate::door::Door;
use crate::garage_door::GarageDoor;
use crate::line::Level;
use crate::relay::{pulse, Relay, Step};
use crate::stateful_door::StatefulDoor;
use vstd::prelude::*;

verus! {

/// The kinds of door that the controller drives.
#[derive(Clone, Copy, Debug, PartialEq, Eq, Structural)]
pub enum Actuator {
    Door(Door),
    Garage(GarageDoor),
}

impl Actuator {
    /// The last contact reading of the door, whichever its kind.
    pub open spec fn contact(self) -> Level {
        match self {
            Actuator::Door(d) => d.contact,
            Actuator::Garage(g) => g.contact,
        }
    }

    /// Records a new contact reading.
    pub fn set_contact(&mut self, level: Level)
        ensures
            final(self).contact() == level,
            (*old(self) is Door) == (*final(self) is Door),
    {
        match self {
            Actuator::Door(d) => d.contact = level,
            Actuator::Garage(g) => g.contact = level,
        }
    }

    /// Whether the door can be locked, that is closed on request.
    pub fn supports_lock(&self) -> (r: bool)
        ensures
            r == (*self is Garage),
    {
        match self {
            Actuator::Door(_) => false,
            Actuator::Garage(_) => true,
        }
    }
}

impl StatefulDoor for Actuator {
    open spec fn reports_closed(&self) -> bool {
        self.contact() == Level::Low
    }

    fn is_closed(&self) -> (r: bool) {
        match self {
            Actuator::Door(d) => d.is_closed(),
            Actuator::Garage(g) => g.is_closed(),
        }
    }

    fn is_open(&self) -> (r: bool) {
        !self.is_closed()
    }
}

/// The steps of an unlock request: a press of the door opener, or the garage
/// door's open command.
pub fn unlock_door(door: &Actuator) -> (r: Vec<Step>)
    ensures
        door matches Actuator::Door(_) ==> r@ == pulse(Relay::Open),
        door matches Actuator::Garage(g) ==> r@ == g.open_plan(),
{
    match door {
        Actuator::Door(d) => d.open(),
        Actuator::Garage(g) => g.open(),
    }
}

/// The steps of a lock request: the garage door's close command. A plain door
/// cannot be locked.
pub fn lock_door(door: &Actuator) -> (r: Option<Vec<Step>>)
    ensures
        door matches Actuator::Door(_) ==> r is None,
        door matches Actuator::Garage(g) ==> r matches Some(steps) && steps@ == g.close_plan(),
{
    match door {
        Actuator::Door(_) => None,
        Actuator::Garage(g) => Some(g.close()),
    }
}

/// The name under which a door's lock state is published: closed doors are
/// locked.
pub open spec fn lock_state_name(closed: Option<bool>) -> Seq<char> {
    match closed {
        Some(true) => "locked"@,
        Some(false) => "unlocked"@,
        None => "unknown"@,
    }
}

pub fn door_state(closed: Option<bool>) -> (r: &'static str)
    ensures
        r@ == lock_state_name(closed),
{
    match closed {
        Some(true) => "locked",
        Some(false) => "unlocked",
        None => "unknown",
    }
}

} // verus!

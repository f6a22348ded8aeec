use crate::line::Level;
use crate::relay::{pulse, pulse_steps, Relay, Step};
use crate::stateful_door::StatefulDoor;
use vstd::prelude::*;

verus! {

/// A door opened by one relay pulse, with an active-low contact sensor.
///
/// `contact` is the last level read from the sensor; the door's state is
/// derived from it alone.
#[derive(Clone, Copy, Debug, PartialEq, Eq, Structural)]
pub struct Door {
    pub contact: Level,
}

impl Door {
    pub fn new(contact: Level) -> (r: Door)
        ensures
            r.contact == contact,
    {
        Door { contact }
    }

    /// The steps that bring the trigger line to its idle `High` level.
    pub fn setup(&self) -> (r: Vec<Step>)
        ensures
            r@ == seq![Step::Release(Relay::Open)],
    {
        let mut steps: Vec<Step> = Vec::new();
        steps.push(Step::Release(Relay::Open));
        steps
    }

    /// The steps of one press of the door opener.
    pub fn open(&self) -> (r: Vec<Step>)
        ensures
            r@ == pulse(Relay::Open),
    {
        pulse_steps(Relay::Open)
    }
}

impl StatefulDoor for Door {
    open spec fn reports_closed(&self) -> bool {
        self.contact == Level::Low
    }

    fn is_closed(&self) -> (r: bool) {
        self.contact.is_low()
    }

    fn is_open(&self) -> (r: bool) {
        !self.is_closed()
    }
}

} // verus!

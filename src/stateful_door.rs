use vstd::prelude::*;

verus! {

/// A door whose state is known only from its contact sensor.
pub trait StatefulDoor {
    /// Whether the contact reports the door closed.
    spec fn reports_closed(&self) -> bool;

    fn is_closed(&self) -> (r: bool)
        ensures
            r == self.reports_closed(),
    ;

    fn is_open(&self) -> (r: bool)
        ensures
            r == !self.reports_closed(),
    ;
}

} // verus!

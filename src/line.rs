use vstd::prelude::*;

verus! {

/// The electrical level of a digital line.
#[derive(Clone, Copy, Debug, PartialEq, Eq, Structural)]
pub enum Level {
    Low,
    High,
}

impl Level {
    /// A contact input is wired active-low: a closed contact pulls it `Low`.
    pub fn is_low(&self) -> (r: bool)
        ensures
            r == (*self == Level::Low),
    {
        match self {
            Level::Low => true,
            Level::High => false,
        }
    }
}

} // verus!

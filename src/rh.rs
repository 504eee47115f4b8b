//! A unit for relative humidity.

use crate::units::Ratio;
use vstd::prelude::*;

verus! {

/// A relative humidity reading, in percent. The sensor's linear model is not
/// clamped, so the value may lie outside 0 to 100.
#[derive(Clone, Copy, Debug, PartialEq, Eq)]
pub struct RelativeHumidity {
    value: Ratio,
}

impl RelativeHumidity {
    pub closed spec fn percent_spec(&self) -> Ratio {
        self.value
    }

    pub fn from_percent(pc: Ratio) -> (r: RelativeHumidity)
        ensures
            r.percent_spec() == pc,
    {
        RelativeHumidity { value: pc }
    }

    pub fn as_percent(&self) -> (r: Ratio)
        ensures
            r == self.percent_spec(),
    {
        self.value
    }
}

} // verus!

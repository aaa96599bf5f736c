//! How full something is.

use vstd::prelude::*;

verus! {

/// A level and the capacity it is measured against, in the same unit.
#[derive(Clone, Copy, Debug, PartialEq, Eq, Structural)]
pub struct Usage {
    pub used: u64,
    pub max: u64,
}

impl Usage {
    /// The level in whole percent of the capacity, rounded down; `None`
    /// where the capacity is zero.
    pub open spec fn spec_percent(self) -> Option<nat> {
        if self.max == 0 {
            None
        } else {
            Some((self.used as nat * 100 / self.max as nat) as nat)
        }
    }

    /// The level in tenths of a percent of the capacity, rounded down;
    /// `None` where the capacity is zero.
    pub open spec fn spec_per_mille(self) -> Option<nat> {
        if self.max == 0 {
            None
        } else {
            Some((self.used as nat * 1000 / self.max as nat) as nat)
        }
    }

    /// The level in whole percent of the capacity, rounded down.
    pub fn percent(&self) -> (r: Option<u128>)
        ensures
            match r {
                Some(p) => self.spec_percent() == Some(p as nat),
                None => self.spec_percent() is None,
            },
    {
        if self.max == 0 {
            None
        } else {
            Some(self.used as u128 * 100 / self.max as u128)
        }
    }

    /// The level in tenths of a percent of the capacity, rounded down.
    pub fn per_mille(&self) -> (r: Option<u128>)
        ensures
            match r {
                Some(p) => self.spec_per_mille() == Some(p as nat),
                None => self.spec_per_mille() is None,
            },
    {
        if self.max == 0 {
            None
        } else {
            Some(self.used as u128 * 1000 / self.max as u128)
        }
    }
}

} // verus!

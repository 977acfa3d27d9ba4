//! Amounts of credits, in integer base units.

use vstd::prelude::*;

verus! {

/// Base units in one credit.
pub const BASE_PER_CREDIT: i128 = 1_000_000_000_000_000_000;

/// An amount of credits, held exactly in base units. Negative amounts can be represented; where
/// one makes no sense, the code that takes the amount rejects it.
#[derive(Clone, Copy, Debug, PartialEq, Eq, Structural)]
pub struct Amount {
    pub base: i128,
}

impl Amount {
    /// An amount of `base` base units.
    pub fn from_base(base: i128) -> (a: Amount)
        ensures
            a.base == base,
    {
        Amount { base }
    }

    /// An amount of `credits` whole credits.
    pub fn from_credits(credits: i64) -> (a: Amount)
        ensures
            a.base == credits * BASE_PER_CREDIT,
    {
        Amount { base: (credits as i128) * BASE_PER_CREDIT }
    }

    /// The amount in base units.
    pub fn base(&self) -> (b: i128)
        ensures
            b == self.base,
    {
        self.base
    }
}

impl Default for Amount {
    fn default() -> (a: Amount)
        ensures
            a.base == 0,
    {
        Amount { base: 0 }
    }
}

} // verus!

//! The cost of travelling along a route: a fixed-point amount that saturates
//! at a value standing for "impassable".
use vstd::prelude::*;
use vstd::std_specs::cmp::PartialOrdSpecImpl;
use vstd::std_specs::ops::AddSpecImpl;
use std::cmp::Ordering;

verus! {

/// A travel cost in fixed point. The largest value stands for a route that
/// cannot be travelled; sums saturate at it, so adding to an impassable
/// cost leaves it impassable.
#[derive(Debug, Clone, Copy, PartialEq, Eq, Structural)]
pub struct TravelCost(pub u64);

/// The cost that stands for "impassable".
pub const IMPASSABLE: u64 = u64::MAX;

/// Sum of two costs, saturating at impassable.
pub open spec fn saturating_sum(a: u64, b: u64) -> u64 {
    if a + b > IMPASSABLE {
        IMPASSABLE
    } else {
        (a + b) as u64
    }
}

impl TravelCost {
    /// Whether the cost stands for a route that cannot be travelled.
    pub fn is_impassable(&self) -> (blocked: bool)
        ensures
            blocked == (self.0 == IMPASSABLE),
    {
        self.0 == IMPASSABLE
    }
}

impl Default for TravelCost {
    fn default() -> (cost: Self)
        ensures
            cost == TravelCost(0),
    {
        TravelCost(0)
    }
}

impl core::ops::Add for TravelCost {
    type Output = TravelCost;

    fn add(self, rhs: TravelCost) -> (sum: TravelCost) {
        TravelCost(self.0.saturating_add(rhs.0))
    }
}

impl AddSpecImpl for TravelCost {
    open spec fn obeys_add_spec() -> bool {
        true
    }

    open spec fn add_req(self, rhs: TravelCost) -> bool {
        true
    }

    open spec fn add_spec(self, rhs: TravelCost) -> TravelCost {
        TravelCost(saturating_sum(self.0, rhs.0))
    }
}

impl PartialOrd for TravelCost {
    fn partial_cmp(&self, other: &TravelCost) -> (order: Option<Ordering>) {
        if self.0 < other.0 {
            Some(Ordering::Less)
        } else if self.0 == other.0 {
            Some(Ordering::Equal)
        } else {
            Some(Ordering::Greater)
        }
    }
}

impl PartialOrdSpecImpl for TravelCost {
    open spec fn obeys_partial_cmp_spec() -> bool {
        true
    }

    open spec fn partial_cmp_spec(&self, other: &TravelCost) -> Option<Ordering> {
        if self.0 < other.0 {
            Some(Ordering::Less)
        } else if self.0 == other.0 {
            Some(Ordering::Equal)
        } else {
            Some(Ordering::Greater)
        }
    }
}

} // verus!

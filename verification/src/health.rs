//! Hit points of damageable entities, in fixed-point health units.

use vstd::prelude::*;
use crate::DEATH_EPSILON;

verus! {

/// The health pool the core reads from a damageable entity.
#[derive(Clone, Copy, PartialEq, Eq, Structural, Debug)]
pub struct Health {
    pub current: i64,
    pub max: i64,
}

impl Health {
    /// A fresh entity starts at full health.
    pub fn from_max(max: i64) -> (h: Health)
        ensures
            h == (Health { current: max, max }),
    {
        Health { current: max, max }
    }
}

/// Death is detected a small epsilon above zero, absorbing the drift of
/// repeated fractional decrements.
pub open spec fn spec_dead(current: int) -> bool {
    current <= DEATH_EPSILON
}

/// Whether a health pool counts as depleted.
pub fn is_dead(h: &Health) -> (r: bool)
    ensures
        r == spec_dead(h.current as int),
{
    h.current <= DEATH_EPSILON
}

} // verus!

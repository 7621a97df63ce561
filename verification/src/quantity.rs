//! The unit in which the simulation counts stock.
//!
//! Every quantity of a simulation is a whole number of one and the same unit:
//! what a batch holds, what history says entered and left, the capacity
//! ceiling, and every loss. Stored averages have decimal places, so the unit
//! is a ten-thousandth of a stored unit: four decimal places are kept, and a
//! value that needs more, or is too large, cannot be expressed.

use crate::error::SimulationError;
use vstd::prelude::*;

verus! {

/// The number of decimal places of a stored value that a quantity keeps.
pub const QUANTITY_DECIMALS: u32 = 4;

/// How many units of the simulation make one stored unit.
pub const QUANTITY_UNIT: u64 = 10_000;

/// The quantity that stands for `units` stored units; `None` where it is
/// more than a quantity can express.
pub open spec fn quantity_of_units(units: u64) -> Option<u64> {
    if units * QUANTITY_UNIT <= u64::MAX {
        Some((units * QUANTITY_UNIT) as u64)
    } else {
        None
    }
}

/// The quantity that stands for a whole number of stored units. Fails with
/// `ParameterError` where it is more than a quantity can express.
pub fn units_to_quantity(units: u64) -> (quantity: Result<u64, SimulationError>)
    ensures
        quantity == match quantity_of_units(units) {
            Some(value) => Ok::<u64, SimulationError>(value),
            None => Err::<u64, SimulationError>(SimulationError::ParameterError),
        },
{
    match units.checked_mul(QUANTITY_UNIT) {
        Some(value) => Ok(value),
        None => Err(SimulationError::ParameterError),
    }
}

/// The whole stored units that a quantity holds; a part of a stored unit is
/// left out.
pub fn whole_units(quantity: u64) -> (units: u64)
    ensures
        units == quantity / QUANTITY_UNIT,
        units * QUANTITY_UNIT <= quantity < (units + 1) * QUANTITY_UNIT,
{
    quantity / QUANTITY_UNIT
}

} // verus!

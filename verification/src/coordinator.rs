//! Working out what a simulation runs on from the stored settings: how far
//! it looks ahead, the days and weeks it covers, and its limits.

use crate::dates::{
    get_initial_and_final_weeks, iso_week_of_day, period_from, rfc3339_day, week_pair, SimDate,
};
use crate::error::SimulationError;
use vstd::prelude::*;

verus! {

/// What a simulation runs on, as far as the stored settings decide it: its
/// first and last day, the ISO weeks of both (the historical rows are read
/// for the weeks between them), the capacity ceiling and the lifetime of a
/// batch that enters.
#[derive(Clone, Copy, Debug, PartialEq, Eq, Structural)]
pub struct SimSetup {
    pub initial_date: SimDate,
    pub final_date: SimDate,
    pub initial_week: i16,
    pub final_week: i16,
    pub stock_maximum_quantity: u64,
    pub new_batch_default_expiration_days: u64,
}

/// The number of days that a simulation looks ahead: the product's own
/// setting, or the general one where the product has none.
pub open spec fn forecast_days(
    simulation_forecast_days: Option<i16>,
    default_simulation_forecast_days: i16,
) -> i16 {
    match simulation_forecast_days {
        Some(days) => days,
        None => default_simulation_forecast_days,
    }
}

/// The first and the last day of a simulation that starts on the UTC day of
/// `reference_date` and looks `days_to_analyze` days ahead. A reference date
/// that is no RFC 3339 timestamp is invalid; of a valid one, a negative number
/// of days is a parameter that cannot be worked with.
pub open spec fn forecast_period(reference_date: Seq<char>, days_to_analyze: i16) -> Result<
    (SimDate, SimDate),
    SimulationError,
> {
    if rfc3339_day(reference_date) is None {
        Err(SimulationError::InvalidReferenceDate)
    } else if days_to_analyze < 0 {
        Err(SimulationError::ParameterError)
    } else {
        period_from(reference_date, days_to_analyze as u64)
    }
}

/// A stored limit as the simulation takes it; a negative one is none.
pub open spec fn checked_limit(value: i32) -> Option<u64> {
    if value >= 0 {
        Some(value as u64)
    } else {
        None
    }
}

/// The setup put together from its parts: the error of the period where it
/// has one; else a parameter error where the weeks are missing or a limit is
/// negative; else the setup with these days, weeks and limits.
pub open spec fn setup_of(
    period: Result<(SimDate, SimDate), SimulationError>,
    weeks: Option<(i16, i16)>,
    new_batch_default_expiration_days: i32,
    maximum_quantity: i32,
) -> Result<SimSetup, SimulationError> {
    match period {
        Err(e) => Err(e),
        Ok((initial_date, final_date)) => match (
            weeks,
            checked_limit(new_batch_default_expiration_days),
            checked_limit(maximum_quantity),
        ) {
            (Some((initial_week, final_week)), Some(expiration_days), Some(quantity)) => Ok(
                SimSetup {
                    initial_date,
                    final_date,
                    initial_week,
                    final_week,
                    stock_maximum_quantity: quantity,
                    new_batch_default_expiration_days: expiration_days,
                },
            ),
            _ => Err(SimulationError::ParameterError),
        },
    }
}

/// Works out the first and the last day of a simulation from an RFC 3339
/// reference date and the number of days to look ahead. Fails with
/// `InvalidReferenceDate` where the text is no such timestamp, and with
/// `ParameterError` where the number of days is negative or the last day lies
/// beyond the calendar.
pub fn get_initial_and_final_dates(reference_date: &str, days_to_analyze: i16) -> (dates: Result<
    (SimDate, SimDate),
    SimulationError,
>)
    ensures
        dates == forecast_period(reference_date@, days_to_analyze),
{
    let days: u64 = if days_to_analyze < 0 {
        0
    } else {
        days_to_analyze as u64
    };
    match crate::dates::get_initial_and_final_dates(reference_date, days) {
        Ok(dates) => if days_to_analyze < 0 {
            Err(SimulationError::ParameterError)
        } else {
            Ok(dates)
        },
        Err(SimulationError::InvalidReferenceDate) => Err(SimulationError::InvalidReferenceDate),
        Err(_) => Err(SimulationError::ParameterError),
    }
}

/// Puts a setup together from the period, the weeks of its two days and the
/// stored limits. Fails with the error of the period where it has one, and
/// with `ParameterError` where the weeks are missing or a limit is negative.
pub fn assemble_setup(
    period: Result<(SimDate, SimDate), SimulationError>,
    weeks: Option<(i16, i16)>,
    new_batch_default_expiration_days: i32,
    maximum_quantity: i32,
) -> (setup: Result<SimSetup, SimulationError>)
    ensures
        setup == setup_of(period, weeks, new_batch_default_expiration_days, maximum_quantity),
{
    let (initial_date, final_date) = match period {
        Ok(dates) => dates,
        Err(e) => {
            return Err(e);
        },
    };
    let (initial_week, final_week) = match weeks {
        Some(weeks) => weeks,
        None => {
            return Err(SimulationError::ParameterError);
        },
    };
    if new_batch_default_expiration_days < 0 || maximum_quantity < 0 {
        return Err(SimulationError::ParameterError);
    }
    Ok(
        SimSetup {
            initial_date,
            final_date,
            initial_week,
            final_week,
            stock_maximum_quantity: maximum_quantity as u64,
            new_batch_default_expiration_days: new_batch_default_expiration_days as u64,
        },
    )
}

/// Works out what the simulation of a product runs on: it looks ahead as
/// far as the product's setting says, or the general one where the product
/// has none, from the UTC day of the reference date, under the product's
/// limits.
pub fn prepare_data_for(
    reference_date: &str,
    simulation_forecast_days: Option<i16>,
    default_simulation_forecast_days: i16,
    new_batch_default_expiration_days: i32,
    maximum_quantity: i32,
) -> (setup: Result<SimSetup, SimulationError>)
    ensures
        setup == setup_of(
            forecast_period(
                reference_date@,
                forecast_days(simulation_forecast_days, default_simulation_forecast_days),
            ),
            match forecast_period(
                reference_date@,
                forecast_days(simulation_forecast_days, default_simulation_forecast_days),
            ) {
                Ok((initial_date, final_date)) => week_pair(
                    iso_week_of_day(initial_date.epoch_day),
                    iso_week_of_day(final_date.epoch_day),
                ),
                Err(_) => None,
            },
            new_batch_default_expiration_days,
            maximum_quantity,
        ),
{
    let days_to_analyze = match simulation_forecast_days {
        Some(days) => days,
        None => default_simulation_forecast_days,
    };
    let period = get_initial_and_final_dates(reference_date, days_to_analyze);
    let weeks = match period {
        Ok((initial_date, final_date)) => get_initial_and_final_weeks(initial_date, final_date),
        Err(_) => None,
    };
    assemble_setup(period, weeks, new_batch_default_expiration_days, maximum_quantity)
}

} // verus!

//! The constants of a simulation and the historical movements it draws on,
//! indexed by week of year and day of week.

use crate::dates::{iso_week, iso_week_of_day, weekday_number, weekday_number_of_day, SimDate, MAX_WEEK};
use std::collections::HashMap;
use vstd::prelude::*;

verus! {

broadcast use vstd::std_specs::hash::group_hash_axioms;

/// The product that the record for days without history is booked on.
pub const DEFAULT_HIST_PRODUCT_ID: u128 = 0xc45bd212_8fb8_449b_8cb9_1fb44c0a6cd4;

/// The average quantities that entered and left stock on one day of the week
/// in one week of the year. Weeks are ISO 8601 weeks, numbered from 1 to 53;
/// days are ISO 8601 weekdays, numbered from 1 (Monday) to 7 (Sunday).
#[derive(Clone, Copy, Debug, PartialEq, Eq, Structural)]
pub struct ProductMovHist {
    pub product_id: u128,
    pub entry_qty: u64,
    pub withdrawal_qty: u64,
    pub week_of_year: i16,
    pub day_of_week: i16,
}

/// The historical movements grouped by week of year, then by day of week.
pub type HistoricByWeekAndDay = HashMap<i16, HashMap<i16, ProductMovHist>>;

/// The week and day under which the movements of a day are filed, given its
/// ISO week number (1 to 53) and its ISO weekday number (Monday 1 to Sunday
/// 7): these two numbers as they are. `None` where either number is missing
/// or out of its range.
pub open spec fn slot_for(week: Option<u32>, number: Option<u32>) -> Option<(i16, i16)> {
    match (week, number) {
        (Some(week), Some(number)) => if 1 <= week <= MAX_WEEK && 1 <= number <= 7 {
            Some((week as i16, number as i16))
        } else {
            None
        },
        _ => None,
    }
}

/// The week and day under which the movements of `date` are filed. `None`
/// for a day outside the calendar.
pub open spec fn slot_of(date: SimDate) -> Option<(i16, i16)> {
    slot_for(iso_week_of_day(date.epoch_day), weekday_number_of_day(date.epoch_day))
}

/// The row that stands for `(week, day)` in `historic`: of several rows for
/// one week and day the first one counts, later ones are passed over.
pub open spec fn first_row(historic: Seq<ProductMovHist>, week: i16, day: i16) -> Option<
    ProductMovHist,
>
    decreases historic.len(),
{
    if historic.len() == 0 {
        None
    } else {
        match first_row(historic.drop_last(), week, day) {
            Some(row) => Some(row),
            None => if historic.last().week_of_year == week && historic.last().day_of_week == day {
                Some(historic.last())
            } else {
                None
            },
        }
    }
}

/// What a grouped history holds for `(week, day)`.
pub open spec fn slot_record(
    grouped: Map<i16, HashMap<i16, ProductMovHist>>,
    week: i16,
    day: i16,
) -> Option<ProductMovHist> {
    if grouped.contains_key(week) && grouped[week]@.contains_key(day) {
        Some(grouped[week]@[day])
    } else {
        None
    }
}

/// The record of a day without history: nothing enters and nothing leaves.
pub open spec fn default_hist() -> ProductMovHist {
    ProductMovHist {
        product_id: DEFAULT_HIST_PRODUCT_ID,
        entry_qty: 0,
        withdrawal_qty: 0,
        week_of_year: 0,
        day_of_week: 0,
    }
}

/// `first_row` picks a row of the history that is filed under the week and
/// day asked for and has no such row before it; it finds none only where the
/// history has none.
pub proof fn lemma_first_row_is_earliest(historic: Seq<ProductMovHist>, week: i16, day: i16)
    ensures
        match first_row(historic, week, day) {
            Some(row) => exists|i: int|
                0 <= i < historic.len() && #[trigger] historic[i] == row && row.week_of_year
                    == week && row.day_of_week == day && forall|j: int|
                    0 <= j < i ==> !((#[trigger] historic[j]).week_of_year == week
                        && historic[j].day_of_week == day),
            None => forall|j: int|
                0 <= j < historic.len() ==> !((#[trigger] historic[j]).week_of_year == week
                    && historic[j].day_of_week == day),
        },
    decreases historic.len(),
{
    if historic.len() > 0 {
        let front = historic.drop_last();
        lemma_first_row_is_earliest(front, week, day);
        match first_row(front, week, day) {
            Some(row) => {
                let i = choose|i: int|
                    0 <= i < front.len() && #[trigger] front[i] == row && row.week_of_year == week
                        && row.day_of_week == day && forall|j: int|
                        0 <= j < i ==> !((#[trigger] front[j]).week_of_year == week
                            && front[j].day_of_week == day);
                assert(historic[i] == row);
                assert forall|j: int| 0 <= j < i implies !((#[trigger] historic[j]).week_of_year
                    == week && historic[j].day_of_week == day) by {
                    assert(front[j] == historic[j]);
                }
            },
            None => {
                assert forall|j: int| 0 <= j < historic.len() - 1 implies !((
                #[trigger] historic[j]).week_of_year == week && historic[j].day_of_week == day) by {
                    assert(front[j] == historic[j]);
                }
                if historic.last().week_of_year == week && historic.last().day_of_week == day {
                    assert(historic[historic.len() - 1] == historic.last());
                }
            },
        }
    }
}

/// The constants of one simulation: the capacity ceiling, the lifetime of a
/// batch that enters, and the historical movements.
#[derive(Debug)]
pub struct SimulationParameters {
    pub stock_maximum_quantity: u64,
    pub new_batch_default_expiration_days: u64,
    pub historic_by_woy_and_dow: HistoricByWeekAndDay,
    pub default_hist: ProductMovHist,
}

impl SimulationParameters {
    /// The historical record filed under `(week, day)`, if there is one.
    pub open spec fn record_at(&self, week: i16, day: i16) -> Option<ProductMovHist> {
        slot_record(self.historic_by_woy_and_dow@, week, day)
    }

    /// The record that stands in for a day without history.
    pub open spec fn default_record(&self) -> ProductMovHist {
        self.default_hist
    }

    /// The movements filed under a slot: the historical record of that week
    /// and day, or the default record where there is no slot or history has
    /// nothing for it.
    pub open spec fn slot_hist(&self, slot: Option<(i16, i16)>) -> ProductMovHist {
        match slot {
            Some((week, day)) => match self.record_at(week, day) {
                Some(record) => record,
                None => self.default_record(),
            },
            None => self.default_record(),
        }
    }

    /// The movements that the simulation applies on `date`: the historical
    /// record of its week and day, or the default record where history has none.
    pub open spec fn date_hist(&self, date: SimDate) -> ProductMovHist {
        self.slot_hist(slot_of(date))
    }

    /// Looks up the movements of a day from its ISO week number and its ISO
    /// weekday number (Monday 1 to Sunday 7). A day whose numbers are missing
    /// or out of range, or for which history has no record, gets the default
    /// record.
    pub fn get_week_day_hist(&self, week: Option<u32>, number: Option<u32>) -> (hist:
        &ProductMovHist)
        ensures
            *hist == self.slot_hist(slot_for(week, number)),
    {
        let week = match week {
            Some(week) => week,
            None => {
                return &self.default_hist;
            },
        };
        let number = match number {
            Some(number) => number,
            None => {
                return &self.default_hist;
            },
        };
        if week < 1 || week > MAX_WEEK || number < 1 || number > 7 {
            return &self.default_hist;
        }
        let woy: i16 = week as i16;
        let dow: i16 = number as i16;
        match self.historic_by_woy_and_dow.get(&woy) {
            Some(days) => match days.get(&dow) {
                Some(hist) => hist,
                None => &self.default_hist,
            },
            None => &self.default_hist,
        }
    }

    /// Looks up the movements of `date`. The answer depends on the date and
    /// the parameters alone: the same date always gives the same record.
    pub fn get_date_hist(&self, date: &SimDate) -> (hist: &ProductMovHist)
        ensures
            *hist == self.date_hist(*date),
    {
        let week = iso_week(date.epoch_day);
        let number = weekday_number(date.epoch_day);
        self.get_week_day_hist(week, number)
    }

    /// Builds the parameters of a simulation from its limits and the
    /// historical rows. Where several rows name one week and day, the first
    /// is kept.
    pub fn new(
        stock_maximum_quantity: u64,
        new_batch_default_expiration_days: u64,
        historic: Vec<ProductMovHist>,
    ) -> (parameters: Self)
        ensures
            parameters.stock_maximum_quantity == stock_maximum_quantity,
            parameters.new_batch_default_expiration_days == new_batch_default_expiration_days,
            parameters.default_record() == default_hist(),
            forall|week: i16, day: i16| #[trigger]
                parameters.record_at(week, day) == first_row(historic@, week, day),
    {
        Self {
            stock_maximum_quantity,
            new_batch_default_expiration_days,
            historic_by_woy_and_dow: Self::group_by_woy_and_dow(historic),
            default_hist: Self::get_default_hist(),
        }
    }

    /// Groups the historical rows by week of year, then by day of week,
    /// keeping the first row of each week and day. A week is present exactly
    /// where it has a day.
    pub fn group_by_woy_and_dow(vec: Vec<ProductMovHist>) -> (grouped: HistoricByWeekAndDay)
        ensures
            forall|week: i16, day: i16| #[trigger]
                slot_record(grouped@, week, day) == first_row(vec@, week, day),
            forall|week: i16|
                grouped@.contains_key(week) ==> exists|day: i16| #[trigger]
                    slot_record(grouped@, week, day) is Some,
    {
        let mut map: HistoricByWeekAndDay = HashMap::new();
        let mut i: usize = 0;
        while i < vec.len()
            invariant
                i <= vec.len(),
                forall|week: i16, day: i16| #[trigger]
                    slot_record(map@, week, day) == first_row(vec@.take(i as int), week, day),
                forall|week: i16|
                    map@.contains_key(week) ==> exists|day: i16| #[trigger]
                        slot_record(map@, week, day) is Some,
            decreases vec.len() - i,
        {
            let e = vec[i];
            let ghost before = map@;
            let mut week = match map.remove(&e.week_of_year) {
                Some(week) => week,
                None => HashMap::new(),
            };
            if !week.contains_key(&e.day_of_week) {
                week.insert(e.day_of_week, e);
            }
            map.insert(e.week_of_year, week);
            proof {
                let rows = vec@.take(i as int + 1);
                assert(rows.drop_last() == vec@.take(i as int));
                assert(rows.last() == e);
                assert forall|w: i16, d: i16| #[trigger]
                    slot_record(map@, w, d) == first_row(rows, w, d) by {
                    assert(slot_record(before, w, d) == first_row(vec@.take(i as int), w, d));
                }
                assert(slot_record(map@, e.week_of_year, e.day_of_week) is Some);
                assert forall|w: i16| map@.contains_key(w) implies exists|d: i16| #[trigger]
                    slot_record(map@, w, d) is Some by {
                    if w != e.week_of_year {
                        assert(before.contains_key(w));
                        let d = choose|d: i16| #[trigger] slot_record(before, w, d) is Some;
                        assert(slot_record(map@, w, d) is Some);
                    }
                }
            }
            i += 1;
        }
        assert(vec@.take(vec.len() as int) == vec@);
        map
    }

    /// The record used for a day without history: no entry and no withdrawal.
    pub fn get_default_hist() -> (hist: ProductMovHist)
        ensures
            hist == default_hist(),
    {
        ProductMovHist {
            product_id: DEFAULT_HIST_PRODUCT_ID,
            entry_qty: 0,
            withdrawal_qty: 0,
            week_of_year: 0,
            day_of_week: 0,
        }
    }
}

} // verus!

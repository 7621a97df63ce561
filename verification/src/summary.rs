//! Counting the days that several runs produced for one date, and the share
//! of them that met each kind of loss.

use crate::dates::SimDate;
use crate::error::SimulationError;
use crate::per_day::{DayView, SimulationDay};
use vstd::prelude::*;

verus! {

/// A share of days, held exactly as a count out of a total.
#[derive(Clone, Copy, Debug, PartialEq, Eq, Structural)]
pub struct Probability {
    pub occurrences: u64,
    pub total: u64,
}

/// For one date, the share of the counted days that met a shortage, an
/// excess over the capacity ceiling, and an expiry.
#[derive(Clone, Copy, Debug, PartialEq, Eq, Structural)]
pub struct NewProductSimulationSummaryByDay {
    pub date: SimDate,
    pub probability_losses_by_missing: Probability,
    pub probability_losses_by_nospace: Probability,
    pub probability_losses_by_expirat: Probability,
}

/// Whether the share is one of at least one day and lies between nought and
/// one: no more days are lost than were counted.
pub open spec fn is_probability(probability: Probability) -> bool {
    0 < probability.total && probability.occurrences <= probability.total
}

/// Whether each of the three shares of the summary lies between nought and
/// one.
pub open spec fn holds_probabilities(summary: NewProductSimulationSummaryByDay) -> bool {
    &&& is_probability(summary.probability_losses_by_missing)
    &&& is_probability(summary.probability_losses_by_nospace)
    &&& is_probability(summary.probability_losses_by_expirat)
}

/// The days that met a shortage.
pub open spec fn lost_by_missing() -> spec_fn(DayView) -> bool {
    |day: DayView| day.stock_shortage is Some
}

/// The days on which stock found no room under the capacity ceiling.
pub open spec fn lost_by_nospace() -> spec_fn(DayView) -> bool {
    |day: DayView| day.stock_limit_exceeded is Some
}

/// The days on which stock expired.
pub open spec fn lost_by_expirat() -> spec_fn(DayView) -> bool {
    |day: DayView| day.stock_time_limit_exceeded is Some
}

/// The share of `days` that `lost` holds of.
pub open spec fn share(days: Seq<DayView>, lost: spec_fn(DayView) -> bool) -> Probability {
    Probability { occurrences: days.filter(lost).len() as u64, total: days.len() as u64 }
}

/// The summary of the days counted for `date`.
pub open spec fn summary_of(date: SimDate, days: Seq<DayView>) -> NewProductSimulationSummaryByDay {
    NewProductSimulationSummaryByDay {
        date,
        probability_losses_by_missing: share(days, lost_by_missing()),
        probability_losses_by_nospace: share(days, lost_by_nospace()),
        probability_losses_by_expirat: share(days, lost_by_expirat()),
    }
}

/// The positions of the days that `lost` holds of, in rising order.
pub open spec fn lost_positions(days: Seq<DayView>, lost: spec_fn(DayView) -> bool) -> Seq<usize>
    decreases days.len(),
{
    if days.len() == 0 {
        Seq::empty()
    } else if lost(days.last()) {
        lost_positions(days.drop_last(), lost).push((days.len() - 1) as usize)
    } else {
        lost_positions(days.drop_last(), lost)
    }
}

/// There are as many positions of lost days as there are lost days.
pub proof fn lemma_lost_positions_len(days: Seq<DayView>, lost: spec_fn(DayView) -> bool)
    ensures
        lost_positions(days, lost).len() == days.filter(lost).len(),
    decreases days.len(),
{
    reveal(Seq::filter);
    if days.len() > 0 {
        lemma_lost_positions_len(days.drop_last(), lost);
    }
}

/// A share is a probability: of at least one day, no more days can be lost
/// than were counted, so the share lies between nought and one.
pub proof fn lemma_share_is_probability(days: Seq<DayView>, lost: spec_fn(DayView) -> bool)
    requires
        0 < days.len() <= u64::MAX,
    ensures
        0 <= share(days, lost).occurrences <= share(days, lost).total,
        share(days, lost).total > 0,
        is_probability(share(days, lost)),
{
    days.lemma_filter_len(lost);
}

/// Of one day alone, a share is nought or one.
pub proof fn lemma_share_of_one_day(days: Seq<DayView>, lost: spec_fn(DayView) -> bool)
    requires
        days.len() == 1,
    ensures
        share(days, lost).total == 1,
        share(days, lost).occurrences == 0 || share(days, lost).occurrences == 1,
{
    days.lemma_filter_len(lost);
}

/// The days that the runs produced for one date, and which of them met each
/// kind of loss.
#[derive(Debug)]
pub struct SimulationDayCounter {
    date: SimDate,
    all: Vec<SimulationDay>,
    with_losses_by_missing: Vec<usize>,
    with_losses_by_nospace: Vec<usize>,
    with_losses_by_expirat: Vec<usize>,
}

impl SimulationDayCounter {
    /// The date that the counter stands for.
    pub closed spec fn counted_date(&self) -> SimDate {
        self.date
    }

    /// The days counted so far, in the order in which they were added.
    pub closed spec fn days(&self) -> Seq<DayView> {
        Seq::new(self.all@.len(), |i: int| self.all@[i]@)
    }

    /// The counter is consistent: it holds no more days than a list can
    /// hold, and for each kind of loss the positions of the days that met it.
    pub closed spec fn wf(&self) -> bool {
        &&& self.days().len() <= usize::MAX
        &&& self.with_losses_by_missing@ == lost_positions(self.days(), lost_by_missing())
        &&& self.with_losses_by_nospace@ == lost_positions(self.days(), lost_by_nospace())
        &&& self.with_losses_by_expirat@ == lost_positions(self.days(), lost_by_expirat())
    }

    /// A consistent counter holds no more days than a list can hold.
    pub proof fn lemma_days_bounded(&self)
        requires
            self.wf(),
        ensures
            self.days().len() <= usize::MAX,
    {
    }

    /// A counter for `date` that has counted no day yet.
    pub fn new(date: SimDate) -> (counter: Self)
        ensures
            counter.wf(),
            counter.counted_date() == date,
            counter.days() == Seq::<DayView>::empty(),
    {
        Self {
            date,
            all: Vec::new(),
            with_losses_by_missing: Vec::new(),
            with_losses_by_nospace: Vec::new(),
            with_losses_by_expirat: Vec::new(),
        }
    }

    /// Counts one more day.
    pub fn add(&mut self, day: SimulationDay)
        requires
            old(self).wf(),
        ensures
            final(self).wf(),
            final(self).counted_date() == old(self).counted_date(),
            final(self).days() == old(self).days().push(day@),
    {
        let ghost before = self.days();
        let has_shortage = day.stock_shortage.is_some();
        let has_excess = day.stock_limit_exceeded.is_some();
        let has_expired = day.stock_time_limit_exceeded.is_some();
        self.all.push(day);
        let i = self.all.len() - 1;
        assert(self.days() == before.push(day@));
        assert(self.days().drop_last() == before);
        if has_shortage {
            self.with_losses_by_missing.push(i);
        }
        if has_excess {
            self.with_losses_by_nospace.push(i);
        }
        if has_expired {
            self.with_losses_by_expirat.push(i);
        }
    }

    /// The summary of the days counted, every share of it between nought and
    /// one, or `None` where no day was counted.
    pub fn summarize(&self) -> (summary: Option<NewProductSimulationSummaryByDay>)
        requires
            self.wf(),
        ensures
            match summary {
                Some(s) => self.days().len() > 0 && s == summary_of(
                    self.counted_date(),
                    self.days(),
                ),
                None => self.days().len() == 0,
            },
            self.days().len() <= usize::MAX,
            summary matches Some(s) ==> holds_probabilities(s),
    {
        match self.try_summarize() {
            Ok(s) => Some(s),
            Err(_) => None,
        }
    }

    /// The summary of the days counted: for each kind of loss the days that
    /// met it out of all the days, so that every share lies between nought
    /// and one. Fails where no day was counted, since a share of nothing
    /// cannot be formed.
    pub fn try_summarize(&self) -> (summary: Result<
        NewProductSimulationSummaryByDay,
        SimulationError,
    >)
        requires
            self.wf(),
        ensures
            match summary {
                Ok(s) => self.days().len() > 0 && s == summary_of(
                    self.counted_date(),
                    self.days(),
                ),
                Err(e) => self.days().len() == 0 && e == SimulationError::EmptyInputError,
            },
            self.days().len() <= usize::MAX,
            summary matches Ok(s) ==> holds_probabilities(s),
    {
        if self.all.len() == 0 {
            return Err(SimulationError::EmptyInputError);
        }
        proof {
            lemma_lost_positions_len(self.days(), lost_by_missing());
            lemma_lost_positions_len(self.days(), lost_by_nospace());
            lemma_lost_positions_len(self.days(), lost_by_expirat());
            lemma_share_is_probability(self.days(), lost_by_missing());
            lemma_share_is_probability(self.days(), lost_by_nospace());
            lemma_share_is_probability(self.days(), lost_by_expirat());
        }
        Ok(
            NewProductSimulationSummaryByDay {
                date: self.date,
                probability_losses_by_missing: Probability {
                    occurrences: self.with_losses_by_missing.len() as u64,
                    total: self.all.len() as u64,
                },
                probability_losses_by_nospace: Probability {
                    occurrences: self.with_losses_by_nospace.len() as u64,
                    total: self.all.len() as u64,
                },
                probability_losses_by_expirat: Probability {
                    occurrences: self.with_losses_by_expirat.len() as u64,
                    total: self.all.len() as u64,
                },
            },
        )
    }
}

} // verus!

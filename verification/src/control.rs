//! A simulation from its first day to its last: one run calculates day after
//! day until the final date, and repeated runs are counted date by date into
//! the share of runs that met each kind of loss.

use crate::dates::SimDate;
use crate::parameter::{ProductMovHist, SimulationParameters};
use crate::per_day::{
    calculated, can_calculate, lemma_settlement_respects_capacity, next_calculated, pending_day,
    DayView, SimulationDay,
};
use crate::product_batch::{total_quantity, ProductBatch};
use crate::summary::{
    lost_by_expirat, lost_by_missing, lost_by_nospace, summary_of,
    NewProductSimulationSummaryByDay, Probability, SimulationDayCounter,
};
use std::collections::HashMap;
use vstd::prelude::*;

verus! {

broadcast use vstd::std_specs::hash::group_hash_axioms;

/// The simulation of one product: the day it starts from, the date it runs
/// to, and its parameters.
#[derive(Debug)]
pub struct SimulationControl {
    pub product_id: u128,
    pub first_day: SimulationDay,
    pub final_date: SimDate,
    pub sim_param: SimulationParameters,
}

/// What each of the days holds.
pub open spec fn day_views(days: Seq<SimulationDay>) -> Seq<DayView> {
    Seq::new(days.len(), |i: int| days[i]@)
}

/// The calculated days that follow `day` in a run to `final_date`: as long as
/// the last day is calculated and lies before the final date, the next date
/// is begun with its batches and calculated. The run ends at the final date,
/// at the end of the calendar, or before a day that cannot be calculated.
pub open spec fn days_after(
    day: DayView,
    sim_param: &SimulationParameters,
    final_date: SimDate,
) -> Seq<DayView>
    decreases final_date.epoch_day - day.date.epoch_day,
{
    if day.is_calculated && day.date.is_before(final_date) {
        match next_calculated(day, sim_param) {
            Some(next) => seq![next] + days_after(next, sim_param, final_date),
            None => Seq::empty(),
        }
    } else {
        Seq::empty()
    }
}

/// The days of one run from `first_day` to `final_date`: the first day
/// calculated, then the days that follow it. A run whose first day cannot be
/// calculated has no days.
pub open spec fn run_days(
    first_day: DayView,
    sim_param: &SimulationParameters,
    final_date: SimDate,
) -> Seq<DayView> {
    if can_calculate(first_day, sim_param) {
        seq![calculated(first_day, sim_param)] + days_after(
            calculated(first_day, sim_param),
            sim_param,
            final_date,
        )
    } else {
        Seq::empty()
    }
}

/// The days that follow a day are calculated and dated one after the other,
/// up to the final date at most.
pub proof fn lemma_days_after_dates(
    day: DayView,
    sim_param: &SimulationParameters,
    final_date: SimDate,
)
    ensures
        forall|i: int|
            0 <= i < days_after(day, sim_param, final_date).len() ==> {
                &&& (#[trigger] days_after(day, sim_param, final_date)[i]).date.epoch_day
                    == day.date.epoch_day + 1 + i
                &&& days_after(day, sim_param, final_date)[i].date.epoch_day
                    <= final_date.epoch_day
                &&& days_after(day, sim_param, final_date)[i].is_calculated
            },
    decreases final_date.epoch_day - day.date.epoch_day,
{
    if day.is_calculated && day.date.is_before(final_date) {
        match next_calculated(day, sim_param) {
            Some(next) => {
                lemma_days_after_dates(next, sim_param, final_date);
                let rest = days_after(next, sim_param, final_date);
                let all = days_after(day, sim_param, final_date);
                assert(all == seq![next] + rest);
                assert forall|i: int| 0 <= i < all.len() implies {
                    &&& (#[trigger] all[i]).date.epoch_day == day.date.epoch_day + 1 + i
                    &&& all[i].date.epoch_day <= final_date.epoch_day
                    &&& all[i].is_calculated
                } by {
                    if i > 0 {
                        assert(all[i] == rest[i - 1]);
                    }
                }
            },
            None => {},
        }
    }
}

/// The days of a run are calculated and dated one after the other from the
/// first date, so no date occurs twice in a run.
pub proof fn lemma_run_dates(
    first_day: DayView,
    sim_param: &SimulationParameters,
    final_date: SimDate,
)
    ensures
        forall|i: int|
            0 <= i < run_days(first_day, sim_param, final_date).len() ==> {
                &&& (#[trigger] run_days(first_day, sim_param, final_date)[i]).date.epoch_day
                    == first_day.date.epoch_day + i
                &&& run_days(first_day, sim_param, final_date)[i].is_calculated
            },
{
    if can_calculate(first_day, sim_param) {
        let first = calculated(first_day, sim_param);
        lemma_days_after_dates(first, sim_param, final_date);
        let rest = days_after(first, sim_param, final_date);
        let all = run_days(first_day, sim_param, final_date);
        assert forall|i: int| 0 <= i < all.len() implies {
            &&& (#[trigger] all[i]).date.epoch_day == first_day.date.epoch_day + i
            &&& all[i].is_calculated
        } by {
            if i > 0 {
                assert(all[i] == rest[i - 1]);
            }
        }
    }
}

/// The capacity ceiling over the days that follow a day: where that day ends
/// within the ceiling, so does every day after it.
pub proof fn lemma_days_after_respect_capacity(
    day: DayView,
    sim_param: &SimulationParameters,
    final_date: SimDate,
)
    requires
        total_quantity(day.batches) <= sim_param.stock_maximum_quantity,
    ensures
        forall|i: int|
            0 <= i < days_after(day, sim_param, final_date).len() ==> total_quantity(
                (#[trigger] days_after(day, sim_param, final_date)[i]).batches,
            ) <= sim_param.stock_maximum_quantity,
    decreases final_date.epoch_day - day.date.epoch_day,
{
    if day.is_calculated && day.date.is_before(final_date) {
        match next_calculated(day, sim_param) {
            Some(next) => {
                let begun = pending_day(day.date.after_days(1).unwrap(), day.batches);
                lemma_settlement_respects_capacity(
                    begun,
                    sim_param.date_hist(begun.date),
                    sim_param.stock_maximum_quantity,
                    begun.date.after_days(sim_param.new_batch_default_expiration_days).unwrap(),
                );
                lemma_days_after_respect_capacity(next, sim_param, final_date);
                let rest = days_after(next, sim_param, final_date);
                let all = days_after(day, sim_param, final_date);
                assert forall|i: int| 0 <= i < all.len() implies total_quantity(
                    (#[trigger] all[i]).batches,
                ) <= sim_param.stock_maximum_quantity by {
                    if i > 0 {
                        assert(all[i] == rest[i - 1]);
                    }
                }
            },
            None => {},
        }
    }
}

/// The capacity ceiling over a run: where the first day begins within the
/// ceiling, every day of the run ends within it.
pub proof fn lemma_run_respects_capacity(
    first_day: DayView,
    sim_param: &SimulationParameters,
    final_date: SimDate,
)
    requires
        total_quantity(first_day.batches) <= sim_param.stock_maximum_quantity,
    ensures
        forall|i: int|
            0 <= i < run_days(first_day, sim_param, final_date).len() ==> total_quantity(
                (#[trigger] run_days(first_day, sim_param, final_date)[i]).batches,
            ) <= sim_param.stock_maximum_quantity,
{
    if can_calculate(first_day, sim_param) {
        let first = calculated(first_day, sim_param);
        lemma_settlement_respects_capacity(
            first_day,
            sim_param.date_hist(first_day.date),
            sim_param.stock_maximum_quantity,
            first_day.date.after_days(sim_param.new_batch_default_expiration_days).unwrap(),
        );
        lemma_days_after_respect_capacity(first, sim_param, final_date);
        let rest = days_after(first, sim_param, final_date);
        let all = run_days(first_day, sim_param, final_date);
        assert forall|i: int| 0 <= i < all.len() implies total_quantity(
            (#[trigger] all[i]).batches,
        ) <= sim_param.stock_maximum_quantity by {
            if i > 0 {
                assert(all[i] == rest[i - 1]);
            }
        }
    }
}

/// The key under which the day at position `i` of a run is summarised: its
/// date's count of days from 1 January 1970.
pub open spec fn key_at(run: Seq<DayView>, i: int) -> i32 {
    run[i].date.epoch_day
}

/// `count` days that all hold what `day` holds.
pub open spec fn copies(day: DayView, count: nat) -> Seq<DayView> {
    Seq::new(count, |k: int| day)
}

/// The share of `n_times` equal days that met a loss: all of them or none.
pub open spec fn repeated_share(lost: bool, n_times: u64) -> Probability {
    Probability {
        occurrences: if lost {
            n_times
        } else {
            0
        },
        total: n_times,
    }
}

/// The summary of `n_times` runs that all produced `day`.
pub open spec fn repeated_summary(day: DayView, n_times: u64) -> NewProductSimulationSummaryByDay {
    NewProductSimulationSummaryByDay {
        date: day.date,
        probability_losses_by_missing: repeated_share(day.stock_shortage is Some, n_times),
        probability_losses_by_nospace: repeated_share(day.stock_limit_exceeded is Some, n_times),
        probability_losses_by_expirat: repeated_share(
            day.stock_time_limit_exceeded is Some,
            n_times,
        ),
    }
}

/// Whether `counter` stands for the date of `day` and has counted `count`
/// days that all hold what `day` holds.
pub open spec fn counter_holds(counter: SimulationDayCounter, day: DayView, count: nat) -> bool {
    &&& counter.wf()
    &&& counter.counted_date() == day.date
    &&& counter.days() == copies(day, count)
}

/// One more copy of a day, counted after `count` copies, makes `count + 1`.
pub proof fn lemma_copies_push(day: DayView, count: nat)
    ensures
        copies(day, count).push(day) == copies(day, count + 1),
        copies(day, 0) == Seq::<DayView>::empty(),
{
}

/// Of equal days either all are lost or none is.
pub proof fn lemma_copies_lost(day: DayView, count: nat, lost: spec_fn(DayView) -> bool)
    ensures
        copies(day, count).filter(lost).len() == if lost(day) {
            count
        } else {
            0
        },
    decreases count,
{
    reveal(Seq::filter);
    if count > 0 {
        lemma_copies_lost(day, (count - 1) as nat, lost);
        assert(copies(day, count).drop_last() == copies(day, (count - 1) as nat));
    }
}

/// The summary of equal days is the repeated summary of one of them.
pub proof fn lemma_copies_summary(day: DayView, n_times: u64)
    ensures
        summary_of(day.date, copies(day, n_times as nat)) == repeated_summary(day, n_times),
{
    lemma_copies_lost(day, n_times as nat, lost_by_missing());
    lemma_copies_lost(day, n_times as nat, lost_by_nospace());
    lemma_copies_lost(day, n_times as nat, lost_by_expirat());
}

impl SimulationControl {
    /// Sets up the simulation of a product: its first day holds the given
    /// batches on `initial_date`, not yet calculated, and its parameters are
    /// built from the limits and the historical rows.
    pub fn new(
        product_id: u128,
        initial_date: SimDate,
        final_date: SimDate,
        stock_maximum_quantity: u64,
        new_batch_default_expiration_days: u64,
        product_batches: Vec<ProductBatch>,
        historic: Vec<ProductMovHist>,
    ) -> (control: Self)
        ensures
            control.product_id == product_id,
            control.final_date == final_date,
            control.first_day@ == pending_day(initial_date, product_batches@),
            control.sim_param.stock_maximum_quantity == stock_maximum_quantity,
            control.sim_param.new_batch_default_expiration_days
                == new_batch_default_expiration_days,
            control.sim_param.default_record() == crate::parameter::default_hist(),
            forall|week: i16, day: i16| #[trigger]
                control.sim_param.record_at(week, day) == crate::parameter::first_row(
                    historic@,
                    week,
                    day,
                ),
    {
        let sim_param = SimulationParameters::new(
            stock_maximum_quantity,
            new_batch_default_expiration_days,
            historic,
        );
        let simulation_day0 = SimulationDay {
            date: initial_date,
            batches: product_batches,
            stock_time_limit_exceeded: None,
            stock_shortage: None,
            stock_limit_exceeded: None,
            is_calculated: false,
        };
        SimulationControl { product_id, first_day: simulation_day0, final_date, sim_param }
    }

    /// Whether the run goes on after `days`: there is a last day, it is
    /// calculated, and it lies before the final date.
    pub fn has_next_date(&self, days: &Vec<SimulationDay>) -> (goes_on: bool)
        ensures
            goes_on == (days@.len() > 0 && days@.last().is_calculated && days@.last().date.is_before(
                self.final_date,
            )),
    {
        if days.len() == 0 {
            false
        } else {
            let day = &days[days.len() - 1];
            day.is_calculated && day.date.epoch_day < self.final_date.epoch_day
        }
    }

    /// Runs the simulation once: calculates the first day and then day after
    /// day up to the final date. The run stops early, with the days
    /// calculated so far, where the calendar ends or a day cannot be
    /// calculated.
    pub fn run_once(&self) -> (days: Vec<SimulationDay>)
        ensures
            day_views(days@) == run_days(self.first_day@, &self.sim_param, self.final_date),
    {
        let mut first_day = self.first_day.duplicate();
        let mut is_last_calculated = first_day.calculate(&self.sim_param);
        let mut days: Vec<SimulationDay> = Vec::new();
        if is_last_calculated {
            days.push(first_day);
            assert(day_views(days@) == seq![calculated(self.first_day@, &self.sim_param)]);
        }
        while is_last_calculated && self.has_next_date(&days)
            invariant
                is_last_calculated ==> days@.len() > 0 && days@.last().is_calculated && day_views(
                    days@,
                ) + days_after(days@.last()@, &self.sim_param, self.final_date) == run_days(
                    self.first_day@,
                    &self.sim_param,
                    self.final_date,
                ),
                !is_last_calculated ==> day_views(days@) == run_days(
                    self.first_day@,
                    &self.sim_param,
                    self.final_date,
                ),
            decreases
                    (if is_last_calculated {
                        1int
                    } else {
                        0int
                    }),
                    (if days@.len() > 0 {
                        self.final_date.epoch_day - days@.last().date.epoch_day
                    } else {
                        0int
                    }),
        {
            let ghost before = days@;
            let last_day = &days[days.len() - 1];
            match last_day.calculate_next(&self.sim_param) {
                Some(next_day) => {
                    days.push(next_day);
                    proof {
                        let next = days@.last()@;
                        let rest = days_after(next, &self.sim_param, self.final_date);
                        assert(day_views(days@) == day_views(before) + seq![next]);
                        assert(day_views(days@) + rest == day_views(before) + (seq![next] + rest));
                    }
                },
                None => {
                    is_last_calculated = false;
                    assert(day_views(days@) + Seq::<DayView>::empty() == day_views(days@));
                },
            }
        }
        assert(day_views(days@) + Seq::<DayView>::empty() == day_views(days@));
        days
    }

    /// The days that one run of this simulation produces.
    pub open spec fn days_of_run(&self) -> Seq<DayView> {
        run_days(self.first_day@, &self.sim_param, self.final_date)
    }

    /// Runs the simulation `n_times` times and counts, for every date that
    /// the runs produced, the share of runs that met each kind of loss on
    /// that date. The summaries are keyed by the date's count of days from 1
    /// January 1970. No run gives no summary; and since every run works on
    /// the same first day and parameters, every share is all of the runs or
    /// none of them.
    pub fn run_n_times(&self, n_times: u64) -> (summaries: HashMap<
        i32,
        NewProductSimulationSummaryByDay,
    >)
        ensures
            forall|key: i32|
                summaries@.contains_key(key) <==> (n_times > 0 && exists|i: int|
                    0 <= i < self.days_of_run().len() && #[trigger] key_at(self.days_of_run(), i)
                        == key),
            forall|i: int|
                0 <= i < self.days_of_run().len() && n_times > 0 ==> summaries@[#[trigger] key_at(
                    self.days_of_run(),
                    i,
                )] == repeated_summary(self.days_of_run()[i], n_times),
    {
        let ghost run = self.days_of_run();
        let mut group_by_date: HashMap<i32, SimulationDayCounter> = HashMap::new();
        let mut dates: Vec<i32> = Vec::new();
        proof {
            lemma_run_dates(self.first_day@, &self.sim_param, self.final_date);
        }
        let mut n: u64 = 0;
        while n < n_times
            invariant
                n <= n_times,
                run == self.days_of_run(),
                forall|i: int|
                    0 <= i < run.len() ==> #[trigger] key_at(run, i)
                        == self.first_day.date.epoch_day + i,
                forall|key: i32|
                    group_by_date@.contains_key(key) <==> (n > 0 && exists|i: int|
                        0 <= i < run.len() && #[trigger] key_at(run, i) == key),
                forall|i: int|
                    0 <= i < run.len() && n > 0 ==> counter_holds(
                        group_by_date@[#[trigger] key_at(run, i)],
                        run[i],
                        n as nat,
                    ),
                n == 0 ==> dates@.len() == 0,
                n > 0 ==> dates@.len() == run.len(),
                forall|j: int|
                    0 <= j < dates@.len() ==> #[trigger] dates@[j] == key_at(
                        run,
                        run.len() - 1 - j,
                    ),
            decreases n_times - n,
        {
            let mut days: Vec<SimulationDay> = self.run_once();
            while days.len() > 0
                invariant
                    n < n_times,
                    run == self.days_of_run(),
                    days@.len() <= run.len(),
                    day_views(days@) == run.take(days@.len() as int),
                    forall|i: int|
                        0 <= i < run.len() ==> #[trigger] key_at(run, i)
                            == self.first_day.date.epoch_day + i,
                    forall|key: i32|
                        group_by_date@.contains_key(key) <==> (exists|i: int|
                            0 <= i < run.len() && #[trigger] key_at(run, i) == key && (n > 0 || i
                                >= days@.len())),
                    forall|i: int|
                        days@.len() <= i < run.len() ==> counter_holds(
                            group_by_date@[#[trigger] key_at(run, i)],
                            run[i],
                            (n + 1) as nat,
                        ),
                    forall|i: int|
                        0 <= i < days@.len() && n > 0 ==> counter_holds(
                            group_by_date@[#[trigger] key_at(run, i)],
                            run[i],
                            n as nat,
                        ),
                    n == 0 ==> dates@.len() == run.len() - days@.len(),
                    n > 0 ==> dates@.len() == run.len(),
                    forall|j: int|
                        0 <= j < dates@.len() ==> #[trigger] dates@[j] == key_at(
                            run,
                            run.len() - 1 - j,
                        ),
                decreases days@.len(),
            {
                let ghost remaining = days@;
                let ghost m = days@.len() as int;
                let ghost grouped = group_by_date@;
                let day = days.pop().unwrap();
                let key: i32 = day.date.epoch_day;
                proof {
                    assert(day_views(remaining)[m - 1] == run[m - 1]);
                    assert(day@ == run[m - 1]);
                    assert(key == key_at(run, m - 1));
                    assert(day_views(days@) == run.take(m - 1)) by {
                        assert forall|i: int| 0 <= i < m - 1 implies day_views(days@)[i]
                            == run.take(m - 1)[i] by {
                            assert(day_views(remaining)[i] == run[i]);
                        }
                    }
                }
                let mut counter = match group_by_date.remove(&key) {
                    Some(counter) => {
                        proof {
                            let i = choose|i: int|
                                0 <= i < run.len() && #[trigger] key_at(run, i) == key && (n > 0
                                    || i >= m);
                            assert(i == m - 1);
                            assert(counter == grouped[key_at(run, m - 1)]);
                        }
                        counter
                    },
                    None => {
                        proof {
                            if n > 0 {
                                assert(key_at(run, m - 1) == key);
                                assert(grouped.contains_key(key));
                            }
                        }
                        dates.push(key);
                        SimulationDayCounter::new(day.date)
                    },
                };
                proof {
                    lemma_copies_push(run[m - 1], n as nat);
                }
                counter.add(day);
                group_by_date.insert(key, counter);
                proof {
                    assert(group_by_date@ == grouped.insert(key, counter));
                    assert forall|k: i32| group_by_date@.contains_key(k) <==> (exists|i: int|
                        0 <= i < run.len() && #[trigger] key_at(run, i) == k && (n > 0 || i
                            >= days@.len())) by {
                        if group_by_date@.contains_key(k) {
                            if k == key {
                                assert(key_at(run, m - 1) == k);
                            } else {
                                assert(grouped.contains_key(k));
                                let i = choose|i: int|
                                    0 <= i < run.len() && #[trigger] key_at(run, i) == k && (n > 0
                                        || i >= m);
                                assert(key_at(run, i) == k && (n > 0 || i >= days@.len()));
                            }
                        }
                        if exists|i: int|
                            0 <= i < run.len() && #[trigger] key_at(run, i) == k && (n > 0 || i
                                >= days@.len()) {
                            let i = choose|i: int|
                                0 <= i < run.len() && #[trigger] key_at(run, i) == k && (n > 0 || i
                                    >= days@.len());
                            if i != m - 1 {
                                assert(key_at(run, i) == k && (n > 0 || i >= m));
                                assert(grouped.contains_key(k));
                            }
                        }
                    }
                    assert forall|i: int| days@.len() <= i < run.len() implies counter_holds(
                        group_by_date@[#[trigger] key_at(run, i)],
                        run[i],
                        (n + 1) as nat,
                    ) by {
                        if i != m - 1 {
                            assert(key_at(run, i) != key);
                        }
                    }
                    assert forall|i: int| 0 <= i < days@.len() && n > 0 implies counter_holds(
                        group_by_date@[#[trigger] key_at(run, i)],
                        run[i],
                        n as nat,
                    ) by {
                        assert(key_at(run, i) != key);
                    }
                }
            }
            proof {
                assert forall|key: i32|
                    group_by_date@.contains_key(key) <==> (exists|i: int|
                        0 <= i < run.len() && #[trigger] key_at(run, i) == key) by {
                    if exists|i: int| 0 <= i < run.len() && #[trigger] key_at(run, i) == key {
                        let i = choose|i: int| 0 <= i < run.len() && #[trigger] key_at(run, i) == key;
                        assert(key_at(run, i) == key && (n > 0 || i >= days@.len()));
                    }
                }
            }
            n = n + 1;
        }
        let mut summaries: HashMap<i32, NewProductSimulationSummaryByDay> = HashMap::new();
        let mut j: usize = 0;
        while j < dates.len()
            invariant
                j <= dates@.len(),
                n == n_times,
                run == self.days_of_run(),
                forall|i: int|
                    0 <= i < run.len() ==> #[trigger] key_at(run, i)
                        == self.first_day.date.epoch_day + i,
                forall|key: i32|
                    group_by_date@.contains_key(key) <==> (n > 0 && exists|i: int|
                        0 <= i < run.len() && #[trigger] key_at(run, i) == key),
                forall|i: int|
                    0 <= i < run.len() && n > 0 ==> counter_holds(
                        group_by_date@[#[trigger] key_at(run, i)],
                        run[i],
                        n as nat,
                    ),
                n == 0 ==> dates@.len() == 0,
                n > 0 ==> dates@.len() == run.len(),
                forall|k: int|
                    0 <= k < dates@.len() ==> #[trigger] dates@[k] == key_at(
                        run,
                        run.len() - 1 - k,
                    ),
                forall|key: i32|
                    summaries@.contains_key(key) <==> (exists|i: int|
                        run.len() - j <= i < run.len() && #[trigger] key_at(run, i) == key),
                forall|i: int|
                    run.len() - j <= i < run.len() ==> summaries@[#[trigger] key_at(run, i)]
                        == repeated_summary(run[i], n_times),
            decreases dates@.len() - j,
        {
            let key = dates[j];
            let ghost i0 = run.len() - 1 - j;
            let ghost summed = summaries@;
            proof {
                assert(key == key_at(run, i0));
                assert(group_by_date@.contains_key(key));
                assert(counter_holds(group_by_date@[key_at(run, i0)], run[i0], n as nat));
                lemma_copies_summary(run[i0], n_times);
            }
            match group_by_date.get(&key) {
                Some(counter) => {
                    match counter.summarize() {
                        Some(summary) => {
                            summaries.insert(key, summary);
                        },
                        None => {},
                    }
                },
                None => {},
            }
            proof {
                assert(summaries@ == summed.insert(key, repeated_summary(run[i0], n_times)));
                assert forall|k: i32| summaries@.contains_key(k) <==> (exists|i: int|
                    run.len() - (j + 1) <= i < run.len() && #[trigger] key_at(run, i) == k) by {
                    if summaries@.contains_key(k) {
                        if k == key {
                            assert(key_at(run, i0) == k);
                        } else {
                            assert(summed.contains_key(k));
                            let i = choose|i: int|
                                run.len() - j <= i < run.len() && #[trigger] key_at(run, i) == k;
                            assert(run.len() - (j + 1) <= i < run.len() && key_at(run, i) == k);
                        }
                    }
                    if exists|i: int|
                        run.len() - (j + 1) <= i < run.len() && #[trigger] key_at(run, i) == k {
                        let i = choose|i: int|
                            run.len() - (j + 1) <= i < run.len() && #[trigger] key_at(run, i) == k;
                        if i != i0 {
                            assert(run.len() - j <= i < run.len() && key_at(run, i) == k);
                            assert(summed.contains_key(k));
                        }
                    }
                }
                assert forall|i: int| run.len() - (j + 1) <= i < run.len() implies summaries@[
                #[trigger] key_at(run, i)] == repeated_summary(run[i], n_times) by {
                    if i != i0 {
                        assert(key_at(run, i) != key);
                    }
                }
            }
            j += 1;
        }
        proof {
            assert forall|key: i32|
                summaries@.contains_key(key) <==> (n_times > 0 && exists|i: int|
                    0 <= i < run.len() && #[trigger] key_at(run, i) == key) by {
                if summaries@.contains_key(key) {
                    let i = choose|i: int|
                        run.len() - j <= i < run.len() && #[trigger] key_at(run, i) == key;
                    assert(0 <= i < run.len() && key_at(run, i) == key);
                }
                if n_times > 0 && exists|i: int|
                    0 <= i < run.len() && #[trigger] key_at(run, i) == key {
                    let i = choose|i: int| 0 <= i < run.len() && #[trigger] key_at(run, i) == key;
                    assert(run.len() - j <= i < run.len() && key_at(run, i) == key);
                }
            }
        }
        summaries
    }
}

} // verus!

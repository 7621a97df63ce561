use chrono::NaiveDate;
use stock_simulation::control::SimulationControl;
use stock_simulation::dates::SimDate;
use stock_simulation::error::SimulationError;
use stock_simulation::parameter::ProductMovHist;
use stock_simulation::per_day::SimulationDay;
use stock_simulation::product_batch::ProductBatch;
use stock_simulation::summary::{NewProductSimulationSummaryByDay, Probability, SimulationDayCounter};

fn day(y: i32, m: u32, d: u32) -> SimDate {
    SimDate::from_epoch_days(NaiveDate::from_ymd_opt(y, m, d).unwrap().to_epoch_days())
}

fn counted(
    date: SimDate,
    stock_shortage: Option<u64>,
    stock_limit_exceeded: Option<u64>,
    stock_time_limit_exceeded: Option<u64>,
) -> SimulationDay {
    SimulationDay {
        date,
        batches: vec![],
        stock_shortage,
        stock_limit_exceeded,
        stock_time_limit_exceeded,
        is_calculated: true,
    }
}

fn ratio(probability: Probability) -> f64 {
    probability.occurrences as f64 / probability.total as f64
}

fn hist(entry_qty: u64, withdrawal_qty: u64, week_of_year: i16, day_of_week: i16) -> ProductMovHist {
    ProductMovHist { product_id: 1, entry_qty, withdrawal_qty, week_of_year, day_of_week }
}

fn simulation() -> SimulationControl {
    SimulationControl::new(
        1,
        day(2024, 1, 1),
        day(2024, 1, 4),
        30,
        1,
        vec![ProductBatch {
            quantity: 12,
            entry_date: day(2023, 12, 31),
            deadline_date: day(2024, 1, 1),
            finished_date: None,
            is_finished: false,
        }],
        vec![hist(5, 10, 1, 1), hist(40, 10, 1, 2), hist(0, 0, 1, 3)],
    )
}

#[test]
fn counter_without_days_cannot_be_summarized() {
    let counter = SimulationDayCounter::new(day(2024, 1, 1));
    assert_eq!(counter.try_summarize(), Err(SimulationError::EmptyInputError));
    assert_eq!(counter.summarize(), None);
}

#[test]
fn counter_counts_the_days_with_each_loss() {
    let date = day(2024, 1, 1);
    let mut counter = SimulationDayCounter::new(date);
    counter.add(counted(date, Some(1), None, None));
    counter.add(counted(date, None, None, None));
    counter.add(counted(date, Some(3), Some(2), None));
    counter.add(counted(date, None, Some(0), None));
    let summary = counter.try_summarize().unwrap();
    assert_eq!(
        summary,
        NewProductSimulationSummaryByDay {
            date,
            probability_losses_by_missing: Probability { occurrences: 2, total: 4 },
            probability_losses_by_nospace: Probability { occurrences: 2, total: 4 },
            probability_losses_by_expirat: Probability { occurrences: 0, total: 4 },
        }
    );
    assert_eq!(counter.summarize(), Some(summary));
    assert_eq!(ratio(summary.probability_losses_by_missing), 0.5);
    assert_eq!(ratio(summary.probability_losses_by_expirat), 0.0);
}

#[test]
fn shares_lie_between_nought_and_one() {
    let date = day(2024, 1, 1);
    let mut counter = SimulationDayCounter::new(date);
    for i in 0..7u64 {
        counter.add(counted(
            date,
            if i % 2 == 0 { Some(i) } else { None },
            if i % 3 == 0 { Some(i) } else { None },
            Some(i),
        ));
        let summary = counter.try_summarize().unwrap();
        for probability in [
            summary.probability_losses_by_missing,
            summary.probability_losses_by_nospace,
            summary.probability_losses_by_expirat,
        ] {
            assert_eq!(probability.total, i + 1);
            assert!(probability.occurrences <= probability.total);
            assert!((0.0..=1.0).contains(&ratio(probability)));
        }
        assert_eq!(summary.probability_losses_by_expirat.occurrences, i + 1);
    }
}

#[test]
fn share_of_one_day_is_nought_or_one() {
    let date = day(2024, 1, 1);
    let mut counter = SimulationDayCounter::new(date);
    counter.add(counted(date, Some(1), None, Some(5)));
    let summary = counter.try_summarize().unwrap();
    assert_eq!(ratio(summary.probability_losses_by_missing), 1.0);
    assert_eq!(ratio(summary.probability_losses_by_nospace), 0.0);
    assert_eq!(ratio(summary.probability_losses_by_expirat), 1.0);
}

#[test]
fn no_run_gives_no_summary() {
    assert!(simulation().run_n_times(0).is_empty());
}

#[test]
fn one_run_gives_shares_of_nought_or_one() {
    let summaries = simulation().run_n_times(1);
    assert_eq!(summaries.len(), 4);
    for summary in summaries.values() {
        for probability in [
            summary.probability_losses_by_missing,
            summary.probability_losses_by_nospace,
            summary.probability_losses_by_expirat,
        ] {
            assert_eq!(probability.total, 1);
            assert!(probability.occurrences == 0 || probability.occurrences == 1);
            assert!(ratio(probability) == 0.0 || ratio(probability) == 1.0);
        }
    }
}

#[test]
fn runs_are_summarized_date_by_date() {
    let control = simulation();
    let days = control.run_once();
    // 01-01 mon: 12 - 10 = 2, 5 enter (deadline 01-02)
    // 01-02 tue: 7 against 10, 3 missing; 40 wanted, 30 enter, 10 find no room;
    //            the batch of 12 (deadline 01-01) is gone already, nothing expires
    // 01-03 wed: nothing moves; the 30 of 01-02 are good until 01-03
    // 01-04 thu: no history; the 30 expire
    assert_eq!(days.len(), 4);
    assert_eq!(days[0].stock_shortage, None);
    assert_eq!(days[1].stock_shortage, Some(3));
    assert_eq!(days[1].stock_limit_exceeded, Some(10));
    assert_eq!(days[3].stock_time_limit_exceeded, Some(30));

    let summaries = control.run_n_times(5);
    assert_eq!(summaries.len(), 4);
    let all = Probability { occurrences: 5, total: 5 };
    let none = Probability { occurrences: 0, total: 5 };
    let expected = [
        (day(2024, 1, 1), none, none, none),
        (day(2024, 1, 2), all, all, none),
        (day(2024, 1, 3), none, none, none),
        (day(2024, 1, 4), none, none, all),
    ];
    for (date, missing, nospace, expirat) in expected {
        assert_eq!(
            summaries.get(&date.epoch_day),
            Some(&NewProductSimulationSummaryByDay {
                date,
                probability_losses_by_missing: missing,
                probability_losses_by_nospace: nospace,
                probability_losses_by_expirat: expirat,
            })
        );
    }
    assert_eq!(summaries.get(&day(2024, 1, 5).epoch_day), None);
    assert_eq!(summaries.get(&day(2023, 12, 31).epoch_day), None);
}

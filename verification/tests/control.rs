use bigdecimal::{BigDecimal, ToPrimitive};
use chrono::DateTime;
use stock_simulation::control::SimulationControl;
use stock_simulation::dates::SimDate;
use stock_simulation::parameter::ProductMovHist;
use stock_simulation::per_day::SimulationDay;
use stock_simulation::product_batch::ProductBatch;
use uuid::Uuid;

fn date(text: &str) -> SimDate {
    SimDate::from_epoch_days(
        DateTime::parse_from_rfc3339(text)
            .unwrap()
            .to_utc()
            .date_naive()
            .to_epoch_days(),
    )
}

fn quantity(value: BigDecimal) -> u64 {
    assert!(value.is_integer());
    value.to_u64().unwrap()
}

fn mock_product_batches() -> Vec<ProductBatch> {
    vec![ProductBatch {
        quantity: quantity(BigDecimal::from(100)),
        entry_date: date("2023-12-31T00:00:00Z"),
        deadline_date: date("2024-01-11T00:00:00Z"),
        finished_date: None,
        is_finished: false,
    }]
}

fn mock_historic(
    entry_qty: i32,
    withdrawal_qty: i32,
    week_of_year: i16,
    day_of_week: i16,
) -> ProductMovHist {
    ProductMovHist {
        product_id: Uuid::from_u128(0).as_u128(),
        entry_qty: quantity(BigDecimal::from(entry_qty)),
        withdrawal_qty: quantity(BigDecimal::from(withdrawal_qty)),
        week_of_year,
        day_of_week,
    }
}

fn total_qty(day: &SimulationDay) -> BigDecimal {
    day.batches
        .iter()
        .map(|batch| BigDecimal::from(batch.quantity))
        .reduce(|acc, batch_qty| acc + batch_qty)
        .unwrap()
}

#[test]
fn should_finish_with_batch_len_10_and_batches_qty_sum_100() {
    let simulation = SimulationControl::new(
        Uuid::from_u128(0).as_u128(),
        date("2024-01-01T00:00:00Z"),
        date("2024-01-10T00:00:00Z"),
        1000,
        11,
        mock_product_batches(),
        vec![
            mock_historic(10, 10, 1, 1), // 2024-01-01 mon
            mock_historic(10, 10, 1, 2), // 2024-01-02 tue
            mock_historic(10, 10, 1, 3), // 2024-01-03 wed
            mock_historic(10, 10, 1, 4), // 2024-01-04 thu
            mock_historic(10, 10, 1, 5), // 2024-01-05 fri
            mock_historic(10, 10, 1, 6), // 2024-01-06 sat
            mock_historic(10, 10, 1, 7), // 2024-01-07 sun
            mock_historic(10, 10, 2, 1), // 2024-01-08 mon
            mock_historic(10, 10, 2, 2), // 2024-01-09 tue
            mock_historic(10, 10, 2, 3), // 2024-01-10 wed
        ],
    );

    let days = simulation.run_once();
    let last_day = days.last().unwrap();
    assert_eq!(last_day.batches.len(), 10);
    assert_eq!(total_qty(last_day), BigDecimal::from(100));
}

#[test]
fn should_finish_with_batch_len_6_and_batches_qty_sum_60() {
    let simulation = SimulationControl::new(
        Uuid::from_u128(0).as_u128(),
        date("2024-01-01T00:00:00Z"),
        date("2024-01-10T00:00:00Z"),
        1000,
        5,
        mock_product_batches(),
        vec![
            mock_historic(10, 10, 1, 1), // 2024-01-01 mon
            mock_historic(10, 10, 1, 2), // 2024-01-02 tue
            mock_historic(10, 10, 1, 3), // 2024-01-03 wed
            mock_historic(10, 10, 1, 4), // 2024-01-04 thu
            mock_historic(10, 10, 1, 5), // 2024-01-05 fri
            mock_historic(10, 10, 1, 6), // 2024-01-06 sat
            mock_historic(10, 10, 1, 7), // 2024-01-07 sun
            mock_historic(10, 10, 2, 1), // 2024-01-08 mon
            mock_historic(10, 10, 2, 2), // 2024-01-09 tue
            mock_historic(10, 10, 2, 3), // 2024-01-10 wed
        ],
    );

    let days = simulation.run_once();
    let last_day = days.last().unwrap();
    assert_eq!(last_day.batches.len(), 6);
    assert_eq!(total_qty(last_day), BigDecimal::from(60));
}

#[test]
fn should_finish_with_batch_len_7_and_batches_qty_sum_110() {
    let simulation = SimulationControl::new(
        Uuid::from_u128(0).as_u128(),
        date("2024-01-01T00:00:00Z"),
        date("2024-01-10T00:00:00Z"),
        1000,
        5,
        mock_product_batches(),
        vec![
            mock_historic(10, 5, 1, 1), // 2024-01-01 mon
            mock_historic(10, 5, 1, 2), // 2024-01-02 tue
            mock_historic(10, 5, 1, 3), // 2024-01-03 wed
            mock_historic(10, 5, 1, 4), // 2024-01-04 thu
            mock_historic(10, 5, 1, 5), // 2024-01-05 fri
            mock_historic(10, 5, 1, 6), // 2024-01-06 sat
            mock_historic(10, 5, 1, 7), // 2024-01-07 sun
            mock_historic(10, 5, 2, 1), // 2024-01-08 mon
            mock_historic(10, 5, 2, 2), // 2024-01-09 tue
            mock_historic(10, 5, 2, 3), // 2024-01-10 wed
        ],
    );

    let days = simulation.run_once();
    let last_day = days.last().unwrap();
    assert_eq!(last_day.batches.len(), 7);
    assert_eq!(total_qty(last_day), BigDecimal::from(110));
}

#[test]
fn should_finish_with_batch_len_6_and_batches_qty_sum_30() {
    let simulation = SimulationControl::new(
        Uuid::from_u128(0).as_u128(),
        date("2024-01-01T00:00:00Z"),
        date("2024-01-10T00:00:00Z"),
        1000,
        5,
        mock_product_batches(),
        vec![
            mock_historic(5, 10, 1, 1), // 2024-01-01 mon
            mock_historic(5, 10, 1, 2), // 2024-01-02 tue
            mock_historic(5, 10, 1, 3), // 2024-01-03 wed
            mock_historic(5, 10, 1, 4), // 2024-01-04 thu
            mock_historic(5, 10, 1, 5), // 2024-01-05 fri
            mock_historic(5, 10, 1, 6), // 2024-01-06 sat
            mock_historic(5, 10, 1, 7), // 2024-01-07 sun
            mock_historic(5, 10, 2, 1), // 2024-01-08 mon
            mock_historic(5, 10, 2, 2), // 2024-01-09 tue
            mock_historic(5, 10, 2, 3), // 2024-01-10 wed
        ],
    );

    let days = simulation.run_once();
    let last_day = days.last().unwrap();
    assert_eq!(last_day.batches.len(), 6);
    assert_eq!(total_qty(last_day), BigDecimal::from(30));
}

#[test]
fn run_covers_every_date_up_to_the_final_date() {
    let simulation = SimulationControl::new(
        7,
        date("2024-01-01T00:00:00Z"),
        date("2024-01-10T00:00:00Z"),
        1000,
        5,
        mock_product_batches(),
        vec![],
    );
    let days = simulation.run_once();
    assert_eq!(days.len(), 10);
    for (i, day) in days.iter().enumerate() {
        assert!(day.is_calculated);
        assert_eq!(
            day.date.epoch_day,
            date("2024-01-01T00:00:00Z").epoch_day + i as i32
        );
    }
}

#[test]
fn run_to_a_final_date_in_the_past_holds_the_first_day_alone() {
    let simulation = SimulationControl::new(
        7,
        date("2024-01-10T00:00:00Z"),
        date("2024-01-01T00:00:00Z"),
        1000,
        5,
        mock_product_batches(),
        vec![],
    );
    let days = simulation.run_once();
    assert_eq!(days.len(), 1);
    assert_eq!(days[0].date, date("2024-01-10T00:00:00Z"));
    assert!(days[0].is_calculated);
}

#[test]
fn run_without_history_loses_nothing_until_the_first_batch_expires() {
    let simulation = SimulationControl::new(
        7,
        date("2024-01-01T00:00:00Z"),
        date("2024-01-12T00:00:00Z"),
        1000,
        5,
        mock_product_batches(),
        vec![],
    );
    let days = simulation.run_once();
    assert_eq!(days.len(), 12);
    for day in days.iter().take(11) {
        assert_eq!(day.stock_shortage, None);
        assert_eq!(day.stock_limit_exceeded, None);
        assert_eq!(day.stock_time_limit_exceeded, None);
        assert_eq!(total_qty(day), BigDecimal::from(100));
    }
    // the initial batch expires the day after its deadline, 2024-01-11
    assert_eq!(days[11].stock_time_limit_exceeded, Some(100));
    assert_eq!(total_qty(&days[11]), BigDecimal::from(0));
}

#[test]
fn run_whose_first_day_cannot_be_calculated_has_no_days() {
    let mut batches = mock_product_batches();
    batches.push(ProductBatch {
        quantity: u64::MAX,
        entry_date: date("2023-12-31T00:00:00Z"),
        deadline_date: date("2024-01-11T00:00:00Z"),
        finished_date: None,
        is_finished: false,
    });
    let simulation = SimulationControl::new(
        7,
        date("2024-01-01T00:00:00Z"),
        date("2024-01-10T00:00:00Z"),
        1000,
        5,
        batches,
        vec![],
    );
    assert!(simulation.run_once().is_empty());
    assert!(simulation.run_n_times(3).is_empty());
}

#[test]
fn run_stops_where_the_calendar_ends() {
    let last = chrono::NaiveDate::MAX.to_epoch_days();
    let simulation = SimulationControl::new(
        7,
        SimDate::from_epoch_days(last - 2),
        SimDate::from_epoch_days(i32::MAX),
        1000,
        0,
        vec![],
        vec![],
    );
    let days = simulation.run_once();
    assert_eq!(days.len(), 3);
    assert_eq!(days[2].date.epoch_day, last);
}

#[test]
fn shortage_is_noted_once_demand_exceeds_supply() {
    let simulation = SimulationControl::new(
        7,
        date("2024-01-01T00:00:00Z"),
        date("2024-01-10T00:00:00Z"),
        1000,
        5,
        vec![ProductBatch {
            quantity: 12,
            entry_date: date("2023-12-31T00:00:00Z"),
            deadline_date: date("2024-01-11T00:00:00Z"),
            finished_date: None,
            is_finished: false,
        }],
        vec![
            mock_historic(5, 10, 1, 1),
            mock_historic(5, 10, 1, 2),
            mock_historic(5, 10, 1, 3),
        ],
    );
    let days = simulation.run_once();
    // 01-01: 12 - 10 = 2, then 5 enter; 01-02: 7 against 10, 3 are missing
    assert_eq!(days[0].stock_shortage, None);
    assert_eq!(days[1].stock_shortage, Some(3));
    assert_eq!(days[2].stock_shortage, Some(5));
    assert_eq!(days[3].stock_shortage, None);
    assert!(days.iter().any(|day| day.stock_shortage.is_some()));
}

#[test]
fn has_next_date_looks_at_the_last_day() {
    let simulation = SimulationControl::new(
        7,
        date("2024-01-01T00:00:00Z"),
        date("2024-01-03T00:00:00Z"),
        1000,
        5,
        mock_product_batches(),
        vec![],
    );
    assert!(!simulation.has_next_date(&vec![]));
    let mut day = simulation.first_day.duplicate();
    assert!(!simulation.has_next_date(&vec![day.duplicate()]));
    assert!(day.calculate(&simulation.sim_param));
    assert!(simulation.has_next_date(&vec![day.duplicate()]));
    let days = simulation.run_once();
    assert_eq!(days.len(), 3);
    assert!(!simulation.has_next_date(&days));
}

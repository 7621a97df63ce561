use std::str::FromStr;

use bigdecimal::{BigDecimal, ToPrimitive};
use chrono::DateTime;
use stock_simulation::dates::SimDate;
use stock_simulation::parameter::{ProductMovHist, SimulationParameters, DEFAULT_HIST_PRODUCT_ID};
use uuid::Uuid;

/// Quantities are held in ten-thousandths, the resolution of the stored averages.
fn quantity(text: &str) -> u64 {
    let scaled = BigDecimal::from_str(text).unwrap() * BigDecimal::from(10_000);
    assert!(scaled.is_integer());
    scaled.to_u64().unwrap()
}

fn decimal(quantity: u64) -> BigDecimal {
    BigDecimal::from(quantity) / BigDecimal::from(10_000)
}

fn hist(entry_qty: &str, withdrawal_qty: &str, week_of_year: i16, day_of_week: i16) -> ProductMovHist {
    ProductMovHist {
        product_id: Uuid::from_str("d0bd335e-fc46-408d-90fb-209ccc521fa1")
            .unwrap()
            .as_u128(),
        entry_qty: quantity(entry_qty),
        withdrawal_qty: quantity(withdrawal_qty),
        week_of_year,
        day_of_week,
    }
}

fn date(text: &str) -> SimDate {
    SimDate::from_epoch_days(
        DateTime::parse_from_rfc3339(text)
            .unwrap()
            .to_utc()
            .date_naive()
            .to_epoch_days(),
    )
}

#[test]
fn test_group_by_woy_and_dow() {
    let historic = vec![
        hist("52.5000", "73.3333", 32, 0),
        hist("58.3333", "82.1666", 32, 1),
        hist("49.8333", "65.5000", 32, 2),
        hist("75.5000", "56.1666", 32, 3),
        hist("67.3333", "56.1666", 32, 4),
        hist("39.3333", "52.6666", 32, 5),
        hist("52.5000", "73.3333", 32, 6),
        hist("52.5000", "73.3333", 33, 0),
        hist("58.3333", "82.1666", 33, 1),
        hist("49.8333", "65.5000", 33, 2),
        hist("75.5000", "56.1666", 33, 3),
        hist("67.3333", "56.1666", 33, 4),
        hist("39.3333", "52.6666", 33, 5),
        hist("39.3333", "52.6666", 33, 6),
    ];
    let map = SimulationParameters::group_by_woy_and_dow(historic);
    assert_eq!(map.len(), 2);
    assert_eq!(map.get(&32).unwrap().len(), 7);
    assert_eq!(
        decimal(map.get(&32).unwrap().get(&0).unwrap().entry_qty),
        BigDecimal::from_str("52.5000").unwrap()
    );
    assert_eq!(
        decimal(map.get(&33).unwrap().get(&3).unwrap().withdrawal_qty),
        BigDecimal::from_str("56.1666").unwrap()
    );
}

#[test]
fn group_of_no_rows_is_empty() {
    let map = SimulationParameters::group_by_woy_and_dow(vec![]);
    assert!(map.is_empty());
}

#[test]
fn group_keeps_the_first_of_several_rows_for_one_week_and_day() {
    let map = SimulationParameters::group_by_woy_and_dow(vec![
        hist("1.0000", "2.0000", 5, 3),
        hist("3.0000", "4.0000", 5, 4),
        hist("5.0000", "6.0000", 5, 3),
    ]);
    assert_eq!(map.len(), 1);
    assert_eq!(map.get(&5).unwrap().len(), 2);
    assert_eq!(map.get(&5).unwrap().get(&3).unwrap().entry_qty, 10_000);
    assert_eq!(map.get(&5).unwrap().get(&3).unwrap().withdrawal_qty, 20_000);
    assert_eq!(map.get(&5).unwrap().get(&4).unwrap().entry_qty, 30_000);
}

#[test]
fn default_hist_moves_nothing() {
    let default = SimulationParameters::get_default_hist();
    assert_eq!(default.entry_qty, 0);
    assert_eq!(default.withdrawal_qty, 0);
    assert_eq!(default.week_of_year, 0);
    assert_eq!(default.day_of_week, 0);
    assert_eq!(
        Uuid::from_u128(default.product_id),
        Uuid::from_str("c45bd212-8fb8-449b-8cb9-1fb44c0a6cd4").unwrap()
    );
    assert_eq!(default.product_id, DEFAULT_HIST_PRODUCT_ID);
}

#[test]
fn new_keeps_the_limits_and_the_default() {
    let parameters = SimulationParameters::new(1000, 11, vec![hist("1.0000", "2.0000", 1, 1)]);
    assert_eq!(parameters.stock_maximum_quantity, 1000);
    assert_eq!(parameters.new_batch_default_expiration_days, 11);
    assert_eq!(parameters.default_hist, SimulationParameters::get_default_hist());
    assert_eq!(parameters.historic_by_woy_and_dow.len(), 1);
}

#[test]
fn date_hist_is_filed_by_iso_week_and_iso_weekday() {
    let parameters = SimulationParameters::new(
        1000,
        11,
        vec![
            hist("1.0000", "0.0000", 1, 1), // monday of the first ISO week
            hist("2.0000", "0.0000", 1, 7), // sunday of the first ISO week
            hist("3.0000", "0.0000", 2, 1), // monday of the second ISO week
            hist("4.0000", "0.0000", 36, 2), // tuesday of the 36th ISO week
            hist("5.0000", "0.0000", 53, 4), // thursday of a 53rd ISO week
        ],
    );
    assert_eq!(parameters.get_date_hist(&date("2024-01-01T00:00:00Z")).entry_qty, 10_000);
    assert_eq!(parameters.get_date_hist(&date("2024-01-07T00:00:00Z")).entry_qty, 20_000);
    assert_eq!(parameters.get_date_hist(&date("2024-01-08T00:00:00Z")).entry_qty, 30_000);
    assert_eq!(parameters.get_date_hist(&date("2023-09-05T00:00:00Z")).entry_qty, 40_000);
    assert_eq!(parameters.get_date_hist(&date("2020-12-31T00:00:00Z")).entry_qty, 50_000);
}

#[test]
fn date_hist_of_the_monday_of_the_first_iso_week() {
    let parameters = SimulationParameters::new(
        1000,
        5,
        vec![ProductMovHist {
            product_id: 0,
            entry_qty: 7,
            withdrawal_qty: 3,
            week_of_year: 1,
            day_of_week: 1,
        }],
    );
    let monday = parameters.get_date_hist(&date("2024-01-01T00:00:00Z"));
    assert_eq!(monday.entry_qty, 7);
    assert_eq!(monday.withdrawal_qty, 3);
    let tuesday = parameters.get_date_hist(&date("2024-01-02T00:00:00Z"));
    assert_eq!(tuesday.entry_qty, 0);
    assert_eq!(tuesday.withdrawal_qty, 0);
}

#[test]
fn date_hist_never_reads_a_week_before_the_first_or_a_day_before_monday() {
    let parameters = SimulationParameters::new(
        1000,
        5,
        vec![
            hist("1.0000", "1.0000", 0, 1),
            hist("1.0000", "1.0000", 1, 0),
            hist("1.0000", "1.0000", 0, 0),
        ],
    );
    let default = SimulationParameters::get_default_hist();
    for day in 1..=14 {
        let text = format!("2024-01-{:02}T00:00:00Z", day);
        assert_eq!(*parameters.get_date_hist(&date(&text)), default);
    }
}

#[test]
fn date_hist_of_a_date_without_history_is_the_default() {
    let parameters = SimulationParameters::new(1000, 11, vec![hist("1.0000", "1.0000", 1, 1)]);
    assert_eq!(parameters.get_date_hist(&date("2024-01-01T00:00:00Z")).entry_qty, 10_000);
    let hist = parameters.get_date_hist(&date("2024-01-02T00:00:00Z"));
    assert_eq!(*hist, SimulationParameters::get_default_hist());
    let empty = SimulationParameters::new(1000, 11, vec![]);
    assert_eq!(
        *empty.get_date_hist(&date("2024-01-01T00:00:00Z")),
        SimulationParameters::get_default_hist()
    );
}

#[test]
fn date_hist_of_a_day_outside_the_calendar_is_the_default() {
    let parameters = SimulationParameters::new(1000, 11, vec![hist("1.0000", "1.0000", 1, 1)]);
    assert_eq!(
        *parameters.get_date_hist(&SimDate::from_epoch_days(i32::MAX)),
        SimulationParameters::get_default_hist()
    );
}

#[test]
fn date_hist_is_the_same_whenever_it_is_asked() {
    let parameters = SimulationParameters::new(
        1000,
        11,
        vec![hist("1.5000", "2.5000", 1, 1), hist("3.0000", "4.0000", 1, 2)],
    );
    for day in ["2024-01-01T00:00:00Z", "2024-01-02T00:00:00Z", "2024-01-03T00:00:00Z"] {
        let first = *parameters.get_date_hist(&date(day));
        let second = *parameters.get_date_hist(&date(day));
        assert_eq!(first, second);
    }
    assert_eq!(parameters.get_date_hist(&date("2024-01-01T00:00:00Z")).entry_qty, 15_000);
    assert_eq!(parameters.get_date_hist(&date("2024-01-02T00:00:00Z")).withdrawal_qty, 40_000);
}

#[test]
fn week_day_hist_takes_iso_numbers() {
    let parameters = SimulationParameters::new(
        1000,
        11,
        vec![
            hist("1.0000", "0.0000", 1, 1),
            hist("2.0000", "0.0000", 53, 7),
            hist("9.0000", "0.0000", 0, 0),
            hist("9.0000", "0.0000", 52, 0),
            hist("9.0000", "0.0000", 54, 1),
            hist("9.0000", "0.0000", 1, 8),
        ],
    );
    let default = SimulationParameters::get_default_hist();
    assert_eq!(parameters.get_week_day_hist(Some(1), Some(1)).entry_qty, 10_000);
    assert_eq!(parameters.get_week_day_hist(Some(53), Some(7)).entry_qty, 20_000);
    assert_eq!(*parameters.get_week_day_hist(Some(1), Some(2)), default);
    assert_eq!(*parameters.get_week_day_hist(Some(2), Some(1)), default);
    assert_eq!(*parameters.get_week_day_hist(None, Some(1)), default);
    assert_eq!(*parameters.get_week_day_hist(Some(1), None), default);
    assert_eq!(*parameters.get_week_day_hist(Some(0), Some(0)), default);
    assert_eq!(*parameters.get_week_day_hist(Some(0), Some(1)), default);
    assert_eq!(*parameters.get_week_day_hist(Some(54), Some(1)), default);
    assert_eq!(*parameters.get_week_day_hist(Some(1), Some(0)), default);
    assert_eq!(*parameters.get_week_day_hist(Some(1), Some(8)), default);
    assert_eq!(*parameters.get_week_day_hist(Some(52), Some(0)), default);
}

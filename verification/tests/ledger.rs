use underground_system::{AverageTime, LedgerError, UndergroundSystem};

fn mean(average: AverageTime) -> f64 {
    average.total_time as f64 / average.trips as f64
}

fn mean_between(system: &UndergroundSystem, start: &str, end: &str) -> f64 {
    mean(system.get_average_time(start.to_string(), end.to_string()).unwrap())
}

fn three_customers() -> UndergroundSystem {
    let mut u = UndergroundSystem::new();
    assert_eq!(u.check_in(45, "Leyton".to_string(), 3), Ok(()));
    assert_eq!(u.check_in(32, "Paradise".to_string(), 8), Ok(()));
    assert_eq!(u.check_in(27, "Leyton".to_string(), 10), Ok(()));
    assert_eq!(u.check_out(45, "Waterloo".to_string(), 15), Ok(()));
    assert_eq!(u.check_out(27, "Waterloo".to_string(), 20), Ok(()));
    assert_eq!(u.check_out(32, "Cambridge".to_string(), 22), Ok(()));
    u
}

#[test]
fn three_customers_two_routes() {
    let u = three_customers();
    assert_eq!(mean_between(&u, "Paradise", "Cambridge"), 14.0);
    assert_eq!(mean_between(&u, "Leyton", "Waterloo"), 11.0);
    assert_eq!(
        u.get_average_time("Leyton".to_string(), "Waterloo".to_string()),
        Ok(AverageTime { total_time: 22, trips: 2 })
    );
    assert_eq!(
        u.get_average_time("Paradise".to_string(), "Cambridge".to_string()),
        Ok(AverageTime { total_time: 14, trips: 1 })
    );
}

#[test]
fn open_trip_is_not_counted_until_it_closes() {
    let mut u = three_customers();
    assert_eq!(u.check_in(10, "Leyton".to_string(), 24), Ok(()));
    assert_eq!(mean_between(&u, "Leyton", "Waterloo"), 11.0);
    assert_eq!(u.check_out(10, "Waterloo".to_string(), 38), Ok(()));
    assert_eq!(mean_between(&u, "Leyton", "Waterloo"), 12.0);
    assert_eq!(
        u.get_average_time("Leyton".to_string(), "Waterloo".to_string()),
        Ok(AverageTime { total_time: 36, trips: 3 })
    );
    assert_eq!(mean_between(&u, "Paradise", "Cambridge"), 14.0);
}

#[test]
fn one_route_three_times() {
    let mut u = UndergroundSystem::new();
    assert_eq!(u.check_in(10, "Leyton".to_string(), 3), Ok(()));
    assert_eq!(u.check_out(10, "Paradise".to_string(), 8), Ok(()));
    assert_eq!(mean_between(&u, "Leyton", "Paradise"), 5.0);
    assert_eq!(u.check_in(5, "Leyton".to_string(), 10), Ok(()));
    assert_eq!(u.check_out(5, "Paradise".to_string(), 16), Ok(()));
    assert_eq!(mean_between(&u, "Leyton", "Paradise"), 5.5);
    assert_eq!(u.check_in(2, "Leyton".to_string(), 21), Ok(()));
    assert_eq!(u.check_out(2, "Paradise".to_string(), 30), Ok(()));
    let third = mean_between(&u, "Leyton", "Paradise");
    assert!((third - 20.0 / 3.0).abs() < 1e-12);
    assert_eq!(format!("{third:.5}"), "6.66667");
    assert_eq!(
        u.get_average_time("Leyton".to_string(), "Paradise".to_string()),
        Ok(AverageTime { total_time: 20, trips: 3 })
    );
}

#[test]
fn new_ledger_has_no_trips() {
    let u = UndergroundSystem::new();
    assert_eq!(
        u.get_average_time("Leyton".to_string(), "Waterloo".to_string()),
        Err(LedgerError::NoMatchingTrips)
    );
    assert!(underground_system::trips_by_stations(&u, "Leyton".to_string(), "Waterloo".to_string())
        .is_empty());
}

#[test]
fn duplicate_check_in_is_refused() {
    let mut u = UndergroundSystem::new();
    assert_eq!(u.check_in(1, "Leyton".to_string(), 5), Ok(()));
    assert_eq!(u.check_in(1, "Leyton".to_string(), 5), Err(LedgerError::DuplicateCheckIn));
    assert_eq!(u.check_in(2, "Leyton".to_string(), 5), Err(LedgerError::DuplicateCheckIn));
}

#[test]
fn refused_check_in_opens_no_trip() {
    let mut u = UndergroundSystem::new();
    assert_eq!(u.check_in(1, "Leyton".to_string(), 5), Ok(()));
    assert_eq!(u.check_in(2, "Leyton".to_string(), 5), Err(LedgerError::DuplicateCheckIn));
    assert_eq!(u.check_out(2, "Waterloo".to_string(), 9), Err(LedgerError::NoOpenTrip));
    assert_eq!(u.check_out(1, "Waterloo".to_string(), 9), Ok(()));
    assert_eq!(
        u.get_average_time("Leyton".to_string(), "Waterloo".to_string()),
        Ok(AverageTime { total_time: 4, trips: 1 })
    );
}

#[test]
fn same_station_other_time_is_no_duplicate() {
    let mut u = UndergroundSystem::new();
    assert_eq!(u.check_in(1, "Leyton".to_string(), 5), Ok(()));
    assert_eq!(u.check_in(2, "Leyton".to_string(), 6), Ok(()));
    assert_eq!(u.check_in(3, "Paradise".to_string(), 5), Ok(()));
    assert_eq!(u.check_in(4, "leyton".to_string(), 5), Ok(()));
}

#[test]
fn check_in_succeeds_again_after_matching_check_out() {
    let mut u = UndergroundSystem::new();
    assert_eq!(u.check_in(1, "Leyton".to_string(), 5), Ok(()));
    assert_eq!(u.check_in(2, "Leyton".to_string(), 5), Err(LedgerError::DuplicateCheckIn));
    assert_eq!(u.check_out(1, "Waterloo".to_string(), 9), Ok(()));
    assert_eq!(u.check_in(2, "Leyton".to_string(), 5), Ok(()));
    assert_eq!(u.check_in(3, "Leyton".to_string(), 5), Err(LedgerError::DuplicateCheckIn));
}

#[test]
fn check_out_of_another_customer_does_not_free_the_event() {
    let mut u = UndergroundSystem::new();
    assert_eq!(u.check_in(1, "Leyton".to_string(), 5), Ok(()));
    assert_eq!(u.check_in(2, "Paradise".to_string(), 5), Ok(()));
    assert_eq!(u.check_out(2, "Waterloo".to_string(), 9), Ok(()));
    assert_eq!(u.check_in(3, "Leyton".to_string(), 5), Err(LedgerError::DuplicateCheckIn));
    assert_eq!(u.check_in(3, "Paradise".to_string(), 5), Ok(()));
}

#[test]
fn check_out_without_check_in_is_refused() {
    let mut u = UndergroundSystem::new();
    assert_eq!(u.check_out(7, "Waterloo".to_string(), 1), Err(LedgerError::NoOpenTrip));
    assert_eq!(u.check_in(8, "Leyton".to_string(), 2), Ok(()));
    assert_eq!(u.check_out(7, "Waterloo".to_string(), 3), Err(LedgerError::NoOpenTrip));
}

#[test]
fn second_check_out_is_refused() {
    let mut u = UndergroundSystem::new();
    assert_eq!(u.check_in(7, "Leyton".to_string(), 2), Ok(()));
    assert_eq!(u.check_out(7, "Waterloo".to_string(), 5), Ok(()));
    assert_eq!(u.check_out(7, "Cambridge".to_string(), 9), Err(LedgerError::NoOpenTrip));
    assert_eq!(
        u.get_average_time("Leyton".to_string(), "Waterloo".to_string()),
        Ok(AverageTime { total_time: 3, trips: 1 })
    );
    assert_eq!(
        u.get_average_time("Leyton".to_string(), "Cambridge".to_string()),
        Err(LedgerError::NoMatchingTrips)
    );
}

#[test]
fn check_out_closes_the_first_open_trip_of_the_customer() {
    let mut u = UndergroundSystem::new();
    assert_eq!(u.check_in(7, "Leyton".to_string(), 1), Ok(()));
    assert_eq!(u.check_in(7, "Paradise".to_string(), 2), Ok(()));
    assert_eq!(u.check_out(7, "Waterloo".to_string(), 10), Ok(()));
    assert_eq!(
        u.get_average_time("Leyton".to_string(), "Waterloo".to_string()),
        Ok(AverageTime { total_time: 9, trips: 1 })
    );
    assert_eq!(
        u.get_average_time("Paradise".to_string(), "Waterloo".to_string()),
        Err(LedgerError::NoMatchingTrips)
    );
    assert_eq!(u.check_out(7, "Waterloo".to_string(), 12), Ok(()));
    assert_eq!(
        u.get_average_time("Paradise".to_string(), "Waterloo".to_string()),
        Ok(AverageTime { total_time: 10, trips: 1 })
    );
    assert_eq!(u.check_out(7, "Waterloo".to_string(), 14), Err(LedgerError::NoOpenTrip));
}

#[test]
fn average_without_matching_trips_is_refused() {
    let mut u = three_customers();
    assert_eq!(
        u.get_average_time("Waterloo".to_string(), "Leyton".to_string()),
        Err(LedgerError::NoMatchingTrips)
    );
    assert_eq!(
        u.get_average_time("Leyton".to_string(), "Cambridge".to_string()),
        Err(LedgerError::NoMatchingTrips)
    );
    assert_eq!(
        u.get_average_time("leyton".to_string(), "Waterloo".to_string()),
        Err(LedgerError::NoMatchingTrips)
    );
    assert_eq!(u.check_in(99, "Bank".to_string(), 30), Ok(()));
    assert_eq!(
        u.get_average_time("Bank".to_string(), "Waterloo".to_string()),
        Err(LedgerError::NoMatchingTrips)
    );
}

#[test]
fn average_ignores_other_routes() {
    let mut u = three_customers();
    assert_eq!(u.check_in(1, "Waterloo".to_string(), 30), Ok(()));
    assert_eq!(u.check_out(1, "Leyton".to_string(), 100), Ok(()));
    assert_eq!(u.check_in(2, "Leyton".to_string(), 31), Ok(()));
    assert_eq!(u.check_out(2, "Cambridge".to_string(), 200), Ok(()));
    assert_eq!(mean_between(&u, "Leyton", "Waterloo"), 11.0);
    assert_eq!(mean_between(&u, "Paradise", "Cambridge"), 14.0);
    assert_eq!(mean_between(&u, "Waterloo", "Leyton"), 70.0);
    assert_eq!(mean_between(&u, "Leyton", "Cambridge"), 169.0);
}

#[test]
fn out_of_order_timestamps_give_a_negative_time() {
    let mut u = UndergroundSystem::new();
    assert_eq!(u.check_in(1, "Leyton".to_string(), 20), Ok(()));
    assert_eq!(u.check_out(1, "Waterloo".to_string(), 5), Ok(()));
    assert_eq!(
        u.get_average_time("Leyton".to_string(), "Waterloo".to_string()),
        Ok(AverageTime { total_time: -15, trips: 1 })
    );
    assert_eq!(mean_between(&u, "Leyton", "Waterloo"), -15.0);
}

#[test]
fn extreme_timestamps_are_summed_exactly() {
    let mut u = UndergroundSystem::new();
    assert_eq!(u.check_in(1, "Leyton".to_string(), i32::MIN), Ok(()));
    assert_eq!(u.check_out(1, "Waterloo".to_string(), i32::MAX), Ok(()));
    assert_eq!(u.check_in(2, "Leyton".to_string(), i32::MIN), Ok(()));
    assert_eq!(u.check_out(2, "Waterloo".to_string(), i32::MAX), Ok(()));
    assert_eq!(
        u.get_average_time("Leyton".to_string(), "Waterloo".to_string()),
        Ok(AverageTime { total_time: 8_589_934_590, trips: 2 })
    );
    assert_eq!(mean_between(&u, "Leyton", "Waterloo"), 4_294_967_295.0);
}

#[test]
fn round_trip_to_the_same_station() {
    let mut u = UndergroundSystem::new();
    assert_eq!(u.check_in(1, "Leyton".to_string(), 4), Ok(()));
    assert_eq!(u.check_out(1, "Leyton".to_string(), 4), Ok(()));
    assert_eq!(
        u.get_average_time("Leyton".to_string(), "Leyton".to_string()),
        Ok(AverageTime { total_time: 0, trips: 1 })
    );
}

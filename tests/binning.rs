use traffic_counts::{
    speed_bin, time_bin, CountError, Direction, Speed, SpeedRangeCount, Time, VehicleClass,
    VehicleClassCount,
};

fn mph(negative: bool, digits: u64, scale: u8) -> Speed {
    Speed::new(negative, digits, scale).unwrap()
}

#[test]
fn vehicle_class_from_bad_num_errs() {
    assert!(VehicleClass::from_num(15).is_err());
}

#[test]
fn vehicle_class_from_0_14_ok() {
    for i in 0..=14 {
        assert!(VehicleClass::from_num(i).is_ok())
    }
}

#[test]
fn lib_time_binning_is_correct() {
    // 1st 15-minute bin
    let time = Time::from_hms(10, 0, 0).unwrap();

    let binned = time_bin(time);
    assert_eq!(binned, Time::from_hms(10, 0, 0).unwrap());
    assert_ne!(binned, Time::from_hms(10, 10, 0).unwrap());

    let time = Time::from_hms(10, 14, 00).unwrap();
    let binned = time_bin(time);
    assert_eq!(binned, Time::from_hms(10, 0, 0).unwrap());

    // 2nd 15-minute bin
    let time = Time::from_hms(10, 25, 00).unwrap();
    let binned = time_bin(time);
    assert_eq!(binned, Time::from_hms(10, 15, 0).unwrap());

    let time = Time::from_hms(10, 29, 00).unwrap();
    let binned = time_bin(time);
    assert_eq!(binned, Time::from_hms(10, 15, 0).unwrap());

    // 3rd 15-minute bin
    let time = Time::from_hms(10, 31, 00).unwrap();
    let binned = time_bin(time);
    assert_eq!(binned, Time::from_hms(10, 30, 0).unwrap());

    let time = Time::from_hms(10, 44, 00).unwrap();
    let binned = time_bin(time);
    assert_eq!(binned, Time::from_hms(10, 30, 0).unwrap());

    // 4th 15-minute bin
    let time = Time::from_hms(10, 45, 00).unwrap();
    let binned = time_bin(time);
    assert_eq!(binned, Time::from_hms(10, 45, 0).unwrap());

    let time = Time::from_hms(10, 59, 00).unwrap();
    let binned = time_bin(time);
    assert_eq!(binned, Time::from_hms(10, 45, 0).unwrap());
}

#[test]
fn main_time_binning_is_correct() {
    let cases = [
        ((10, 0, 0), (10, 0, 0)),
        ((10, 14, 0), (10, 0, 0)),
        ((10, 25, 0), (10, 15, 0)),
        ((10, 29, 0), (10, 15, 0)),
        ((10, 31, 0), (10, 30, 0)),
        ((10, 44, 0), (10, 30, 0)),
        ((10, 45, 0), (10, 45, 0)),
        ((10, 59, 0), (10, 45, 0)),
    ];
    for ((h, m, s), (eh, em, es)) in cases {
        let binned = time_bin(Time::from_hms(h, m, s).unwrap());
        assert_eq!(binned, Time::from_hms(eh, em, es).unwrap());
    }
    assert_ne!(time_bin(Time::from_hms(10, 0, 0).unwrap()), Time::from_hms(10, 10, 0).unwrap());
}

#[test]
fn time_bin_zeroes_seconds() {
    let binned = time_bin(Time::from_hms(23, 59, 59).unwrap());
    assert_eq!(binned, Time { hour: 23, minute: 45, second: 0 });
    let binned = time_bin(Time::from_hms(0, 15, 30).unwrap());
    assert_eq!(binned, Time { hour: 0, minute: 15, second: 0 });
}

#[test]
fn time_and_date_components_are_checked() {
    assert_eq!(Time::from_hms(24, 0, 0), Err(CountError::InvalidComponent));
    assert_eq!(Time::from_hms(0, 60, 0), Err(CountError::InvalidComponent));
    assert_eq!(Time::from_hms(0, 0, 60), Err(CountError::InvalidComponent));
    assert_eq!(Time::from_hms(23, 59, 59), Ok(Time { hour: 23, minute: 59, second: 59 }));
    assert!(traffic_counts::Date::from_calendar_date(2019, 2, 29).is_err());
    assert!(traffic_counts::Date::from_calendar_date(2019, 13, 1).is_err());
    assert!(traffic_counts::Date::from_calendar_date(2019, 0, 1).is_err());
    assert!(traffic_counts::Date::from_calendar_date(2019, 4, 31).is_err());
    let leap = traffic_counts::Date::from_calendar_date(2020, 2, 29).unwrap();
    assert_eq!((leap.year, leap.month, leap.day), (2020, 2, 29));
    assert!(traffic_counts::Date::from_calendar_date(2019, 12, 31).is_ok());
}

#[test]
fn unclassified_and_zero_codes_are_unclassified() {
    assert_eq!(VehicleClass::from_num(14), Ok(VehicleClass::UnclassifiedVehicle));
    assert_eq!(VehicleClass::from_num(0), Ok(VehicleClass::UnclassifiedVehicle));
    assert_eq!(VehicleClass::from_num(1), Ok(VehicleClass::Motorcycles));
    assert_eq!(VehicleClass::from_num(13), Ok(VehicleClass::SevenOrMoreAxleMultiTrailerTrucks));
    assert_eq!(VehicleClass::from_num(15), Err(CountError::BadVehicleClass(15)));
    assert_eq!(VehicleClass::from_num(200), Err(CountError::BadVehicleClass(200)));
}

#[test]
fn unclassified_vehicle_counts_twice() {
    let mut count = VehicleClassCount::new(1, Direction::North);
    count.insert(VehicleClass::UnclassifiedVehicle);
    assert_eq!(count.c2, 1);
    assert_eq!(count.c15, 1);
    assert_eq!(count.total, 1);
    let others = [
        count.c1, count.c3, count.c4, count.c5, count.c6, count.c7, count.c8, count.c9,
        count.c10, count.c11, count.c12, count.c13,
    ];
    assert!(others.iter().all(|&c| c == 0));
}

#[test]
fn classified_vehicle_counts_once() {
    let mut count = VehicleClassCount::new(7, Direction::East);
    count.insert(VehicleClass::Buses);
    count.insert(VehicleClass::Buses);
    count.insert(VehicleClass::PassengerCars);
    assert_eq!(count.c4, 2);
    assert_eq!(count.c2, 1);
    assert_eq!(count.c15, 0);
    assert_eq!(count.total, 3);
    assert_eq!(count.dvrpc_num, 7);
    assert_eq!(count.direction, Direction::East);
}

#[test]
fn speed_bin_boundaries() {
    assert_eq!(speed_bin(mph(false, 150, 1)), Ok(1));
    assert_eq!(speed_bin(mph(false, 151, 1)), Ok(2));
    assert_eq!(speed_bin(mph(false, 200, 1)), Ok(2));
    assert_eq!(speed_bin(mph(false, 20, 0)), Ok(2));
    assert_eq!(speed_bin(mph(false, 2001, 2)), Ok(3));
    assert_eq!(speed_bin(mph(false, 750, 1)), Ok(13));
    assert_eq!(speed_bin(mph(false, 751, 1)), Ok(14));
    assert_eq!(speed_bin(mph(false, 0, 0)), Ok(1));
    assert_eq!(speed_bin(mph(true, 1, 1)), Err(CountError::InvalidSpeed));
    assert_eq!(speed_bin(mph(true, 0, 1)), Err(CountError::InvalidSpeed));
    assert_eq!(speed_bin(mph(false, 1_000_000_000_000_000_000, 18)), Ok(1));
    assert!(Speed::new(false, 1, 19).is_none());
}

#[test]
fn lib_speed_binning_is_correct() {
    let mut speed_count = SpeedRangeCount::new(123, Direction::West);

    assert!(speed_count.insert(mph(true, 1, 1)).is_err()); // -0.1
    assert!(speed_count.insert(mph(true, 0, 1)).is_err()); // -0.0

    // s1
    speed_count.insert(mph(false, 0, 1)).unwrap();
    speed_count.insert(mph(false, 1, 1)).unwrap();
    speed_count.insert(mph(false, 150, 1)).unwrap();

    // s2
    speed_count.insert(mph(false, 151, 1)).unwrap();
    speed_count.insert(mph(false, 200, 1)).unwrap();

    // s3
    speed_count.insert(mph(false, 201, 1)).unwrap();
    speed_count.insert(mph(false, 250, 1)).unwrap();

    // s4
    speed_count.insert(mph(false, 251, 1)).unwrap();
    speed_count.insert(mph(false, 300, 1)).unwrap();

    // s5
    speed_count.insert(mph(false, 301, 1)).unwrap();
    speed_count.insert(mph(false, 350, 1)).unwrap();

    // s6
    speed_count.insert(mph(false, 351, 1)).unwrap();
    speed_count.insert(mph(false, 400, 1)).unwrap();

    // s7
    speed_count.insert(mph(false, 401, 1)).unwrap();
    speed_count.insert(mph(false, 450, 1)).unwrap();

    // s8
    speed_count.insert(mph(false, 451, 1)).unwrap();
    speed_count.insert(mph(false, 500, 1)).unwrap();

    // s9
    speed_count.insert(mph(false, 501, 1)).unwrap();
    speed_count.insert(mph(false, 550, 1)).unwrap();

    // s10
    speed_count.insert(mph(false, 551, 1)).unwrap();
    speed_count.insert(mph(false, 600, 1)).unwrap();

    // s11
    speed_count.insert(mph(false, 601, 1)).unwrap();
    speed_count.insert(mph(false, 650, 1)).unwrap();

    // s12
    speed_count.insert(mph(false, 651, 1)).unwrap();
    speed_count.insert(mph(false, 700, 1)).unwrap();

    // s13
    speed_count.insert(mph(false, 701, 1)).unwrap();
    speed_count.insert(mph(false, 750, 1)).unwrap();

    // s14
    speed_count.insert(mph(false, 751, 1)).unwrap();
    speed_count.insert(mph(false, 1000, 1)).unwrap();
    speed_count.insert(mph(false, 1200, 1)).unwrap();

    assert_eq!(speed_count.s1, 3);
    assert_eq!(speed_count.s2, 2);
    assert_eq!(speed_count.s3, 2);
    assert_eq!(speed_count.s4, 2);
    assert_eq!(speed_count.s5, 2);
    assert_eq!(speed_count.s6, 2);
    assert_eq!(speed_count.s7, 2);
    assert_eq!(speed_count.s8, 2);
    assert_eq!(speed_count.s9, 2);
    assert_eq!(speed_count.s10, 2);
    assert_eq!(speed_count.s11, 2);
    assert_eq!(speed_count.s12, 2);
    assert_eq!(speed_count.s13, 2);
    assert_eq!(speed_count.s14, 3);
    assert_eq!(speed_count.total, 30);
}

#[test]
fn rejected_speed_leaves_count_unchanged() {
    let mut speed_count = SpeedRangeCount::new(5, Direction::South);
    speed_count.insert(mph(false, 42, 0)).unwrap();
    let before = speed_count;
    assert_eq!(speed_count.insert(mph(true, 5, 0)), Err(CountError::InvalidSpeed));
    assert_eq!(speed_count, before);
    assert_eq!(speed_count.s7, 1);
    assert_eq!(speed_count.total, 1);
}

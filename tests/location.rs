use traffic_counts::location::{count_type_of_directory, num_metadata_rows_to_skip};
use traffic_counts::{CountError, CountType, Speed};

fn header(fields: &[&str]) -> Vec<String> {
    fields.iter().map(|f| f.to_string()).collect()
}

#[test]
fn count_type_from_location_ignores_case() {
    assert_eq!(
        CountType::from_location("test_files/vehicles/rc-166905-ew-40972-35.txt"),
        Ok(CountType::IndividualVehicle)
    );
    assert_eq!(
        CountType::from_location("data/15MinuteBicycle/count.csv"),
        Ok(CountType::FifteenMinuteBicycle)
    );
    assert_eq!(
        CountType::from_location("data/15minutepedestrian/count.csv"),
        Ok(CountType::FifteenMinutePedestrian)
    );
    assert_eq!(CountType::from_location("data/other/count.csv"), Err(CountError::BadLocation));
    assert_eq!(CountType::from_location("count.csv"), Err(CountError::BadLocation));
    assert_eq!(count_type_of_directory("Vehicles"), None);
    assert_eq!(count_type_of_directory("vehicles"), Some(CountType::IndividualVehicle));
}

#[test]
fn count_type_from_header_row() {
    let fields = header(&["Veh. No.", "Date", "Time", "Channel", "Class", "Speed"]);
    assert_eq!(CountType::from_header(&fields), Ok(CountType::IndividualVehicle));
    let fields = header(&["Veh. No.", "Date", "Time", "Channel", "Class"]);
    assert_eq!(CountType::from_header(&fields), Err(CountError::BadHeader));
    assert_eq!(CountType::from_header(&vec![]), Err(CountError::BadHeader));
}

#[test]
fn metadata_rows_by_count_type() {
    assert_eq!(num_metadata_rows_to_skip(CountType::IndividualVehicle), 3);
    assert_eq!(num_metadata_rows_to_skip(CountType::FifteenMinuteBicycle), 8);
    assert_eq!(num_metadata_rows_to_skip(CountType::FifteenMinutePedestrian), 8);
}

#[test]
fn speed_from_text() {
    assert_eq!(Speed::parse("35.2"), Speed::new(false, 352, 1));
    assert_eq!(Speed::parse("80"), Speed::new(false, 80, 0));
    assert_eq!(Speed::parse("-0.0"), Speed::new(true, 0, 1));
    assert_eq!(Speed::parse("-0.1"), Speed::new(true, 1, 1));
    assert_eq!(Speed::parse("+7."), Speed::new(false, 7, 0));
    assert_eq!(Speed::parse(".5"), Speed::new(false, 5, 1));
    assert_eq!(Speed::parse("19.9999"), Speed::new(false, 199999, 4));
    assert_eq!(Speed::parse(""), None);
    assert_eq!(Speed::parse("-"), None);
    assert_eq!(Speed::parse("."), None);
    assert_eq!(Speed::parse("1.2.3"), None);
    assert_eq!(Speed::parse("12a"), None);
    assert_eq!(Speed::parse("18446744073709551615"), Speed::new(false, u64::MAX, 0));
    assert_eq!(Speed::parse("18446744073709551616"), None);
    assert_eq!(Speed::parse("0.0000000000000000001"), None);
}

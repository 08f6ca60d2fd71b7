use traffic_counts::{CountError, CountMetadata, Direction, Directions, FileNameProblem};

#[test]
fn metadata_parse_from_path_ok() {
    let path = "some/path/rc-166905-ew-40972-35.txt";
    let metadata = CountMetadata::from_path(path).unwrap();
    let expected_metadata = {
        CountMetadata {
            technician: "rc".to_string(),
            dvrpc_num: 166905,
            directions: Directions::new(Direction::East, Some(Direction::West)),
            counter_id: 40972,
            speed_limit: Some(35),
        }
    };
    assert_eq!(metadata, expected_metadata)
}

#[test]
fn metadata_parse_from_path_ok_with_na_speed_limit() {
    let path = "some/path/rc-166905-ew-40972-na.txt";
    let metadata = CountMetadata::from_path(path).unwrap();
    let expected_metadata = {
        CountMetadata {
            technician: "rc".to_string(),
            dvrpc_num: 166905,
            directions: Directions::new(Direction::East, Some(Direction::West)),
            counter_id: 40972,
            speed_limit: None,
        }
    };
    assert_eq!(metadata, expected_metadata)
}

#[test]
fn metadata_parse_from_path_errs_if_too_few_parts() {
    let path = "some/path/rc-166905-ew-40972.txt";
    assert!(matches!(
        CountMetadata::from_path(path),
        Err(CountError::InvalidFileName {
            problem: FileNameProblem::TooFewParts,
            ..
        })
    ))
}

#[test]
fn metadata_parse_from_path_errs_if_too_many_parts() {
    let path = "some/path/rc-166905-ew-40972-35-extra.txt";
    assert!(matches!(
        CountMetadata::from_path(path),
        Err(CountError::InvalidFileName {
            problem: FileNameProblem::TooManyParts,
            ..
        })
    ))
}

#[test]
fn metadata_parse_from_path_errs_if_technician_bad() {
    let path = "some/path/12-letters-ew-40972-35.txt";
    assert!(matches!(
        CountMetadata::from_path(path),
        Err(CountError::InvalidFileName {
            problem: FileNameProblem::InvalidTech,
            ..
        })
    ))
}

#[test]
fn metadata_parse_from_path_errs_if_dvrpcnum_bad() {
    let path = "some/path/rc-letters-ew-40972-35.txt";
    assert!(matches!(
        CountMetadata::from_path(path),
        Err(CountError::InvalidFileName {
            problem: FileNameProblem::InvalidRecordNum,
            ..
        })
    ))
}

#[test]
fn metadata_parse_from_path_errs_if_directions_bad() {
    let path = "some/path/rc-166905-eb-letters-35.txt";
    assert!(matches!(
        CountMetadata::from_path(path),
        Err(CountError::InvalidFileName {
            problem: FileNameProblem::InvalidDirections,
            ..
        })
    ));
    let path = "some/path/rc-166905-be-letters-35.txt";
    assert!(matches!(
        CountMetadata::from_path(path),
        Err(CountError::InvalidFileName {
            problem: FileNameProblem::InvalidDirections,
            ..
        })
    ));
    let path = "some/path/rc-166905-cc-letters-35.txt";
    assert!(matches!(
        CountMetadata::from_path(path),
        Err(CountError::InvalidFileName {
            problem: FileNameProblem::InvalidDirections,
            ..
        })
    ));
}

#[test]
fn metadata_parse_from_path_errs_if_counter_id_bad() {
    let path = "some/path/rc-166905-ew-letters-35.txt";
    assert!(matches!(
        CountMetadata::from_path(path),
        Err(CountError::InvalidFileName {
            problem: FileNameProblem::InvalidCounterID,
            ..
        })
    ))
}

#[test]
fn metadata_parse_from_path_errs_if_speedlimit_bad() {
    let path = "some/path/rc-166905-ew-40972-abc.txt";
    assert!(matches!(
        CountMetadata::from_path(path),
        Err(CountError::InvalidFileName {
            problem: FileNameProblem::InvalidSpeedLimit,
            ..
        })
    ))
}

#[test]
fn metadata_from_stem_single_direction_and_signs() {
    let m = CountMetadata::from_stem("jd-+12-n-007-0").unwrap();
    assert_eq!(m.technician, "jd");
    assert_eq!(m.dvrpc_num, 12);
    assert_eq!(m.directions, Directions::new(Direction::North, None));
    assert_eq!(m.counter_id, 7);
    assert_eq!(m.speed_limit, Some(0));
}

#[test]
fn metadata_from_stem_rejects_overflowing_numbers() {
    assert_eq!(
        CountMetadata::from_stem("rc-2147483648-ew-1-35"),
        Err(CountError::InvalidFileName { problem: FileNameProblem::InvalidRecordNum })
    );
    assert_eq!(
        CountMetadata::from_stem("rc-2147483647-ew-1-35").unwrap().dvrpc_num,
        2147483647
    );
}

#[test]
fn metadata_from_path_without_file_name() {
    assert_eq!(CountMetadata::from_path(""), Err(CountError::BadPath));
    assert_eq!(CountMetadata::from_path("/"), Err(CountError::BadPath));
}

use traffic_counts::check_data::{
    bicycle_warning, checks_for_type, class_mix_warnings, consecutive_zero_warnings,
    direction_balance_warning,
};
use traffic_counts::{
    check, ChecksToRun, ClassCountCheck, CountError, CountSnapshot, Date, Direction,
    DirectionalVolume, PrimitiveDateTime, Time, Warning,
};

fn class_row(c2: u32, c15: u32, total: u32) -> ClassCountCheck {
    ClassCountCheck {
        datetime: PrimitiveDateTime::new(
            Date::from_calendar_date(2023, 5, 17).unwrap(),
            Time::from_hms(10, 0, 0).unwrap(),
        ),
        lane: 1,
        dir: Direction::North,
        c2,
        c15,
        total,
    }
}

fn volume(direction: Direction, total: u32) -> DirectionalVolume {
    DirectionalVolume { total, direction }
}

fn slots(values: &[Option<u32>]) -> Vec<Option<u32>> {
    let mut v = values.to_vec();
    v.resize(19, Some(10));
    v
}

#[test]
fn class_mix_warns_on_low_class_two_and_high_unclassified() {
    let rows = vec![class_row(400, 100, 500), class_row(300, 50, 500)];
    let w = class_mix_warnings(&rows);
    assert_eq!(
        w,
        vec![
            Warning::ClassTwoShareLow { c2: 700, total: 1000 },
            Warning::UnclassifiedShareHigh { c15: 150, total: 1000 },
        ]
    );
}

#[test]
fn class_mix_boundaries_do_not_warn() {
    // exactly 75% class 2 and exactly 10% unclassified
    let rows = vec![class_row(750, 100, 1000)];
    assert!(class_mix_warnings(&rows).is_empty());
    assert!(class_mix_warnings(&vec![]).is_empty());
}

#[test]
fn direction_balance_warns_below_forty_percent() {
    let rows = vec![
        volume(Direction::North, 10),
        volume(Direction::South, 70),
        volume(Direction::North, 20),
    ];
    assert_eq!(
        direction_balance_warning(&rows),
        Some(Warning::DirectionImbalance {
            smaller: Direction::North,
            smaller_total: 30,
            larger: Direction::South,
            larger_total: 70,
        })
    );
}

#[test]
fn direction_balance_accepts_forty_five_percent() {
    let rows = vec![volume(Direction::North, 45), volume(Direction::South, 55)];
    assert_eq!(direction_balance_warning(&rows), None);
    let rows = vec![volume(Direction::East, 40), volume(Direction::West, 60)];
    assert_eq!(direction_balance_warning(&rows), None);
}

#[test]
fn direction_balance_needs_two_directions() {
    assert_eq!(direction_balance_warning(&vec![volume(Direction::East, 5)]), None);
    assert_eq!(direction_balance_warning(&vec![]), None);
    let rows = vec![volume(Direction::East, 0), volume(Direction::West, 0)];
    assert_eq!(direction_balance_warning(&rows), None);
}

#[test]
fn consecutive_zeros_warn_from_second_slot_of_a_run() {
    let row = slots(&[Some(0), Some(0), Some(5), Some(0), Some(0), Some(0)]);
    let w = consecutive_zero_warnings(&vec![row]);
    assert_eq!(
        w,
        vec![
            Warning::ConsecutiveZeroHour { row: 0, slot: 1 },
            Warning::ConsecutiveZeroHour { row: 0, slot: 4 },
            Warning::ConsecutiveZeroHour { row: 0, slot: 5 },
        ]
    );
}

#[test]
fn lone_zero_never_warns_and_missing_counts_as_zero() {
    let lone = slots(&[Some(3), Some(0), Some(3), Some(0)]);
    assert!(consecutive_zero_warnings(&vec![lone]).is_empty());
    let missing = slots(&[Some(3), None, Some(0)]);
    let w = consecutive_zero_warnings(&vec![slots(&[]), missing]);
    assert_eq!(w, vec![Warning::ConsecutiveZeroHour { row: 1, slot: 2 }]);
}

#[test]
fn bicycle_warns_once_on_first_total_over_twenty() {
    let w = bicycle_warning(&vec![5, 12, 21, 30]);
    assert_eq!(w, Some(Warning::BicycleCountHigh { index: 2, total: 21 }));
    assert_eq!(bicycle_warning(&vec![5, 12, 20, 0]), None);
    assert_eq!(bicycle_warning(&vec![]), None);
}

#[test]
fn checks_follow_count_type() {
    let motor = ChecksToRun {
        class_mix: false,
        direction_balance: true,
        consecutive_zeros: true,
        bicycle: false,
    };
    assert_eq!(checks_for_type("Class"), ChecksToRun { class_mix: true, ..motor });
    assert_eq!(checks_for_type("Volume"), motor);
    assert_eq!(checks_for_type("15 min Volume"), motor);
    let bike = ChecksToRun {
        class_mix: false,
        direction_balance: false,
        consecutive_zeros: false,
        bicycle: true,
    };
    assert_eq!(checks_for_type("15 min Bicycle"), bike);
    assert_eq!(checks_for_type("Bicycle"), bike);
    let none = ChecksToRun { bicycle: false, ..bike };
    assert_eq!(checks_for_type("class"), none);
    assert_eq!(checks_for_type("Pedestrian"), none);
    assert_eq!(checks_for_type(""), none);
}

#[test]
fn check_needs_a_count_type() {
    let snapshot = CountSnapshot {
        class_counts: vec![],
        volumes: vec![],
        hourly: vec![],
        bicycle_totals: vec![],
    };
    assert_eq!(check(None, &snapshot), Err(CountError::UnknownCountType));
    assert_eq!(check(Some("Pedestrian"), &snapshot), Ok(vec![]));
}

#[test]
fn check_runs_the_rules_of_the_type_in_order() {
    let snapshot = CountSnapshot {
        class_counts: vec![class_row(700, 150, 1000)],
        volumes: vec![volume(Direction::North, 30), volume(Direction::South, 70)],
        hourly: vec![slots(&[Some(0), Some(0)])],
        bicycle_totals: vec![25],
    };
    let class_warnings = check(Some("Class"), &snapshot).unwrap();
    assert_eq!(
        class_warnings,
        vec![
            Warning::ClassTwoShareLow { c2: 700, total: 1000 },
            Warning::UnclassifiedShareHigh { c15: 150, total: 1000 },
            Warning::DirectionImbalance {
                smaller: Direction::North,
                smaller_total: 30,
                larger: Direction::South,
                larger_total: 70,
            },
            Warning::ConsecutiveZeroHour { row: 0, slot: 1 },
        ]
    );
    let bike_warnings = check(Some("15 min Bicycle"), &snapshot).unwrap();
    assert_eq!(bike_warnings, vec![Warning::BicycleCountHigh { index: 0, total: 25 }]);
}

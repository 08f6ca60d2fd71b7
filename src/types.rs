//! The shared data model: directions, vehicle classes, and errors.

use vstd::prelude::*;

verus! {

/// The direction of a lane.
#[derive(Debug, Clone, Copy, PartialEq, Eq, Structural)]
pub enum Direction {
    North,
    East,
    South,
    West,
}

/// The directions that a count could contain.
#[derive(Debug, Clone, Copy, PartialEq, Eq, Structural)]
pub struct Directions {
    pub direction1: Direction,
    pub direction2: Option<Direction>,
}

impl Directions {
    pub fn new(direction1: Direction, direction2: Option<Direction>) -> (r: Self)
        ensures
            r.direction1 == direction1,
            r.direction2 == direction2,
    {
        Self { direction1, direction2 }
    }
}

/// The metadata of a count.
#[derive(Debug, Clone, PartialEq, Eq)]
pub struct CountMetadata {
    pub technician: String,  // initials
    pub dvrpc_num: i32,
    pub directions: Directions,
    pub counter_id: i32,
    pub speed_limit: Option<i32>,
}

/// Names of the classifications from the FHWA.
///
/// See:
///  * <https://www.fhwa.dot.gov/policyinformation/vehclass.cfm>
///  * <https://www.fhwa.dot.gov/policyinformation/tmguide/tmg_2013/vehicle-types.cfm>
#[derive(Debug, Clone, Copy, PartialEq, Eq, Structural)]
pub enum VehicleClass {
    Motorcycles,  // 1
    PassengerCars,  // 2
    OtherFourTireSingleUnitVehicles,  // 3
    Buses,  // 4
    TwoAxleSixTireSingleUnitTrucks,  // 5
    ThreeAxleSingleUnitTrucks,  // 6
    FourOrMoreAxleSingleUnitTrucks,  // 7
    FourOrFewerAxleSingleTrailerTrucks,  // 8
    FiveAxleSingleTrailerTrucks,  // 9
    SixOrMoreAxleSingleTrailerTrucks,  // 10
    FiveOrFewerAxleMultiTrailerTrucks,  // 11
    SixAxleMultiTrailerTrucks,  // 12
    SevenOrMoreAxleMultiTrailerTrucks,  // 13
    UnclassifiedVehicle,  // 15 (there is an "Unused" class group at 14)
}

/// The class that a raw code stands for: 1 to 13 in FHWA order, 0 and 14 both unclassified,
/// anything else none.
pub open spec fn class_of_code(num: u8) -> Option<VehicleClass> {
    if num == 0 || num == 14 {
        Some(VehicleClass::UnclassifiedVehicle)
    } else if num == 1 {
        Some(VehicleClass::Motorcycles)
    } else if num == 2 {
        Some(VehicleClass::PassengerCars)
    } else if num == 3 {
        Some(VehicleClass::OtherFourTireSingleUnitVehicles)
    } else if num == 4 {
        Some(VehicleClass::Buses)
    } else if num == 5 {
        Some(VehicleClass::TwoAxleSixTireSingleUnitTrucks)
    } else if num == 6 {
        Some(VehicleClass::ThreeAxleSingleUnitTrucks)
    } else if num == 7 {
        Some(VehicleClass::FourOrMoreAxleSingleUnitTrucks)
    } else if num == 8 {
        Some(VehicleClass::FourOrFewerAxleSingleTrailerTrucks)
    } else if num == 9 {
        Some(VehicleClass::FiveAxleSingleTrailerTrucks)
    } else if num == 10 {
        Some(VehicleClass::SixOrMoreAxleSingleTrailerTrucks)
    } else if num == 11 {
        Some(VehicleClass::FiveOrFewerAxleMultiTrailerTrucks)
    } else if num == 12 {
        Some(VehicleClass::SixAxleMultiTrailerTrucks)
    } else if num == 13 {
        Some(VehicleClass::SevenOrMoreAxleMultiTrailerTrucks)
    } else {
        None
    }
}

impl VehicleClass {
    /// Create a VehicleClass from a number.
    pub fn from_num(num: u8) -> (r: Result<Self, CountError>)
        ensures
            num <= 14 ==> r == Ok::<Self, CountError>(class_of_code(num).unwrap()),
            num > 14 ==> r == Err::<Self, CountError>(CountError::BadVehicleClass(num)),
    {
        match num {
            1 => Ok(VehicleClass::Motorcycles),
            2 => Ok(VehicleClass::PassengerCars),
            3 => Ok(VehicleClass::OtherFourTireSingleUnitVehicles),
            4 => Ok(VehicleClass::Buses),
            5 => Ok(VehicleClass::TwoAxleSixTireSingleUnitTrucks),
            6 => Ok(VehicleClass::ThreeAxleSingleUnitTrucks),
            7 => Ok(VehicleClass::FourOrMoreAxleSingleUnitTrucks),
            8 => Ok(VehicleClass::FourOrFewerAxleSingleTrailerTrucks),
            9 => Ok(VehicleClass::FiveAxleSingleTrailerTrucks),
            10 => Ok(VehicleClass::SixOrMoreAxleSingleTrailerTrucks),
            11 => Ok(VehicleClass::FiveOrFewerAxleMultiTrailerTrucks),
            12 => Ok(VehicleClass::SixAxleMultiTrailerTrucks),
            13 => Ok(VehicleClass::SevenOrMoreAxleMultiTrailerTrucks),
            0 | 14 => Ok(VehicleClass::UnclassifiedVehicle),
            other => Err(CountError::BadVehicleClass(other)),
        }
    }
}

/// The kinds of count that the counters produce.
#[derive(Debug, Clone, Copy, PartialEq, Eq, Structural)]
pub enum CountType {
    FifteenMinuteBicycle,  // Eco-Counter
    FifteenMinutePedestrian,  // Eco-Counter
    FifteenMinuteVehicle,  // 15-min binned data for the simple volume counts from StarNext/Jamar
    IndividualVehicle,  // Individual vehicles from StarNext/Jamar prior to any binning
}

/// Identifying the problem when there's an error with a filename.
#[derive(Debug, Clone, Copy, PartialEq, Eq, Structural)]
pub enum FileNameProblem {
    TooManyParts,
    TooFewParts,
    InvalidTech,
    InvalidRecordNum,
    InvalidDirections,
    InvalidCounterID,
    InvalidSpeedLimit,
}

/// What can go wrong while reading, binning, or checking counts.
#[derive(Debug, Clone, PartialEq, Eq)]
pub enum CountError {
    /// The path has no usable file name.
    BadPath,
    /// The filename is not of the form technician-recordnum-directions-counterid-speedlimit.
    InvalidFileName { problem: FileNameProblem },
    /// A vehicle class code outside 0 to 14.
    BadVehicleClass(u8),
    /// A negative speed.
    InvalidSpeed,
    /// A channel that the count's directions do not cover.
    UnknownChannel(u8),
    /// A date or time component out of its range.
    InvalidComponent,
    /// The type of the count could not be determined.
    UnknownCountType,
    /// No count type matches the directory of a file.
    BadLocation,
    /// No count type matches the header row of a file.
    BadHeader,
}

} // verus!

//! Binning and aggregation of traffic-sensor observations, and data-quality rules over the
//! stored aggregates.
//!
//! See <https://www.dvrpc.org/traffic/> for additional information about traffic counting.

pub mod aggregate;
pub mod check_data;
pub mod clock;
pub mod counts;
pub mod location;
pub mod metadata;
pub mod text;
pub mod types;

pub use aggregate::{
    create_speed_and_class_count, BinnedCountKey, BinnedCounts, CountedVehicle,
    FifteenMinuteVehicle,
};
pub use check_data::{
    check, ChecksToRun, ClassCountCheck, CountSnapshot, DirectionalVolume, Warning,
};
pub use clock::{time_bin, Date, PrimitiveDateTime, Time};
pub use counts::{speed_bin, Speed, SpeedRangeCount, VehicleClassCount};
pub use types::{
    CountError, CountMetadata, CountType, Direction, Directions, FileNameProblem, VehicleClass,
};

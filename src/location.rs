//! The type of a count file, from the directory it is in and from its header row.

use vstd::prelude::*;

use crate::text::{chars_of, same_chars};
use crate::types::{CountError, CountType};

verus! {

/// The header row of a file of individual vehicles, its fields joined by commas.
pub const VEHICLE_COUNT_HEADER: &'static str = "Veh. No.,Date,Time,Channel,Class,Speed";

/// What `str::to_lowercase` makes of a string.
pub uninterp spec fn lower_of(s: Seq<char>) -> Seq<char>;

/// Relies on `str::to_lowercase`: the result depends on the characters alone.
#[verifier::external_body]
fn lowercase(s: &str) -> (r: String)
    ensures
        r@ == lower_of(s@),
{
    s.to_lowercase()
}

/// Relies on `std::path::Path::parent` and `Path::components` for the name of the directory
/// immediately above the file at `path`. Nothing is assumed of what it returns.
#[verifier::external_body]
fn parent_dir_name(path: &str) -> (r: Option<&str>) {
    std::path::Path::new(path).parent()?.components().last()?.as_os_str().to_str()
}

/// The count type that a (lowercased) directory name stands for.
pub open spec fn directory_count_type(name: Seq<char>) -> Option<CountType> {
    if name == "15minutebicycle"@ {
        Some(CountType::FifteenMinuteBicycle)
    } else if name == "15minutepedestrian"@ {
        Some(CountType::FifteenMinutePedestrian)
    } else if name == "vehicles"@ {
        Some(CountType::IndividualVehicle)
    } else {
        None
    }
}

/// The count type of the files in a directory, by the directory's lowercased name.
pub fn count_type_of_directory(lowered: &str) -> (r: Option<CountType>)
    ensures
        r == directory_count_type(lowered@),
{
    let name = chars_of(lowered);
    if same_chars(&name, &chars_of("15minutebicycle")) {
        Some(CountType::FifteenMinuteBicycle)
    } else if same_chars(&name, &chars_of("15minutepedestrian")) {
        Some(CountType::FifteenMinutePedestrian)
    } else if same_chars(&name, &chars_of("vehicles")) {
        Some(CountType::IndividualVehicle)
    } else {
        None
    }
}

/// The fields of a row joined by commas.
pub open spec fn joined(fields: Seq<Seq<char>>) -> Seq<char>
    decreases fields.len(),
{
    if fields.len() == 0 {
        seq![]
    } else if fields.len() == 1 {
        fields[0]
    } else {
        joined(fields.drop_last()) + seq![','] + fields.last()
    }
}

pub open spec fn field_views(fields: Seq<String>) -> Seq<Seq<char>> {
    fields.map_values(|f: String| f@)
}

/// The count type that a header row stands for.
pub open spec fn header_count_type(fields: Seq<String>) -> Option<CountType> {
    if joined(field_views(fields)) == VEHICLE_COUNT_HEADER@ {
        Some(CountType::IndividualVehicle)
    } else {
        None
    }
}

impl CountType {
    /// Get the count type from the directory immediately above the file, whose name is compared
    /// without regard to case.
    pub fn from_location(path: &str) -> (r: Result<CountType, CountError>)
        ensures
            r is Err ==> r == Err::<CountType, CountError>(CountError::BadLocation),
            r is Ok ==> exists|name: Seq<char>|
                #[trigger] directory_count_type(lower_of(name)) == Some(r.unwrap()),
    {
        let dir = match parent_dir_name(path) {
            Some(d) => d,
            None => return Err(CountError::BadLocation),
        };
        let lowered = lowercase(dir);
        match count_type_of_directory(lowered.as_str()) {
            Some(t) => {
                assert(directory_count_type(lower_of(dir@)) == Some(t));
                Ok(t)
            },
            None => Err(CountError::BadLocation),
        }
    }

    /// Get the count type from the header row of a file (its fields already trimmed).
    pub fn from_header(fields: &Vec<String>) -> (r: Result<CountType, CountError>)
        ensures
            match header_count_type(fields@) {
                Some(t) => r == Ok::<CountType, CountError>(t),
                None => r == Err::<CountType, CountError>(CountError::BadHeader),
            },
    {
        let mut row: Vec<char> = Vec::new();
        let mut k: usize = 0;
        while k < fields.len()
            invariant
                k <= fields.len(),
                row@ == joined(field_views(fields@.subrange(0, k as int))),
            decreases fields.len() - k,
        {
            let ghost pre = field_views(fields@.subrange(0, k as int));
            let ghost next = field_views(fields@.subrange(0, k + 1));
            assert(next.drop_last() =~= pre);
            assert(next.last() == fields@[k as int]@);
            let mut f = chars_of(fields[k].as_str());
            if k > 0 {
                row.push(',');
            }
            row.append(&mut f);
            assert(k == 0 ==> next.len() == 1);
            assert(row@ =~= joined(next));
            k = k + 1;
        }
        assert(fields@.subrange(0, fields.len() as int) =~= fields@);
        if same_chars(&row, &chars_of(VEHICLE_COUNT_HEADER)) {
            Ok(CountType::IndividualVehicle)
        } else {
            Err(CountError::BadHeader)
        }
    }
}

/// How many rows of metadata stand above the header row in a file of this type.
pub fn num_metadata_rows_to_skip(count_type: CountType) -> (r: usize)
    ensures
        count_type == CountType::IndividualVehicle ==> r == 3,
        count_type != CountType::IndividualVehicle ==> r == 8,
{
    match count_type {
        CountType::IndividualVehicle => 3,
        _ => 8,
    }
}

} // verus!

//! A count's metadata, read from the name of its file.
//!
//! In the filename, each field is separated by a dash (-):
//! `technician-dvrpc_num-directions-counter_id-speed_limit.csv/txt`, e.g. `rc-166905-ew-40972-35.txt`.

use vstd::prelude::*;
use vstd::string::*;

use crate::types::{CountError, CountMetadata, Direction, Directions, FileNameProblem};

verus! {

#[verifier::external_type_specification]
#[verifier::external_body]
pub struct ExParseIntError(core::num::ParseIntError);

pub open spec fn is_digit(c: char) -> bool {
    '0' <= c <= '9'
}

/// The value of a string of decimal digits.
pub open spec fn digits_value(s: Seq<char>) -> int
    decreases s.len(),
{
    if s.len() == 0 {
        0
    } else {
        digits_value(s.drop_last()) * 10 + (s.last() as u32 as int - '0' as u32 as int)
    }
}

/// The integer that `s` writes: an optional `+` or `-`, then one or more decimal digits.
pub open spec fn int_text_value(s: Seq<char>) -> Option<int> {
    let signed = s.len() > 0 && (s[0] == '+' || s[0] == '-');
    let ds = if signed {
        s.drop_first()
    } else {
        s
    };
    if ds.len() > 0 && forall|i: int| 0 <= i < ds.len() ==> is_digit(#[trigger] ds[i]) {
        Some(
            if signed && s[0] == '-' {
                -digits_value(ds)
            } else {
                digits_value(ds)
            },
        )
    } else {
        None
    }
}

/// The `i32` that `s` writes, if it writes one in range.
pub open spec fn i32_of_text(s: Seq<char>) -> Option<i32> {
    match int_text_value(s) {
        Some(v) => if i32::MIN <= v <= i32::MAX {
            Some(v as i32)
        } else {
            None
        },
        None => None,
    }
}

/// Relies on `<i32 as FromStr>::from_str`: it accepts exactly an optional `+` or `-` followed by
/// one or more ASCII digits whose value fits in an `i32`, and returns that value.
#[verifier::external_body]
fn parse_i32(s: &str) -> (r: Result<i32, core::num::ParseIntError>)
    ensures
        r.is_ok() <==> i32_of_text(s@) is Some,
        r.is_ok() ==> r.unwrap() == i32_of_text(s@).unwrap(),
{
    s.parse::<i32>()
}

/// Relies on `std::path::Path::file_stem` (and `OsStr::to_str`) for the file name of `path` without
/// its extension. Nothing is assumed of what it returns.
#[verifier::external_body]
fn file_stem(path: &str) -> (r: Option<&str>) {
    std::path::Path::new(path).file_stem().and_then(|s| s.to_str())
}

/// The positions of the dashes among the first `n` characters of `s`.
pub open spec fn dashes(s: Seq<char>, n: nat) -> Seq<int>
    decreases n,
{
    if n == 0 || n > s.len() {
        seq![]
    } else {
        dashes(s, (n - 1) as nat) + if s[n - 1] == '-' {
            seq![n - 1]
        } else {
            seq![]
        }
    }
}

/// The `k`th dash-separated part of `s`.
pub open spec fn part(s: Seq<char>, k: int) -> Seq<char> {
    let d = dashes(s, s.len());
    let start = if k == 0 {
        0
    } else {
        d[k - 1] + 1
    };
    let end = if k < d.len() {
        d[k]
    } else {
        s.len() as int
    };
    s.subrange(start, end)
}

proof fn lemma_dashes_ordered(s: Seq<char>, n: nat)
    requires
        n <= s.len(),
    ensures
        forall|i: int| 0 <= i < dashes(s, n).len() ==> 0 <= #[trigger] dashes(s, n)[i] < n,
        forall|i: int, j: int|
            0 <= i < j < dashes(s, n).len() ==> #[trigger] dashes(s, n)[i] < #[trigger] dashes(
                s,
                n,
            )[j],
        forall|i: int|
            0 <= i < dashes(s, n).len() ==> s[#[trigger] dashes(s, n)[i]] == '-',
    decreases n,
{
    if n > 0 {
        lemma_dashes_ordered(s, (n - 1) as nat);
        let p = dashes(s, (n - 1) as nat);
        let d = dashes(s, n);
        assert forall|i: int| 0 <= i < p.len() implies d[i] == p[i] by {}
        if s[n - 1] == '-' {
            assert(d.len() == p.len() + 1);
            assert(d[p.len() as int] == n - 1);
        } else {
            assert(d =~= p);
        }
    }
}

/// The directions that a code of the filename stands for.
pub open spec fn directions_of_code(c: Seq<char>) -> Option<Directions> {
    if c == seq!['n', 's'] {
        Some(Directions { direction1: Direction::North, direction2: Some(Direction::South) })
    } else if c == seq!['s', 'n'] {
        Some(Directions { direction1: Direction::South, direction2: Some(Direction::North) })
    } else if c == seq!['e', 'w'] {
        Some(Directions { direction1: Direction::East, direction2: Some(Direction::West) })
    } else if c == seq!['w', 'e'] {
        Some(Directions { direction1: Direction::West, direction2: Some(Direction::East) })
    } else if c == seq!['n', 'n'] {
        Some(Directions { direction1: Direction::North, direction2: Some(Direction::North) })
    } else if c == seq!['s', 's'] {
        Some(Directions { direction1: Direction::South, direction2: Some(Direction::South) })
    } else if c == seq!['e', 'e'] {
        Some(Directions { direction1: Direction::East, direction2: Some(Direction::East) })
    } else if c == seq!['w', 'w'] {
        Some(Directions { direction1: Direction::West, direction2: Some(Direction::West) })
    } else if c == seq!['n'] {
        Some(Directions { direction1: Direction::North, direction2: None })
    } else if c == seq!['s'] {
        Some(Directions { direction1: Direction::South, direction2: None })
    } else if c == seq!['e'] {
        Some(Directions { direction1: Direction::East, direction2: None })
    } else if c == seq!['w'] {
        Some(Directions { direction1: Direction::West, direction2: None })
    } else {
        None
    }
}

/// The fields that a file stem gives, in order, or the first problem with it.
pub open spec fn parse_stem(s: Seq<char>) -> Result<
    (Seq<char>, i32, Directions, i32, Option<i32>),
    FileNameProblem,
> {
    let nd = dashes(s, s.len()).len();
    if nd < 4 {
        Err(FileNameProblem::TooFewParts)
    } else if nd > 4 {
        Err(FileNameProblem::TooManyParts)
    } else if i32_of_text(part(s, 0)) is Some {
        Err(FileNameProblem::InvalidTech)
    } else if i32_of_text(part(s, 1)) is None {
        Err(FileNameProblem::InvalidRecordNum)
    } else if directions_of_code(part(s, 2)) is None {
        Err(FileNameProblem::InvalidDirections)
    } else if i32_of_text(part(s, 3)) is None {
        Err(FileNameProblem::InvalidCounterID)
    } else if part(s, 4) != seq!['n', 'a'] && i32_of_text(part(s, 4)) is None {
        Err(FileNameProblem::InvalidSpeedLimit)
    } else {
        Ok(
            (
                part(s, 0),
                i32_of_text(part(s, 1)).unwrap(),
                directions_of_code(part(s, 2)).unwrap(),
                i32_of_text(part(s, 3)).unwrap(),
                if part(s, 4) == seq!['n', 'a'] {
                    None
                } else {
                    i32_of_text(part(s, 4))
                },
            ),
        )
    }
}

/// `r` is what the parse `p` of a file stem gives.
pub open spec fn metadata_matches(
    p: Result<(Seq<char>, i32, Directions, i32, Option<i32>), FileNameProblem>,
    r: Result<CountMetadata, CountError>,
) -> bool {
    match p {
        Err(problem) => r == Err::<CountMetadata, CountError>(
            CountError::InvalidFileName { problem },
        ),
        Ok((technician, dvrpc_num, directions, counter_id, speed_limit)) => match r {
            Ok(m) => m.technician@ == technician && m.dvrpc_num == dvrpc_num && m.directions
                == directions && m.counter_id == counter_id && m.speed_limit == speed_limit,
            Err(_) => false,
        },
    }
}

fn find_dashes(s: &str) -> (r: Vec<usize>)
    ensures
        r.len() == dashes(s@, s@.len()).len(),
        forall|i: int| 0 <= i < r.len() ==> r@[i] as int == dashes(s@, s@.len())[i],
{
    let n = s.unicode_len();
    let mut r: Vec<usize> = Vec::new();
    let mut i: usize = 0;
    while i < n
        invariant
            n == s@.len(),
            i <= n,
            r.len() == dashes(s@, i as nat).len(),
            forall|j: int| 0 <= j < r.len() ==> r@[j] as int == dashes(s@, i as nat)[j],
        decreases n - i,
    {
        if s.get_char(i) == '-' {
            r.push(i);
        }
        i = i + 1;
        assert(forall|j: int|
            0 <= j < dashes(s@, (i - 1) as nat).len() ==> dashes(s@, i as nat)[j] == dashes(
                s@,
                (i - 1) as nat,
            )[j]);
    }
    r
}

fn directions_from_code(c: &str) -> (r: Option<Directions>)
    ensures
        r == directions_of_code(c@),
{
    let n = c.unicode_len();
    if n == 1 {
        let a = c.get_char(0);
        assert(c@ =~= seq![a]);
        let d = if a == 'n' {
            Direction::North
        } else if a == 's' {
            Direction::South
        } else if a == 'e' {
            Direction::East
        } else if a == 'w' {
            Direction::West
        } else {
            assert(c@[0] == a);
            return None;
        };
        Some(Directions::new(d, None))
    } else if n == 2 {
        let a = c.get_char(0);
        let b = c.get_char(1);
        assert(c@ =~= seq![a, b]);
        let r = if a == 'n' && b == 's' {
            Some(Directions::new(Direction::North, Some(Direction::South)))
        } else if a == 's' && b == 'n' {
            Some(Directions::new(Direction::South, Some(Direction::North)))
        } else if a == 'e' && b == 'w' {
            Some(Directions::new(Direction::East, Some(Direction::West)))
        } else if a == 'w' && b == 'e' {
            Some(Directions::new(Direction::West, Some(Direction::East)))
        } else if a == 'n' && b == 'n' {
            Some(Directions::new(Direction::North, Some(Direction::North)))
        } else if a == 's' && b == 's' {
            Some(Directions::new(Direction::South, Some(Direction::South)))
        } else if a == 'e' && b == 'e' {
            Some(Directions::new(Direction::East, Some(Direction::East)))
        } else if a == 'w' && b == 'w' {
            Some(Directions::new(Direction::West, Some(Direction::West)))
        } else {
            assert(c@[0] == a && c@[1] == b);
            None
        };
        r
    } else {
        assert(c@.len() != 1 && c@.len() != 2);
        None
    }
}

fn is_na(c: &str) -> (r: bool)
    ensures
        r == (c@ == seq!['n', 'a']),
{
    if c.unicode_len() != 2 {
        return false;
    }
    let a = c.get_char(0);
    let b = c.get_char(1);
    assert(c@ =~= seq![a, b]);
    if a == 'n' && b == 'a' {
        true
    } else {
        assert(c@[0] == a && c@[1] == b);
        false
    }
}

fn file_name_error(problem: FileNameProblem) -> (r: Result<CountMetadata, CountError>)
    ensures
        r == Err::<CountMetadata, CountError>(CountError::InvalidFileName { problem }),
{
    Err(CountError::InvalidFileName { problem })
}

impl CountMetadata {
    /// Get a count's metadata from the stem of its filename (the name without directory or
    /// extension), e.g. `rc-166905-ew-40972-35`.
    pub fn from_stem(stem: &str) -> (r: Result<Self, CountError>)
        ensures
            metadata_matches(parse_stem(stem@), r),
    {
        let d = find_dashes(stem);
        proof {
            lemma_dashes_ordered(stem@, stem@.len());
        }
        if d.len() < 4 {
            return file_name_error(FileNameProblem::TooFewParts);
        }
        if d.len() > 4 {
            return file_name_error(FileNameProblem::TooManyParts);
        }
        let n = stem.unicode_len();
        let tech_part = stem.substring_char(0, d[0]);
        let num_part = stem.substring_char(d[0] + 1, d[1]);
        let dir_part = stem.substring_char(d[1] + 1, d[2]);
        let counter_part = stem.substring_char(d[2] + 1, d[3]);
        let limit_part = stem.substring_char(d[3] + 1, n);
        assert(tech_part@ == part(stem@, 0));
        assert(num_part@ == part(stem@, 1));
        assert(dir_part@ == part(stem@, 2));
        assert(counter_part@ == part(stem@, 3));
        assert(limit_part@ == part(stem@, 4));

        // `technician` should be letters. If parseable as int, then they aren't letters.
        if parse_i32(tech_part).is_ok() {
            return file_name_error(FileNameProblem::InvalidTech);
        }
        let dvrpc_num = match parse_i32(num_part) {
            Ok(v) => v,
            Err(_) => return file_name_error(FileNameProblem::InvalidRecordNum),
        };
        let directions = match directions_from_code(dir_part) {
            Some(v) => v,
            None => return file_name_error(FileNameProblem::InvalidDirections),
        };
        let counter_id = match parse_i32(counter_part) {
            Ok(v) => v,
            Err(_) => return file_name_error(FileNameProblem::InvalidCounterID),
        };
        let speed_limit = if is_na(limit_part) {
            None
        } else {
            match parse_i32(limit_part) {
                Ok(v) => Some(v),
                Err(_) => return file_name_error(FileNameProblem::InvalidSpeedLimit),
            }
        };
        Ok(CountMetadata { technician: tech_part.to_owned(), dvrpc_num, directions, counter_id, speed_limit })
    }

    /// Get a count's metadata from its path, by the stem of its filename (see [`Self::from_stem`]).
    pub fn from_path(path: &str) -> (r: Result<Self, CountError>)
        ensures
            r == Err::<Self, CountError>(CountError::BadPath) || exists|stem: Seq<char>|
                metadata_matches(#[trigger] parse_stem(stem), r),
    {
        match file_stem(path) {
            None => Err(CountError::BadPath),
            Some(stem) => {
                let r = Self::from_stem(stem);
                assert(metadata_matches(parse_stem(stem@), r));
                r
            },
        }
    }
}

} // verus!

//! Data-quality rules over the stored aggregates of one count.
//!
//! Each rule is evaluated on its own, over rows read back from storage, and yields advisory
//! warnings; none of them is an error.

use vstd::prelude::*;

use crate::clock::PrimitiveDateTime;
use crate::text::{chars_of, contains_chars, same_chars, seq_contains};
use crate::types::{CountError, Direction};

verus! {

/// Below this share (in percent) of the total, class 2 vehicles are too few.
pub const CLASS_TWO_MIN_PERCENT: u128 = 75;

/// Above this share (in percent) of the total, unclassified vehicles are too many.
pub const UNCLASSIFIED_MAX_PERCENT: u128 = 10;

/// If a count is bidirectional, the totals for both directions should be relatively proportional.
/// One direction having less than this share (in percent) is considered abnormal.
pub const DIR_PROPORTION_LOWER_BOUND_PERCENT: u128 = 40;

/// Unusually high count for bicycles in a 15-minute period.
pub const BIKE_COUNT_MAX: u32 = 20;

/// One stored row of a class count, as the class-mix rule reads it.
#[derive(Debug, Clone, Copy, PartialEq, Eq, Structural)]
pub struct ClassCountCheck {
    pub datetime: PrimitiveDateTime,
    pub lane: u8,
    pub dir: Direction,
    pub c2: u32,
    pub c15: u32,
    pub total: u32,
}

/// One stored row of a volume count: its total, in one direction.
#[derive(Debug, Clone, Copy, PartialEq, Eq, Structural)]
pub struct DirectionalVolume {
    pub total: u32,
    pub direction: Direction,
}

/// An advisory finding of a data-quality rule.
#[derive(Debug, Clone, Copy, PartialEq, Eq, Structural)]
pub enum Warning {
    /// Class 2 vehicles are less than 75% of the total.
    ClassTwoShareLow { c2: u128, total: u128 },
    /// Unclassified vehicles are more than 10% of the total.
    UnclassifiedShareHigh { c15: u128, total: u128 },
    /// The smaller direction has less than 40% of the two directions' combined total.
    DirectionImbalance {
        smaller: Direction,
        smaller_total: u128,
        larger: Direction,
        larger_total: u128,
    },
    /// A second (or later) consecutive hour with no vehicles, in the given row (one day) and
    /// hourly slot (0 is 4am, 18 is 10pm).
    ConsecutiveZeroHour { row: usize, slot: usize },
    /// The first 15-minute bicycle total above 20, and its position.
    BicycleCountHigh { index: usize, total: u32 },
}

/// Which rules apply to a count, by its type.
#[derive(Debug, Clone, Copy, PartialEq, Eq, Structural)]
pub struct ChecksToRun {
    pub class_mix: bool,
    pub direction_balance: bool,
    pub consecutive_zeros: bool,
    pub bicycle: bool,
}

/// The type names of motor-vehicle counts.
pub open spec fn is_motor_vehicle_type(t: Seq<char>) -> bool {
    t == "Class"@ || t == "Volume"@ || t == "15 min Volume"@
}

/// The rules for a count of type `t`: the class mix for class counts; directional balance and
/// consecutive zero hours for motor-vehicle counts; the bicycle maximum for a type whose name
/// contains "Bicycle".
pub open spec fn checks_for(t: Seq<char>) -> ChecksToRun {
    ChecksToRun {
        class_mix: t == "Class"@,
        direction_balance: is_motor_vehicle_type(t),
        consecutive_zeros: is_motor_vehicle_type(t),
        bicycle: seq_contains(t, "Bicycle"@),
    }
}

/// Decide which rules apply to a count, from the name of its type.
pub fn checks_for_type(count_type: &str) -> (r: ChecksToRun)
    ensures
        r == checks_for(count_type@),
{
    let t = chars_of(count_type);
    let is_class = same_chars(&t, &chars_of("Class"));
    let motor = is_class || same_chars(&t, &chars_of("Volume")) || same_chars(
        &t,
        &chars_of("15 min Volume"),
    );
    let bicycle = contains_chars(&t, &chars_of("Bicycle"));
    ChecksToRun { class_mix: is_class, direction_balance: motor, consecutive_zeros: motor, bicycle }
}

pub open spec fn sum_c2(rows: Seq<ClassCountCheck>) -> int
    decreases rows.len(),
{
    if rows.len() == 0 {
        0
    } else {
        sum_c2(rows.drop_last()) + rows.last().c2
    }
}

pub open spec fn sum_c15(rows: Seq<ClassCountCheck>) -> int
    decreases rows.len(),
{
    if rows.len() == 0 {
        0
    } else {
        sum_c15(rows.drop_last()) + rows.last().c15
    }
}

pub open spec fn sum_total(rows: Seq<ClassCountCheck>) -> int
    decreases rows.len(),
{
    if rows.len() == 0 {
        0
    } else {
        sum_total(rows.drop_last()) + rows.last().total
    }
}

/// The class-mix warnings: class 2 under 75% of the grand total, then unclassified over 10%.
pub open spec fn class_mix(rows: Seq<ClassCountCheck>) -> Seq<Warning> {
    let c2 = sum_c2(rows);
    let c15 = sum_c15(rows);
    let t = sum_total(rows);
    (if c2 * 100 < CLASS_TWO_MIN_PERCENT * t {
        seq![Warning::ClassTwoShareLow { c2: c2 as u128, total: t as u128 }]
    } else {
        seq![]
    }) + (if c15 * 100 > UNCLASSIFIED_MAX_PERCENT * t {
        seq![Warning::UnclassifiedShareHigh { c15: c15 as u128, total: t as u128 }]
    } else {
        seq![]
    })
}

/// Warn if the share of unclassified vehicles is too high or that of class 2 is too low.
pub fn class_mix_warnings(rows: &Vec<ClassCountCheck>) -> (r: Vec<Warning>)
    ensures
        r@ == class_mix(rows@),
{
    let mut c2: u128 = 0;
    let mut c15: u128 = 0;
    let mut total: u128 = 0;
    let mut i: usize = 0;
    while i < rows.len()
        invariant
            i <= rows.len(),
            c2 as int == sum_c2(rows@.subrange(0, i as int)),
            c15 as int == sum_c15(rows@.subrange(0, i as int)),
            total as int == sum_total(rows@.subrange(0, i as int)),
            c2 <= i * 0xFFFF_FFFFu128,
            c15 <= i * 0xFFFF_FFFFu128,
            total <= i * 0xFFFF_FFFFu128,
        decreases rows.len() - i,
    {
        assert(rows@.subrange(0, i + 1).drop_last() =~= rows@.subrange(0, i as int));
        c2 = c2 + rows[i].c2 as u128;
        c15 = c15 + rows[i].c15 as u128;
        total = total + rows[i].total as u128;
        i = i + 1;
    }
    assert(rows@.subrange(0, rows.len() as int) =~= rows@);
    let mut r: Vec<Warning> = Vec::new();
    if c2 * 100 < CLASS_TWO_MIN_PERCENT * total {
        r.push(Warning::ClassTwoShareLow { c2, total });
    }
    if c15 * 100 > UNCLASSIFIED_MAX_PERCENT * total {
        r.push(Warning::UnclassifiedShareHigh { c15, total });
    }
    assert(r@ =~= class_mix(rows@));
    r
}

/// The summed volume of one direction.
pub open spec fn dir_total(rows: Seq<DirectionalVolume>, d: Direction) -> int
    decreases rows.len(),
{
    if rows.len() == 0 {
        0
    } else {
        dir_total(rows.drop_last(), d) + if rows.last().direction == d {
            rows.last().total as int
        } else {
            0
        }
    }
}

/// Some row is in direction `d`.
pub open spec fn dir_present(rows: Seq<DirectionalVolume>, d: Direction) -> bool {
    exists|i: int| 0 <= i < rows.len() && (#[trigger] rows[i]).direction == d
}

/// The directions in the order in which ties are settled.
pub open spec fn direction_order() -> Seq<Direction> {
    seq![Direction::North, Direction::East, Direction::South, Direction::West]
}

/// How many of `ds` have rows.
pub open spec fn present_count(rows: Seq<DirectionalVolume>, ds: Seq<Direction>) -> int
    decreases ds.len(),
{
    if ds.len() == 0 {
        0
    } else {
        present_count(rows, ds.drop_last()) + if dir_present(rows, ds.last()) {
            1int
        } else {
            0
        }
    }
}

/// The first of `ds` with rows and the smallest total.
pub open spec fn smallest_dir(rows: Seq<DirectionalVolume>, ds: Seq<Direction>) -> Option<Direction>
    decreases ds.len(),
{
    if ds.len() == 0 {
        None
    } else {
        let best = smallest_dir(rows, ds.drop_last());
        let d = ds.last();
        if !dir_present(rows, d) {
            best
        } else {
            match best {
                None => Some(d),
                Some(b) => if dir_total(rows, d) < dir_total(rows, b) {
                    Some(d)
                } else {
                    best
                },
            }
        }
    }
}

/// The first of `ds` with rows and the largest total.
pub open spec fn largest_dir(rows: Seq<DirectionalVolume>, ds: Seq<Direction>) -> Option<Direction>
    decreases ds.len(),
{
    if ds.len() == 0 {
        None
    } else {
        let best = largest_dir(rows, ds.drop_last());
        let d = ds.last();
        if !dir_present(rows, d) {
            best
        } else {
            match best {
                None => Some(d),
                Some(b) => if dir_total(rows, d) > dir_total(rows, b) {
                    Some(d)
                } else {
                    best
                },
            }
        }
    }
}

/// The directional-balance warning: where rows hold more than one direction, and the smallest
/// direction total is under 40% of the smallest and largest together.
pub open spec fn direction_balance(rows: Seq<DirectionalVolume>) -> Option<Warning> {
    let ds = direction_order();
    if present_count(rows, ds) > 1 {
        let s = smallest_dir(rows, ds).unwrap();
        let l = largest_dir(rows, ds).unwrap();
        let st = dir_total(rows, s);
        let lt = dir_total(rows, l);
        if st * 100 < DIR_PROPORTION_LOWER_BOUND_PERCENT * (st + lt) {
            Some(
                Warning::DirectionImbalance {
                    smaller: s,
                    smaller_total: st as u128,
                    larger: l,
                    larger_total: lt as u128,
                },
            )
        } else {
            None
        }
    } else {
        None
    }
}

/// The summed volume of one direction, and whether any row has it.
fn direction_total(rows: &Vec<DirectionalVolume>, d: Direction) -> (r: (u128, bool))
    ensures
        r.0 as int == dir_total(rows@, d),
        r.0 <= rows.len() * 0xFFFF_FFFFu128,
        r.1 == dir_present(rows@, d),
{
    let mut t: u128 = 0;
    let mut present = false;
    let mut i: usize = 0;
    while i < rows.len()
        invariant
            i <= rows.len(),
            t as int == dir_total(rows@.subrange(0, i as int), d),
            t <= i * 0xFFFF_FFFFu128,
            present == exists|j: int| 0 <= j < i && (#[trigger] rows@[j]).direction == d,
        decreases rows.len() - i,
    {
        assert(rows@.subrange(0, i + 1).drop_last() =~= rows@.subrange(0, i as int));
        if rows[i].direction == d {
            t = t + rows[i].total as u128;
            present = true;
        }
        i = i + 1;
    }
    assert(rows@.subrange(0, rows.len() as int) =~= rows@);
    (t, present)
}

/// Warn if the directions of a count don't have relatively even shares of its total.
pub fn direction_balance_warning(rows: &Vec<DirectionalVolume>) -> (r: Option<Warning>)
    ensures
        r == direction_balance(rows@),
{
    let order = vec![Direction::North, Direction::East, Direction::South, Direction::West];
    assert(order@ =~= direction_order());
    let mut count: usize = 0;
    let mut smallest: Option<(Direction, u128)> = None;
    let mut largest: Option<(Direction, u128)> = None;
    let mut k: usize = 0;
    while k < order.len()
        invariant
            order@ == direction_order(),
            k <= order.len(),
            count as int == present_count(rows@, order@.subrange(0, k as int)),
            count <= k,
            count > 0 ==> smallest is Some && largest is Some,
            match smallest {
                None => smallest_dir(rows@, order@.subrange(0, k as int)) is None,
                Some((d, t)) => smallest_dir(rows@, order@.subrange(0, k as int)) == Some(d)
                    && t as int == dir_total(rows@, d) && t <= rows.len() * 0xFFFF_FFFFu128,
            },
            match largest {
                None => largest_dir(rows@, order@.subrange(0, k as int)) is None,
                Some((d, t)) => largest_dir(rows@, order@.subrange(0, k as int)) == Some(d)
                    && t as int == dir_total(rows@, d) && t <= rows.len() * 0xFFFF_FFFFu128,
            },
        decreases order.len() - k,
    {
        let ghost pre = order@.subrange(0, k as int);
        assert(order@.subrange(0, k + 1).drop_last() =~= pre);
        let d = order[k];
        let (t, present) = direction_total(rows, d);
        if present {
            count = count + 1;
            match smallest {
                None => {
                    smallest = Some((d, t));
                },
                Some((_, st)) => {
                    if t < st {
                        smallest = Some((d, t));
                    }
                },
            }
            match largest {
                None => {
                    largest = Some((d, t));
                },
                Some((_, lt)) => {
                    if t > lt {
                        largest = Some((d, t));
                    }
                },
            }
        }
        k = k + 1;
    }
    assert(order@.subrange(0, 4) =~= order@);
    if count > 1 {
        match (smallest, largest) {
            (Some((s, st)), Some((l, lt))) => {
                if st * 100 < DIR_PROPORTION_LOWER_BOUND_PERCENT * (st + lt) {
                    return Some(
                        Warning::DirectionImbalance {
                            smaller: s,
                            smaller_total: st,
                            larger: l,
                            larger_total: lt,
                        },
                    );
                }
            },
            _ => {},
        }
    }
    None
}

/// An hourly total that counts as zero: a zero, or a missing reading.
pub open spec fn is_zero_hour(h: Option<u32>) -> bool {
    match h {
        None => true,
        Some(c) => c == 0,
    }
}

/// How many zero hours end at slot `n - 1`, counting back from it.
pub open spec fn zero_run(hours: Seq<Option<u32>>, n: nat) -> nat
    decreases n,
{
    if n == 0 || n > hours.len() {
        0
    } else if is_zero_hour(hours[n - 1]) {
        zero_run(hours, (n - 1) as nat) + 1
    } else {
        0
    }
}

/// The consecutive-zero warnings of the first `n` slots of one row (one day).
pub open spec fn zero_warnings_in_row(row: int, hours: Seq<Option<u32>>, n: nat) -> Seq<Warning>
    decreases n,
{
    if n == 0 {
        seq![]
    } else {
        zero_warnings_in_row(row, hours, (n - 1) as nat) + if zero_run(hours, n) > 1 {
            seq![Warning::ConsecutiveZeroHour { row: row as usize, slot: (n - 1) as usize }]
        } else {
            seq![]
        }
    }
}

/// The consecutive-zero warnings of the first `m` rows, row by row.
pub open spec fn zero_warnings(rows: Seq<Vec<Option<u32>>>, m: nat) -> Seq<Warning>
    decreases m,
{
    if m == 0 || m > rows.len() {
        seq![]
    } else {
        zero_warnings(rows, (m - 1) as nat) + zero_warnings_in_row(
            m - 1,
            rows[m - 1]@,
            rows[m - 1]@.len(),
        )
    }
}

/// Warn on each hour that is the second or a later one of a run of hours with no vehicles, in
/// each row of hourly totals (4am through 10pm of one day). A missing total counts as zero.
pub fn consecutive_zero_warnings(rows: &Vec<Vec<Option<u32>>>) -> (r: Vec<Warning>)
    ensures
        r@ == zero_warnings(rows@, rows@.len()),
{
    let mut r: Vec<Warning> = Vec::new();
    let mut m: usize = 0;
    while m < rows.len()
        invariant
            m <= rows.len(),
            r@ == zero_warnings(rows@, m as nat),
        decreases rows.len() - m,
    {
        let hours = &rows[m];
        let mut run: usize = 0;
        let mut n: usize = 0;
        let ghost before = r@;
        while n < hours.len()
            invariant
                m < rows.len(),
                hours@ == rows@[m as int]@,
                n <= hours.len(),
                run as int == zero_run(hours@, n as nat),
                run <= n,
                before == zero_warnings(rows@, m as nat),
                r@ == before + zero_warnings_in_row(m as int, hours@, n as nat),
            decreases hours.len() - n,
        {
            let zero = match hours[n] {
                None => true,
                Some(c) => c == 0,
            };
            if zero {
                run = run + 1;
            } else {
                run = 0;
            }
            if run > 1 {
                r.push(Warning::ConsecutiveZeroHour { row: m, slot: n });
            }
            n = n + 1;
            assert(r@ =~= before + zero_warnings_in_row(m as int, hours@, n as nat));
        }
        m = m + 1;
    }
    r
}

/// A slot warns exactly when it and the slot before it are both zero hours: a run of zeros warns
/// from its second slot on, and a lone zero never warns.
pub proof fn lemma_zero_warning_needs_two_zeros(hours: Seq<Option<u32>>, i: int)
    requires
        0 <= i < hours.len(),
    ensures
        zero_run(hours, (i + 1) as nat) > 1 <==> (i >= 1 && is_zero_hour(hours[i]) && is_zero_hour(
            hours[i - 1],
        )),
{
    if i >= 1 && is_zero_hour(hours[i]) {
        assert(zero_run(hours, (i + 1) as nat) == zero_run(hours, i as nat) + 1);
    }
    if i == 0 {
        assert(zero_run(hours, 0) == 0);
    }
}

/// The bicycle warning: the first 15-minute total above the maximum, if any.
pub open spec fn bicycle(totals: Seq<u32>) -> Option<Warning>
    decreases totals.len(),
{
    if totals.len() == 0 {
        None
    } else {
        match bicycle(totals.drop_last()) {
            Some(w) => Some(w),
            None => if totals.last() > BIKE_COUNT_MAX {
                Some(
                    Warning::BicycleCountHigh {
                        index: (totals.len() - 1) as usize,
                        total: totals.last(),
                    },
                )
            } else {
                None
            },
        }
    }
}

/// Warn about a bicycle count having more than 20 in any 15-minute period; only the first such
/// period is reported.
pub fn bicycle_warning(totals: &Vec<u32>) -> (r: Option<Warning>)
    ensures
        r == bicycle(totals@),
        r is None <==> forall|i: int| 0 <= i < totals.len() ==> totals@[i] <= BIKE_COUNT_MAX,
        match r {
            Some(w) => exists|i: int|
                0 <= i < totals.len() && totals@[i] > BIKE_COUNT_MAX && (forall|j: int|
                    0 <= j < i ==> totals@[j] <= BIKE_COUNT_MAX) && w == (Warning::BicycleCountHigh {
                    index: i as usize,
                    total: totals@[i],
                }),
            None => true,
        },
{
    let mut i: usize = 0;
    while i < totals.len()
        invariant
            i <= totals.len(),
            forall|j: int| 0 <= j < i ==> totals@[j] <= BIKE_COUNT_MAX,
            bicycle(totals@.subrange(0, i as int)) is None,
        decreases totals.len() - i,
    {
        assert(totals@.subrange(0, i + 1).drop_last() =~= totals@.subrange(0, i as int));
        if totals[i] > BIKE_COUNT_MAX {
            proof {
                lemma_bicycle_prefix(totals@, i + 1);
            }
            return Some(Warning::BicycleCountHigh { index: i, total: totals[i] });
        }
        i = i + 1;
    }
    assert(totals@.subrange(0, totals.len() as int) =~= totals@);
    None
}

/// Once a prefix holds a total above the maximum, longer prefixes report the same one.
proof fn lemma_bicycle_prefix(totals: Seq<u32>, n: int)
    requires
        0 < n <= totals.len(),
        bicycle(totals.subrange(0, n)) is Some,
    ensures
        bicycle(totals) == bicycle(totals.subrange(0, n)),
    decreases totals.len() - n,
{
    if n < totals.len() {
        assert(totals.subrange(0, n + 1).drop_last() =~= totals.subrange(0, n));
        lemma_bicycle_prefix(totals, n + 1);
    } else {
        assert(totals.subrange(0, n) =~= totals);
    }
}

/// The stored aggregates of one count that the rules read.
#[derive(Debug, Clone, PartialEq, Eq)]
pub struct CountSnapshot {
    /// Rows of the class counts.
    pub class_counts: Vec<ClassCountCheck>,
    /// Total volume of each stored row, with its direction.
    pub volumes: Vec<DirectionalVolume>,
    /// Hourly totals of each row (one day), 4am through 10pm.
    pub hourly: Vec<Vec<Option<u32>>>,
    /// Totals of the 15-minute bicycle periods.
    pub bicycle_totals: Vec<u32>,
}

pub open spec fn option_seq(w: Option<Warning>) -> Seq<Warning> {
    match w {
        Some(w) => seq![w],
        None => seq![],
    }
}

/// The warnings of the rules in `checks`, in order: class mix, directional balance, consecutive
/// zero hours, bicycle maximum.
pub open spec fn warnings_for(checks: ChecksToRun, snapshot: CountSnapshot) -> Seq<Warning> {
    (if checks.class_mix {
        class_mix(snapshot.class_counts@)
    } else {
        seq![]
    }) + (if checks.direction_balance {
        option_seq(direction_balance(snapshot.volumes@))
    } else {
        seq![]
    }) + (if checks.consecutive_zeros {
        zero_warnings(snapshot.hourly@, snapshot.hourly@.len())
    } else {
        seq![]
    }) + (if checks.bicycle {
        option_seq(bicycle(snapshot.bicycle_totals@))
    } else {
        seq![]
    })
}

/// Run the rules that apply to a count of type `count_type` over its stored aggregates.
///
/// A count whose type is unknown (`None`) cannot be checked. A type that no rule applies to gives
/// no warnings.
pub fn check(count_type: Option<&str>, snapshot: &CountSnapshot) -> (r: Result<
    Vec<Warning>,
    CountError,
>)
    ensures
        count_type is None ==> r == Err::<Vec<Warning>, CountError>(CountError::UnknownCountType),
        count_type is Some ==> r is Ok && r.unwrap()@ == warnings_for(
            checks_for(count_type.unwrap()@),
            *snapshot,
        ),
{
    let checks = match count_type {
        None => return Err(CountError::UnknownCountType),
        Some(t) => checks_for_type(t),
    };
    let mut r: Vec<Warning> = Vec::new();
    if checks.class_mix {
        let mut w = class_mix_warnings(&snapshot.class_counts);
        r.append(&mut w);
    }
    if checks.direction_balance {
        match direction_balance_warning(&snapshot.volumes) {
            Some(w) => r.push(w),
            None => {},
        }
    }
    if checks.consecutive_zeros {
        let mut w = consecutive_zero_warnings(&snapshot.hourly);
        r.append(&mut w);
    }
    if checks.bicycle {
        match bicycle_warning(&snapshot.bicycle_totals) {
            Some(w) => r.push(w),
            None => {},
        }
    }
    assert(r@ =~= warnings_for(checks, *snapshot));
    Ok(r)
}

} // verus!

//! The 15-minute binning of counted vehicles into class and speed tallies.

use vstd::prelude::*;

use crate::clock::{binned_time, time_bin, Date, PrimitiveDateTime, Time};
use crate::counts::{speed_bin, speed_range, Speed, SpeedRangeCount, VehicleClassCount};
use crate::types::{class_of_code, CountError, CountMetadata, Direction, Directions, VehicleClass};

verus! {

/// A vehicle that has been counted, with no binning applied to it.
#[derive(Debug, Clone, Copy, PartialEq, Eq, Structural)]
pub struct CountedVehicle {
    pub date: Date,
    pub time: Time,
    pub channel: u8,
    pub class: VehicleClass,
    pub speed: Speed,
}

impl CountedVehicle {
    pub open spec fn wf(self) -> bool {
        self.time.wf() && self.speed.wf()
    }

    pub fn new(date: Date, time: Time, channel: u8, class: u8, speed: Speed) -> (r: Result<
        Self,
        CountError,
    >)
        ensures
            class <= 14 ==> r == Ok::<Self, CountError>(
                (CountedVehicle { date, time, channel, class: class_of_code(class).unwrap(), speed }),
            ),
            class > 14 ==> r == Err::<Self, CountError>(CountError::BadVehicleClass(class)),
    {
        let class = match VehicleClass::from_num(class) {
            Ok(c) => c,
            Err(e) => return Err(e),
        };
        Ok(Self { date, time, channel, class, speed })
    }
}

/// Pre-binned, simple volume counts in 15-minute intervals.
#[derive(Debug, Clone, Copy, PartialEq, Eq, Structural)]
pub struct FifteenMinuteVehicle {
    pub date: Date,
    pub time: Time,
    pub count: u8,
    pub direction: Direction,
}

impl FifteenMinuteVehicle {
    pub fn new(date: Date, time: Time, count: u8, direction: Direction) -> (r: Result<
        Self,
        CountError,
    >)
        ensures
            r == Ok::<Self, CountError>(FifteenMinuteVehicle { date, time, count, direction }),
    {
        Ok(Self { date, time, count, direction })
    }
}

/// Identifies the time and lane for binning vehicle class/speeds.
#[derive(Debug, Clone, Copy, PartialEq, Eq, Structural)]
pub struct BinnedCountKey {
    pub datetime: PrimitiveDateTime,
    pub channel: u8,
}

/// The direction of a channel: channel 1 is the first direction, channel 2 the second (if any).
pub open spec fn channel_direction(directions: Directions, channel: u8) -> Option<Direction> {
    if channel == 1 {
        Some(directions.direction1)
    } else if channel == 2 {
        directions.direction2
    } else {
        None
    }
}

/// The bucket of an observation: its date and the start of its quarter hour, on its channel.
pub open spec fn key_of(v: CountedVehicle) -> BinnedCountKey {
    BinnedCountKey {
        datetime: PrimitiveDateTime { date: v.date, time: binned_time(v.time) },
        channel: v.channel,
    }
}

/// What becomes of one observation: its direction and speed range, or why it is skipped.
pub open spec fn outcome(directions: Directions, v: CountedVehicle) -> Result<
    (Direction, int),
    CountError,
> {
    match channel_direction(directions, v.channel) {
        None => Err(CountError::UnknownChannel(v.channel)),
        Some(d) => match speed_range(v.speed) {
            None => Err(CountError::InvalidSpeed),
            Some(range) => Ok((d, range)),
        },
    }
}

/// The position of the bucket with key `k`, or -1 where there is none.
pub open spec fn bucket_index<C>(s: Seq<(BinnedCountKey, C)>, k: BinnedCountKey) -> int
    decreases s.len(),
{
    if s.len() == 0 {
        -1
    } else if s.last().0 == k {
        s.len() - 1
    } else {
        bucket_index(s.drop_last(), k)
    }
}

/// The speed tallies of a sequence of observations, one per bucket, in the order in which the
/// buckets were first seen.
pub open spec fn speed_buckets(dvrpc_num: i32, directions: Directions, obs: Seq<CountedVehicle>) -> Seq<
    (BinnedCountKey, SpeedRangeCount),
>
    decreases obs.len(),
{
    if obs.len() == 0 {
        seq![]
    } else {
        let prev = speed_buckets(dvrpc_num, directions, obs.drop_last());
        let v = obs.last();
        match outcome(directions, v) {
            Err(_) => prev,
            Ok((d, range)) => {
                let k = key_of(v);
                let j = bucket_index(prev, k);
                if j >= 0 {
                    prev.update(j, (k, prev[j].1.inserted(range)))
                } else {
                    prev.push((k, SpeedRangeCount::empty(dvrpc_num, d).inserted(range)))
                }
            },
        }
    }
}

/// The class tallies of a sequence of observations, one per bucket, in the order in which the
/// buckets were first seen.
pub open spec fn class_buckets(dvrpc_num: i32, directions: Directions, obs: Seq<CountedVehicle>) -> Seq<
    (BinnedCountKey, VehicleClassCount),
>
    decreases obs.len(),
{
    if obs.len() == 0 {
        seq![]
    } else {
        let prev = class_buckets(dvrpc_num, directions, obs.drop_last());
        let v = obs.last();
        match outcome(directions, v) {
            Err(_) => prev,
            Ok((d, _)) => {
                let k = key_of(v);
                let j = bucket_index(prev, k);
                if j >= 0 {
                    prev.update(j, (k, prev[j].1.inserted(v.class)))
                } else {
                    prev.push((k, VehicleClassCount::empty(dvrpc_num, d).inserted(v.class)))
                }
            },
        }
    }
}

/// The errors of the observations that were skipped, in order.
pub open spec fn processing_errors(directions: Directions, obs: Seq<CountedVehicle>) -> Seq<
    CountError,
>
    decreases obs.len(),
{
    if obs.len() == 0 {
        seq![]
    } else {
        let prev = processing_errors(directions, obs.drop_last());
        match outcome(directions, obs.last()) {
            Err(e) => prev.push(e),
            Ok(_) => prev,
        }
    }
}

proof fn lemma_bucket_index<C>(s: Seq<(BinnedCountKey, C)>, k: BinnedCountKey)
    ensures
        -1 <= bucket_index(s, k) < s.len(),
        bucket_index(s, k) >= 0 ==> s[bucket_index(s, k)].0 == k,
        bucket_index(s, k) == -1 ==> forall|i: int| 0 <= i < s.len() ==> (#[trigger] s[i]).0 != k,
    decreases s.len(),
{
    if s.len() > 0 {
        lemma_bucket_index(s.drop_last(), k);
        if s.last().0 != k {
            assert forall|i: int| 0 <= i < s.len() - 1 implies s[i] == s.drop_last()[i] by {}
        }
    }
}

/// Each bucket key stands once in the speed tallies and once in the class tallies, and the two
/// hold the same keys in the same order.
pub proof fn lemma_bucket_keys_unique(dvrpc_num: i32, directions: Directions, obs: Seq<CountedVehicle>)
    ensures
        speed_buckets(dvrpc_num, directions, obs).len() == class_buckets(dvrpc_num, directions, obs).len(),
        forall|i: int|
            0 <= i < speed_buckets(dvrpc_num, directions, obs).len() ==> (#[trigger] speed_buckets(
                dvrpc_num,
                directions,
                obs,
            )[i]).0 == class_buckets(dvrpc_num, directions, obs)[i].0,
        forall|i: int, j: int|
            0 <= i < j < speed_buckets(dvrpc_num, directions, obs).len() ==> (#[trigger] speed_buckets(
                dvrpc_num,
                directions,
                obs,
            )[i]).0 != (#[trigger] speed_buckets(dvrpc_num, directions, obs)[j]).0,
        forall|i: int, j: int|
            0 <= i < j < class_buckets(dvrpc_num, directions, obs).len() ==> (#[trigger] class_buckets(
                dvrpc_num,
                directions,
                obs,
            )[i]).0 != (#[trigger] class_buckets(dvrpc_num, directions, obs)[j]).0,
    decreases obs.len(),
{
    if obs.len() > 0 {
        let pre = obs.drop_last();
        lemma_bucket_keys_unique(dvrpc_num, directions, pre);
        let ps = speed_buckets(dvrpc_num, directions, pre);
        let pc = class_buckets(dvrpc_num, directions, pre);
        let k = key_of(obs.last());
        lemma_bucket_index(ps, k);
        lemma_bucket_index(pc, k);
        let js = bucket_index(ps, k);
        let jc = bucket_index(pc, k);
        // The two lists hold the same keys, so the key is found at the same place in both.
        if js >= 0 {
            assert(pc[js].0 == k);
            if jc == -1 {
                assert(pc[js].0 != k);
            }
            if jc >= 0 && jc != js {
                assert(ps[jc].0 == k);
            }
        } else if jc >= 0 {
            assert(ps[jc].0 == k);
        }
    }
}

/// The sum of the speed-bucket totals.
pub open spec fn speed_total(s: Seq<(BinnedCountKey, SpeedRangeCount)>) -> int
    decreases s.len(),
{
    if s.len() == 0 {
        0
    } else {
        speed_total(s.drop_last()) + s.last().1.total
    }
}

/// The sum of the class-bucket totals.
pub open spec fn class_total(s: Seq<(BinnedCountKey, VehicleClassCount)>) -> int
    decreases s.len(),
{
    if s.len() == 0 {
        0
    } else {
        class_total(s.drop_last()) + s.last().1.total
    }
}

proof fn lemma_speed_total_update(
    s: Seq<(BinnedCountKey, SpeedRangeCount)>,
    j: int,
    x: (BinnedCountKey, SpeedRangeCount),
)
    requires
        0 <= j < s.len(),
    ensures
        speed_total(s.update(j, x)) == speed_total(s) - s[j].1.total + x.1.total,
    decreases s.len(),
{
    if j < s.len() - 1 {
        assert(s.update(j, x).drop_last() =~= s.drop_last().update(j, x));
        lemma_speed_total_update(s.drop_last(), j, x);
    } else {
        assert(s.update(j, x).drop_last() =~= s.drop_last());
    }
}

proof fn lemma_class_total_update(
    s: Seq<(BinnedCountKey, VehicleClassCount)>,
    j: int,
    x: (BinnedCountKey, VehicleClassCount),
)
    requires
        0 <= j < s.len(),
    ensures
        class_total(s.update(j, x)) == class_total(s) - s[j].1.total + x.1.total,
    decreases s.len(),
{
    if j < s.len() - 1 {
        assert(s.update(j, x).drop_last() =~= s.drop_last().update(j, x));
        lemma_class_total_update(s.drop_last(), j, x);
    } else {
        assert(s.update(j, x).drop_last() =~= s.drop_last());
    }
}

/// Every observation is either skipped, with its error recorded, or counted exactly once: the
/// bucket totals of each list sum to the number of observations less the number of errors, and
/// no bucket total exceeds the number of observations.
pub proof fn lemma_every_observation_counted_once(
    dvrpc_num: i32,
    directions: Directions,
    obs: Seq<CountedVehicle>,
)
    requires
        obs.len() < i32::MAX,
    ensures
        speed_total(speed_buckets(dvrpc_num, directions, obs)) == obs.len() - processing_errors(
            directions,
            obs,
        ).len(),
        class_total(class_buckets(dvrpc_num, directions, obs)) == obs.len() - processing_errors(
            directions,
            obs,
        ).len(),
        forall|i: int|
            0 <= i < speed_buckets(dvrpc_num, directions, obs).len() ==> 0 <= (#[trigger] speed_buckets(
                dvrpc_num,
                directions,
                obs,
            )[i]).1.total <= obs.len(),
        forall|i: int|
            0 <= i < class_buckets(dvrpc_num, directions, obs).len() ==> 0 <= (#[trigger] class_buckets(
                dvrpc_num,
                directions,
                obs,
            )[i]).1.total <= obs.len(),
    decreases obs.len(),
{
    if obs.len() > 0 {
        let pre = obs.drop_last();
        lemma_every_observation_counted_once(dvrpc_num, directions, pre);
        let ps = speed_buckets(dvrpc_num, directions, pre);
        let pc = class_buckets(dvrpc_num, directions, pre);
        let v = obs.last();
        let k = key_of(v);
        lemma_bucket_index(ps, k);
        lemma_bucket_index(pc, k);
        match outcome(directions, v) {
            Err(_) => {},
            Ok((d, range)) => {
                let js = bucket_index(ps, k);
                if js >= 0 {
                    lemma_speed_total_update(ps, js, (k, ps[js].1.inserted(range)));
                } else {
                    assert(ps.push((k, SpeedRangeCount::empty(dvrpc_num, d).inserted(range))).drop_last() =~= ps);
                }
                let jc = bucket_index(pc, k);
                if jc >= 0 {
                    lemma_class_total_update(pc, jc, (k, pc[jc].1.inserted(v.class)));
                } else {
                    assert(pc.push((k, VehicleClassCount::empty(dvrpc_num, d).inserted(v.class))).drop_last() =~= pc);
                }
            },
        }
    }
}

fn direction_of_channel(directions: &Directions, channel: u8) -> (r: Option<Direction>)
    ensures
        r == channel_direction(*directions, channel),
{
    if channel == 1 {
        Some(directions.direction1)
    } else if channel == 2 {
        directions.direction2
    } else {
        None
    }
}

fn find_bucket<C>(s: &Vec<(BinnedCountKey, C)>, k: BinnedCountKey) -> (r: Option<usize>)
    ensures
        match r {
            Some(j) => j as int == bucket_index(s@, k) && j < s.len(),
            None => bucket_index(s@, k) == -1,
        },
{
    let mut i = s.len();
    assert(s@.subrange(0, i as int) =~= s@);
    while i > 0
        invariant
            i <= s.len(),
            bucket_index(s@, k) == bucket_index(s@.subrange(0, i as int), k),
        decreases i,
    {
        assert(s@.subrange(0, i as int).drop_last() =~= s@.subrange(0, i - 1));
        if s[i - 1].0 == k {
            return Some(i - 1);
        }
        i = i - 1;
    }
    None
}

/// The speed and class tallies of each bucket, and the errors of skipped observations.
pub type BinnedCounts = (
    Vec<(BinnedCountKey, SpeedRangeCount)>,
    Vec<(BinnedCountKey, VehicleClassCount)>,
    Vec<CountError>,
);

/// Create the 15-minute binned class and speed counts.
///
/// Each bucket (a quarter hour on one channel) appears once in each list, in the order in which it
/// was first seen, seeded with the count's number and the channel's direction. An observation on a
/// channel without a direction, or with a negative speed, is skipped, and its error is recorded.
/// Buckets that hold less than 15 minutes of data are kept as they are.
///
/// The speed list corresponds to rows of the TC_SPECOUNT table, the class list to rows of the
/// TC_CLACOUNT table.
#[verifier::rlimit(40)]
pub fn create_speed_and_class_count(metadata: CountMetadata, counts: Vec<CountedVehicle>) -> (r:
    BinnedCounts)
    requires
        counts.len() < i32::MAX,
        forall|i: int| 0 <= i < counts.len() ==> (#[trigger] counts@[i]).wf(),
    ensures
        r.0@ == speed_buckets(metadata.dvrpc_num, metadata.directions, counts@),
        r.1@ == class_buckets(metadata.dvrpc_num, metadata.directions, counts@),
        r.2@ == processing_errors(metadata.directions, counts@),
{
    let mut speed_counts: Vec<(BinnedCountKey, SpeedRangeCount)> = Vec::new();
    let mut class_counts: Vec<(BinnedCountKey, VehicleClassCount)> = Vec::new();
    let mut errors: Vec<CountError> = Vec::new();
    let ghost dn = metadata.dvrpc_num;
    let ghost dirs = metadata.directions;
    let mut i: usize = 0;
    while i < counts.len()
        invariant
            i <= counts.len() < i32::MAX,
            dn == metadata.dvrpc_num,
            dirs == metadata.directions,
            forall|j: int| 0 <= j < counts.len() ==> (#[trigger] counts@[j]).wf(),
            speed_counts@ == speed_buckets(dn, dirs, counts@.subrange(0, i as int)),
            class_counts@ == class_buckets(dn, dirs, counts@.subrange(0, i as int)),
            errors@ == processing_errors(dirs, counts@.subrange(0, i as int)),
            forall|j: int|
                0 <= j < speed_counts.len() ==> (#[trigger] speed_counts@[j]).1.wf()
                    && speed_counts@[j].1.total <= i,
            forall|j: int|
                0 <= j < class_counts.len() ==> (#[trigger] class_counts@[j]).1.wf()
                    && class_counts@[j].1.total <= i,
        decreases counts.len() - i,
    {
        let v = counts[i];
        let ghost prefix = counts@.subrange(0, i + 1);
        assert(prefix.drop_last() =~= counts@.subrange(0, i as int));
        assert(prefix.last() == v);
        match direction_of_channel(&metadata.directions, v.channel) {
            None => {
                errors.push(CountError::UnknownChannel(v.channel));
            },
            Some(direction) => {
                match speed_bin(v.speed) {
                    Err(e) => {
                        errors.push(e);
                    },
                    Ok(range) => {
                        let key = BinnedCountKey {
                            datetime: PrimitiveDateTime::new(v.date, time_bin(v.time)),
                            channel: v.channel,
                        };
                        match find_bucket(&speed_counts, key) {
                            Some(j) => {
                                let mut b = speed_counts[j].1;
                                let _ = b.insert(v.speed);
                                speed_counts.set(j, (key, b));
                            },
                            None => {
                                let mut b = SpeedRangeCount::new(metadata.dvrpc_num, direction);
                                let _ = b.insert(v.speed);
                                speed_counts.push((key, b));
                            },
                        }
                        match find_bucket(&class_counts, key) {
                            Some(j) => {
                                let mut b = class_counts[j].1;
                                b.insert(v.class);
                                class_counts.set(j, (key, b));
                            },
                            None => {
                                let mut b = VehicleClassCount::new(metadata.dvrpc_num, direction);
                                b.insert(v.class);
                                class_counts.push((key, b));
                            },
                        }
                    },
                }
            },
        }
        i = i + 1;
    }
    assert(counts@.subrange(0, counts.len() as int) =~= counts@);
    (speed_counts, class_counts, errors)
}

} // verus!

//! Speeds, speed ranges, and the per-bucket tallies by vehicle class and by speed range.

use vstd::prelude::*;
use vstd::string::*;

use crate::metadata::{digits_value, is_digit};
use crate::types::{CountError, Direction, VehicleClass};

verus! {

/// The largest number of decimal places that a [`Speed`] can have.
pub const MAX_SPEED_SCALE: u8 = 18;

/// A speed in mph, written as a decimal: `digits / 10^scale`, with a sign.
///
/// The sign is kept apart from the digits, so that a negative zero is negative, as the sign bit of
/// a float that a sensor reports would be.
#[derive(Debug, Clone, Copy, PartialEq, Eq, Structural)]
pub struct Speed {
    pub negative: bool,
    pub digits: u64,
    pub scale: u8,
}

pub open spec fn pow10(n: nat) -> int
    decreases n,
{
    if n == 0 {
        1
    } else {
        10 * pow10((n - 1) as nat)
    }
}

proof fn lemma_pow10_monotonic(a: nat, b: nat)
    requires
        a <= b,
    ensures
        1 <= pow10(a) <= pow10(b),
    decreases b,
{
    if b > a {
        lemma_pow10_monotonic(a, (b - 1) as nat);
    } else if a > 0 {
        lemma_pow10_monotonic((a - 1) as nat, (a - 1) as nat);
    }
}

impl Speed {
    pub open spec fn wf(self) -> bool {
        self.scale <= MAX_SPEED_SCALE
    }

    /// What `digits` counts in: `10^scale` of them make one mph.
    pub open spec fn unit(self) -> int {
        pow10(self.scale as nat)
    }

    /// Create a speed of `digits / 10^scale` mph, negative if `negative` is set; none where
    /// `scale` is above [`MAX_SPEED_SCALE`].
    pub fn new(negative: bool, digits: u64, scale: u8) -> (r: Option<Speed>)
        ensures
            scale <= MAX_SPEED_SCALE <==> r.is_some(),
            r.is_some() ==> r == Some(Speed { negative, digits, scale }),
    {
        if scale <= MAX_SPEED_SCALE {
            Some(Speed { negative, digits, scale })
        } else {
            None
        }
    }

    fn unit_exec(&self) -> (r: u128)
        requires
            self.wf(),
        ensures
            r as int == self.unit(),
            1 <= r <= 1_000_000_000_000_000_000,
    {
        proof {
            lemma_pow10_monotonic(self.scale as nat, 18);
            reveal_with_fuel(pow10, 19);
        }
        let mut p: u128 = 1;
        let mut i: u8 = 0;
        while i < self.scale
            invariant
                i <= self.scale <= MAX_SPEED_SCALE,
                p as int == pow10(i as nat),
                pow10(self.scale as nat) <= 1_000_000_000_000_000_000,
            decreases self.scale - i,
        {
            proof {
                lemma_pow10_monotonic((i + 1) as nat, self.scale as nat);
            }
            p = p * 10;
            i = i + 1;
        }
        proof {
            lemma_pow10_monotonic(0, self.scale as nat);
        }
        p
    }
}

/// All of `s` are decimal digits.
pub open spec fn all_digits(s: Seq<char>) -> bool {
    forall|i: int| 0 <= i < s.len() ==> is_digit(#[trigger] s[i])
}

/// The position of the first `.` in `s`, or -1.
pub open spec fn first_dot(s: Seq<char>) -> int
    decreases s.len(),
{
    if s.len() == 0 {
        -1
    } else if s[0] == '.' {
        0
    } else if first_dot(s.drop_first()) >= 0 {
        first_dot(s.drop_first()) + 1
    } else {
        -1
    }
}

/// The speed that a decimal text writes: an optional sign, digits, and optionally a `.` and more
/// digits, with at least one digit in all, at most [`MAX_SPEED_SCALE`] of them after the point,
/// and all of them together no larger than a `u64`.
pub open spec fn speed_of_text(s: Seq<char>) -> Option<Speed> {
    let signed = s.len() > 0 && (s[0] == '+' || s[0] == '-');
    let body = if signed {
        s.drop_first()
    } else {
        s
    };
    let dot = first_dot(body);
    let whole = if dot >= 0 {
        body.subrange(0, dot)
    } else {
        body
    };
    let frac = if dot >= 0 {
        body.subrange(dot + 1, body.len() as int)
    } else {
        seq![]
    };
    let ds = whole + frac;
    if ds.len() > 0 && all_digits(ds) && frac.len() <= MAX_SPEED_SCALE && digits_value(ds)
        <= u64::MAX {
        Some(
            Speed {
                negative: signed && s[0] == '-',
                digits: digits_value(ds) as u64,
                scale: frac.len() as u8,
            },
        )
    } else {
        None
    }
}

proof fn lemma_first_dot(s: Seq<char>)
    ensures
        -1 <= first_dot(s) < s.len(),
        first_dot(s) >= 0 ==> s[first_dot(s)] == '.',
        forall|i: int| 0 <= i < s.len() && (first_dot(s) == -1 || i < first_dot(s)) ==> s[i] != '.',
    decreases s.len(),
{
    if s.len() > 0 {
        lemma_first_dot(s.drop_first());
        assert forall|i: int| 1 <= i < s.len() implies s[i] == s.drop_first()[i - 1] by {}
    }
}

/// The digits of `body` with its first point left out.
pub open spec fn digits_without_point(body: Seq<char>) -> Seq<char> {
    let dot = first_dot(body);
    if dot >= 0 {
        body.subrange(0, dot) + body.subrange(dot + 1, body.len() as int)
    } else {
        body
    }
}

/// Position `j` of `body` is neither a digit nor its first point.
pub open spec fn misplaced(body: Seq<char>, j: int) -> bool {
    (body[j] == '.' && j != first_dot(body)) || (body[j] != '.' && !is_digit(body[j]))
}

proof fn lemma_misplaced_not_digits(body: Seq<char>, j: int)
    requires
        0 <= j < body.len(),
        misplaced(body, j),
    ensures
        !all_digits(digits_without_point(body)),
{
    lemma_first_dot(body);
    let dot = first_dot(body);
    let ds = digits_without_point(body);
    if dot >= 0 && j > dot {
        assert(ds[j - 1] == body[j]);
    } else {
        assert(ds[j] == body[j]);
    }
}

impl Speed {
    /// Read a speed from decimal text, such as `35.2`, `-0.0` or `80`; none where the text is not
    /// such a number (see [`speed_of_text`]).
    pub fn parse(text: &str) -> (r: Option<Speed>)
        ensures
            r == speed_of_text(text@),
    {
        let ghost s = text@;
        let n = text.unicode_len();
        let mut i: usize = 0;
        let mut negative = false;
        if n > 0 {
            let c = text.get_char(0);
            if c == '+' || c == '-' {
                negative = c == '-';
                i = 1;
            }
        }
        let ghost start = i as int;
        let ghost body = s.subrange(start, n as int);
        proof {
            lemma_first_dot(body);
            assert(start == 1 <==> (s.len() > 0 && (s[0] == '+' || s[0] == '-')));
            if start == 1 {
                assert(body =~= s.drop_first());
            } else {
                assert(body =~= s);
            }
        }
        // The digits read so far, with the point left out; `big` once their value passes a u64.
        let ghost mut ds: Seq<char> = seq![];
        let mut value: u64 = 0;
        let mut big = false;
        let mut seen_dot = false;
        let mut scale: usize = 0;
        let mut ndigits: usize = 0;
        let mut valid = true;
        let ghost mut bad: int = 0;
        while i < n
            invariant
                s == text@,
                n == s.len(),
                start <= i <= n,
                body == s.subrange(start, n as int),
                0 <= start <= 1,
                seen_dot ==> 0 <= first_dot(body) < i - start,
                !seen_dot ==> (first_dot(body) == -1 || first_dot(body) >= i - start),
                valid ==> ds == (if seen_dot {
                    body.subrange(0, first_dot(body)) + body.subrange(first_dot(body) + 1, i - start)
                } else {
                    body.subrange(0, i - start)
                }),
                valid ==> all_digits(ds),
                valid ==> scale == (if seen_dot { i - start - first_dot(body) - 1 } else { 0 }),
                !valid ==> 0 <= bad < i - start && misplaced(body, bad),
                valid && !big ==> value as int == digits_value(ds),
                valid && big ==> digits_value(ds) > u64::MAX,
                scale <= i,
                ndigits <= i,
                valid ==> ndigits == ds.len(),
            decreases n - i,
        {
            let c = text.get_char(i);
            let ghost k = i - start;
            assert(body[k] == c);
            proof {
                lemma_first_dot(body);
            }
            if c == '.' {
                if seen_dot {
                    if valid {
                        proof {
                            bad = k;
                        }
                    }
                    valid = false;
                } else {
                    seen_dot = true;
                    proof {
                        assert(first_dot(body) == k);
                        if valid {
                            assert(body.subrange(k + 1, k + 1) =~= seq![]);
                            assert(ds + seq![] =~= ds);
                        }
                    }
                }
            } else if '0' <= c && c <= '9' {
                let d = (c as u32 - '0' as u32) as u64;
                proof {
                    if valid {
                        let nds = ds.push(c);
                        assert(nds.drop_last() =~= ds);
                        if seen_dot {
                            assert(nds =~= body.subrange(0, first_dot(body)) + body.subrange(first_dot(body) + 1, k + 1));
                        } else {
                            assert(nds =~= body.subrange(0, k + 1));
                        }
                        ds = nds;
                    }
                }
                if valid && !big {
                    if value > (u64::MAX - d) / 10 {
                        big = true;
                    } else {
                        value = value * 10 + d;
                    }
                }
                if seen_dot {
                    scale = scale + 1;
                }
                ndigits = ndigits + 1;
            } else {
                if valid {
                    proof {
                        bad = k;
                    }
                }
                valid = false;
            }
            i = i + 1;
        }
        assert(body.subrange(0, body.len() as int) =~= body);
        proof {
            if !valid {
                lemma_misplaced_not_digits(body, bad);
            } else {
                assert(ds =~= digits_without_point(body));
            }
        }
        if !valid || big || ndigits == 0 || scale > MAX_SPEED_SCALE as usize {
            return None;
        }
        Some(Speed { negative, digits: value, scale: scale as u8 })
    }
}

/// The speed range (1 to 14) of a non-negative speed of `digits / unit` mph: up to 15 mph is
/// range 1; then each range takes the next 5 mph, its upper end included; above 75 mph is 14.
pub open spec fn speed_range_of(digits: int, unit: int) -> int {
    if digits <= 15 * unit {
        1
    } else if digits <= 20 * unit {
        2
    } else if digits <= 25 * unit {
        3
    } else if digits <= 30 * unit {
        4
    } else if digits <= 35 * unit {
        5
    } else if digits <= 40 * unit {
        6
    } else if digits <= 45 * unit {
        7
    } else if digits <= 50 * unit {
        8
    } else if digits <= 55 * unit {
        9
    } else if digits <= 60 * unit {
        10
    } else if digits <= 65 * unit {
        11
    } else if digits <= 70 * unit {
        12
    } else if digits <= 75 * unit {
        13
    } else {
        14
    }
}

/// The speed range of a speed, or none for a negative one.
pub open spec fn speed_range(speed: Speed) -> Option<int> {
    if speed.negative {
        None
    } else {
        Some(speed_range_of(speed.digits as int, speed.unit()))
    }
}

/// Put a speed into one of the 14 speed ranges (1 to 14).
pub fn speed_bin(speed: Speed) -> (r: Result<u8, CountError>)
    requires
        speed.wf(),
    ensures
        speed.negative <==> r.is_err(),
        r.is_err() ==> r == Err::<u8, CountError>(CountError::InvalidSpeed),
        r.is_ok() ==> Some(r.unwrap() as int) == speed_range(speed),
        r.is_ok() ==> 1 <= r.unwrap() <= 14,
{
    if speed.negative {
        return Err(CountError::InvalidSpeed);
    }
    let u = speed.unit_exec();
    let d = speed.digits as u128;
    let range: u8 = if d <= 15 * u {
        1
    } else if d <= 20 * u {
        2
    } else if d <= 25 * u {
        3
    } else if d <= 30 * u {
        4
    } else if d <= 35 * u {
        5
    } else if d <= 40 * u {
        6
    } else if d <= 45 * u {
        7
    } else if d <= 50 * u {
        8
    } else if d <= 55 * u {
        9
    } else if d <= 60 * u {
        10
    } else if d <= 65 * u {
        11
    } else if d <= 70 * u {
        12
    } else if d <= 75 * u {
        13
    } else {
        14
    };
    Ok(range)
}

/// Count of vehicles by vehicle class in some non-specific time period.
///
/// Note: unclassified vehicles are counted in the `c15` field, but are also included in `c2`
/// (Passenger Cars). Thus, a simple sum of fields `c1` through `c15` would double-count
/// unclassified vehicles.
#[derive(Debug, Clone, Copy, PartialEq, Eq, Structural)]
pub struct VehicleClassCount {
    pub dvrpc_num: i32,
    pub direction: Direction,
    pub c1: i32,
    pub c2: i32,
    pub c3: i32,
    pub c4: i32,
    pub c5: i32,
    pub c6: i32,
    pub c7: i32,
    pub c8: i32,
    pub c9: i32,
    pub c10: i32,
    pub c11: i32,
    pub c12: i32,
    pub c13: i32,
    pub c15: i32,
    pub total: i32,
}

impl VehicleClassCount {
    /// Every counter is between 0 and the total; the 13 class counters sum to the total, since
    /// an unclassified vehicle is counted in class 2 as well as in `c15`, so `c15` is at most `c2`.
    pub open spec fn wf(self) -> bool {
        0 <= self.c1 <= self.total
        && 0 <= self.c2 <= self.total
        && 0 <= self.c3 <= self.total
        && 0 <= self.c4 <= self.total
        && 0 <= self.c5 <= self.total
        && 0 <= self.c6 <= self.total
        && 0 <= self.c7 <= self.total
        && 0 <= self.c8 <= self.total
        && 0 <= self.c9 <= self.total
        && 0 <= self.c10 <= self.total
        && 0 <= self.c11 <= self.total
        && 0 <= self.c12 <= self.total
        && 0 <= self.c13 <= self.total
        && 0 <= self.c15 <= self.total
        && self.c15 <= self.c2
        && self.c1 + self.c2 + self.c3 + self.c4 + self.c5 + self.c6 + self.c7 + self.c8 + self.c9 + self.c10 + self.c11 + self.c12 + self.c13 == self.total
    }

    /// An empty count.
    pub open spec fn empty(dvrpc_num: i32, direction: Direction) -> Self {
        VehicleClassCount {
            dvrpc_num,
            direction,
            c1: 0,
            c2: 0,
            c3: 0,
            c4: 0,
            c5: 0,
            c6: 0,
            c7: 0,
            c8: 0,
            c9: 0,
            c10: 0,
            c11: 0,
            c12: 0,
            c13: 0,
            c15: 0,
            total: 0,
        }
    }

    /// The count after one more vehicle of `class`: its counter and the total each go up by one;
    /// an unclassified vehicle also raises the Passenger Cars counter.
    pub open spec fn inserted(self, class: VehicleClass) -> Self {
        let t = (self.total + 1) as i32;
        match class {
            VehicleClass::Motorcycles => VehicleClassCount { c1: (self.c1 + 1) as i32, total: t, ..self },
            VehicleClass::PassengerCars => VehicleClassCount { c2: (self.c2 + 1) as i32, total: t, ..self },
            VehicleClass::OtherFourTireSingleUnitVehicles => VehicleClassCount { c3: (self.c3 + 1) as i32, total: t, ..self },
            VehicleClass::Buses => VehicleClassCount { c4: (self.c4 + 1) as i32, total: t, ..self },
            VehicleClass::TwoAxleSixTireSingleUnitTrucks => VehicleClassCount { c5: (self.c5 + 1) as i32, total: t, ..self },
            VehicleClass::ThreeAxleSingleUnitTrucks => VehicleClassCount { c6: (self.c6 + 1) as i32, total: t, ..self },
            VehicleClass::FourOrMoreAxleSingleUnitTrucks => VehicleClassCount { c7: (self.c7 + 1) as i32, total: t, ..self },
            VehicleClass::FourOrFewerAxleSingleTrailerTrucks => VehicleClassCount { c8: (self.c8 + 1) as i32, total: t, ..self },
            VehicleClass::FiveAxleSingleTrailerTrucks => VehicleClassCount { c9: (self.c9 + 1) as i32, total: t, ..self },
            VehicleClass::SixOrMoreAxleSingleTrailerTrucks => VehicleClassCount { c10: (self.c10 + 1) as i32, total: t, ..self },
            VehicleClass::FiveOrFewerAxleMultiTrailerTrucks => VehicleClassCount { c11: (self.c11 + 1) as i32, total: t, ..self },
            VehicleClass::SixAxleMultiTrailerTrucks => VehicleClassCount { c12: (self.c12 + 1) as i32, total: t, ..self },
            VehicleClass::SevenOrMoreAxleMultiTrailerTrucks => VehicleClassCount { c13: (self.c13 + 1) as i32, total: t, ..self },
            VehicleClass::UnclassifiedVehicle => VehicleClassCount {
                c2: (self.c2 + 1) as i32,
                c15: (self.c15 + 1) as i32,
                total: t,
                ..self
            },
        }
    }

    /// Create a new, empty count.
    pub fn new(dvrpc_num: i32, direction: Direction) -> (r: Self)
        ensures
            r == Self::empty(dvrpc_num, direction),
            r.wf(),
    {
        Self {
            dvrpc_num,
            direction,
            c1: 0,
            c2: 0,
            c3: 0,
            c4: 0,
            c5: 0,
            c6: 0,
            c7: 0,
            c8: 0,
            c9: 0,
            c10: 0,
            c11: 0,
            c12: 0,
            c13: 0,
            c15: 0,
            total: 0,
        }
    }

    /// Insert an individual counted vehicle into the count.
    pub fn insert(&mut self, class: VehicleClass) -> (r: &Self)
        requires
            old(self).wf(),
            old(self).total < i32::MAX,
        ensures
            *final(self) == old(self).inserted(class),
            *r == old(self).inserted(class),
            final(self).wf(),
    {
        match class {
            VehicleClass::Motorcycles => self.c1 = self.c1 + 1,
            VehicleClass::PassengerCars => self.c2 = self.c2 + 1,
            VehicleClass::OtherFourTireSingleUnitVehicles => self.c3 = self.c3 + 1,
            VehicleClass::Buses => self.c4 = self.c4 + 1,
            VehicleClass::TwoAxleSixTireSingleUnitTrucks => self.c5 = self.c5 + 1,
            VehicleClass::ThreeAxleSingleUnitTrucks => self.c6 = self.c6 + 1,
            VehicleClass::FourOrMoreAxleSingleUnitTrucks => self.c7 = self.c7 + 1,
            VehicleClass::FourOrFewerAxleSingleTrailerTrucks => self.c8 = self.c8 + 1,
            VehicleClass::FiveAxleSingleTrailerTrucks => self.c9 = self.c9 + 1,
            VehicleClass::SixOrMoreAxleSingleTrailerTrucks => self.c10 = self.c10 + 1,
            VehicleClass::FiveOrFewerAxleMultiTrailerTrucks => self.c11 = self.c11 + 1,
            VehicleClass::SixAxleMultiTrailerTrucks => self.c12 = self.c12 + 1,
            VehicleClass::SevenOrMoreAxleMultiTrailerTrucks => self.c13 = self.c13 + 1,
            VehicleClass::UnclassifiedVehicle => {
                // Unclassified vehicles are included with class 2 and also counted on their own.
                self.c2 = self.c2 + 1;
                self.c15 = self.c15 + 1;
            },
        }
        self.total = self.total + 1;
        self
    }
}

/// Count of vehicles by speed range in some non-specific time period.
#[derive(Debug, Clone, Copy, PartialEq, Eq, Structural)]
pub struct SpeedRangeCount {
    pub dvrpc_num: i32,
    pub direction: Direction,
    pub s1: i32,
    pub s2: i32,
    pub s3: i32,
    pub s4: i32,
    pub s5: i32,
    pub s6: i32,
    pub s7: i32,
    pub s8: i32,
    pub s9: i32,
    pub s10: i32,
    pub s11: i32,
    pub s12: i32,
    pub s13: i32,
    pub s14: i32,
    pub total: i32,
}

impl SpeedRangeCount {
    /// The counters sum to the total, and none is negative.
    pub open spec fn wf(self) -> bool {
        0 <= self.s1
        && 0 <= self.s2
        && 0 <= self.s3
        && 0 <= self.s4
        && 0 <= self.s5
        && 0 <= self.s6
        && 0 <= self.s7
        && 0 <= self.s8
        && 0 <= self.s9
        && 0 <= self.s10
        && 0 <= self.s11
        && 0 <= self.s12
        && 0 <= self.s13
        && 0 <= self.s14
        && self.s1 + self.s2 + self.s3 + self.s4 + self.s5 + self.s6 + self.s7 + self.s8 + self.s9 + self.s10 + self.s11 + self.s12 + self.s13 + self.s14 == self.total
    }

    /// An empty count.
    pub open spec fn empty(dvrpc_num: i32, direction: Direction) -> Self {
        SpeedRangeCount {
            dvrpc_num,
            direction,
            s1: 0,
            s2: 0,
            s3: 0,
            s4: 0,
            s5: 0,
            s6: 0,
            s7: 0,
            s8: 0,
            s9: 0,
            s10: 0,
            s11: 0,
            s12: 0,
            s13: 0,
            s14: 0,
            total: 0,
        }
    }

    /// The counter of speed range `range` (1 to 14).
    pub open spec fn range_count(self, range: int) -> int {
        if range == 1 {
            self.s1 as int
        } else if range == 2 {
            self.s2 as int
        } else if range == 3 {
            self.s3 as int
        } else if range == 4 {
            self.s4 as int
        } else if range == 5 {
            self.s5 as int
        } else if range == 6 {
            self.s6 as int
        } else if range == 7 {
            self.s7 as int
        } else if range == 8 {
            self.s8 as int
        } else if range == 9 {
            self.s9 as int
        } else if range == 10 {
            self.s10 as int
        } else if range == 11 {
            self.s11 as int
        } else if range == 12 {
            self.s12 as int
        } else if range == 13 {
            self.s13 as int
        } else {
            self.s14 as int
        }
    }

    /// The count after one more vehicle in speed range `range` (1 to 14): that counter and the
    /// total each go up by one.
    pub open spec fn inserted(self, range: int) -> Self {
        let t = (self.total + 1) as i32;
        if range == 1 {
            SpeedRangeCount { s1: (self.s1 + 1) as i32, total: t, ..self }
        } else if range == 2 {
            SpeedRangeCount { s2: (self.s2 + 1) as i32, total: t, ..self }
        } else if range == 3 {
            SpeedRangeCount { s3: (self.s3 + 1) as i32, total: t, ..self }
        } else if range == 4 {
            SpeedRangeCount { s4: (self.s4 + 1) as i32, total: t, ..self }
        } else if range == 5 {
            SpeedRangeCount { s5: (self.s5 + 1) as i32, total: t, ..self }
        } else if range == 6 {
            SpeedRangeCount { s6: (self.s6 + 1) as i32, total: t, ..self }
        } else if range == 7 {
            SpeedRangeCount { s7: (self.s7 + 1) as i32, total: t, ..self }
        } else if range == 8 {
            SpeedRangeCount { s8: (self.s8 + 1) as i32, total: t, ..self }
        } else if range == 9 {
            SpeedRangeCount { s9: (self.s9 + 1) as i32, total: t, ..self }
        } else if range == 10 {
            SpeedRangeCount { s10: (self.s10 + 1) as i32, total: t, ..self }
        } else if range == 11 {
            SpeedRangeCount { s11: (self.s11 + 1) as i32, total: t, ..self }
        } else if range == 12 {
            SpeedRangeCount { s12: (self.s12 + 1) as i32, total: t, ..self }
        } else if range == 13 {
            SpeedRangeCount { s13: (self.s13 + 1) as i32, total: t, ..self }
        } else {
            SpeedRangeCount { s14: (self.s14 + 1) as i32, total: t, ..self }
        }
    }

    /// Create a SpeedRangeCount with 0 count for all speed ranges.
    pub fn new(dvrpc_num: i32, direction: Direction) -> (r: Self)
        ensures
            r == Self::empty(dvrpc_num, direction),
            r.wf(),
    {
        Self {
            dvrpc_num,
            direction,
            s1: 0,
            s2: 0,
            s3: 0,
            s4: 0,
            s5: 0,
            s6: 0,
            s7: 0,
            s8: 0,
            s9: 0,
            s10: 0,
            s11: 0,
            s12: 0,
            s13: 0,
            s14: 0,
            total: 0,
        }
    }

    /// Insert an individual vehicle into the count by its speed; a negative speed is refused and
    /// leaves the count as it was.
    pub fn insert(&mut self, speed: Speed) -> (r: Result<&Self, CountError>)
        requires
            old(self).wf(),
            old(self).total < i32::MAX,
            speed.wf(),
        ensures
            speed.negative <==> r.is_err(),
            r.is_err() ==> r == Err::<&Self, CountError>(CountError::InvalidSpeed) && *final(self)
                == *old(self),
            r.is_ok() ==> *final(self) == old(self).inserted(speed_range(speed).unwrap()),
            r.is_ok() ==> *r.unwrap() == old(self).inserted(speed_range(speed).unwrap()),
            final(self).wf(),
    {
        let range = match speed_bin(speed) {
            Ok(v) => v,
            Err(e) => return Err(e),
        };
        self.add_to_range(range);
        Ok(self)
    }

    /// Count one more vehicle in speed range `range`.
    fn add_to_range(&mut self, range: u8)
        requires
            old(self).wf(),
            old(self).total < i32::MAX,
            1 <= range <= 14,
        ensures
            *final(self) == old(self).inserted(range as int),
            final(self).wf(),
    {
        if range == 1 {
            self.s1 = self.s1 + 1;
        } else if range == 2 {
            self.s2 = self.s2 + 1;
        } else if range == 3 {
            self.s3 = self.s3 + 1;
        } else if range == 4 {
            self.s4 = self.s4 + 1;
        } else if range == 5 {
            self.s5 = self.s5 + 1;
        } else if range == 6 {
            self.s6 = self.s6 + 1;
        } else if range == 7 {
            self.s7 = self.s7 + 1;
        } else if range == 8 {
            self.s8 = self.s8 + 1;
        } else if range == 9 {
            self.s9 = self.s9 + 1;
        } else if range == 10 {
            self.s10 = self.s10 + 1;
        } else if range == 11 {
            self.s11 = self.s11 + 1;
        } else if range == 12 {
            self.s12 = self.s12 + 1;
        } else if range == 13 {
            self.s13 = self.s13 + 1;
        } else {
            self.s14 = self.s14 + 1;
        }
        self.total = self.total + 1;
    }
}

} // verus!

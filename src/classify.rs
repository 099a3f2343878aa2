//! Deciding from a digit run's length and first digit whether it is a
//! timestamp, and in which unit.
use crate::render::{parse_ticks, renders_as, Opt};
use vstd::prelude::*;

verus! {

/// First digit from which the longer length of each unit is refused: past it
/// the value would lie after about the year 2128.
pub const LEADING_DIGIT_BOUND: char = '5';

pub const SECONDS_DIVISOR: i64 = 1;

pub const MILLIS_DIVISOR: i64 = 1_000;

pub const MICROS_DIVISOR: i64 = 1_000_000;

/// The granularity of a tick count.
#[derive(Clone, Copy, Debug, PartialEq, Eq, Structural)]
pub enum Unit {
    Seconds,
    Milliseconds,
    Microseconds,
}

impl Unit {
    /// Ticks of this unit in one second.
    pub open spec fn divisor_of(self) -> int {
        match self {
            Unit::Seconds => 1,
            Unit::Milliseconds => 1_000,
            Unit::Microseconds => 1_000_000,
        }
    }

    pub fn divisor(&self) -> (r: i64)
        ensures
            r as int == self.divisor_of(),
    {
        match self {
            Unit::Seconds => SECONDS_DIVISOR,
            Unit::Milliseconds => MILLIS_DIVISOR,
            Unit::Microseconds => MICROS_DIVISOR,
        }
    }
}

/// `10` to the power `n`.
pub open spec fn pow10(n: nat) -> int
    decreases n,
{
    if n == 0 {
        1
    } else {
        10 * pow10((n - 1) as nat)
    }
}

/// The unit whose digit runs have this length: its natural length, or one
/// more.
pub open spec fn unit_of_length(length: int) -> Option<Unit> {
    if length == 9 || length == 10 {
        Some(Unit::Seconds)
    } else if length == 12 || length == 13 {
        Some(Unit::Milliseconds)
    } else if length == 15 || length == 16 {
        Some(Unit::Microseconds)
    } else {
        None
    }
}

/// The longer of the two lengths of a unit.
pub open spec fn is_longer_length(length: int) -> bool {
    length == 10 || length == 13 || length == 16
}

/// The unit that a digit run of this length and first digit is read in, or
/// `None` where it is not taken for a timestamp: a length of no unit, or the
/// longer length with a first digit of `5` or more.
pub open spec fn accepted_unit(length: int, first_digit: char) -> Option<Unit> {
    if is_longer_length(length) && first_digit >= LEADING_DIGIT_BOUND {
        None
    } else {
        unit_of_length(length)
    }
}

/// A run of nine, twelve or fifteen digits is taken for a timestamp, whatever
/// its first digit.
pub proof fn lemma_natural_length_accepted(length: int, first_digit: char)
    requires
        length == 9 || length == 12 || length == 15,
    ensures
        accepted_unit(length, first_digit) is Some,
{
}

/// A run of ten, thirteen or sixteen digits is taken for a timestamp exactly
/// when its first digit is below `5`.
pub proof fn lemma_longer_length_bound(length: int, first_digit: char)
    requires
        length == 10 || length == 13 || length == 16,
    ensures
        accepted_unit(length, first_digit) is Some <==> first_digit < LEADING_DIGIT_BOUND,
{
}

/// A run whose length is none of 9, 10, 12, 13, 15 and 16 is never taken for
/// a timestamp.
pub proof fn lemma_other_length_rejected(length: int, first_digit: char)
    requires
        !(length == 9 || length == 10 || length == 12 || length == 13 || length == 15 || length
            == 16),
    ensures
        accepted_unit(length, first_digit) is None,
{
}

/// Renders `ticks`, the value of a digit run of `length` digits that starts
/// with `first_char`, where the run is taken for a timestamp; `None` otherwise.
pub fn get_dt(ticks: i64, length: usize, first_char: char, opt: &Opt) -> (r: Option<String>)
    requires
        0 <= ticks < pow10(length as nat),
    ensures
        r is Some <==> accepted_unit(length as int, first_char) is Some,
        r matches Some(t) ==> renders_as(
            t@,
            ticks as int,
            accepted_unit(length as int, first_char).unwrap().divisor_of(),
            *opt,
        ),
{
    let unit = match length {
        9 | 10 => Unit::Seconds,
        12 | 13 => Unit::Milliseconds,
        15 | 16 => Unit::Microseconds,
        _ => {
            return None;
        },
    };
    if (length == 10 || length == 13 || length == 16) && first_char >= LEADING_DIGIT_BOUND {
        return None;
    }
    proof {
        reveal_with_fuel(pow10, 17);
    }
    let divisor = unit.divisor();
    Some(parse_ticks(ticks, divisor, opt))
}

} // verus!

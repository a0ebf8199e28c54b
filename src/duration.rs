//! Human-readable durations such as `10 minutes` or `3d`.
use crate::codec::{numeric_char, digit_value, is_digit, is_numeric};
use vstd::prelude::*;

verus! {

/// A unit of time.
#[derive(Clone, Copy, PartialEq, Eq, Debug, Structural)]
pub enum Unit {
    Seconds,
    Minutes,
    Hours,
    Days,
    Weeks,
}

/// Why a duration text was refused.
#[derive(Clone, Copy, PartialEq, Eq, Debug, Structural)]
pub enum DurationError {
    /// A numeric character other than an ASCII digit.
    NotADigit,
    /// The number does not fit in 64 bits.
    TooLarge,
    /// The letters name no unit.
    InvalidUnit,
}

impl Unit {
    pub open spec fn seconds(self) -> int {
        match self {
            Unit::Seconds => 1,
            Unit::Minutes => 60,
            Unit::Hours => 3600,
            Unit::Days => 86400,
            Unit::Weeks => 604800,
        }
    }

    /// The number of seconds in one of this unit.
    pub fn to_seconds(&self) -> (r: u64)
        ensures
            r == self.seconds(),
    {
        match self {
            Unit::Seconds => 1,
            Unit::Minutes => 60,
            Unit::Hours => 3600,
            Unit::Days => 86400,
            Unit::Weeks => 604800,
        }
    }

    /// The number of seconds in one of this unit, as a signed integer.
    pub fn to_seconds_i64(&self) -> (r: i64)
        ensures
            r == self.seconds(),
    {
        match self {
            Unit::Seconds => 1,
            Unit::Minutes => 60,
            Unit::Hours => 3600,
            Unit::Days => 86400,
            Unit::Weeks => 604800,
        }
    }

    /// The unit that a name stands for: the plural, the singular or a short
    /// form (`s`, `sec`, `secs`, `m`, `min`, `mins`, `h`, `hr`, `hrs`, `d`, `w`).
    pub fn try_from_name(s: &str) -> (r: Result<Unit, DurationError>)
        ensures
            r == (match unit_of_name(s@) {
                Some(u) => Ok(u),
                None => Err(DurationError::InvalidUnit),
            }),
    {
        let n = s.unicode_len();
        let mut v: Vec<char> = Vec::new();
        let mut i: usize = 0;
        while i < n
            invariant
                n == s@.len(),
                i <= n,
                v@ == s@.subrange(0, i as int),
            decreases n - i,
        {
            v.push(s.get_char(i));
            i = i + 1;
        }
        assert(v@ == s@);
        unit_from_chars(&v)
    }
}

pub open spec fn unit_of_name(u: Seq<char>) -> Option<Unit> {
    if u == "seconds"@ || u == "second"@ || u == "secs"@ || u == "sec"@ || u == "s"@ {
        Some(Unit::Seconds)
    } else if u == "minutes"@ || u == "minute"@ || u == "mins"@ || u == "min"@ || u == "m"@ {
        Some(Unit::Minutes)
    } else if u == "hours"@ || u == "hour"@ || u == "hrs"@ || u == "hr"@ || u == "h"@ {
        Some(Unit::Hours)
    } else if u == "days"@ || u == "day"@ || u == "d"@ {
        Some(Unit::Days)
    } else if u == "weeks"@ || u == "week"@ || u == "w"@ {
        Some(Unit::Weeks)
    } else {
        None
    }
}

/// Whether the characters of `a` are those of `b`.
pub fn chars_are(a: &Vec<char>, b: &str) -> (r: bool)
    ensures
        r == (a@ == b@),
{
    let n = b.unicode_len();
    if a.len() != n {
        return false;
    }
    let mut i: usize = 0;
    while i < n
        invariant
            n == b@.len(),
            a@.len() == n,
            i <= n,
            forall|j: int| 0 <= j < i ==> a@[j] == b@[j],
        decreases n - i,
    {
        if a[i] != b.get_char(i) {
            return false;
        }
        i = i + 1;
    }
    assert(a@ =~= b@);
    true
}

fn unit_from_chars(u: &Vec<char>) -> (r: Result<Unit, DurationError>)
    ensures
        r == (match unit_of_name(u@) {
            Some(x) => Ok(x),
            None => Err(DurationError::InvalidUnit),
        }),
{
    if chars_are(u, "seconds") || chars_are(u, "second") || chars_are(u, "secs") || chars_are(u, "sec")
        || chars_are(u, "s") {
        Ok(Unit::Seconds)
    } else if chars_are(u, "minutes") || chars_are(u, "minute") || chars_are(u, "mins") || chars_are(
        u,
        "min",
    ) || chars_are(u, "m") {
        Ok(Unit::Minutes)
    } else if chars_are(u, "hours") || chars_are(u, "hour") || chars_are(u, "hrs") || chars_are(u, "hr")
        || chars_are(u, "h") {
        Ok(Unit::Hours)
    } else if chars_are(u, "days") || chars_are(u, "day") || chars_are(u, "d") {
        Ok(Unit::Days)
    } else if chars_are(u, "weeks") || chars_are(u, "week") || chars_are(u, "w") {
        Ok(Unit::Weeks)
    } else {
        Err(DurationError::InvalidUnit)
    }
}

/// Reads a duration text from left to right: numeric characters are the
/// digits of the number, spaces are skipped, and every other character is
/// part of the unit's name. Gives the number and the unit's name.
pub open spec fn scan_duration(s: Seq<char>) -> Result<(int, Seq<char>), DurationError>
    decreases s.len(),
{
    if s.len() == 0 {
        Ok((0, Seq::empty()))
    } else {
        match scan_duration(s.drop_last()) {
            Err(e) => Err(e),
            Ok((n, u)) => {
                let c = s.last();
                if numeric_char(c) {
                    if is_digit(c) {
                        let m = 10 * n + digit_value(c);
                        if m > u64::MAX { Err(DurationError::TooLarge) } else { Ok((m, u)) }
                    } else {
                        Err(DurationError::NotADigit)
                    }
                } else if c == ' ' {
                    Ok((n, u))
                } else {
                    Ok((n, u.push(c)))
                }
            },
        }
    }
}

/// The number and unit that a duration text stands for.
pub open spec fn duration_of_text(s: Seq<char>) -> Result<(u64, Unit), DurationError> {
    match scan_duration(s) {
        Err(e) => Err(e),
        Ok((n, u)) => match unit_of_name(u) {
            Some(unit) => Ok((n as u64, unit)),
            None => Err(DurationError::InvalidUnit),
        },
    }
}

/// Parses `<number> <unit>`, with or without the space, into the number and
/// the unit.
pub fn parse_duration_string(s: &str) -> (r: Result<(u64, Unit), DurationError>)
    ensures
        r == duration_of_text(s@),
{
    let len = s.unicode_len();
    let mut number: u64 = 0;
    let mut unit: Vec<char> = Vec::new();
    let mut i: usize = 0;
    while i < len
        invariant
            len == s@.len(),
            i <= len,
            scan_duration(s@.subrange(0, i as int)) == Ok::<(int, Seq<char>), DurationError>((number as int, unit@)),
        decreases len - i,
    {
        let c = s.get_char(i);
        proof {
            assert(s@.subrange(0, i + 1).drop_last() == s@.subrange(0, i as int));
            assert(s@.subrange(0, i + 1).last() == c);
        }
        if is_numeric(c) {
            if '0' <= c && c <= '9' {
                let d = (c as u32 - '0' as u32) as u64;
                if number > (u64::MAX - d) / 10 {
                    proof {
                        assert(10 * number + d > u64::MAX) by (nonlinear_arith)
                            requires number > (u64::MAX - d) / 10, d <= 9;
                        lemma_scan_error_stays(s@, i as int + 1, DurationError::TooLarge);
                    }
                    return Err(DurationError::TooLarge);
                }
                proof {
                    assert(10 * number + d <= u64::MAX) by (nonlinear_arith)
                        requires number <= (u64::MAX - d) / 10, d <= 9;
                }
                number = number * 10 + d;
            } else {
                proof {
                    lemma_scan_error_stays(s@, i as int + 1, DurationError::NotADigit);
                }
                return Err(DurationError::NotADigit);
            }
        } else if c != ' ' {
            unit.push(c);
        }
        i = i + 1;
    }
    assert(s@.subrange(0, len as int) == s@);
    match unit_from_chars(&unit) {
        Ok(u) => Ok((number, u)),
        Err(e) => Err(e),
    }
}

/// Once the scan of a prefix fails, the scan of the whole text fails the same way.
proof fn lemma_scan_error_stays(s: Seq<char>, k: int, e: DurationError)
    requires
        0 <= k <= s.len(),
        scan_duration(s.subrange(0, k)) == Err::<(int, Seq<char>), DurationError>(e),
    ensures
        duration_of_text(s) == Err::<(u64, Unit), DurationError>(e),
    decreases s.len() - k,
{
    if k == s.len() {
        assert(s.subrange(0, k) == s);
    } else {
        assert(s.subrange(0, k + 1).drop_last() == s.subrange(0, k));
        lemma_scan_error_stays(s, k + 1, e);
    }
}

} // verus!

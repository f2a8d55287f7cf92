//! Time typing for timestamp columns: a precision tag, a UTC offset, and the
//! typed errors their validation can raise.
//!
//! A timestamp column carries a [`TimeUnit`] and a [`TimeZone`].  Two
//! timestamps of differing precision may only be compared after normalizing
//! both to the finer of the two units; a normalization that does not fit the
//! 64-bit tick range is a typed error, never a silent truncation.

use vstd::prelude::*;
use core::cmp::Ordering;
use crate::compare::int_cmp;

verus! {

/// Precision of a timestamp: how many ticks make up one second.
#[derive(Clone, Copy, Debug, PartialEq, Eq, Structural)]
pub enum TimeUnit {
    /// One tick per second.
    Second,
    /// A thousand ticks per second.
    Millisecond,
    /// A million ticks per second.
    Microsecond,
    /// A billion ticks per second.
    Nanosecond,
}

/// Errors raised while typing or comparing timestamps.
#[derive(Clone, Copy, Debug, PartialEq, Eq, Structural)]
pub enum TimestampError {
    /// A timezone offset outside the accepted range of UTC offsets.
    InvalidTimeZoneOffset {
        /// The rejected offset, in seconds from UTC.
        offset: i32,
    },
    /// A precision (count of fractional digits) that no [`TimeUnit`] carries.
    UnsupportedPrecision {
        /// The rejected count of fractional digits.
        precision: u64,
    },
    /// Normalizing a timestamp to a finer unit left the 64-bit tick range.
    UnitNormalizationOverflow,
}

impl TimeUnit {
    /// Ticks per second of this unit.
    pub open spec fn spec_factor(self) -> int {
        match self {
            TimeUnit::Second => 1,
            TimeUnit::Millisecond => 1000,
            TimeUnit::Microsecond => 1000000,
            TimeUnit::Nanosecond => 1000000000,
        }
    }

    /// Ticks per second of this unit.
    pub fn factor(self) -> (r: i64)
        ensures
            r == self.spec_factor(),
    {
        match self {
            TimeUnit::Second => 1,
            TimeUnit::Millisecond => 1000,
            TimeUnit::Microsecond => 1000000,
            TimeUnit::Nanosecond => 1000000000,
        }
    }

    /// Validating constructor from a count of fractional seconds digits, the
    /// form in which a parsed timestamp literal states its precision.  Only
    /// whole, milli, micro and nano precision are representable.
    pub fn try_from_precision(precision: u64) -> (r: Result<TimeUnit, TimestampError>)
        ensures
            precision == 0 ==> r == Ok::<TimeUnit, TimestampError>(TimeUnit::Second),
            precision == 3 ==> r == Ok::<TimeUnit, TimestampError>(TimeUnit::Millisecond),
            precision == 6 ==> r == Ok::<TimeUnit, TimestampError>(TimeUnit::Microsecond),
            precision == 9 ==> r == Ok::<TimeUnit, TimestampError>(TimeUnit::Nanosecond),
            precision != 0 && precision != 3 && precision != 6 && precision != 9 ==> r
                == Err::<TimeUnit, TimestampError>(
                TimestampError::UnsupportedPrecision { precision },
            ),
    {
        match precision {
            0 => Ok(TimeUnit::Second),
            3 => Ok(TimeUnit::Millisecond),
            6 => Ok(TimeUnit::Microsecond),
            9 => Ok(TimeUnit::Nanosecond),
            _ => Err(TimestampError::UnsupportedPrecision { precision }),
        }
    }
}

/// A timezone as a signed offset from UTC, in seconds.
#[derive(Clone, Copy, Debug, PartialEq, Eq, Structural)]
pub struct TimeZone {
    seconds: i32,
}

impl TimeZone {
    /// The offset from UTC in seconds.
    pub closed spec fn spec_offset(self) -> int {
        self.seconds as int
    }

    /// An offset is accepted when it lies strictly within one day of UTC.
    pub open spec fn offset_in_range(offset: int) -> bool {
        -86400 < offset < 86400
    }

    /// Every constructed timezone carries an in-range offset.
    pub open spec fn wf(self) -> bool {
        TimeZone::offset_in_range(self.spec_offset())
    }

    /// The offset from UTC in seconds.
    pub fn offset(&self) -> (r: i32)
        ensures
            r as int == self.spec_offset(),
    {
        self.seconds
    }

    /// Validating constructor: rejects an offset at or beyond a full day
    /// from UTC with a typed error.
    pub fn try_new(offset_seconds: i32) -> (r: Result<TimeZone, TimestampError>)
        ensures
            TimeZone::offset_in_range(offset_seconds as int) ==> (r matches Ok(z) && z.wf()
                && z.spec_offset() == offset_seconds as int),
            !TimeZone::offset_in_range(offset_seconds as int) ==> r == Err::<
                TimeZone,
                TimestampError,
            >(TimestampError::InvalidTimeZoneOffset { offset: offset_seconds }),
    {
        if -86400 < offset_seconds && offset_seconds < 86400 {
            Ok(TimeZone { seconds: offset_seconds })
        } else {
            Err(TimestampError::InvalidTimeZoneOffset { offset: offset_seconds })
        }
    }

    /// The zero offset.
    pub fn utc() -> (r: TimeZone)
        ensures
            r.spec_offset() == 0,
            r.wf(),
    {
        TimeZone { seconds: 0 }
    }
}

/// The finer (more ticks per second) of two units.
pub open spec fn finer_unit(a: TimeUnit, b: TimeUnit) -> TimeUnit {
    if a.spec_factor() >= b.spec_factor() {
        a
    } else {
        b
    }
}

/// The exact multiplier that carries a tick count of unit `u` to the finer
/// unit `f`; meaningful when `u` is no finer than `f`.
pub open spec fn scale_between(u: TimeUnit, f: TimeUnit) -> int {
    f.spec_factor() / u.spec_factor()
}

/// Compares two timestamps of possibly differing precision.  Both tick
/// counts are normalized to the finer of the two units; when a normalized
/// count no longer fits 64 bits the combination cannot be compared and a
/// typed error is returned.
pub fn compare_timestamps(a: i64, a_unit: TimeUnit, b: i64, b_unit: TimeUnit) -> (r: Result<
    Ordering,
    TimestampError,
>)
    ensures
        ({
            let f = finer_unit(a_unit, b_unit);
            let sa = a * scale_between(a_unit, f);
            let sb = b * scale_between(b_unit, f);
            if i64::MIN <= sa <= i64::MAX && i64::MIN <= sb <= i64::MAX {
                r == Ok::<Ordering, TimestampError>(int_cmp(sa, sb))
            } else {
                r == Err::<Ordering, TimestampError>(TimestampError::UnitNormalizationOverflow)
            }
        }),
{
    let fa = a_unit.factor();
    let fb = b_unit.factor();
    let fine = if fa >= fb {
        a_unit
    } else {
        b_unit
    };
    let ka = fine.factor() / fa;
    let kb = fine.factor() / fb;
    match (a.checked_mul(ka), b.checked_mul(kb)) {
        (Some(sa), Some(sb)) => {
            if sa < sb {
                Ok(Ordering::Less)
            } else if sa > sb {
                Ok(Ordering::Greater)
            } else {
                Ok(Ordering::Equal)
            }
        },
        _ => Err(TimestampError::UnitNormalizationOverflow),
    }
}

} // verus!

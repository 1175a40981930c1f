//! Block time, durations and points of expiry.
//!
//! The ledger is the only clock: every operation is told the current block,
//! and a point of expiry is reached once the block's height or time is at or
//! beyond it.

use vstd::prelude::*;
use vstd::string::*;
use crate::error::{StdError, StdFault};
use crate::text::{decimal_text, lemma_decimal_text_len, u64_to_string};

verus! {

/// Nanoseconds in a second.
pub const NANOS_PER_SECOND: u64 = 1_000_000_000;

/// A point in time, in nanoseconds since the epoch.
#[derive(Clone, Copy, Debug, PartialEq, Eq, Structural)]
pub struct Timestamp {
    pub nanos: u64,
}

/// The block in which an operation runs.
#[derive(Clone, Debug, PartialEq, Eq)]
pub struct BlockInfo {
    pub height: u64,
    pub time: Timestamp,
    pub chain_id: String,
}

/// A span of blocks or of seconds.
#[derive(Clone, Copy, Debug, PartialEq, Eq, Structural)]
pub enum Duration {
    Height(u64),
    /// Time in seconds.
    Time(u64),
}

/// The point at which something ends.
#[derive(Clone, Copy, Debug, PartialEq, Eq, Structural)]
pub enum Expiration {
    /// Reached once the block height is at least this.
    AtHeight(u64),
    /// Reached once the block time is at least this.
    AtTime(Timestamp),
    /// Never reached.
    Never,
}

/// Whether the point of expiry is reached at the given height and time.
pub open spec fn expired_at(e: Expiration, height: u64, time: Timestamp) -> bool {
    match e {
        Expiration::AtHeight(h) => height >= h,
        Expiration::AtTime(t) => time.nanos >= t.nanos,
        Expiration::Never => false,
    }
}

/// The message of the error for durations of different units.
pub open spec fn mixed_units_text() -> Seq<char> {
    "Cannot add height and time"@
}

/// The sum of two durations of the same unit, if it is defined.
pub open spec fn duration_sum(a: Duration, b: Duration) -> Result<Duration, StdFault> {
    match (a, b) {
        (Duration::Height(x), Duration::Height(y)) => if x + y <= u64::MAX {
            Ok(Duration::Height((x + y) as u64))
        } else {
            Err(StdFault::Overflow)
        },
        (Duration::Time(x), Duration::Time(y)) => if x + y <= u64::MAX {
            Ok(Duration::Time((x + y) as u64))
        } else {
            Err(StdFault::Overflow)
        },
        _ => Err(StdFault::GenericErr { msg: mixed_units_text() }),
    }
}

/// A point of expiry moved on by a duration, if that is defined: the units
/// have to agree and the result has to stay in range. What never expires
/// stays so.
pub open spec fn expiration_sum(e: Expiration, d: Duration) -> Result<Expiration, StdFault> {
    match (e, d) {
        (Expiration::AtTime(t), Duration::Time(s)) => if t.nanos + s * NANOS_PER_SECOND
            <= u64::MAX {
            Ok(Expiration::AtTime(Timestamp { nanos: (t.nanos + s * NANOS_PER_SECOND) as u64 }))
        } else {
            Err(StdFault::Overflow)
        },
        (Expiration::AtHeight(h), Duration::Height(n)) => if h + n <= u64::MAX {
            Ok(Expiration::AtHeight((h + n) as u64))
        } else {
            Err(StdFault::Overflow)
        },
        (Expiration::Never, _) => Ok(Expiration::Never),
        _ => Err(StdFault::GenericErr { msg: mixed_units_text() }),
    }
}

/// Whether a duration can be counted from the given height and time without
/// leaving the range of heights and timestamps.
pub open spec fn reachable(height: u64, time: Timestamp, period: Duration) -> bool {
    match period {
        Duration::Height(h) => height + h <= u64::MAX,
        Duration::Time(s) => time.nanos + s * NANOS_PER_SECOND <= u64::MAX,
    }
}

/// The point of expiry one duration after the given height and time.
pub open spec fn expiry_after(height: u64, time: Timestamp, period: Duration) -> Expiration {
    match period {
        Duration::Height(h) => Expiration::AtHeight((height + h) as u64),
        Duration::Time(s) => Expiration::AtTime(
            Timestamp { nanos: (time.nanos + s * NANOS_PER_SECOND) as u64 },
        ),
    }
}

/// A time as seconds and nine digits of nanoseconds, with a dot between.
pub open spec fn timestamp_text(t: Timestamp) -> Seq<char> {
    let whole = (t.nanos / NANOS_PER_SECOND) as nat;
    let padded = decimal_text((NANOS_PER_SECOND + t.nanos % NANOS_PER_SECOND) as nat);
    decimal_text(whole) + "."@ + padded.subrange(1, padded.len() as int)
}

/// A point of expiry in words.
pub open spec fn expiration_text(e: Expiration) -> Seq<char> {
    match e {
        Expiration::AtHeight(h) => "expiration height: "@ + decimal_text(h as nat),
        Expiration::AtTime(t) => "expiration time: "@ + timestamp_text(t),
        Expiration::Never => "expiration: never"@,
    }
}

impl Timestamp {
    /// This time as seconds and nine digits of nanoseconds.
    pub fn to_string(&self) -> (r: String)
        ensures
            r@ == timestamp_text(*self),
    {
        let whole = u64_to_string(self.nanos / NANOS_PER_SECOND);
        let padded = u64_to_string(NANOS_PER_SECOND + self.nanos % NANOS_PER_SECOND);
        proof {
            lemma_decimal_text_len((NANOS_PER_SECOND + self.nanos % NANOS_PER_SECOND) as nat);
        }
        let n = padded.as_str().unicode_len();
        let digits = padded.as_str().substring_char(1, n);
        whole.concat(".").concat(digits)
    }

    /// The time `nanos` nanoseconds after the epoch.
    pub fn from_nanos(nanos: u64) -> (r: Timestamp)
        ensures
            r.nanos == nanos,
    {
        Timestamp { nanos }
    }

    /// The time `seconds` seconds after the epoch.
    pub fn from_seconds(seconds: u64) -> (r: Timestamp)
        requires
            seconds * NANOS_PER_SECOND <= u64::MAX,
        ensures
            r.nanos == seconds * NANOS_PER_SECOND,
    {
        Timestamp { nanos: seconds * NANOS_PER_SECOND }
    }

    /// Nanoseconds since the epoch.
    pub fn nanos(&self) -> (r: u64)
        ensures
            r == self.nanos,
    {
        self.nanos
    }

    /// Whole seconds since the epoch.
    pub fn seconds(&self) -> (r: u64)
        ensures
            r == self.nanos / NANOS_PER_SECOND,
    {
        self.nanos / NANOS_PER_SECOND
    }

    /// This time moved forward by a number of seconds.
    pub fn plus_seconds(&self, addition: u64) -> (r: Timestamp)
        requires
            self.nanos + addition * NANOS_PER_SECOND <= u64::MAX,
        ensures
            r.nanos == self.nanos + addition * NANOS_PER_SECOND,
    {
        Timestamp { nanos: self.nanos + addition * NANOS_PER_SECOND }
    }

    /// This time moved forward by a number of seconds, or `None` when that
    /// would leave the range of timestamps.
    pub fn checked_plus_seconds(&self, addition: u64) -> (r: Option<Timestamp>)
        ensures
            match r {
                Some(t) => t.nanos == self.nanos + addition * NANOS_PER_SECOND,
                None => self.nanos + addition * NANOS_PER_SECOND > u64::MAX,
            },
    {
        match addition.checked_mul(NANOS_PER_SECOND) {
            Some(nanos) => match self.nanos.checked_add(nanos) {
                Some(sum) => Some(Timestamp { nanos: sum }),
                None => None,
            },
            None => None,
        }
    }
}

impl Default for Timestamp {
    fn default() -> (r: Timestamp)
        ensures
            r.nanos == 0,
    {
        Timestamp { nanos: 0 }
    }
}

impl Default for Expiration {
    fn default() -> (r: Expiration)
        ensures
            r == Expiration::Never,
    {
        Expiration::Never
    }
}

impl Expiration {
    /// This point of expiry in words.
    pub fn to_string(&self) -> (r: String)
        ensures
            r@ == expiration_text(*self),
    {
        match self {
            Expiration::AtHeight(h) => {
                let n = u64_to_string(*h);
                "expiration height: ".to_owned().concat(n.as_str())
            },
            Expiration::AtTime(t) => {
                let n = t.to_string();
                "expiration time: ".to_owned().concat(n.as_str())
            },
            Expiration::Never => "expiration: never".to_owned(),
        }
    }

    /// This point moved on by a duration of the same unit.
    pub fn plus(&self, duration: &Duration) -> (r: Result<Expiration, StdError>)
        ensures
            match r {
                Ok(e) => expiration_sum(*self, *duration) == Ok::<Expiration, StdFault>(e),
                Err(e) => expiration_sum(*self, *duration) == Err::<Expiration, StdFault>(e@),
            },
    {
        match (self, duration) {
            (Expiration::AtTime(t), Duration::Time(delta)) => match t.checked_plus_seconds(*delta) {
                Some(sum) => Ok(Expiration::AtTime(sum)),
                None => Err(StdError::Overflow),
            },
            (Expiration::AtHeight(h), Duration::Height(delta)) => match h.checked_add(*delta) {
                Some(sum) => Ok(Expiration::AtHeight(sum)),
                None => Err(StdError::Overflow),
            },
            (Expiration::Never, _) => Ok(Expiration::Never),
            _ => Err(StdError::generic_err("Cannot add height and time")),
        }
    }

    /// Whether this point is reached in the given block.
    pub fn is_expired(&self, block: &BlockInfo) -> (r: bool)
        ensures
            r == expired_at(*self, block.height, block.time),
    {
        match self {
            Expiration::AtHeight(height) => block.height >= *height,
            Expiration::AtTime(time) => block.time.nanos >= time.nanos,
            Expiration::Never => false,
        }
    }
}

impl Duration {
    /// The sum of two durations. Durations of different units cannot be
    /// added, and the sum has to stay in range.
    pub fn plus(&self, rhs: &Duration) -> (r: Result<Duration, StdError>)
        ensures
            match r {
                Ok(d) => duration_sum(*self, *rhs) == Ok::<Duration, StdFault>(d),
                Err(e) => duration_sum(*self, *rhs) == Err::<Duration, StdFault>(e@),
            },
    {
        match (self, rhs) {
            (Duration::Height(x), Duration::Height(y)) => match x.checked_add(*y) {
                Some(sum) => Ok(Duration::Height(sum)),
                None => Err(StdError::Overflow),
            },
            (Duration::Time(x), Duration::Time(y)) => match x.checked_add(*y) {
                Some(sum) => Ok(Duration::Time(sum)),
                None => Err(StdError::Overflow),
            },
            _ => Err(StdError::generic_err("Cannot add height and time")),
        }
    }

    /// Whether two durations are measured in the same unit.
    pub fn same_unit(&self, other: &Duration) -> (r: bool)
        ensures
            r == ((*self is Height) == (*other is Height)),
    {
        match (self, other) {
            (Duration::Height(_), Duration::Height(_)) => true,
            (Duration::Time(_), Duration::Time(_)) => true,
            _ => false,
        }
    }

    /// The point of expiry this duration after the given block.
    pub fn after(&self, block: &BlockInfo) -> (r: Expiration)
        requires
            reachable(block.height, block.time, *self),
        ensures
            r == expiry_after(block.height, block.time, *self),
    {
        match self {
            Duration::Height(h) => Expiration::AtHeight(block.height + *h),
            Duration::Time(t) => Expiration::AtTime(block.time.plus_seconds(*t)),
        }
    }

    /// Whether this duration can be counted from the given height and time.
    pub fn fits_after(&self, height: u64, time: Timestamp) -> (r: bool)
        ensures
            r == reachable(height, time, *self),
    {
        match self {
            Duration::Height(h) => height.checked_add(*h).is_some(),
            Duration::Time(t) => time.checked_plus_seconds(*t).is_some(),
        }
    }
}

} // verus!

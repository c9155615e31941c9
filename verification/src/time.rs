//! Time normalisation: from a commit's native timestamp to an absolute instant.
//!
//! A commit records the seconds since the Unix epoch together with the offset
//! of the author's clock, in minutes west of UTC. The instant is validated and
//! converted by `chrono`; the arithmetic around it is verified here.

use chrono::TimeZone;
use vstd::prelude::*;

verus! {

/// First second since the epoch that falls into a representable calendar year.
pub const MIN_TIMESTAMP_SECONDS: i64 = -8_334_601_228_800;

/// Last second since the epoch that falls into a representable calendar year.
pub const MAX_TIMESTAMP_SECONDS: i64 = 8_210_266_876_799;

/// An absolute point in time: milliseconds since 1970-01-01T00:00:00 UTC.
#[derive(Clone, Copy, Debug, PartialEq, Eq, Structural)]
pub struct UtcInstant {
    pub millis: i64,
}

/// The reading of a clock that runs at some offset from UTC, in milliseconds
/// since that clock showed 1970-01-01T00:00:00.
#[derive(Clone, Copy, Debug, PartialEq, Eq, Structural)]
pub struct WallClock {
    pub millis: i64,
}

/// Why a native timestamp could not be normalised.
#[derive(Clone, Copy, Debug, PartialEq, Eq, Structural)]
pub enum TimeError {
    /// The offset is a whole day or more away from UTC.
    OffsetOutOfRange,
    /// The seconds lie outside the representable calendar years.
    TimestampOutOfRange,
}

/// An offset between a local clock and UTC of less than a day.
#[derive(Clone, Copy, Debug, PartialEq, Eq)]
pub struct UtcOffset {
    local_minus_utc: i32,
}

/// A span of time in whole seconds.
#[derive(Clone, Copy, Debug, PartialEq, Eq, Structural)]
pub struct Delay {
    pub seconds: i64,
}

/// The longest span, in seconds, that still counts in 64-bit milliseconds.
pub const MAX_DELAY_SECONDS: i64 = 9_223_372_036_854_775;

/// The seconds of a span of whole minutes, if the span is not too long.
pub open spec fn delay_seconds(minutes: int) -> Option<int> {
    if -MAX_DELAY_SECONDS <= minutes * 60 <= MAX_DELAY_SECONDS {
        Some(minutes * 60)
    } else {
        None
    }
}

/// Whether an offset in minutes is less than a day away from UTC.
pub open spec fn offset_in_range(offset_minutes: int) -> bool {
    -1440 < offset_minutes < 1440
}

/// Whether the seconds since the epoch fall into a representable calendar year.
pub open spec fn timestamp_in_range(seconds: int) -> bool {
    MIN_TIMESTAMP_SECONDS <= seconds <= MAX_TIMESTAMP_SECONDS
}

/// Seconds that a clock is ahead of UTC when it is `offset_minutes` west of it.
pub open spec fn seconds_east_of(offset_minutes: int) -> int {
    -(offset_minutes * 60)
}

/// What a clock `seconds_east` ahead of UTC shows at the instant `utc_millis`.
pub open spec fn wall_clock_millis(utc_millis: int, seconds_east: int) -> int {
    utc_millis + seconds_east * 1000
}

/// The instant at which a clock `seconds_east` ahead of UTC shows `wall_millis`.
pub open spec fn utc_millis(wall_millis: int, seconds_east: int) -> int {
    wall_millis - seconds_east * 1000
}

/// The instant of a native timestamp in milliseconds, or why it has none.
/// The offset is judged first.
pub open spec fn normalized(seconds: int, offset_minutes: int) -> Result<int, TimeError> {
    if !offset_in_range(offset_minutes) {
        Err(TimeError::OffsetOutOfRange)
    } else if !timestamp_in_range(seconds) {
        Err(TimeError::TimestampOutOfRange)
    } else {
        Ok(seconds * 1000)
    }
}

/// Calls `chrono::FixedOffset::west_opt` and reads the offset back with
/// `FixedOffset::local_minus_utc`. Trusted: an offset of less than a day is
/// accepted and stored negated, as seconds east of UTC; any other is refused.
#[verifier::external_body]
fn fixed_offset_west(secs: i32) -> (r: Option<i32>)
    ensures
        r == (if -86_400 < secs < 86_400 {
            Some((-secs) as i32)
        } else {
            None::<i32>
        }),
{
    chrono::FixedOffset::west_opt(secs).map(|offset| offset.local_minus_utc())
}

/// Calls `chrono::TimeZone::timestamp_millis_opt` on the fixed offset of
/// `local_minus_utc` seconds, converts the date and time to UTC with
/// `DateTime::<Utc>::from` and reads it back with `DateTime::timestamp_millis`.
/// Trusted: the milliseconds count from the epoch in UTC whatever the offset,
/// so they come back unchanged; they are refused exactly when they fall
/// outside the calendar years -262143 to 262142.
#[verifier::external_body]
fn utc_timestamp_millis(local_minus_utc: i32, millis: i64) -> (r: Option<i64>)
    requires
        -86_400 < local_minus_utc < 86_400,
    ensures
        r == (if MIN_TIMESTAMP_SECONDS * 1000 <= millis <= MAX_TIMESTAMP_SECONDS * 1000 + 999 {
            Some(millis)
        } else {
            None::<i64>
        }),
{
    let offset = chrono::FixedOffset::east_opt(local_minus_utc)?;
    let local = offset.timestamp_millis_opt(millis).single()?;
    Some(chrono::DateTime::<chrono::Utc>::from(local).timestamp_millis())
}

/// Calls `chrono::Duration::try_minutes` and reads the span back with
/// `Duration::num_seconds`. Trusted: a span is made exactly if its seconds,
/// sixty to the minute, do not exceed `i64::MAX` milliseconds either way, and
/// it then holds these seconds.
#[verifier::external_body]
fn duration_of_minutes(minutes: i64) -> (r: Option<i64>)
    ensures
        r == (match delay_seconds(minutes as int) {
            Some(seconds) => Some(seconds as i64),
            None => None::<i64>,
        }),
{
    chrono::Duration::try_minutes(minutes).map(|span| span.num_seconds())
}

impl Delay {
    /// The span of `minutes` whole minutes, unless it is too long to count in
    /// 64-bit milliseconds.
    pub fn of_minutes(minutes: i64) -> (r: Option<Delay>)
        ensures
            r == (match delay_seconds(minutes as int) {
                Some(seconds) => Some(Delay { seconds: seconds as i64 }),
                None => None::<Delay>,
            }),
    {
        match duration_of_minutes(minutes) {
            Some(seconds) => Some(Delay { seconds }),
            None => None,
        }
    }
}

impl UtcOffset {
    #[verifier::type_invariant]
    spec fn within_a_day(self) -> bool {
        -86_400 < self.local_minus_utc < 86_400
    }

    /// Seconds that the local clock is ahead of UTC.
    pub closed spec fn seconds_east(self) -> int {
        self.local_minus_utc as int
    }

    /// The offset of a clock that is `offset_minutes` west of UTC.
    pub fn west_minutes(offset_minutes: i32) -> (r: Option<UtcOffset>)
        ensures
            r is Some <==> offset_in_range(offset_minutes as int),
            r matches Some(offset) ==> offset.seconds_east() == seconds_east_of(
                offset_minutes as int,
            ),
    {
        match offset_minutes.checked_mul(60) {
            Some(secs) => match fixed_offset_west(secs) {
                Some(local_minus_utc) => Some(UtcOffset { local_minus_utc }),
                None => None,
            },
            None => None,
        }
    }

    /// Seconds that the local clock is ahead of UTC, always less than a day.
    pub fn local_minus_utc(&self) -> (secs: i32)
        ensures
            secs == self.seconds_east(),
            -86_400 < secs < 86_400,
    {
        proof {
            use_type_invariant(self);
        }
        self.local_minus_utc
    }

    /// The offset of the same size in the other direction.
    pub fn inverse(&self) -> (r: UtcOffset)
        ensures
            r.seconds_east() == -self.seconds_east(),
    {
        proof {
            use_type_invariant(self);
        }
        UtcOffset { local_minus_utc: -self.local_minus_utc }
    }

    /// The instant of `seconds` since the epoch as recorded by a clock at this
    /// offset. The instant does not depend on the offset; it must fall into a
    /// representable calendar year.
    pub fn instant_at(&self, seconds: i64) -> (r: Option<UtcInstant>)
        ensures
            r == (if timestamp_in_range(seconds as int) {
                Some(UtcInstant { millis: (seconds * 1000) as i64 })
            } else {
                None::<UtcInstant>
            }),
    {
        proof {
            use_type_invariant(self);
        }
        match seconds.checked_mul(1000) {
            Some(millis) => match utc_timestamp_millis(self.local_minus_utc, millis) {
                Some(utc) => Some(UtcInstant { millis: utc }),
                None => None,
            },
            None => None,
        }
    }

    /// What the local clock shows at `instant`, unless that leaves the range
    /// of 64-bit milliseconds.
    pub fn wall_clock(&self, instant: UtcInstant) -> (r: Option<WallClock>)
        ensures
            match r {
                Some(local) => local.millis == wall_clock_millis(
                    instant.millis as int,
                    self.seconds_east(),
                ),
                None => {
                    let shown = wall_clock_millis(instant.millis as int, self.seconds_east());
                    shown < i64::MIN || shown > i64::MAX
                },
            },
    {
        proof {
            use_type_invariant(self);
        }
        let shift: i64 = (self.local_minus_utc as i64) * 1000;
        match instant.millis.checked_add(shift) {
            Some(millis) => Some(WallClock { millis }),
            None => None,
        }
    }

    /// The instant at which the local clock shows `local`, unless that leaves
    /// the range of 64-bit milliseconds.
    pub fn instant_of(&self, local: WallClock) -> (r: Option<UtcInstant>)
        ensures
            match r {
                Some(instant) => instant.millis == utc_millis(
                    local.millis as int,
                    self.seconds_east(),
                ),
                None => {
                    let at = utc_millis(local.millis as int, self.seconds_east());
                    at < i64::MIN || at > i64::MAX
                },
            },
    {
        proof {
            use_type_invariant(self);
        }
        let shift: i64 = (self.local_minus_utc as i64) * 1000;
        match local.millis.checked_sub(shift) {
            Some(millis) => Some(UtcInstant { millis }),
            None => None,
        }
    }
}

/// Converts a commit's native timestamp to an absolute instant: `seconds`
/// since the epoch, recorded by a clock `offset_minutes` west of UTC.
pub fn normalize(seconds: i64, offset_minutes: i32) -> (r: Result<UtcInstant, TimeError>)
    ensures
        r == (match normalized(seconds as int, offset_minutes as int) {
            Ok(millis) => Ok::<UtcInstant, TimeError>(UtcInstant { millis: millis as i64 }),
            Err(e) => Err::<UtcInstant, TimeError>(e),
        }),
{
    match UtcOffset::west_minutes(offset_minutes) {
        None => Err(TimeError::OffsetOutOfRange),
        Some(offset) => match offset.instant_at(seconds) {
            None => Err(TimeError::TimestampOutOfRange),
            Some(instant) => Ok(instant),
        },
    }
}

/// Normalising keeps the wall-clock time. A timestamp in range stands for
/// a reading of the author's clock; the normalised instant is that reading
/// converted to UTC. Converted back through the same offset, or, what is the
/// same, shifted against the inverse offset, the instant gives the reading
/// again.
pub proof fn lemma_wall_clock_round_trip(seconds: int, offset_minutes: int)
    requires
        offset_in_range(offset_minutes),
        timestamp_in_range(seconds),
    ensures
        normalized(seconds, offset_minutes) is Ok,
        ({
            let east = seconds_east_of(offset_minutes);
            let instant = normalized(seconds, offset_minutes)->Ok_0;
            let reading = (seconds + east) * 1000;
            &&& instant == utc_millis(reading, east)
            &&& wall_clock_millis(instant, east) == reading
            &&& utc_millis(instant, -east) == reading
            &&& i64::MIN <= reading <= i64::MAX
        }),
{
}

} // verus!

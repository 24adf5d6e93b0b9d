use vstd::prelude::*;

verus! {

/// Earliest instant representable by `chrono::DateTime<Utc>`, as Unix seconds
/// (January 1 of year -262143, 00:00:00).
pub const MIN_UTC_SECS: i64 = -8334601315200i64;

/// Latest whole second representable by `chrono::DateTime<Utc>`, as Unix seconds
/// (December 31 of year 262142, 23:59:59).
pub const MAX_UTC_SECS: i64 = 8210266876799i64;

/// Largest whole number of seconds a `chrono::TimeDelta` can hold.
pub const MAX_DELTA_SECS: i64 = 9223372036854775i64;

/// Smallest whole number of seconds a `chrono::TimeDelta` can hold.
pub const MIN_DELTA_SECS: i64 = -9223372036854776i64;

/// A file modification time: whole Unix seconds and the nanoseconds past them, as
/// precise as the filesystem reports it.
#[derive(Debug, Clone, Copy, PartialEq, Eq, Structural)]
pub struct Timestamp {
    pub secs: i64,
    pub nanos: u32,
}

/// Nanoseconds in a second.
pub const NANOS_PER_SEC: i128 = 1_000_000_000i128;

/// Earliest instant representable by `chrono::DateTime<Utc>`, as Unix nanoseconds.
pub const MIN_UTC_NANOS: i128 = -8334601315200000000000i128;

/// Latest instant representable by `chrono::DateTime<Utc>`, as Unix nanoseconds (the
/// last nanosecond of `MAX_UTC_SECS`).
pub const MAX_UTC_NANOS: i128 = 8210266876799999999999i128;

/// An instant (Unix nanoseconds) that `chrono::DateTime<Utc>` can represent.
pub open spec fn valid_instant(t: int) -> bool {
    MIN_UTC_NANOS <= t <= MAX_UTC_NANOS
}

/// A whole Unix second that `chrono::DateTime<Utc>` can represent.
pub open spec fn valid_instant_secs(t: int) -> bool {
    MIN_UTC_SECS <= t <= MAX_UTC_SECS
}

/// A number of seconds that `chrono::TimeDelta::try_seconds` accepts.
pub open spec fn valid_delta(secs: int) -> bool {
    MIN_DELTA_SECS <= secs <= MAX_DELTA_SECS
}

/// `secs` seconds in nanoseconds.
pub open spec fn nanos_of(secs: int) -> int {
    secs * NANOS_PER_SEC
}

/// `t` held within the range of representable instants.
pub open spec fn clamp_instant(t: int) -> int {
    if t < MIN_UTC_NANOS {
        MIN_UTC_NANOS as int
    } else if t > MAX_UTC_NANOS {
        MAX_UTC_NANOS as int
    } else {
        t
    }
}

/// The instant `secs` seconds after `at` (an instant in nanoseconds), held within the
/// range of representable instants.
pub fn clamp_add_secs(at: i128, secs: i64) -> (r: i128)
    requires
        valid_instant(at as int),
        valid_delta(secs as int),
    ensures
        r == clamp_instant(at + nanos_of(secs as int)),
{
    let sum = at + (secs as i128) * NANOS_PER_SEC;
    if sum < MIN_UTC_NANOS {
        MIN_UTC_NANOS
    } else if sum > MAX_UTC_NANOS {
        MAX_UTC_NANOS
    } else {
        sum
    }
}

#[verifier::external_type_specification]
#[verifier::external_body]
pub struct ExSystemTime(std::time::SystemTime);

/// `std::time::SystemTime::now`: the wall clock. Nothing is claimed of the reading.
#[verifier::external_body]
fn system_time_now() -> (r: std::time::SystemTime) {
    std::time::SystemTime::now()
}

/// `SystemTime::duration_since(UNIX_EPOCH)` as whole seconds and the nanoseconds past
/// them: `Ok` for a time at or after the epoch, `Err` with the distance before it
/// (`SystemTimeError::duration`) otherwise. The time is opaque, so nothing is claimed of
/// the answer beyond what `Duration::subsec_nanos` documents (below a second).
#[verifier::external_body]
fn unix_time(t: &std::time::SystemTime) -> (r: Result<(u64, u32), (u64, u32)>)
    ensures
        match r {
            Ok((_, n)) => n < 1_000_000_000,
            Err((_, n)) => n < 1_000_000_000,
        },
{
    match t.duration_since(std::time::UNIX_EPOCH) {
        Ok(d) => Ok((d.as_secs(), d.subsec_nanos())),
        Err(e) => Err((e.duration().as_secs(), e.duration().subsec_nanos())),
    }
}

/// A clock reading (`Ok`: seconds and nanoseconds after the Unix epoch; `Err`: before
/// it) as an instant in nanoseconds, held within the instants the agent can represent.
pub open spec fn spec_clock_nanos(reading: Result<(u64, u32), (u64, u32)>) -> int {
    match reading {
        Ok((secs, nanos)) => clamp_instant(nanos_of(secs as int) + nanos),
        Err((secs, nanos)) => clamp_instant(-(nanos_of(secs as int) + nanos)),
    }
}

/// The instant of a clock reading, as `spec_clock_nanos` says.
pub fn clock_nanos(reading: Result<(u64, u32), (u64, u32)>) -> (r: i128)
    ensures
        r == spec_clock_nanos(reading),
{
    match reading {
        Ok((secs, nanos)) => {
            let t = (secs as i128) * NANOS_PER_SEC + (nanos as i128);
            if t > MAX_UTC_NANOS {
                MAX_UTC_NANOS
            } else {
                t
            }
        },
        Err((secs, nanos)) => {
            let t = -((secs as i128) * NANOS_PER_SEC + (nanos as i128));
            if t < MIN_UTC_NANOS {
                MIN_UTC_NANOS
            } else {
                t
            }
        },
    }
}

/// The wall clock in Unix nanoseconds, as `clock_nanos` holds it.
pub fn now_nanos() -> (r: i128)
    ensures
        valid_instant(r as int),
{
    let now = system_time_now();
    clock_nanos(unix_time(&now))
}

/// The whole Unix seconds (rounded down, as `DateTime::timestamp` gives them) of a
/// clock reading, held within the representable seconds.
pub open spec fn spec_clock_secs(reading: Result<(u64, u32), (u64, u32)>) -> int {
    match reading {
        Ok((secs, _)) => if secs > MAX_UTC_SECS {
            MAX_UTC_SECS as int
        } else {
            secs as int
        },
        Err((secs, nanos)) => if secs >= -MIN_UTC_SECS {
            MIN_UTC_SECS as int
        } else if nanos == 0 {
            -secs
        } else {
            -secs - 1
        },
    }
}

/// The whole seconds of a clock reading, as `spec_clock_secs` says.
pub fn clock_secs(reading: Result<(u64, u32), (u64, u32)>) -> (r: i64)
    ensures
        r == spec_clock_secs(reading),
{
    match reading {
        Ok((secs, _)) => if secs > 8210266876799u64 {
            MAX_UTC_SECS
        } else {
            secs as i64
        },
        Err((secs, nanos)) => if secs >= 8334601315200u64 {
            MIN_UTC_SECS
        } else if nanos == 0 {
            -(secs as i64)
        } else {
            -(secs as i64) - 1
        },
    }
}

/// The wall clock in whole Unix seconds (`DateTime::timestamp`), as `clock_secs`
/// holds it.
pub fn now_secs() -> (r: i64)
    ensures
        valid_instant_secs(r as int),
{
    let now = system_time_now();
    clock_secs(unix_time(&now))
}

/// The instant `secs` seconds after `at` (nanoseconds), as chrono computes
/// `at + TimeDelta::try_seconds(secs)` with `checked_add_signed`: a value exactly when
/// `at` is a representable instant, `secs` fits a `TimeDelta`, and the sum is again a
/// representable instant; the value is then the plain sum.
pub fn checked_add_secs(at: i128, secs: i64) -> (r: Option<i128>)
    ensures
        r == (if valid_instant(at as int) && valid_delta(secs as int) && valid_instant(
            at + nanos_of(secs as int),
        ) {
            Some((at + nanos_of(secs as int)) as i128)
        } else {
            None
        }),
{
    if at < MIN_UTC_NANOS || at > MAX_UTC_NANOS || secs < MIN_DELTA_SECS || secs > MAX_DELTA_SECS {
        return None;
    }
    let sum = at + (secs as i128) * NANOS_PER_SEC;
    if sum < MIN_UTC_NANOS || sum > MAX_UTC_NANOS {
        None
    } else {
        Some(sum)
    }
}

/// The whole second `secs` seconds after the whole second `at`, as chrono computes
/// `DateTime::from_timestamp(at, 0)` plus `TimeDelta::try_seconds(secs)`: a value
/// exactly when both are representable and so is the sum.
pub fn checked_add_whole_secs(at: i64, secs: i64) -> (r: Option<i64>)
    ensures
        r == (if valid_instant_secs(at as int) && valid_delta(secs as int) && valid_instant_secs(
            at + secs,
        ) {
            Some((at + secs) as i64)
        } else {
            None
        }),
{
    if at < MIN_UTC_SECS || at > MAX_UTC_SECS || secs < MIN_DELTA_SECS || secs > MAX_DELTA_SECS {
        return None;
    }
    let sum = at + secs;
    if sum < MIN_UTC_SECS || sum > MAX_UTC_SECS {
        None
    } else {
        Some(sum)
    }
}

} // verus!

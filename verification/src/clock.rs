//! The system clock and the validity of a certificate.

use crate::text::views;
use crate::x509::{CertView, ParsedCert};
use std::time::{Duration, SystemTime, SystemTimeError, UNIX_EPOCH};
use vstd::prelude::*;
use x509_parser::time::ASN1Time;

verus! {

/// The start of 2020, in seconds since the start of 1970. A clock that shows
/// an earlier time has not been set.
pub const PRE_NTP_EPOCH_SECS: u64 = 1_577_836_800;

/// What is said where the clock has not been set.
pub const CLOCK_NOT_SET: &'static str = "system clock pre-2020, skipping cert validity check";

/// A moment that the system clock tells.
#[verifier::external_type_specification]
#[verifier::external_body]
pub struct ExSystemTime(SystemTime);

/// The error of `SystemTime::duration_since`.
#[verifier::external_type_specification]
#[verifier::external_body]
pub struct ExSystemTimeError(SystemTimeError);

/// `SystemTime::now` tells the time of the system clock: nothing is known of it.
pub assume_specification[ SystemTime::now ]() -> SystemTime
;

/// The nanoseconds from the start of 1970 to a moment; negative before it.
pub uninterp spec fn moment_nanos(moment: SystemTime) -> int;

/// The nanoseconds of a duration.
pub uninterp spec fn duration_nanos(d: Duration) -> nat;

/// `Duration::as_secs` gives the whole seconds of a duration, without the
/// fraction of a second that is left.
pub assume_specification[ Duration::as_secs ](d: &Duration) -> (r: u64)
    ensures
        r == duration_nanos(*d) / 1_000_000_000,
;

/// Calls `SystemTime::duration_since` with `UNIX_EPOCH`: the time since the
/// start of 1970, or an error where the moment lies before it.
#[verifier::external_body]
fn since_epoch(moment: SystemTime) -> (r: Result<Duration, SystemTimeError>)
    ensures
        match r {
            Ok(elapsed) => duration_nanos(elapsed) == moment_nanos(moment),
            Err(_) => moment_nanos(moment) < 0,
        },
{
    moment.duration_since(UNIX_EPOCH)
}

/// Whether some moment lies `nanos` nanoseconds after the start of 1970.
pub open spec fn is_moment(nanos: int) -> bool {
    exists|moment: SystemTime| #[trigger] moment_nanos(moment) == nanos
}

/// Calls `ASN1Time::now` of `x509-parser`, as nanoseconds since the start of
/// 1970. The result is a moment; which one, the system clock decides. The call
/// panics where the clock stands after the year 9999.
#[verifier::external_body]
fn asn1_now() -> (r: i128)
    ensures
        is_moment(r as int),
{
    ASN1Time::now().to_datetime().unix_timestamp_nanos()
}

/// A reading of the clock.
#[derive(Debug, Clone, Copy, PartialEq, Eq, Structural)]
pub struct Clock {
    /// Whole seconds since the start of 1970; 0 before it.
    pub secs: u64,
    /// Nanoseconds since the start of 1970; 0 where the clock has not been set.
    pub nanos: i128,
}

/// Whether a certificate is valid, with the errors that were found on the way.
#[verifier::ext_equal]
pub struct ValidityView {
    pub ok: bool,
    pub errors: Seq<Seq<char>>,
}

/// Whether a certificate is valid at the time `clock`. Where the clock has not
/// been set, it counts as valid.
pub open spec fn validity_at(leaf: CertView, clock: Clock) -> ValidityView {
    if clock.secs < PRE_NTP_EPOCH_SECS {
        ValidityView { ok: true, errors: seq![CLOCK_NOT_SET@] }
    } else {
        ValidityView {
            ok: leaf.not_before.nanos <= clock.nanos <= leaf.not_after.nanos,
            errors: seq![],
        }
    }
}

/// Whether `secs` are the whole seconds from the start of 1970 to the moment
/// `nanos` nanoseconds after it; a moment before it has none.
pub open spec fn are_secs_at(secs: Option<u64>, nanos: int) -> bool {
    match secs {
        Some(secs) => nanos >= 0 && secs == nanos / 1_000_000_000,
        None => nanos < 0,
    }
}

/// Whether a clock may have been read as `clock`: its seconds are those of a
/// moment, or 0 for one before 1970, and its nanoseconds those of a moment
/// where the clock has been set.
pub open spec fn is_reading(clock: Clock) -> bool {
    &&& exists|moment: SystemTime|
        {
            ||| are_secs_at(Some(clock.secs), #[trigger] moment_nanos(moment))
            ||| clock.secs == 0 && are_secs_at(None, moment_nanos(moment))
        }
    &&& if clock.secs < PRE_NTP_EPOCH_SECS {
        clock.nanos == 0
    } else {
        is_moment(clock.nanos as int)
    }
}

/// Whether `clocks` are `count` readings of a clock.
pub open spec fn are_readings(clocks: Seq<Clock>, count: nat) -> bool {
    &&& clocks.len() == count
    &&& forall|n: int| 0 <= n < clocks.len() ==> is_reading(#[trigger] clocks[n])
}

/// The whole seconds from the start of 1970 to a moment, or nothing where the
/// moment lies before it.
pub fn secs_since_epoch(moment: SystemTime) -> (r: Option<u64>)
    ensures
        are_secs_at(r, moment_nanos(moment)),
{
    match since_epoch(moment) {
        Ok(elapsed) => Some(elapsed.as_secs()),
        Err(_) => None,
    }
}

/// The whole seconds since the start of 1970, or nothing where the clock
/// stands before it.
pub(crate) fn epoch_secs() -> (r: Option<u64>)
    ensures
        exists|moment: SystemTime| are_secs_at(r, #[trigger] moment_nanos(moment)),
{
    secs_since_epoch(SystemTime::now())
}

/// Reads the clock.
pub fn read_clock() -> (r: Clock)
    ensures
        is_reading(r),
{
    let secs: u64 = match epoch_secs() {
        Some(secs) => secs,
        None => 0,
    };
    let nanos: i128 = if secs < PRE_NTP_EPOCH_SECS {
        0
    } else {
        asn1_now()
    };
    Clock { secs, nanos }
}

/// Says whether a certificate is valid at the time `clock`, and adds that the
/// clock has not been set where that is so.
pub fn check_validity_at(leaf: &ParsedCert, clock: &Clock, errors: &mut Vec<String>) -> (r: bool)
    ensures
        r == validity_at(leaf@, *clock).ok,
        views(final(errors)@) == views(old(errors)@) + validity_at(leaf@, *clock).errors,
{
    if clock.secs < PRE_NTP_EPOCH_SECS {
        errors.push(CLOCK_NOT_SET.to_string());
        assert(views(errors@) == views(old(errors)@) + seq![CLOCK_NOT_SET@]);
        return true;
    }
    assert(views(errors@) == views(old(errors)@) + Seq::<Seq<char>>::empty());
    leaf.not_before.nanos <= clock.nanos && clock.nanos <= leaf.not_after.nanos
}

/// Says whether a certificate is valid now, at the time that the clock tells.
pub fn check_validity(leaf: &ParsedCert, errors: &mut Vec<String>) -> (r: bool)
    ensures
        exists|clock: Clock|
            {
                &&& is_reading(clock)
                &&& r == #[trigger] validity_at(leaf@, clock).ok
                &&& views(final(errors)@) == views(old(errors)@) + validity_at(leaf@, clock).errors
            },
{
    let clock = read_clock();
    check_validity_at(leaf, &clock, errors)
}

} // verus!

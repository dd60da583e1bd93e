//! Accept-time reconstruction.
//!
//! The wire carries only a time of day, eight digit bytes `HHMMSSCC`
//! (`CC` being hundredths of a second).  The calendar date is not on
//! the wire, so the decoder combines the field with the current date
//! at decode time, taken from the clock; the result is therefore only
//! meaningful when decoding happens on the day of the capture.  Each
//! two-digit group is read leniently, and an impossible time of day
//! falls back to midnight.

use crate::fields::lemma_digits_value_bound;
use crate::fields::lenient_value;
use crate::fields::parse_digits;
use crate::fields::pow10;
use vstd::prelude::*;

verus! {

/// Largest midnight (in seconds since the epoch) that the decoder
/// accepts; any date the calendar library can represent lies below it,
/// and it keeps accept instants within `u64` microseconds.
pub const MAX_MIDNIGHT_SECS: i64 = 8_400_000_000_000;

/// A midnight the decoder can work from: the start of some day, at or
/// after the epoch, within the representable calendar.
pub open spec fn valid_midnight(midnight_secs: i64) -> bool {
    0 <= midnight_secs <= MAX_MIDNIGHT_SECS && midnight_secs % 86400 == 0
}

/// One two-digit group of the eight-byte field, read leniently.
pub open spec fn time_group(f: Seq<u8>, i: int) -> nat {
    lenient_value(f.subrange(2 * i, 2 * i + 2))
}

/// Microseconds into the day named by the field: hours, minutes,
/// seconds and hundredths of a second.  An impossible time of day
/// (hour of 24 or more, minute or second of 60 or more) falls back to
/// midnight; hundredths are always below one second and need no check.
pub open spec fn in_day_micros(f: Seq<u8>) -> nat
    recommends
        f.len() == 8,
{
    let h = time_group(f, 0);
    let m = time_group(f, 1);
    let s = time_group(f, 2);
    let c = time_group(f, 3);
    if h < 24 && m < 60 && s < 60 {
        (h * 3600 + m * 60 + s) * 1_000_000 + c * 10_000
    } else {
        0
    }
}

/// A two-digit group is always below 100.
proof fn lemma_time_group_bound(f: Seq<u8>, i: int)
    requires
        f.len() == 8,
        0 <= i < 4,
    ensures
        time_group(f, i) < 100,
{
    lemma_digits_value_bound(f.subrange(2 * i, 2 * i + 2));
    reveal_with_fuel(pow10, 3);
}

/// The absolute accept instant, in microseconds since the epoch: the
/// given midnight plus the time of day the field names.
pub open spec fn spec_accept_micros(midnight_secs: i64, f: Seq<u8>) -> u64
    recommends
        valid_midnight(midnight_secs),
        f.len() == 8,
{
    (midnight_secs * 1_000_000 + in_day_micros(f)) as u64
}

/// Whatever midnight the clock supplied, the accept instant keeps the
/// decoded time of day exactly: its offset into its own day is the
/// time of day the field names.
pub proof fn lemma_accept_time_of_day(midnight_secs: i64, f: Seq<u8>)
    requires
        valid_midnight(midnight_secs),
        f.len() == 8,
    ensures
        spec_accept_micros(midnight_secs, f) % 86_400_000_000 == in_day_micros(f),
{
    lemma_time_group_bound(f, 0);
    lemma_time_group_bound(f, 1);
    lemma_time_group_bound(f, 2);
    lemma_time_group_bound(f, 3);
    let in_day = in_day_micros(f);
    let d = midnight_secs / 86400;
    vstd::arithmetic::div_mod::lemma_fundamental_div_mod(midnight_secs as int, 86400);
    assert(midnight_secs * 1_000_000 == 86_400_000_000 * d) by (nonlinear_arith)
        requires
            midnight_secs == 86400 * d,
    ;
    vstd::arithmetic::div_mod::lemma_mod_multiples_vanish(d, in_day as int, 86_400_000_000);
    vstd::arithmetic::div_mod::lemma_small_mod(in_day, 86_400_000_000);
}

/// Decode the eight-byte accept-time field against the given midnight.
pub fn accept_time_micros(midnight_secs: i64, field: &[u8]) -> (r: u64)
    requires
        0 <= midnight_secs <= MAX_MIDNIGHT_SECS,
        field@.len() == 8,
    ensures
        r == spec_accept_micros(midnight_secs, field@),
{
    proof {
        lemma_time_group_bound(field@, 0);
        lemma_time_group_bound(field@, 1);
        lemma_time_group_bound(field@, 2);
        lemma_time_group_bound(field@, 3);
    }
    let h = parse_digits(&field[0..2]);
    let m = parse_digits(&field[2..4]);
    let s = parse_digits(&field[4..6]);
    let c = parse_digits(&field[6..8]);
    let in_day: u64 = if h < 24 && m < 60 && s < 60 {
        (h * 3600 + m * 60 + s) * 1_000_000 + c * 10_000
    } else {
        0
    };
    (midnight_secs as u64) * 1_000_000 + in_day
}

/// Relies on chrono (`Utc::now`, `NaiveDate::and_hms_opt`,
/// `DateTime::timestamp`): the seconds since the epoch of today's
/// midnight, UTC.  The value depends on the clock alone, so nothing
/// ties it to any argument; every date the library can represent is a
/// whole number of days and lies well inside the stated bound.
#[verifier::external_body]
pub(crate) fn today_midnight_unix_secs() -> (r: i64)
    ensures
        r <= MAX_MIDNIGHT_SECS,
        r >= 0 ==> r % 86400 == 0,
{
    chrono::Utc::now().date_naive().and_hms_opt(0, 0, 0).unwrap().and_utc().timestamp()
}

} // verus!

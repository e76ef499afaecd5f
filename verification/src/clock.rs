//! The run's validity threshold: the current year-month, computed once at
//! run start and fixed for the whole run.

use vstd::prelude::*;
use chrono::Datelike;

verus! {

/// How far from the Unix epoch, in whole seconds on either side, the clock
/// is still safely inside chrono's representable range, local-offset shifts
/// included (the range ends around the year 262142 on each side).
pub const CLOCK_RANGE_SECONDS: u64 = 8_210_000_000_000;

/// Relies on std::time::SystemTime::now and duration_since(UNIX_EPOCH):
/// the pair says on which side of the epoch the clock sits (the Err arm of
/// duration_since carries the amount a pre-epoch clock lies before it) and
/// the whole-second distance. Neither call panics. The clock decides the
/// value, so nothing relates it to anything else.
#[verifier::external_body]
fn clock_epoch_seconds() -> (r: (bool, u64)) {
    match std::time::SystemTime::now().duration_since(std::time::UNIX_EPOCH) {
        Ok(d) => (true, d.as_secs()),
        Err(e) => (false, e.duration().as_secs()),
    }
}

/// Relies on chrono: DateTime::from_timestamp turns epoch seconds into a
/// UTC date-time, returning None outside its representable range;
/// with_timezone(&Local) applies the system's local offset (chrono falls
/// back to UTC when no zone data can be read); Datelike's month is
/// documented 1 to 12, and the year of any chrono date lies within
/// NaiveDate's supported range. The bound on the argument keeps the
/// local-offset shift inside that range too, so no call in the chain
/// panics.
#[verifier::external_body]
fn local_year_month_at(secs: i64) -> (r: Option<(i32, u32)>)
    requires
        -(CLOCK_RANGE_SECONDS as i64) <= secs <= CLOCK_RANGE_SECONDS as i64,
    ensures
        r matches Option::Some(ym) ==> 1 <= ym.1 <= 12 && -262143 <= ym.0 <= 262142,
{
    match chrono::DateTime::from_timestamp(secs, 0) {
        Some(utc) => {
            let local = utc.with_timezone(&chrono::Local);
            Some((local.year(), local.month()))
        },
        None => None,
    }
}

/// A calendar year and month as the single integer YYYY * 100 + MM, the form
/// the validity filter compares; a year before the common era has no such
/// form and is rejected.
pub open spec fn spec_year_month_number(year: i32, month: u32) -> Option<u32> {
    if year >= 0 && year * 100 + month <= u32::MAX {
        Option::Some((year * 100 + month) as u32)
    } else {
        Option::None
    }
}

pub fn year_month_number(year: i32, month: u32) -> (r: Option<u32>)
    ensures
        r == spec_year_month_number(year, month),
{
    if year < 0 {
        return Option::None;
    }
    let v: u64 = (year as u64) * 100 + (month as u64);
    if v > 0xffff_ffff {
        Option::None
    } else {
        Option::Some(v as u32)
    }
}

/// Reads the wall clock once and forms the run's threshold year-month. A
/// clock that chrono cannot represent gives None instead; whatever the
/// clock reads, a returned threshold carries a calendar month in its two
/// low digits.
pub fn current_year_month() -> (r: Option<u32>)
    ensures
        r matches Option::Some(v) ==> 1 <= v % 100 <= 12,
{
    let (after_epoch, distance) = clock_epoch_seconds();
    if distance > CLOCK_RANGE_SECONDS {
        return Option::None;
    }
    let secs: i64 = if after_epoch {
        distance as i64
    } else {
        -(distance as i64)
    };
    match local_year_month_at(secs) {
        Option::None => Option::None,
        Option::Some(ym) => {
            let (year, month) = ym;
            let r = year_month_number(year, month);
            proof {
                if year >= 0 && year * 100 + month <= u32::MAX {
                    assert((year * 100 + month) % 100 == month) by (nonlinear_arith)
                        requires
                            year >= 0,
                            1 <= month <= 12,
                    ;
                }
            }
            r
        },
    }
}

} // verus!

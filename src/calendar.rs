//! Calendar time of a timestamp: days-from-civil in reverse, on the
//! proleptic Gregorian calendar.
use vstd::prelude::*;
use crate::entry::MAX_TIMESTAMP;

verus! {

/// A broken-down calendar time.
#[derive(PartialEq, Eq, Structural, Clone, Copy, Debug)]
pub struct LocalTime {
    /// Years since 1900.
    pub year: i32,
    /// Months since January, 0 to 11.
    pub month: i32,
    /// Day of the month, 1 to 31.
    pub day: i32,
    /// Hours after midnight, 0 to 23.
    pub hour: i32,
    /// Minutes after the hour, 0 to 59.
    pub minute: i32,
}

impl LocalTime {
    pub open spec fn wf(&self) -> bool {
        &&& 0 <= self.month <= 11
        &&& 1 <= self.day <= 31
        &&& 0 <= self.hour <= 23
        &&& 0 <= self.minute <= 59
    }
}

/// Year of era, day of year and shifted month of a day of a 400-year era.
pub open spec fn era_parts(doe: int) -> (int, int, int) {
    let yoe = (doe - doe / 1460 + doe / 36524 - doe / 146096) / 365;
    let doy = doe - (365 * yoe + yoe / 4 - yoe / 100);
    let mp = (5 * doy + 2) / 153;
    (yoe, doy, mp)
}

/// The calendar time, in UTC, of `s` seconds after the epoch.
pub open spec fn civil_of(s: int) -> LocalTime {
    let days = s / 86400;
    let sod = s % 86400;
    let z = days + 719468;
    let era = z / 146097;
    let doe = z % 146097;
    let (yoe, doy, mp) = era_parts(doe);
    let d = doy - (153 * mp + 2) / 5 + 1;
    let m = if mp < 10 { mp + 3 } else { mp - 9 };
    let y = yoe + era * 400 + (if m <= 2 { 1int } else { 0int });
    LocalTime {
        year: (y - 1900) as i32,
        month: (m - 1) as i32,
        day: d as i32,
        hour: (sod / 3600) as i32,
        minute: (sod % 3600 / 60) as i32,
    }
}

proof fn lemma_era_parts(doe: int)
    requires
        0 <= doe < 146097,
    ensures
        0 <= era_parts(doe).0 <= 399,
        0 <= era_parts(doe).1 <= 365,
        0 <= era_parts(doe).2 <= 11,
        1 <= era_parts(doe).1 - (153 * era_parts(doe).2 + 2) / 5 + 1 <= 31,
{
}

/// The calendar time of `secs` seconds after the epoch at a local offset of
/// `offset` seconds east of UTC.
pub fn local_date(secs: i64, offset: i32) -> (t: LocalTime)
    requires
        -MAX_TIMESTAMP <= secs <= MAX_TIMESTAMP,
    ensures
        t == civil_of(secs + offset),
        t.wf(),
{
    let s: i64 = secs + offset as i64;
    let days: i64 = match s.checked_div_euclid(86400) {
        Some(d) => d,
        None => 0,
    };
    let sod: i64 = match s.checked_rem_euclid(86400) {
        Some(r) => r,
        None => 0,
    };
    let z: i64 = days + 719468;
    let era: i64 = match z.checked_div_euclid(146097) {
        Some(e) => e,
        None => 0,
    };
    let doe: i64 = match z.checked_rem_euclid(146097) {
        Some(r) => r,
        None => 0,
    };
    proof {
        lemma_era_parts(doe as int);
    }
    let yoe: i64 = (doe - doe / 1460 + doe / 36524 - doe / 146096) / 365;
    let doy: i64 = doe - (365 * yoe + yoe / 4 - yoe / 100);
    let mp: i64 = (5 * doy + 2) / 153;
    let d: i64 = doy - (153 * mp + 2) / 5 + 1;
    let m: i64 = if mp < 10 { mp + 3 } else { mp - 9 };
    let y: i64 = yoe + era * 400 + if m <= 2 { 1 } else { 0 };
    LocalTime {
        year: (y - 1900) as i32,
        month: (m - 1) as i32,
        day: d as i32,
        hour: (sod / 3600) as i32,
        minute: (sod % 3600 / 60) as i32,
    }
}

} // verus!

//! The local time of the server, as an offset from universal time.

use crate::headers::text_of;
use crate::sni_resolver::{ascii_lowercase, to_ascii_lowercase};
use crate::text::str_eq;
use vstd::prelude::*;

verus! {

/// What keeps a text from being the name of a time zone, in words.
pub uninterp spec fn zone_error(name: Seq<char>) -> Option<Seq<char>>;

/// The offset in seconds of a zone at the start of a month, where its clocks
/// show that instant exactly once.
pub uninterp spec fn month_offset(name: Seq<char>, year: i32, month: u32) -> Option<i32>;

/// The offset in seconds of a zone at an instant, in seconds since 1970.
pub uninterp spec fn offset_at(name: Seq<char>, secs: i64) -> Option<i32>;

/// Whether a text is the name of a time zone.
pub open spec fn is_zone(name: Seq<char>) -> bool {
    zone_error(name) is None
}

/// The years whose every instant the calendar can hold in every zone.
pub open spec fn in_calendar(year: i32) -> bool {
    -262_000 <= year <= 262_000
}

/// `chrono_tz::Tz::from_str`: the message of its error, where it knows no zone
/// of that name.
#[verifier::external_body]
fn zone_fault(name: &str) -> (fault: Option<String>)
    ensures
        text_of(fault) == zone_error(name@),
{
    name.parse::<chrono_tz::Tz>().err().map(|error| error.to_string())
}

/// `chrono::TimeZone::with_ymd_and_hms`: the offset of a zone at the first
/// instant of a month, where there is exactly one.
#[verifier::external_body]
fn offset_of_month(name: &str, year: i32, month: u32) -> (offset: Option<i32>)
    requires
        is_zone(name@),
        in_calendar(year),
        1 <= month <= 12,
    ensures
        offset == month_offset(name@, year, month),
{
    let tz = name.parse::<chrono_tz::Tz>().unwrap();
    let first = chrono::TimeZone::with_ymd_and_hms(&tz, year, month, 1, 0, 0, 0).single();
    first.map(|at| at.naive_local().signed_duration_since(at.naive_utc()).num_seconds() as i32)
}

/// `chrono::TimeZone::timestamp_opt`: the offset of a zone at an instant that
/// the calendar can hold.
#[verifier::external_body]
fn offset_of_instant(name: &str, secs: i64) -> (offset: Option<i32>)
    requires
        is_zone(name@),
        -8_000_000_000_000 <= secs <= 8_000_000_000_000,
    ensures
        offset == offset_at(name@, secs),
        offset is Some,
{
    let tz = name.parse::<chrono_tz::Tz>().unwrap();
    let at = chrono::TimeZone::timestamp_opt(&tz, secs, 0).single();
    at.map(|at| at.naive_local().signed_duration_since(at.naive_utc()).num_seconds() as i32)
}

/// A time zone.
#[derive(Debug)]
pub struct Zone {
    name: String,
}

impl View for Zone {
    type V = Seq<char>;

    closed spec fn view(&self) -> Seq<char> {
        self.name@
    }
}

/// Why there is no such time zone.
#[derive(Debug)]
pub enum TimeZoneError {
    InvalidTimeZone(String),
}

impl TimeZoneError {
    pub open spec fn spec_message(&self) -> Seq<char> {
        match self {
            TimeZoneError::InvalidTimeZone(fault) => "Invalid timezone: "@ + fault@,
        }
    }

    /// The text shown to an operator.
    pub fn message(&self) -> (text: String)
        ensures
            text@ == self.spec_message(),
    {
        match self {
            TimeZoneError::InvalidTimeZone(fault) => {
                let mut text = "Invalid timezone: ".to_owned();
                text.append(fault.as_str());
                text
            },
        }
    }
}

/// Whether the clocks of a zone change in a year.
pub open spec fn changes_clocks(name: Seq<char>, year: i32) -> bool {
    exists|a: u32, b: u32|
        1 <= a <= 12 && 1 <= b <= 12 && #[trigger] month_offset(name, year, a) is Some && #[trigger] month_offset(
            name,
            year,
            b,
        ) is Some && month_offset(name, year, a) != month_offset(name, year, b)
}

impl Zone {
    #[verifier::type_invariant]
    spec fn inv(self) -> bool {
        is_zone(self.name@)
    }

    /// The zone of a name.
    pub fn parse(name: String) -> (zone: Result<Zone, TimeZoneError>)
        ensures
            match zone {
                Ok(z) => z@ == name@ && is_zone(name@),
                Err(TimeZoneError::InvalidTimeZone(fault)) => zone_error(name@) == Some(fault@),
            },
    {
        match zone_fault(name.as_str()) {
            None => Ok(Zone { name }),
            Some(fault) => Err(TimeZoneError::InvalidTimeZone(fault)),
        }
    }

    /// The offset of the zone at an instant.
    pub fn offset(&self, secs: i64) -> (offset: Option<i32>)
        ensures
            -8_000_000_000_000 <= secs <= 8_000_000_000_000 ==> offset == offset_at(self@, secs) && offset is Some,
            !(-8_000_000_000_000 <= secs <= 8_000_000_000_000) ==> offset is None,
    {
        proof {
            use_type_invariant(self);
        }
        if secs < -8_000_000_000_000 || secs > 8_000_000_000_000 {
            return None;
        }
        offset_of_instant(self.name.as_str(), secs)
    }
}

/// Whether the clocks of a zone change in a year, by the starts of its months.
pub fn observes_daylight_saving(tz: &Zone, year: i32) -> (yes: bool)
    requires
        in_calendar(year),
    ensures
        yes == changes_clocks(tz@, year),
{
    proof {
        use_type_invariant(tz);
    }
    let mut first_offset: Option<i32> = None;
    let ghost mut first_month: u32 = 0;
    let mut month: u32 = 1;
    while month <= 12
        invariant
            1 <= month <= 13,
            in_calendar(year),
            is_zone(tz.name@),
            first_offset is Some ==> 1 <= first_month < month && month_offset(tz.name@, year, first_month)
                == first_offset,
            forall|m: u32|
                1 <= m < month && #[trigger] month_offset(tz.name@, year, m) is Some ==> month_offset(
                    tz.name@,
                    year,
                    m,
                ) == first_offset,
        decreases 13 - month,
    {
        match offset_of_month(tz.name.as_str(), year, month) {
            Some(offset_sec) => match first_offset {
                Some(first) => {
                    if first != offset_sec {
                        assert(month_offset(tz@, year, first_month) is Some && month_offset(tz@, year, month) is Some);
                        return true;
                    }
                },
                None => {
                    first_offset = Some(offset_sec);
                    proof {
                        first_month = month;
                    }
                },
            },
            None => {},
        }
        month = month + 1;
    }
    false
}

/// The offset of the local time that the server has found out.
#[derive(Debug, Clone, Copy, PartialEq, Eq, Structural)]
pub struct LocalOffset {
    pub sec: Option<i32>,
}

/// The offset of the local time in seconds, where it is known.
pub fn local_offset_sec(cache: &LocalOffset) -> (sec: Option<i32>)
    ensures
        sec == cache.sec,
{
    cache.sec
}

/// How the server keeps track of the local time.
#[derive(Debug)]
pub enum TzPlan {
    /// It shows universal time.
    Universal,
    /// The offset never changes: it is noted once.
    Constant(i32),
    /// The offset is looked up again every second.
    Follow(OffsetFollower),
}

/// How the server keeps track of the local time of a configured zone, at an
/// instant in a year.
pub fn init_tz_cache(local: &str, year: i32, secs: i64) -> (res: Result<TzPlan, TimeZoneError>)
    requires
        in_calendar(year),
        -8_000_000_000_000 <= secs <= 8_000_000_000_000,
    ensures
        if local@.len() == 0 || ascii_lowercase(local@) == "utc"@ {
            res matches Ok(TzPlan::Universal)
        } else if !is_zone(local@) {
            res matches Err(TimeZoneError::InvalidTimeZone(fault)) && zone_error(local@) == Some(fault@)
        } else if changes_clocks(local@, year) {
            res matches Ok(TzPlan::Follow(follower)) && follower.zone@ == local@ && follower.prev_offset == 0
        } else {
            res matches Ok(TzPlan::Constant(offset)) && Some(offset) == offset_at(local@, secs)
        },
{
    if local.unicode_len() == 0 {
        return Ok(TzPlan::Universal);
    }
    let shown: String = to_ascii_lowercase(local);
    if str_eq(shown.as_str(), "utc") {
        return Ok(TzPlan::Universal);
    }
    let zone: Zone = match Zone::parse(local.to_owned()) {
        Ok(zone) => zone,
        Err(e) => {
            return Err(e);
        },
    };
    if observes_daylight_saving(&zone, year) {
        return Ok(TzPlan::Follow(OffsetFollower { zone, prev_offset: 0 }));
    }
    let offset: Option<i32> = zone.offset(secs);
    Ok(TzPlan::Constant(offset.unwrap()))
}

/// Keeps track of an offset that changes.
#[derive(Debug)]
pub struct OffsetFollower {
    pub zone: Zone,
    pub prev_offset: i32,
}

impl OffsetFollower {
    /// Looks the offset up and notes it where it has changed.
    pub fn tick(&mut self, cache: &mut LocalOffset, secs: i64)
        ensures
            final(self).zone == old(self).zone,
            ({
                let found = if -8_000_000_000_000 <= secs <= 8_000_000_000_000 {
                    offset_at(old(self).zone@, secs)
                } else {
                    None
                };
                if found is Some && found->0 != old(self).prev_offset {
                    final(self).prev_offset == found->0 && final(cache).sec == found
                } else {
                    final(self).prev_offset == old(self).prev_offset && *final(cache) == *old(cache)
                }
            }),
    {
        match self.zone.offset(secs) {
            Some(offset_sec) => {
                if self.prev_offset != offset_sec {
                    self.prev_offset = offset_sec;
                    cache.sec = Some(offset_sec);
                }
            },
            None => {},
        }
    }
}

} // verus!

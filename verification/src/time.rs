//! Instants and calendar days as plain numbers, with `chrono` and `chrono_tz`
//! for their notation and for local time.

use vstd::prelude::*;

verus! {

/// The first second that `chrono` can represent.
pub const FIRST_SECOND: i64 = -8334601228800;

/// The last second that `chrono` can represent.
pub const LAST_SECOND: i64 = 8210266876799;

/// An instant of UTC: seconds since the start of 1970 and nanoseconds into
/// that second. Leap seconds are not represented.
#[derive(Clone, Copy, PartialEq, Eq, Structural)]
pub struct Moment {
    secs: i64,
    nanos: u32,
}

/// Whether `chrono` can represent the instant.
pub open spec fn representable(secs: int, nanos: int) -> bool {
    FIRST_SECOND <= secs <= LAST_SECOND && 0 <= nanos < 1_000_000_000
}

impl Moment {
    /// The seconds since the start of 1970.
    pub closed spec fn secs(self) -> int {
        self.secs as int
    }

    /// The nanoseconds into the second.
    pub closed spec fn nanos(self) -> int {
        self.nanos as int
    }

    #[verifier::type_invariant]
    spec fn in_range(self) -> bool {
        representable(self.secs as int, self.nanos as int)
    }

    /// Whether this instant comes before another.
    pub open spec fn before(self, other: Moment) -> bool {
        self.secs() < other.secs() || (self.secs() == other.secs() && self.nanos() < other.nanos())
    }

    /// Nanoseconds since the start of 1970.
    pub open spec fn total(self) -> int {
        self.secs() * 1_000_000_000 + self.nanos()
    }

    /// The instant at the given seconds and nanoseconds, where there is one.
    pub fn new(secs: i64, nanos: u32) -> (r: Option<Moment>)
        ensures
            r is Some <==> representable(secs as int, nanos as int),
            r matches Some(m) ==> m.secs() == secs && m.nanos() == nanos,
    {
        if FIRST_SECOND <= secs && secs <= LAST_SECOND && nanos < 1_000_000_000 {
            Some(Moment { secs, nanos })
        } else {
            None
        }
    }

    /// The seconds since the start of 1970.
    pub fn unix_seconds(&self) -> (r: i64)
        ensures
            r == self.secs(),
            FIRST_SECOND <= r <= LAST_SECOND,
    {
        proof {
            use_type_invariant(self);
        }
        self.secs
    }

    /// Whether this instant comes after another.
    pub fn after(&self, other: &Moment) -> (r: bool)
        ensures
            r == other.before(*self),
    {
        self.secs > other.secs || (self.secs == other.secs && self.nanos > other.nanos)
    }

    /// Whether this instant comes after the one that lies `seconds` before
    /// `now`.
    pub fn within(&self, seconds: u32, now: &Moment) -> (r: bool)
        ensures
            r == (self.total() > now.total() - seconds * 1_000_000_000),
    {
        proof {
            use_type_invariant(self);
            use_type_invariant(now);
        }
        let bound: i64 = now.secs - seconds as i64;
        self.secs > bound || (self.secs == bound && self.nanos > now.nanos)
    }

    /// For how many whole seconds this instant lies after another; none where
    /// it does not.
    pub fn seconds_after(&self, earlier: &Moment) -> (r: i64)
        ensures
            r == if self.total() <= earlier.total() {
                0
            } else {
                (self.total() - earlier.total()) / 1_000_000_000
            },
    {
        proof {
            use_type_invariant(self);
            use_type_invariant(earlier);
        }
        let whole: i64 = self.secs - earlier.secs;
        let seconds: i64 = if self.nanos < earlier.nanos {
            whole - 1
        } else {
            whole
        };
        if seconds < 0 {
            0
        } else {
            seconds
        }
    }

    /// The instant that lies some hours after this one, or before it.
    pub fn plus_hours(&self, hours: i64) -> (r: Moment)
        requires
            representable(self.secs() + hours * 3600, self.nanos()),
        ensures
            r.secs() == self.secs() + hours * 3600,
            r.nanos() == self.nanos(),
    {
        proof {
            use_type_invariant(self);
        }
        Moment { secs: self.secs + hours * 3600, nanos: self.nanos }
    }

    /// The instant in RFC 3339 notation.
    pub fn rfc3339(&self) -> (r: String)
        ensures
            r@ == rfc3339_of(self.secs(), self.nanos()),
    {
        proof {
            use_type_invariant(self);
        }
        rfc3339_text(self.secs, self.nanos)
    }
}

/// What `DateTime::to_rfc3339` writes for an instant of UTC.
pub uninterp spec fn rfc3339_of(secs: int, nanos: int) -> Seq<char>;

/// `chrono::DateTime::<Utc>::to_rfc3339` of the instant that
/// `chrono::DateTime::from_timestamp` makes of the two numbers, which exists
/// for every representable instant: a function of the instant.
#[verifier::external_body]
fn rfc3339_text(secs: i64, nanos: u32) -> (r: String)
    requires
        representable(secs as int, nanos as int),
    ensures
        r@ == rfc3339_of(secs as int, nanos as int),
{
    chrono::DateTime::from_timestamp(secs, nanos).unwrap_or_default().to_rfc3339()
}

// ---------------------------------------------------------------------------
// Days, clocks and time zones
// ---------------------------------------------------------------------------

/// The first day that `chrono` can represent, counted from the day before the
/// first of the common era.
pub const FIRST_DAY: i32 = -95746129;

/// The last day that `chrono` can represent, counted likewise.
pub const LAST_DAY: i32 = 95745399;

/// Seconds in a day.
pub const DAY: i64 = 86400;

/// What `NaiveTime::parse_from_str` reads as hours and minutes: the seconds
/// since midnight, or what is wrong.
pub uninterp spec fn clock_read(text: Seq<char>) -> Result<int, Seq<char>>;

/// What is wrong with the name of a time zone, as `chrono_tz` parses it;
/// nothing where there is such a zone.
pub uninterp spec fn zone_problem(name: Seq<char>) -> Option<Seq<char>>;

/// The day and the second of the day that an instant of UTC is in a time zone
/// of `chrono_tz`.
pub uninterp spec fn local_of(secs: int, nanos: int, zone: Seq<char>) -> (int, int);

/// What `NaiveDate::format` writes for a day as year, month and day.
pub uninterp spec fn day_notation(day: int) -> Seq<char>;

/// What `NaiveDate::parse_from_str` reads as year, month and day.
pub uninterp spec fn day_read(text: Seq<char>) -> Option<int>;

/// `chrono::NaiveTime::parse_from_str` with hours and minutes: a function of
/// the text.
#[verifier::external_body]
pub(crate) fn parse_clock(text: &str) -> (r: Result<u32, String>)
    ensures
        match r {
            Ok(second) => clock_read(text@) == Ok::<int, Seq<char>>(second as int),
            Err(e) => clock_read(text@) == Err::<int, Seq<char>>(e@),
        },
{
    match chrono::NaiveTime::parse_from_str(text, "%H:%M") {
        Ok(time) => Ok(chrono::Timelike::num_seconds_from_midnight(&time)),
        Err(e) => Err(e.to_string()),
    }
}

/// Parsing a `chrono_tz::Tz`: whether there is a zone of the name, and what is
/// said where there is none, a function of the name.
#[verifier::external_body]
pub(crate) fn check_zone(name: &str) -> (r: Result<(), String>)
    ensures
        match r {
            Ok(_) => zone_problem(name@) is None,
            Err(e) => zone_problem(name@) == Some(e@),
        },
{
    match name.parse::<chrono_tz::Tz>() {
        Ok(_) => Ok(()),
        Err(e) => Err(e.to_string()),
    }
}

/// `chrono::DateTime::with_timezone`, and of the result the date as
/// `num_days_from_ce` counts it and the time as `num_seconds_from_midnight`
/// counts it: a function of the instant and the zone. No zone is a day or more
/// away from UTC, so an instant that is a day away from the ends of what
/// `chrono` can represent has a local date.
#[verifier::external_body]
pub(crate) fn local_clock(secs: i64, nanos: u32, zone: &str) -> (r: (i32, u32))
    requires
        FIRST_SECOND + DAY <= secs <= LAST_SECOND - DAY,
        nanos < 1_000_000_000,
        zone_problem(zone@) is None,
    ensures
        local_of(secs as int, nanos as int, zone@) == (r.0 as int, r.1 as int),
        FIRST_DAY <= r.0 <= LAST_DAY,
{
    let zone = zone.parse::<chrono_tz::Tz>().unwrap();
    let local = chrono::DateTime::from_timestamp(secs, nanos).unwrap().with_timezone(&zone);
    let day = chrono::Datelike::num_days_from_ce(&local.date_naive());
    (day, chrono::Timelike::num_seconds_from_midnight(&local.time()))
}

/// `chrono::NaiveDate::format` as year, month and day of the day that
/// `from_num_days_from_ce_opt` finds, which exists in the given range. Reading
/// the text with the same format gives the day back: each of the three numbers
/// is written with a separator or the end behind it, and a year of other than
/// four digits with its sign.
#[verifier::external_body]
pub(crate) fn day_text(day: i32) -> (r: String)
    requires
        FIRST_DAY <= day <= LAST_DAY,
    ensures
        r@ == day_notation(day as int),
        day_read(r@) == Some(day as int),
{
    let date = chrono::NaiveDate::from_num_days_from_ce_opt(day).unwrap_or_default();
    date.format("%Y-%m-%d").to_string()
}

/// `chrono::NaiveDate::parse_from_str` as year, month and day, and the day as
/// `num_days_from_ce` counts it: a function of the text.
#[verifier::external_body]
pub(crate) fn parse_day(text: &str) -> (r: Option<i32>)
    ensures
        match r {
            Some(day) => day_read(text@) == Some(day as int),
            None => day_read(text@) is None,
        },
{
    let date = chrono::NaiveDate::parse_from_str(text, "%Y-%m-%d").ok()?;
    Some(chrono::Datelike::num_days_from_ce(&date))
}

impl Moment {
    /// The nanoseconds into the second.
    pub fn subsec_nanos(&self) -> (r: u32)
        ensures
            r == self.nanos(),
            r < 1_000_000_000,
    {
        proof {
            use_type_invariant(self);
        }
        self.nanos
    }
}

/// An instant comes before another exactly where fewer nanoseconds have passed
/// until it.
pub proof fn law_earlier_instants_come_before(a: Moment, b: Moment)
    requires
        0 <= a.nanos() < 1_000_000_000,
        0 <= b.nanos() < 1_000_000_000,
    ensures
        a.before(b) <==> a.total() < b.total(),
        a.total() == a.secs() * 1_000_000_000 + a.nanos(),
{
}

} // verus!

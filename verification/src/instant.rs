//! Instants on the UTC time line, and the calendar work that chrono does on them.

use chrono::{DateTime, Timelike, Utc};
use vstd::prelude::*;

verus! {

/// The seconds in a day.
pub const DAY_SECONDS: i64 = 86_400;

/// The first day of chrono's calendar, counted from 1970-01-01: the first
/// of January of the year -262143, the day of `NaiveDate::MIN`. Its first
/// second is the timestamp of `DateTime::<Utc>::MIN_UTC`.
pub const FIRST_DAY: i64 = -96_465_292;

/// The last day of chrono's calendar, counted from 1970-01-01: the last of
/// December of the year 262142, the day of `NaiveDate::MAX`. Its last
/// second is the timestamp of `DateTime::<Utc>::MAX_UTC`.
pub const LAST_DAY: i64 = 95_026_236;

/// The nanoseconds in a second.
pub const SECOND_NANOS: u32 = 1_000_000_000;

/// A point on the UTC time line: whole seconds since 1970-01-01T00:00:00Z
/// and the nanoseconds into that second, the pair that chrono's
/// `DateTime<Utc>` gives out as `timestamp` and `timestamp_subsec_nanos`
/// and takes back in `from_timestamp`. The values are those of chrono's
/// calendar, from the first second of `FIRST_DAY` to the last of `LAST_DAY`
/// (`DateTime::<Utc>::MIN_UTC` to `MAX_UTC`), but for the leap seconds,
/// which chrono writes with a thousand million nanoseconds or more.
#[derive(Clone, Copy, Debug, PartialEq, Eq, PartialOrd, Ord, Structural)]
pub struct Instant {
    secs: i64,
    nanos: u32,
}

/// Whether a pair of seconds and nanoseconds is one that an `Instant` holds.
pub open spec fn in_reach(secs: int, nanos: int) -> bool {
    &&& FIRST_DAY * DAY_SECONDS <= secs < (LAST_DAY + 1) * DAY_SECONDS
    &&& 0 <= nanos < SECOND_NANOS
}

impl Instant {
    /// The whole seconds since the epoch.
    pub closed spec fn secs(self) -> int {
        self.secs as int
    }

    /// The nanoseconds into the second.
    pub closed spec fn nanos(self) -> int {
        self.nanos as int
    }

    /// The instant of the given seconds and nanoseconds.
    pub closed spec fn at(secs: int, nanos: int) -> Instant {
        Instant { secs: secs as i64, nanos: nanos as u32 }
    }

    /// The validity that every executable `Instant` has.
    #[verifier::type_invariant]
    pub open spec fn wf(self) -> bool {
        in_reach(self.secs(), self.nanos())
    }

    /// The day the instant falls on, counted from 1970-01-01.
    pub open spec fn day(self) -> int {
        self.secs() / (DAY_SECONDS as int)
    }

    /// The seconds since the midnight before the instant.
    pub open spec fn second_of_day(self) -> int {
        self.secs() % (DAY_SECONDS as int)
    }

    /// Whether `self` is strictly earlier than `other`.
    pub open spec fn before(self, other: Instant) -> bool {
        self.secs() < other.secs() || (self.secs() == other.secs() && self.nanos() < other.nanos())
    }

    /// An instant is its seconds and nanoseconds, nothing more.
    pub proof fn lemma_at(secs: int, nanos: int)
        requires
            in_reach(secs, nanos),
        ensures
            Instant::at(secs, nanos).secs() == secs,
            Instant::at(secs, nanos).nanos() == nanos,
            Instant::at(secs, nanos).wf(),
    {
    }

    /// Two instants of the same seconds and nanoseconds are the same.
    pub proof fn lemma_same(self, other: Instant)
        requires
            self.secs() == other.secs(),
            self.nanos() == other.nanos(),
        ensures
            self == other,
    {
    }

    /// The instant of the given timestamp, where it is within reach.
    pub fn from_timestamp(secs: i64, nanos: u32) -> (r: Option<Instant>)
        ensures
            r == if in_reach(secs as int, nanos as int) {
                Some(Instant::at(secs as int, nanos as int))
            } else {
                None
            },
    {
        if FIRST_DAY * DAY_SECONDS <= secs && secs < (LAST_DAY + 1) * DAY_SECONDS && nanos
            < SECOND_NANOS {
            Some(Instant { secs, nanos })
        } else {
            None
        }
    }

    /// The whole seconds since the epoch.
    pub fn timestamp(&self) -> (s: i64)
        ensures
            s == self.secs(),
    {
        self.secs
    }

    /// The nanoseconds into the second.
    pub fn subsec_nanos(&self) -> (n: u32)
        ensures
            n == self.nanos(),
    {
        self.nanos
    }

    /// Whether `self` is strictly earlier than `other`.
    pub fn is_before(&self, other: &Instant) -> (b: bool)
        ensures
            b == self.before(*other),
    {
        self.secs < other.secs || (self.secs == other.secs && self.nanos < other.nanos)
    }
}

/// chrono's `Timelike::with_hour` on the `DateTime<Utc>` that
/// `from_timestamp` makes of `t`, read back as `timestamp` and
/// `timestamp_subsec_nanos`: refused for an hour of 24 or more; else the
/// same day, minute, second and nanosecond with the hour replaced.
#[verifier::external_body]
fn with_hour(t: Instant, hour: u32) -> (r: Option<Instant>)
    requires
        t.wf(),
    ensures
        r == if hour < 24 {
            Some(
                Instant::at(
                    t.day() * DAY_SECONDS + hour * 3600 + t.second_of_day() % 3600,
                    t.nanos(),
                ),
            )
        } else {
            None
        },
{
    match DateTime::<Utc>::from_timestamp(t.secs, t.nanos) {
        Some(d) => match d.with_hour(hour) {
            Some(e) => Some(Instant { secs: e.timestamp(), nanos: e.timestamp_subsec_nanos() }),
            None => None,
        },
        None => None,
    }
}

/// chrono's `Timelike::with_minute` on the `DateTime<Utc>` of `t`, made
/// and read back in the same way: refused for a minute of 60 or more; else
/// the same day, hour, second and nanosecond with the minute replaced.
#[verifier::external_body]
fn with_minute(t: Instant, min: u32) -> (r: Option<Instant>)
    requires
        t.wf(),
    ensures
        r == if min < 60 {
            Some(
                Instant::at(
                    t.day() * DAY_SECONDS + t.second_of_day() / 3600 * 3600 + min * 60
                        + t.second_of_day() % 60,
                    t.nanos(),
                ),
            )
        } else {
            None
        },
{
    match DateTime::<Utc>::from_timestamp(t.secs, t.nanos) {
        Some(d) => match d.with_minute(min) {
            Some(e) => Some(Instant { secs: e.timestamp(), nanos: e.timestamp_subsec_nanos() }),
            None => None,
        },
        None => None,
    }
}

/// chrono's `Timelike::with_second` on the `DateTime<Utc>` of `t`, made
/// and read back in the same way: refused for a second of 60 or more; else
/// the same day, hour, minute and nanosecond with the second replaced.
#[verifier::external_body]
fn with_second(t: Instant, sec: u32) -> (r: Option<Instant>)
    requires
        t.wf(),
    ensures
        r == if sec < 60 {
            Some(
                Instant::at(
                    t.day() * DAY_SECONDS + t.second_of_day() / 60 * 60 + sec,
                    t.nanos(),
                ),
            )
        } else {
            None
        },
{
    match DateTime::<Utc>::from_timestamp(t.secs, t.nanos) {
        Some(d) => match d.with_second(sec) {
            Some(e) => Some(Instant { secs: e.timestamp(), nanos: e.timestamp_subsec_nanos() }),
            None => None,
        },
        None => None,
    }
}

/// chrono's `Timelike::with_nanosecond` on the `DateTime<Utc>` of `t`, made
/// and read back in the same way, for a count below one second: the same
/// second with the nanoseconds replaced.
#[verifier::external_body]
fn with_nanosecond(t: Instant, nano: u32) -> (r: Option<Instant>)
    requires
        t.wf(),
        nano < SECOND_NANOS,
    ensures
        r == Some(Instant::at(t.secs(), nano as int)),
{
    match DateTime::<Utc>::from_timestamp(t.secs, t.nanos) {
        Some(d) => match d.with_nanosecond(nano) {
            Some(e) => Some(Instant { secs: e.timestamp(), nanos: e.timestamp_subsec_nanos() }),
            None => None,
        },
        None => None,
    }
}

/// chrono's `Utc::now`, as its `timestamp` and `timestamp_subsec_nanos`:
/// the system clock's reading. Whatever the clock reads, chrono makes the
/// value with `from_timestamp` from whole seconds and the nanoseconds into
/// the second, so that it lies on chrono's calendar and is no leap second;
/// no more is claimed of it.
#[verifier::external_body]
fn clock() -> (r: (i64, u32))
    ensures
        in_reach(r.0 as int, r.1 as int),
{
    let now = Utc::now();
    (now.timestamp(), now.timestamp_subsec_nanos())
}

/// The English name of the weekday that an instant of the given seconds and
/// nanoseconds falls on in UTC, as chrono's calendar has it.
pub uninterp spec fn weekday_name(secs: int, nanos: int) -> Seq<char>;

/// chrono's `DateTime::format` with the pattern `%A` on the `DateTime<Utc>`
/// of `t`, written out: the full name of the weekday. It is claimed to
/// exist and to depend on the instant alone, not what it is.
#[verifier::external_body]
fn weekday(t: Instant) -> (r: Option<String>)
    requires
        t.wf(),
    ensures
        r is Some,
        r->0@ == weekday_name(t.secs(), t.nanos()),
{
    match DateTime::<Utc>::from_timestamp(t.secs, t.nanos) {
        Some(d) => Some(format!("{}", d.format("%A"))),
        None => None,
    }
}

/// A second of the day `s` on day `d` lies on that day, at that second.
proof fn lemma_day_parts(d: int, s: int)
    requires
        0 <= s < DAY_SECONDS,
    ensures
        (d * DAY_SECONDS + s) / (DAY_SECONDS as int) == d,
        (d * DAY_SECONDS + s) % (DAY_SECONDS as int) == s,
{
    assert((d * 86_400 + s) / 86_400 == d && (d * 86_400 + s) % 86_400 == s) by (nonlinear_arith)
        requires
            0 <= s < 86_400,
    ;
}

/// The second `s` of hour `h` lies in that hour, at that second, and at the
/// same second of its minute.
proof fn lemma_hour_parts(h: int, s: int)
    requires
        0 <= s < 3600,
    ensures
        (h * 3600 + s) / 3600 == h,
        (h * 3600 + s) % 3600 == s,
        (h * 3600 + s) % 60 == s % 60,
{
    assert((h * 3600 + s) / 3600 == h && (h * 3600 + s) % 3600 == s) by (nonlinear_arith)
        requires
            0 <= s < 3600,
    ;
    assert((h * 3600 + s) % 60 == s % 60) by (nonlinear_arith)
        requires
            0 <= s < 3600,
    ;
}

/// The second `s` of minute `m` lies in that minute, at that second.
proof fn lemma_minute_parts(m: int, s: int)
    requires
        0 <= s < 60,
    ensures
        (m * 60 + s) / 60 == m,
        (m * 60 + s) % 60 == s,
{
    assert((m * 60 + s) / 60 == m && (m * 60 + s) % 60 == s) by (nonlinear_arith)
        requires
            0 <= s < 60,
    ;
}

/// With the hour of the second of the day `s` set to `hour`, the second of
/// the day is `hour * 3600 + s % 3600`; with the minute then set to `min`,
/// it is `hour * 3600 + min * 60 + s % 60`; with the second then set to 0,
/// it is `hour * 3600 + min * 60`. All three are seconds of a day.
proof fn lemma_time_of_day_set(s: int, hour: int, min: int)
    requires
        0 <= s < DAY_SECONDS,
        0 <= hour < 24,
        0 <= min < 60,
    ensures
        ({
            let s1 = hour * 3600 + s % 3600;
            let s2 = s1 / 3600 * 3600 + min * 60 + s1 % 60;
            let s3 = s2 / 60 * 60;
            &&& 0 <= s1 < DAY_SECONDS
            &&& s2 == hour * 3600 + min * 60 + s % 60
            &&& 0 <= s2 < DAY_SECONDS
            &&& s3 == hour * 3600 + min * 60
            &&& 0 <= s3 < DAY_SECONDS
        }),
{
    let r = s % 3600;
    lemma_hour_parts(hour, r);
    lemma_hour_parts(s / 3600, r);
    assert(r % 60 == s % 60);
    lemma_minute_parts(hour * 60 + min, s % 60);
}

/// The instant on the day of `t` with the hour replaced, where there is
/// such an hour.
fn hour_set(t: Instant, hour: u32) -> (r: Option<Instant>)
    ensures
        r is Some <==> hour < 24,
        r matches Some(u) ==> {
            &&& u.wf()
            &&& u.day() == t.day()
            &&& u.second_of_day() == hour * 3600 + t.second_of_day() % 3600
            &&& u.nanos() == t.nanos()
        },
{
    proof {
        use_type_invariant(&t);
        if hour < 24 {
            let s = hour * 3600 + t.second_of_day() % 3600;
            lemma_day_parts(t.day(), s);
            Instant::lemma_at(t.day() * DAY_SECONDS + s, t.nanos());
        }
    }
    with_hour(t, hour)
}

/// The instant in the hour of `t` with the minute replaced, where there is
/// such a minute.
fn minute_set(t: Instant, min: u32) -> (r: Option<Instant>)
    ensures
        r is Some <==> min < 60,
        r matches Some(u) ==> {
            &&& u.wf()
            &&& u.day() == t.day()
            &&& u.second_of_day() == t.second_of_day() / 3600 * 3600 + min * 60
                + t.second_of_day() % 60
            &&& u.nanos() == t.nanos()
        },
{
    proof {
        use_type_invariant(&t);
        if min < 60 {
            let s = t.second_of_day() / 3600 * 3600 + min * 60 + t.second_of_day() % 60;
            lemma_day_parts(t.day(), s);
            Instant::lemma_at(t.day() * DAY_SECONDS + s, t.nanos());
        }
    }
    with_minute(t, min)
}

/// The instant in the minute of `t` on the whole second, at its start.
fn minute_start(t: Instant) -> (r: Option<Instant>)
    ensures
        r matches Some(u) && {
            &&& u.wf()
            &&& u.secs() == t.day() * DAY_SECONDS + t.second_of_day() / 60 * 60
            &&& u.nanos() == 0
        },
{
    proof {
        use_type_invariant(&t);
        let s = t.second_of_day() / 60 * 60;
        lemma_day_parts(t.day(), s);
        Instant::lemma_at(t.day() * DAY_SECONDS + s, t.nanos());
        Instant::lemma_at(t.day() * DAY_SECONDS + s, 0);
    }
    match with_second(t, 0) {
        Some(u) => with_nanosecond(u, 0),
        None => None,
    }
}

impl Instant {
    /// The system clock's present reading. There always is one: what the
    /// clock reads is an instant of the calendar.
    pub fn now() -> (r: Option<Instant>)
        ensures
            r is Some,
            r->0.wf(),
    {
        let (secs, nanos) = clock();
        Instant::from_timestamp(secs, nanos)
    }

    /// The instant on the day of `self` at `hour:min:00`, by the clock of
    /// 24 hours.
    pub open spec fn on_the_day_at(self, hour: int, min: int) -> Instant {
        Instant::at(self.day() * DAY_SECONDS + hour * 3600 + min * 60, 0)
    }

    /// The instant on a day at a time of day is valid, lies on that day at
    /// that second of it, and on the whole second.
    pub proof fn lemma_on_the_day_at(self, hour: int, min: int)
        requires
            self.wf(),
            0 <= hour < 24,
            0 <= min < 60,
        ensures
            self.on_the_day_at(hour, min).wf(),
            self.on_the_day_at(hour, min).day() == self.day(),
            self.on_the_day_at(hour, min).second_of_day() == hour * 3600 + min * 60,
            self.on_the_day_at(hour, min).nanos() == 0,
    {
        lemma_day_parts(self.day(), hour * 3600 + min * 60);
        Instant::lemma_at(self.day() * DAY_SECONDS + hour * 3600 + min * 60, 0);
    }

    /// The instant on the day of `self` at `hour:min:00`; `None` where no
    /// such time of day exists.
    pub fn at_time_of_day(&self, hour: u32, min: u32) -> (r: Option<Instant>)
        ensures
            r == if hour < 24 && min < 60 {
                Some(self.on_the_day_at(hour as int, min as int))
            } else {
                None
            },
    {
        proof {
            use_type_invariant(self);
            if hour < 24 && min < 60 {
                lemma_time_of_day_set(self.second_of_day(), hour as int, min as int);
            }
        }
        let at_hour: Instant = match hour_set(*self, hour) {
            Some(t) => t,
            None => { return None; },
        };
        let at_minute: Instant = match minute_set(at_hour, min) {
            Some(t) => t,
            None => { return None; },
        };
        let r = minute_start(at_minute);
        proof {
            Instant::lemma_at(self.day() * DAY_SECONDS + hour * 3600 + min * 60, 0);
            r->0.lemma_same(self.on_the_day_at(hour as int, min as int));
        }
        r
    }

    /// The nanoseconds from `earlier` to `self`; negative where `self` is
    /// the earlier one.
    pub open spec fn nanos_since(self, earlier: Instant) -> int {
        (self.secs() - earlier.secs()) * SECOND_NANOS + self.nanos() - earlier.nanos()
    }

    /// The nanoseconds from `earlier` to `self`.
    pub fn elapsed_since(&self, earlier: &Instant) -> (d: i128)
        ensures
            d == self.nanos_since(*earlier),
    {
        proof {
            use_type_invariant(self);
            use_type_invariant(earlier);
        }
        let secs: i128 = self.secs as i128 - earlier.secs as i128;
        assert((FIRST_DAY - LAST_DAY - 1) * DAY_SECONDS < secs < (LAST_DAY + 1 - FIRST_DAY)
            * DAY_SECONDS);
        secs * 1_000_000_000 + self.nanos as i128 - earlier.nanos as i128
    }

    /// The earliest instant there is.
    pub fn earliest() -> (t: Instant)
        ensures
            t == Instant::at(FIRST_DAY * DAY_SECONDS, 0),
            t.wf(),
    {
        Instant { secs: FIRST_DAY * DAY_SECONDS, nanos: 0 }
    }

    /// The name of the weekday that the instant falls on.
    pub fn weekday(&self) -> (s: String)
        ensures
            s@ == weekday_name(self.secs(), self.nanos()),
    {
        proof {
            use_type_invariant(self);
        }
        match weekday(*self) {
            Some(s) => s,
            None => String::new(),
        }
    }
}

} // verus!

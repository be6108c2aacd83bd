use chrono::{DateTime, TimeZone, Utc};
use standup_bot::instant::{Instant, DAY_SECONDS, FIRST_DAY, LAST_DAY};

fn as_chrono(t: Instant) -> DateTime<Utc> {
    DateTime::<Utc>::from_timestamp(t.timestamp(), t.subsec_nanos()).unwrap()
}

fn as_instant(t: DateTime<Utc>) -> Instant {
    Instant::from_timestamp(t.timestamp(), t.timestamp_subsec_nanos()).unwrap()
}

#[test]
fn an_instant_keeps_its_timestamp() {
    let t = Instant::from_timestamp(1_700_000_000, 42).unwrap();
    assert_eq!(t.timestamp(), 1_700_000_000);
    assert_eq!(t.subsec_nanos(), 42);
    let t = Instant::from_timestamp(-1, 999_999_999).unwrap();
    assert_eq!((t.timestamp(), t.subsec_nanos()), (-1, 999_999_999));
}

#[test]
fn instants_out_of_reach_are_refused() {
    let first = FIRST_DAY * DAY_SECONDS;
    let last = (LAST_DAY + 1) * DAY_SECONDS - 1;
    assert_eq!(first, -8_334_601_228_800);
    assert_eq!(last, 8_210_266_876_799);
    assert!(Instant::from_timestamp(first, 0).is_some());
    assert!(Instant::from_timestamp(last, 999_999_999).is_some());
    assert!(Instant::from_timestamp(first - 1, 0).is_none());
    assert!(Instant::from_timestamp(last + 1, 0).is_none());
    assert!(Instant::from_timestamp(0, 1_000_000_000).is_none());
    assert!(Instant::from_timestamp(59, 1_500_000_000).is_none());
    assert!(Instant::from_timestamp(i64::MIN, 0).is_none());
    assert!(Instant::from_timestamp(i64::MAX, 0).is_none());
    assert_eq!(Instant::earliest(), Instant::from_timestamp(first, 0).unwrap());
}

#[test]
fn every_instant_in_reach_is_one_of_the_calendar() {
    let first = FIRST_DAY * DAY_SECONDS;
    let last = (LAST_DAY + 1) * DAY_SECONDS - 1;
    assert_eq!(DateTime::<Utc>::MIN_UTC.timestamp(), first);
    assert_eq!(DateTime::<Utc>::MIN_UTC.timestamp_subsec_nanos(), 0);
    assert_eq!(DateTime::<Utc>::MAX_UTC.timestamp(), last);
    assert_eq!(DateTime::<Utc>::MAX_UTC.timestamp_subsec_nanos(), 999_999_999);
    assert_eq!(as_chrono(Instant::earliest()), DateTime::<Utc>::MIN_UTC);
    assert_eq!(as_instant(DateTime::<Utc>::MAX_UTC).timestamp(), last);
    assert!(DateTime::<Utc>::from_timestamp(first, 0).is_some());
    assert!(DateTime::<Utc>::from_timestamp(last, 999_999_999).is_some());
    assert!(DateTime::<Utc>::from_timestamp(first - 1, 999_999_999).is_none());
    assert!(DateTime::<Utc>::from_timestamp(last + 1, 0).is_none());
    for secs in [first, first + 1, -86_401, -86_400, -1, 0, 1, 86_399, 86_400, 1_700_000_000, last - 1, last] {
        for nanos in [0, 1, 999_999_999] {
            let ours = Instant::from_timestamp(secs, nanos).map(|t| (t.timestamp(), t.subsec_nanos()));
            let theirs = DateTime::<Utc>::from_timestamp(secs, nanos).map(|t| (t.timestamp(), t.timestamp_subsec_nanos()));
            assert_eq!(ours, theirs);
            assert_eq!(ours, Some((secs, nanos)));
        }
    }
    for t in [Instant::earliest(), Instant::from_timestamp(last, 999_999_999).unwrap()] {
        let noon = t.at_time_of_day(12, 0).unwrap();
        assert_eq!(noon.timestamp().div_euclid(86_400), t.timestamp().div_euclid(86_400));
        assert_eq!(noon.timestamp().rem_euclid(86_400), 12 * 3600);
        assert!(!t.weekday().is_empty());
    }
}

#[test]
fn instants_are_ordered_by_seconds_then_nanoseconds() {
    let a = Instant::from_timestamp(10, 5).unwrap();
    let b = Instant::from_timestamp(10, 6).unwrap();
    let c = Instant::from_timestamp(11, 0).unwrap();
    let d = Instant::from_timestamp(-3, 999).unwrap();
    assert!(a.is_before(&b) && b.is_before(&c) && a.is_before(&c) && d.is_before(&a));
    assert!(!b.is_before(&a) && !c.is_before(&b) && !a.is_before(&a));
    assert!(a < b && b < c && d < a && a == a);
    for (x, y) in [(a, b), (b, c), (d, a), (c, d), (a, a)] {
        assert_eq!(x.is_before(&y), as_chrono(x) < as_chrono(y));
        assert_eq!(y.is_before(&x), as_chrono(x) > as_chrono(y));
    }
}

#[test]
fn the_time_of_day_is_set_as_the_calendar_sets_it() {
    let now = Utc.with_ymd_and_hms(2021, 7, 4, 17, 38, 52).unwrap() + chrono::Duration::nanoseconds(7);
    let t = as_instant(now);
    assert_eq!(as_chrono(t.at_time_of_day(0, 0).unwrap()), Utc.with_ymd_and_hms(2021, 7, 4, 0, 0, 0).unwrap());
    assert_eq!(as_chrono(t.at_time_of_day(23, 59).unwrap()), Utc.with_ymd_and_hms(2021, 7, 4, 23, 59, 0).unwrap());
    assert_eq!(as_chrono(t.at_time_of_day(9, 30).unwrap()), Utc.with_ymd_and_hms(2021, 7, 4, 9, 30, 0).unwrap());
    assert_eq!(t.at_time_of_day(24, 0), None);
    assert_eq!(t.at_time_of_day(0, 60), None);
    assert_eq!(t.at_time_of_day(24, 60), None);
    assert_eq!(t.at_time_of_day(u32::MAX, 0), None);
    assert_eq!(t.at_time_of_day(0, u32::MAX), None);
}

#[test]
fn each_part_of_the_time_of_day_is_replaced() {
    // 17:38:52.000000007 differs from 09:30:00.0 in hour, minute, second
    // and nanosecond: a step left undone would show.
    let t = Instant::from_timestamp(1_625_420_332, 7).unwrap();
    let set = t.at_time_of_day(9, 30).unwrap();
    assert_eq!(set.timestamp(), 1_625_356_800 + 9 * 3600 + 30 * 60);
    assert_eq!(set.subsec_nanos(), 0);
    let same_hour = t.at_time_of_day(17, 30).unwrap();
    assert_eq!(same_hour.timestamp(), 1_625_356_800 + 17 * 3600 + 30 * 60);
    let same_minute = t.at_time_of_day(9, 38).unwrap();
    assert_eq!(same_minute.timestamp(), 1_625_356_800 + 9 * 3600 + 38 * 60);
}

#[test]
fn weekdays_are_named_in_full() {
    let name = |y, m, d| as_instant(Utc.with_ymd_and_hms(y, m, d, 12, 0, 0).unwrap()).weekday();
    assert_eq!(name(1970, 1, 1), "Thursday");
    assert_eq!(name(2024, 1, 1), "Monday");
    assert_eq!(name(2024, 1, 2), "Tuesday");
    assert_eq!(name(2024, 1, 3), "Wednesday");
    assert_eq!(name(2024, 1, 5), "Friday");
    assert_eq!(name(2024, 1, 6), "Saturday");
    assert_eq!(name(2024, 1, 7), "Sunday");
    assert_eq!(name(2024, 2, 29), "Thursday");
    assert_eq!(name(1969, 12, 31), "Wednesday");
    assert_eq!(Instant::from_timestamp(0, 0).unwrap().weekday(), "Thursday");
    assert_eq!(Instant::from_timestamp(-1, 999_999_999).unwrap().weekday(), "Wednesday");
    assert_eq!(Instant::from_timestamp(86_399, 0).unwrap().weekday(), "Thursday");
    assert_eq!(Instant::from_timestamp(86_400, 0).unwrap().weekday(), "Friday");
}

#[test]
fn the_clock_reads_the_present() {
    let before = Utc::now();
    let now = Instant::now();
    let after = Utc::now();
    assert!(now.is_some());
    let now = now.unwrap();
    assert!(before <= as_chrono(now) && as_chrono(now) <= after);
    assert!(now.subsec_nanos() < 1_000_000_000);
}

#[test]
fn elapsed_time_is_counted_in_nanoseconds() {
    let a = Instant::from_timestamp(100, 900_000_000).unwrap();
    let b = Instant::from_timestamp(102, 100_000_000).unwrap();
    assert_eq!(b.elapsed_since(&a), 1_200_000_000);
    assert_eq!(a.elapsed_since(&b), -1_200_000_000);
    assert_eq!(a.elapsed_since(&a), 0);
    let last = Instant::from_timestamp((LAST_DAY + 1) * DAY_SECONDS - 1, 999_999_999).unwrap();
    let whole = last.elapsed_since(&Instant::earliest());
    assert_eq!(whole, ((LAST_DAY + 1 - FIRST_DAY) as i128) * 86_400 * 1_000_000_000 - 1);
    assert_eq!(Instant::earliest().elapsed_since(&last), -whole);
    let x = as_chrono(a);
    let y = as_chrono(b);
    assert_eq!(b.elapsed_since(&a), (y - x).num_nanoseconds().unwrap() as i128);
}

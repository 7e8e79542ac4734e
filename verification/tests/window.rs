use chrono::{Datelike, NaiveDate, TimeZone, Utc};
use fizz::config::{GuildConfig, UserConfig};
use fizz::ids::DiscordUserId;
use fizz::time::{Instant, TimeOfDay};
use fizz::window::{
    discord_user_report_times, discord_user_weekly_report_needed, is_active_on, is_workday,
    user_report_times, user_weekly_report_needed, weekly_due,
};

fn day(y: i32, m: u32, d: u32) -> i32 {
    NaiveDate::from_ymd_opt(y, m, d).unwrap().num_days_from_ce()
}

fn utc(y: i32, mo: u32, d: u32, h: u32, mi: u32, s: u32) -> Instant {
    Instant::new(Utc.with_ymd_and_hms(y, mo, d, h, mi, s).unwrap().timestamp(), 0)
}

fn hm(h: u32, m: u32) -> TimeOfDay {
    TimeOfDay::from_hms(h, m, 0).unwrap()
}

fn user(zone: &str, workdays: &str, times: Vec<TimeOfDay>) -> UserConfig {
    let mut u = UserConfig::new("someone".to_string());
    u.timezone = zone.to_string();
    u.workdays = workdays.to_string();
    u.report_times = times;
    u
}

#[test]
fn time_of_day_from_hms() {
    assert_eq!(TimeOfDay::from_hms(9, 0, 0), Some(TimeOfDay { secs: 32400, nanos: 0 }));
    assert_eq!(TimeOfDay::from_hms(23, 59, 59), Some(TimeOfDay { secs: 86399, nanos: 0 }));
    assert_eq!(TimeOfDay::from_hms(24, 0, 0), None);
    assert_eq!(TimeOfDay::from_hms(0, 60, 0), None);
    assert_eq!(TimeOfDay::from_hms(0, 0, 60), None);
}

#[test]
fn instants_are_ordered_by_seconds_then_nanoseconds() {
    let a = Instant::new(10, 5);
    let b = Instant::new(10, 6);
    let c = Instant::new(11, 0);
    assert!(a.is_before(&b));
    assert!(b.is_before(&c));
    assert!(!b.is_before(&a));
    assert!(!a.is_before(&a));
    assert!(a.is_at_or_before(&a));
    assert!(a.is_at_or_before(&c));
    assert!(!c.is_at_or_before(&b));
}

#[test]
fn within_is_open_at_last_and_closed_at_now() {
    let last = Instant::new(100, 0);
    let now = Instant::new(200, 0);
    assert!(!Instant::new(100, 0).is_within(&last, &now));
    assert!(Instant::new(100, 1).is_within(&last, &now));
    assert!(Instant::new(150, 0).is_within(&last, &now));
    assert!(Instant::new(200, 0).is_within(&last, &now));
    assert!(!Instant::new(200, 1).is_within(&last, &now));
    assert!(!Instant::new(99, 999_999_999).is_within(&last, &now));
}

#[test]
fn workday_digits() {
    assert!(is_workday("12345", 1));
    assert!(is_workday("12345", 5));
    assert!(!is_workday("12345", 0));
    assert!(!is_workday("12345", 6));
    assert!(is_workday("06", 0));
    assert!(is_workday("06", 6));
    assert!(!is_workday("", 3));
    assert!(!is_workday("0123456", 7));
    assert!(!is_workday("7", 7));
}

#[test]
fn active_only_on_workdays() {
    let u = user("UTC", "135", vec![hm(9, 0)]);
    assert!(is_active_on(&u, 100, 1));
    assert!(!is_active_on(&u, 100, 2));
    assert!(is_active_on(&u, 100, 3));
    let nobody = user("UTC", "", vec![hm(9, 0)]);
    for weekday in 0..7 {
        assert!(!is_active_on(&nobody, 100, weekday));
    }
}

#[test]
fn away_includes_the_last_day_away() {
    let mut u = user("UTC", "0123456", vec![hm(9, 0)]);
    u.away_until = Some(100);
    assert!(!is_active_on(&u, 99, 1));
    assert!(!is_active_on(&u, 100, 1));
    assert!(is_active_on(&u, 101, 1));
    u.away_until = None;
    assert!(is_active_on(&u, 100, 1));
}

#[test]
fn weekly_due_without_an_earlier_report() {
    assert!(weekly_due(None, 0));
    assert!(weekly_due(None, i32::MIN));
    assert!(weekly_due(None, i32::MAX));
}

#[test]
fn weekly_due_after_seven_days() {
    assert!(!weekly_due(Some(1000), 1006));
    assert!(weekly_due(Some(1000), 1007));
    assert!(weekly_due(Some(1000), 1008));
    assert!(!weekly_due(Some(1000), 1000));
    assert!(!weekly_due(Some(1000), 993));
    assert!(weekly_due(Some(i32::MIN), i32::MAX));
    assert!(!weekly_due(Some(i32::MAX), i32::MIN));
}

#[test]
fn report_fires_once_it_has_passed() {
    let u = user("UTC", "12345", vec![hm(9, 0)]);
    // 2024-06-03 is a Monday.
    let last = utc(2024, 6, 3, 8, 59, 0);
    let now = utc(2024, 6, 3, 9, 1, 0);
    assert_eq!(user_report_times(&u, &last, &now), vec![utc(2024, 6, 3, 9, 0, 0)]);
}

#[test]
fn same_cycle_twice_gives_the_same_window() {
    let u = user("Europe/Zurich", "12345", vec![hm(9, 0), hm(12, 0)]);
    let last = utc(2024, 6, 3, 0, 0, 0);
    let now = utc(2024, 6, 3, 21, 0, 0);
    let first = user_report_times(&u, &last, &now);
    let second = user_report_times(&u, &last, &now);
    assert_eq!(first, second);
    assert_eq!(first, vec![utc(2024, 6, 3, 7, 0, 0), utc(2024, 6, 3, 10, 0, 0)]);
}

#[test]
fn report_time_at_the_interval_ends() {
    let u = user("UTC", "12345", vec![hm(9, 0)]);
    let at = utc(2024, 6, 3, 9, 0, 0);
    // The instant of the last cycle is excluded.
    assert!(user_report_times(&u, &at, &utc(2024, 6, 3, 9, 5, 0)).is_empty());
    // The instant of this cycle is included.
    assert_eq!(user_report_times(&u, &utc(2024, 6, 3, 8, 55, 0), &at), vec![at]);
    // Not yet passed.
    assert!(user_report_times(&u, &utc(2024, 6, 3, 8, 0, 0), &utc(2024, 6, 3, 8, 59, 59)).is_empty());
    // Passed in an earlier cycle.
    assert!(user_report_times(&u, &utc(2024, 6, 3, 9, 0, 1), &utc(2024, 6, 3, 10, 0, 0)).is_empty());
}

#[test]
fn nanoseconds_count_at_the_interval_ends() {
    let u = user("UTC", "12345", vec![hm(9, 0)]);
    let at = utc(2024, 6, 3, 9, 0, 0);
    let just_before = Instant::new(at.secs - 1, 999_999_999);
    let just_after = Instant::new(at.secs, 1);
    assert_eq!(user_report_times(&u, &just_before, &at), vec![at]);
    assert!(user_report_times(&u, &at, &just_after).is_empty());
    assert_eq!(user_report_times(&u, &just_before, &just_after), vec![at]);
}

#[test]
fn no_window_on_a_day_off() {
    // 2024-06-01 is a Saturday, 2024-06-02 a Sunday.
    let u = user("UTC", "12345", vec![hm(9, 0)]);
    assert!(user_report_times(&u, &utc(2024, 6, 1, 0, 0, 0), &utc(2024, 6, 1, 23, 0, 0)).is_empty());
    assert!(user_report_times(&u, &utc(2024, 6, 2, 0, 0, 0), &utc(2024, 6, 2, 23, 0, 0)).is_empty());
    let weekend = user("UTC", "06", vec![hm(9, 0)]);
    assert_eq!(
        user_report_times(&weekend, &utc(2024, 6, 1, 0, 0, 0), &utc(2024, 6, 1, 23, 0, 0)),
        vec![utc(2024, 6, 1, 9, 0, 0)]
    );
    assert_eq!(
        user_report_times(&weekend, &utc(2024, 6, 2, 0, 0, 0), &utc(2024, 6, 2, 23, 0, 0)),
        vec![utc(2024, 6, 2, 9, 0, 0)]
    );
    assert!(user_report_times(&weekend, &utc(2024, 6, 3, 0, 0, 0), &utc(2024, 6, 3, 23, 0, 0)).is_empty());
}

#[test]
fn no_window_without_workdays() {
    let u = user("UTC", "", vec![hm(9, 0), hm(12, 0)]);
    for d in 1..8 {
        assert!(user_report_times(&u, &utc(2024, 6, d, 0, 0, 0), &utc(2024, 6, d, 23, 0, 0)).is_empty());
    }
}

#[test]
fn every_day_of_the_week_has_its_digit() {
    // 2024-06-02 is a Sunday: the days that follow run through the week.
    for offset in 0..7u32 {
        let digit = offset.to_string();
        let u = user("UTC", &digit, vec![hm(9, 0)]);
        for d in 0..7u32 {
            let window =
                user_report_times(&u, &utc(2024, 6, 2 + d, 0, 0, 0), &utc(2024, 6, 2 + d, 23, 0, 0));
            if d == offset {
                assert_eq!(window, vec![utc(2024, 6, 2 + d, 9, 0, 0)]);
            } else {
                assert!(window.is_empty());
            }
        }
    }
}

#[test]
fn no_window_while_away() {
    let mut u = user("UTC", "12345", vec![hm(9, 0)]);
    let last = utc(2024, 6, 4, 8, 0, 0);
    let now = utc(2024, 6, 4, 10, 0, 0);
    // Away until a later day.
    u.away_until = Some(day(2024, 6, 10));
    assert!(user_report_times(&u, &last, &now).is_empty());
    // Away until today: today is still a day away.
    u.away_until = Some(day(2024, 6, 4));
    assert!(user_report_times(&u, &last, &now).is_empty());
    // Away until yesterday: back today.
    u.away_until = Some(day(2024, 6, 3));
    assert_eq!(user_report_times(&u, &last, &now), vec![utc(2024, 6, 4, 9, 0, 0)]);
    // Away long ago.
    u.away_until = Some(day(2001, 1, 1));
    assert_eq!(user_report_times(&u, &last, &now), vec![utc(2024, 6, 4, 9, 0, 0)]);
    u.away_until = None;
    assert_eq!(user_report_times(&u, &last, &now), vec![utc(2024, 6, 4, 9, 0, 0)]);
}

#[test]
fn no_window_without_report_times() {
    let u = user("UTC", "0123456", vec![]);
    assert!(user_report_times(&u, &utc(2024, 6, 3, 0, 0, 0), &utc(2024, 6, 3, 23, 59, 59)).is_empty());
}

#[test]
fn window_keeps_the_order_of_the_report_times() {
    let u = user("UTC", "12345", vec![hm(12, 0), hm(9, 0), hm(15, 0)]);
    let window = user_report_times(&u, &utc(2024, 6, 3, 0, 0, 0), &utc(2024, 6, 3, 13, 0, 0));
    assert_eq!(window, vec![utc(2024, 6, 3, 12, 0, 0), utc(2024, 6, 3, 9, 0, 0)]);
}

#[test]
fn report_times_are_local_times() {
    // Zurich is two hours ahead of UTC in summer and one in winter.
    let u = user("Europe/Zurich", "12345", vec![hm(9, 0)]);
    assert_eq!(
        user_report_times(&u, &utc(2024, 6, 3, 6, 59, 0), &utc(2024, 6, 3, 7, 1, 0)),
        vec![utc(2024, 6, 3, 7, 0, 0)]
    );
    assert!(user_report_times(&u, &utc(2024, 6, 3, 8, 59, 0), &utc(2024, 6, 3, 9, 1, 0)).is_empty());
    assert_eq!(
        user_report_times(&u, &utc(2024, 1, 8, 7, 59, 0), &utc(2024, 1, 8, 8, 1, 0)),
        vec![utc(2024, 1, 8, 8, 0, 0)]
    );
}

#[test]
fn today_is_the_local_day() {
    // Monday 2024-06-03 10:00 in Auckland is Sunday 22:00 UTC.
    let u = user("Pacific/Auckland", "1", vec![hm(9, 0)]);
    let now = utc(2024, 6, 2, 22, 0, 0);
    let window = user_report_times(&u, &utc(2024, 6, 2, 20, 0, 0), &now);
    assert_eq!(window, vec![utc(2024, 6, 2, 21, 0, 0)]);
    // The same instants are a Sunday for a user in UTC.
    let v = user("UTC", "1", vec![hm(21, 0)]);
    assert!(user_report_times(&v, &utc(2024, 6, 2, 20, 0, 0), &now).is_empty());
    // Sunday 20:00 in Los Angeles is Monday 03:00 UTC.
    let w = user("America/Los_Angeles", "0", vec![hm(19, 0)]);
    assert_eq!(
        user_report_times(&w, &utc(2024, 6, 3, 1, 0, 0), &utc(2024, 6, 3, 3, 0, 0)),
        vec![utc(2024, 6, 3, 2, 0, 0)]
    );
}

#[test]
fn local_time_in_a_gap_is_skipped() {
    // On 2024-03-31 the clocks in Zurich went from 02:00 straight to 03:00.
    let u = user("Europe/Zurich", "0", vec![hm(2, 30), hm(3, 30)]);
    let window = user_report_times(&u, &utc(2024, 3, 30, 23, 0, 0), &utc(2024, 3, 31, 12, 0, 0));
    assert_eq!(window, vec![utc(2024, 3, 31, 1, 30, 0)]);
}

#[test]
fn local_time_in_a_fold_is_skipped() {
    // On 2024-10-27 the clocks in Zurich showed 02:00 to 03:00 twice.
    let u = user("Europe/Zurich", "0", vec![hm(1, 30), hm(2, 30), hm(3, 30)]);
    let window = user_report_times(&u, &utc(2024, 10, 26, 22, 0, 0), &utc(2024, 10, 27, 12, 0, 0));
    assert_eq!(window, vec![utc(2024, 10, 26, 23, 30, 0), utc(2024, 10, 27, 2, 30, 0)]);
}

#[test]
fn unknown_zone_is_never_due() {
    let u = user("Mars/Olympus_Mons", "0123456", vec![hm(9, 0)]);
    assert!(user_report_times(&u, &utc(2024, 6, 3, 0, 0, 0), &utc(2024, 6, 3, 23, 0, 0)).is_empty());
    let empty = user("", "0123456", vec![hm(9, 0)]);
    assert!(user_report_times(&empty, &utc(2024, 6, 3, 0, 0, 0), &utc(2024, 6, 3, 23, 0, 0)).is_empty());
}

#[test]
fn time_that_is_no_time_of_day_is_skipped() {
    let u = user(
        "UTC",
        "0123456",
        vec![TimeOfDay { secs: 86400, nanos: 0 }, hm(9, 0), TimeOfDay { secs: 10, nanos: 2_000_000_000 }],
    );
    let window = user_report_times(&u, &utc(2024, 6, 3, 0, 0, 0), &utc(2024, 6, 3, 23, 0, 0));
    assert_eq!(window, vec![utc(2024, 6, 3, 9, 0, 0)]);
}

#[test]
fn instant_out_of_range_is_never_due() {
    let u = user("UTC", "0123456", vec![hm(9, 0)]);
    let now = Instant::new(i64::MAX, 0);
    assert!(user_report_times(&u, &Instant::new(0, 0), &now).is_empty());
    let early = Instant::new(i64::MIN, 0);
    assert!(user_report_times(&u, &early, &early).is_empty());
}

#[test]
fn report_times_of_a_user_of_the_guild() {
    let mut guild = GuildConfig::default();
    let id = DiscordUserId("7".to_string());
    let at = guild.user_entry(&id, "seven".to_string());
    guild.users[at].1.report_times = vec![hm(9, 0), hm(12, 0)];
    let last = utc(2024, 6, 3, 8, 0, 0);
    let now = utc(2024, 6, 3, 12, 0, 0);
    assert_eq!(
        discord_user_report_times(&guild, &id, &last, &now),
        vec![utc(2024, 6, 3, 9, 0, 0), utc(2024, 6, 3, 12, 0, 0)]
    );
    let stranger = DiscordUserId("8".to_string());
    assert!(discord_user_report_times(&guild, &stranger, &last, &now).is_empty());
}

#[test]
fn weekly_report_counts_local_days() {
    let mut u = user("UTC", "12345", vec![hm(9, 0)]);
    let now = utc(2024, 6, 10, 9, 0, 0);
    assert!(user_weekly_report_needed(&u, &now));
    // Six local days before: not due, however late in the day.
    u.last_weekly_report = Some(utc(2024, 6, 4, 0, 0, 1));
    assert!(!user_weekly_report_needed(&u, &now));
    // Seven local days before: due, though seven times 24 hours have not passed.
    u.last_weekly_report = Some(utc(2024, 6, 3, 23, 59, 59));
    assert!(user_weekly_report_needed(&u, &now));
    u.last_weekly_report = Some(utc(2024, 6, 3, 0, 0, 0));
    assert!(user_weekly_report_needed(&u, &now));
    u.last_weekly_report = Some(utc(2024, 6, 10, 8, 0, 0));
    assert!(!user_weekly_report_needed(&u, &now));
    // A last report that lies ahead.
    u.last_weekly_report = Some(utc(2024, 7, 10, 8, 0, 0));
    assert!(!user_weekly_report_needed(&u, &now));
}

#[test]
fn weekly_report_days_are_the_users_days() {
    // 2024-06-03 23:30 UTC is already June 4 in Zurich.
    let mut u = user("Europe/Zurich", "12345", vec![hm(9, 0)]);
    u.last_weekly_report = Some(utc(2024, 6, 3, 23, 30, 0));
    // June 10 23:00 in Zurich: six local days later.
    assert!(!user_weekly_report_needed(&u, &utc(2024, 6, 10, 21, 0, 0)));
    // June 11 00:30 in Zurich: seven local days later.
    assert!(user_weekly_report_needed(&u, &utc(2024, 6, 10, 22, 30, 0)));
    let mut v = user("UTC", "12345", vec![hm(9, 0)]);
    v.last_weekly_report = Some(utc(2024, 6, 3, 23, 30, 0));
    assert!(user_weekly_report_needed(&v, &utc(2024, 6, 10, 21, 0, 0)));
}

#[test]
fn weekly_report_with_an_unknown_zone() {
    let mut u = user("Nowhere", "12345", vec![hm(9, 0)]);
    assert!(user_weekly_report_needed(&u, &utc(2024, 6, 10, 9, 0, 0)));
    u.last_weekly_report = Some(utc(2020, 1, 1, 0, 0, 0));
    assert!(!user_weekly_report_needed(&u, &utc(2024, 6, 10, 9, 0, 0)));
}

#[test]
fn weekly_report_of_a_user_of_the_guild() {
    let mut guild = GuildConfig::default();
    let id = DiscordUserId("7".to_string());
    let at = guild.user_entry(&id, "seven".to_string());
    let now = utc(2024, 6, 10, 9, 0, 0);
    assert!(discord_user_weekly_report_needed(&guild, &id, &now));
    guild.users[at].1.last_weekly_report = Some(utc(2024, 6, 5, 9, 0, 0));
    assert!(!discord_user_weekly_report_needed(&guild, &id, &now));
    let stranger = DiscordUserId("8".to_string());
    assert!(!discord_user_weekly_report_needed(&guild, &stranger, &now));
}

#[test]
fn report_time_fires_in_one_of_two_cycles() {
    let u = user("UTC", "12345", vec![hm(9, 0)]);
    let at = utc(2024, 6, 3, 9, 0, 0);
    let start = utc(2024, 6, 3, 8, 50, 0);
    let end = utc(2024, 6, 3, 9, 10, 0);
    for between in [
        utc(2024, 6, 3, 8, 55, 0),
        utc(2024, 6, 3, 8, 59, 59),
        at,
        utc(2024, 6, 3, 9, 0, 1),
        utc(2024, 6, 3, 9, 5, 0),
    ] {
        let first = user_report_times(&u, &start, &between);
        let second = user_report_times(&u, &between, &end);
        assert_eq!(first.len() + second.len(), 1);
    }
}

#[test]
fn cycle_run_again_takes_what_the_failed_one_missed() {
    let u = user("UTC", "12345", vec![hm(9, 0), hm(9, 3)]);
    let last = utc(2024, 6, 3, 8, 58, 0);
    // The cycle of 09:01 failed; the one of 09:06 starts from the same instant.
    let failed = user_report_times(&u, &last, &utc(2024, 6, 3, 9, 1, 0));
    let again = user_report_times(&u, &last, &utc(2024, 6, 3, 9, 6, 0));
    assert_eq!(failed, vec![utc(2024, 6, 3, 9, 0, 0)]);
    assert_eq!(again, vec![utc(2024, 6, 3, 9, 0, 0), utc(2024, 6, 3, 9, 3, 0)]);
}

#[test]
fn local_day_agrees_with_the_zone_database() {
    // A report at the hour that has just passed fires only where the zone's
    // calendar shows a day of the given weekday.
    for (zone, tz) in [
        ("Asia/Tokyo", chrono_tz::Asia::Tokyo),
        ("America/New_York", chrono_tz::America::New_York),
        ("Australia/Lord_Howe", chrono_tz::Australia::Lord_Howe),
        ("Pacific/Kiritimati", chrono_tz::Pacific::Kiritimati),
    ] {
        for hour in 0..48u32 {
            let now_utc = Utc.with_ymd_and_hms(2024, 6, 1 + hour / 24, hour % 24, 30, 0).unwrap();
            let local = now_utc.with_timezone(&tz);
            let weekday = local.weekday().num_days_from_sunday();
            let now = Instant::new(now_utc.timestamp(), 0);
            let last = Instant::new(now_utc.timestamp() - 3600, 0);
            let since_midnight = chrono::Timelike::num_seconds_from_midnight(&local);
            if since_midnight < 60 {
                // The minute before lies on the day before.
                continue;
            }
            let report = TimeOfDay { secs: since_midnight - 60, nanos: 0 };
            let expected = tz
                .from_local_datetime(&local.date_naive().and_time(
                    chrono::NaiveTime::from_num_seconds_from_midnight_opt(report.secs, 0).unwrap(),
                ))
                .single()
                .unwrap();
            for digit in 0..7u32 {
                let u = user(zone, &digit.to_string(), vec![report]);
                let window = user_report_times(&u, &last, &now);
                if digit == weekday {
                    assert_eq!(window, vec![Instant::new(expected.timestamp(), 0)]);
                } else {
                    assert!(window.is_empty());
                }
            }
        }
    }
}

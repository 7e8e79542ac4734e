//! When a user's reports are due.
//!
//! Everything here is decided from the user's settings, the instant of the
//! last cycle that went through and the instant of this one. The clocks
//! come in through the time-zone database alone.

use vstd::prelude::*;
use vstd::string::*;
use vstd::std_specs::iter::IteratorSpec;
use crate::config::{GuildConfig, UserConfig};
use crate::ids::DiscordUserId;
use crate::time::{
    day_weekday, local_day_of, resolve_local, weekday_of, zone_local_day, zone_resolve, Instant,
    TimeOfDay,
};

verus! {

/// The least number of calendar days between two weekly reports.
pub const WEEKLY_REPORT_DAYS: i64 = 7;

/// The digit that stands for a day of the week in a list of workdays:
/// `'0'` for Sunday up to `'6'` for Saturday.
pub open spec fn weekday_digit(weekday: u32) -> Option<char> {
    if weekday == 0 {
        Some('0')
    } else if weekday == 1 {
        Some('1')
    } else if weekday == 2 {
        Some('2')
    } else if weekday == 3 {
        Some('3')
    } else if weekday == 4 {
        Some('4')
    } else if weekday == 5 {
        Some('5')
    } else if weekday == 6 {
        Some('6')
    } else {
        None
    }
}

/// Whether the list of workdays holds the day of the week.
pub open spec fn works_on(workdays: Seq<char>, weekday: u32) -> bool {
    match weekday_digit(weekday) {
        Some(digit) => workdays.contains(digit),
        None => false,
    }
}

/// Whether at least seven calendar days lie between the day of the last
/// weekly report and today, or there was no such report yet.
pub open spec fn weekly_due_on(last_report_day: Option<i32>, today: i32) -> bool {
    match last_report_day {
        None => true,
        Some(then) => today - then >= WEEKLY_REPORT_DAYS,
    }
}

impl UserConfig {
    /// The calendar day that the user's clocks show at `now`.
    pub open spec fn local_today(&self, now: Instant) -> Option<i32> {
        local_day_of(self.timezone@, now.secs, now.nanos)
    }

    /// Whether the user is away on the day: the last day away is that day or
    /// a later one.
    pub open spec fn away_on(&self, day: i32) -> bool {
        match self.away_until {
            Some(until) => day <= until,
            None => false,
        }
    }

    /// Whether the user takes timed reports on the day, which falls on the
    /// given day of the week: it is a workday and the user is not away.
    pub open spec fn active_on(&self, day: i32, weekday: u32) -> bool {
        works_on(self.workdays@, weekday) && !self.away_on(day)
    }

    /// Whether the user takes timed reports on the day.
    pub open spec fn reports_on(&self, day: i32) -> bool {
        match weekday_of(day) {
            Some(weekday) => self.active_on(day, weekday),
            None => false,
        }
    }

    /// The instant at which the report time `t` of the day comes, where
    /// the user's clocks show that time once on that day and the instant
    /// lies after `last` and not after `now`.
    pub open spec fn fires(&self, day: i32, t: TimeOfDay, last: Instant, now: Instant) -> Option<
        Instant,
    > {
        match resolve_local(self.timezone@, day, t.secs, t.nanos) {
            Some(at) => if at.within(last, now) {
                Some(at)
            } else {
                None
            },
            None => None,
        }
    }

    /// The instants at which a report of the user has come due since `last`:
    /// those of today's report times that lie after `last` and not after
    /// `now`, in the order of the report times. Empty on a day on which the
    /// user takes no timed reports.
    pub open spec fn alert_window(&self, last: Instant, now: Instant) -> Seq<Instant> {
        match self.local_today(now) {
            Some(today) => if self.reports_on(today) {
                self.report_times@.filter_map(|t: TimeOfDay| self.fires(today, t, last, now))
            } else {
                Seq::empty()
            },
            None => Seq::empty(),
        }
    }

    /// Whether the weekly report of the user is due at `now`: there was
    /// none yet, or the user's calendar shows a day at least seven days after
    /// the day that it showed at the last one.
    pub open spec fn weekly_report_needed(&self, now: Instant) -> bool {
        match self.last_weekly_report {
            None => true,
            Some(then) => match (
                self.local_today(now),
                local_day_of(self.timezone@, then.secs, then.nanos),
            ) {
                (Some(today), Some(last_day)) => weekly_due_on(Some(last_day), today),
                _ => false,
            },
        }
    }
}

/// Whether the list of workdays holds the day of the week.
pub fn is_workday(workdays: &str, weekday: u32) -> (r: bool)
    ensures
        r == works_on(workdays@, weekday),
{
    let digit = if weekday == 0 {
        '0'
    } else if weekday == 1 {
        '1'
    } else if weekday == 2 {
        '2'
    } else if weekday == 3 {
        '3'
    } else if weekday == 4 {
        '4'
    } else if weekday == 5 {
        '5'
    } else if weekday == 6 {
        '6'
    } else {
        return false;
    };
    for c in it: workdays.chars()
        invariant
            it.seq() == workdays@,
            weekday_digit(weekday) == Some(digit),
            forall|j: int| 0 <= j < it.index() ==> workdays@[j] != digit,
    {
        if c == digit {
            assert(workdays@[it.index() as int] == digit);
            return true;
        }
    }
    false
}

/// Whether the user takes timed reports on the day, which falls on the
/// given day of the week.
pub fn is_active_on(user: &UserConfig, day: i32, weekday: u32) -> (r: bool)
    ensures
        r == user.active_on(day, weekday),
{
    if !is_workday(user.workdays.as_str(), weekday) {
        return false;
    }
    match user.away_until {
        Some(until) => day > until,
        None => true,
    }
}

/// Whether a weekly report is due today, given the day of the last one.
pub fn weekly_due(last_report_day: Option<i32>, today: i32) -> (r: bool)
    ensures
        r == weekly_due_on(last_report_day, today),
{
    match last_report_day {
        None => true,
        Some(then) => {
            let today_wide: i64 = today as i64;
            let then_wide: i64 = then as i64;
            today_wide - then_wide >= WEEKLY_REPORT_DAYS
        },
    }
}

/// The instants at which a report of the user has come due since `last`.
pub fn user_report_times(user: &UserConfig, last: &Instant, now: &Instant) -> (r: Vec<Instant>)
    ensures
        r@ == user.alert_window(*last, *now),
{
    let mut out: Vec<Instant> = Vec::new();
    let today = match zone_local_day(user.timezone.as_str(), now.secs, now.nanos) {
        Some(today) => today,
        None => {
            return out;
        },
    };
    let weekday = match day_weekday(today) {
        Some(weekday) => weekday,
        None => {
            return out;
        },
    };
    if !is_active_on(user, today, weekday) {
        return out;
    }
    let ghost fires = |t: TimeOfDay| user.fires(today, t, *last, *now);
    let mut i: usize = 0;
    while i < user.report_times.len()
        invariant
            i <= user.report_times@.len(),
            fires == |t: TimeOfDay| user.fires(today, t, *last, *now),
            out@ == user.report_times@.take(i as int).filter_map(fires),
        decreases user.report_times@.len() - i,
    {
        let t = user.report_times[i];
        proof {
            user.report_times@.lemma_filter_map_take_succ(fires, i as int);
        }
        match zone_resolve(user.timezone.as_str(), today, t.secs, t.nanos) {
            Some(at) => {
                if at.is_within(last, now) {
                    out.push(at);
                }
            },
            None => {},
        }
        i += 1;
    }
    assert(user.report_times@.take(i as int) =~= user.report_times@);
    out
}

/// The instants at which a report of the user `discord_user_id` has come
/// due since `last`. Empty for a user whom the guild does not know.
pub fn discord_user_report_times(
    guild_config: &GuildConfig,
    discord_user_id: &DiscordUserId,
    last: &Instant,
    now: &Instant,
) -> (r: Vec<Instant>)
    ensures
        r@ == match guild_config.user(discord_user_id@) {
            Some(user) => user.alert_window(*last, *now),
            None => Seq::empty(),
        },
{
    match guild_config.find_user(discord_user_id) {
        Some(i) => user_report_times(&guild_config.users[i].1, last, now),
        None => Vec::new(),
    }
}

/// Whether the weekly report of the user is due at `now`.
pub fn user_weekly_report_needed(user: &UserConfig, now: &Instant) -> (r: bool)
    ensures
        r == user.weekly_report_needed(*now),
{
    let then = match user.last_weekly_report {
        None => {
            return true;
        },
        Some(then) => then,
    };
    let today = zone_local_day(user.timezone.as_str(), now.secs, now.nanos);
    let last_day = zone_local_day(user.timezone.as_str(), then.secs, then.nanos);
    match (today, last_day) {
        (Some(today), Some(last_day)) => weekly_due(Some(last_day), today),
        _ => false,
    }
}

/// Whether the weekly report of the user `discord_user_id` is due at `now`.
/// Never for a user whom the guild does not know.
pub fn discord_user_weekly_report_needed(
    guild_config: &GuildConfig,
    discord_user_id: &DiscordUserId,
    now: &Instant,
) -> (r: bool)
    ensures
        r == match guild_config.user(discord_user_id@) {
            Some(user) => user.weekly_report_needed(*now),
            None => false,
        },
{
    match guild_config.find_user(discord_user_id) {
        Some(i) => user_weekly_report_needed(&guild_config.users[i].1, now),
        None => false,
    }
}

/// On a day that is none of the user's workdays no report of the user
/// comes due, whatever the report times are; and so for a user without any
/// workday.
pub proof fn lemma_no_window_off_workdays(user: UserConfig, last: Instant, now: Instant)
    requires
        user.workdays@.len() == 0 || match user.local_today(now) {
            Some(today) => match weekday_of(today) {
                Some(weekday) => !works_on(user.workdays@, weekday),
                None => true,
            },
            None => true,
        },
    ensures
        user.alert_window(last, now) == Seq::<Instant>::empty(),
{
}

/// While the user is away no report of the user comes due: the last day
/// away is today or a later day.
pub proof fn lemma_no_window_while_away(user: UserConfig, last: Instant, now: Instant)
    requires
        match (user.local_today(now), user.away_until) {
            (Some(today), Some(until)) => today <= until,
            _ => false,
        },
    ensures
        user.alert_window(last, now) == Seq::<Instant>::empty(),
{
}

/// From the day after the last day away the user's reports come due as if
/// the user had never been away.
pub proof fn lemma_window_after_away(user: UserConfig, last: Instant, now: Instant)
    requires
        match (user.local_today(now), user.away_until) {
            (Some(today), Some(until)) => until < today,
            _ => false,
        },
    ensures
        user.alert_window(last, now) == (UserConfig { away_until: None, ..user }).alert_window(
            last,
            now,
        ),
{
    let back = UserConfig { away_until: None, ..user };
    let today = user.local_today(now)->0;
    assert(user.reports_on(today) == back.reports_on(today));
    assert((|t: TimeOfDay| user.fires(today, t, last, now)) =~= (|t: TimeOfDay|
        back.fires(today, t, last, now)));
}

proof fn lemma_filter_map_holds<A, B>(s: Seq<A>, f: spec_fn(A) -> Option<B>, k: int)
    requires
        0 <= k < s.len(),
        f(s[k]) is Some,
    ensures
        s.filter_map(f).contains(f(s[k])->0),
    decreases s.len(),
{
    let rest = s.drop_last();
    if k == s.len() - 1 {
        let found = rest.filter_map(f) + seq![f(s[k])->0];
        assert(found[found.len() - 1] == f(s[k])->0);
    } else {
        lemma_filter_map_holds(rest, f, k);
        let at = choose|j: int|
            0 <= j < rest.filter_map(f).len() && rest.filter_map(f)[j] == f(s[k])->0;
        assert(s.filter_map(f)[at] == f(s[k])->0);
    }
}

/// On a day on which the user takes timed reports, an instant is in the
/// alert window just when it is the instant of one of the user's report
/// times on that day, and lies after `last` and not after `now`.
pub proof fn lemma_window_membership(user: UserConfig, last: Instant, now: Instant, at: Instant)
    requires
        match user.local_today(now) {
            Some(today) => user.reports_on(today),
            None => false,
        },
    ensures
        user.alert_window(last, now).contains(at) <==> at.within(last, now) && exists|k: int|
            0 <= k < user.report_times@.len() && resolve_local(
                user.timezone@,
                user.local_today(now)->0,
                (#[trigger] user.report_times@[k]).secs,
                user.report_times@[k].nanos,
            ) == Some(at),
{
    let today = user.local_today(now)->0;
    let fires = |t: TimeOfDay| user.fires(today, t, last, now);
    let times = user.report_times@;
    if user.alert_window(last, now).contains(at) {
        times.lemma_filter_map_contains(fires, at);
        let t = choose|t: TimeOfDay| #[trigger] times.contains(t) && fires(t) == Some(at);
        let k = choose|k: int| 0 <= k < times.len() && times[k] == t;
        assert(resolve_local(user.timezone@, today, times[k].secs, times[k].nanos) == Some(at));
    }
    if at.within(last, now) && exists|k: int|
        0 <= k < times.len() && resolve_local(
            user.timezone@,
            today,
            (#[trigger] times[k]).secs,
            times[k].nanos,
        ) == Some(at) {
        let k = choose|k: int|
            0 <= k < times.len() && resolve_local(
                user.timezone@,
                today,
                (#[trigger] times[k]).secs,
                times[k].nanos,
            ) == Some(at);
        assert(fires(times[k]) == Some(at));
        lemma_filter_map_holds(times, fires, k);
    }
}

/// A report comes due only on a day on which the user takes timed
/// reports: a workday on which the user is not away.
pub proof fn lemma_window_only_when_active(user: UserConfig, last: Instant, now: Instant)
    requires
        user.alert_window(last, now).len() > 0,
    ensures
        match user.local_today(now) {
            Some(today) => match weekday_of(today) {
                Some(weekday) => works_on(user.workdays@, weekday) && !user.away_on(today),
                None => false,
            },
            None => false,
        },
{
}

/// An instant fires in one cycle only: of two cycles that follow one
/// another, the second beginning where the first ended, not both take it;
/// and every instant between the beginning of the first and the end of the
/// second is taken by one of them.
pub proof fn lemma_fires_in_one_cycle(at: Instant, last: Instant, between: Instant, now: Instant)
    requires
        last.at_or_before(between),
        between.at_or_before(now),
    ensures
        !(at.within(last, between) && at.within(between, now)),
        at.within(last, now) <==> at.within(last, between) || at.within(between, now),
{
}

/// A cycle that is run again from where it began, after it failed, takes
/// every instant that the failed cycle should have taken.
pub proof fn lemma_retry_covers_failed_cycle(at: Instant, last: Instant, failed: Instant, now: Instant)
    requires
        failed.at_or_before(now),
        at.within(last, failed),
    ensures
        at.within(last, now),
{
}

/// Whether the weekly report is due goes by the calendar days of the user:
/// with a last report, it is due just when today's day lies seven days or
/// more after the day of that report.
pub proof fn lemma_weekly_report_by_local_days(user: UserConfig, now: Instant)
    requires
        user.last_weekly_report is Some,
        user.local_today(now) is Some,
        local_day_of(
            user.timezone@,
            user.last_weekly_report->0.secs,
            user.last_weekly_report->0.nanos,
        ) is Some,
    ensures
        user.weekly_report_needed(now) <==> user.local_today(now)->0 - local_day_of(
            user.timezone@,
            user.last_weekly_report->0.secs,
            user.last_weekly_report->0.nanos,
        )->0 >= 7,
{
}

/// Once a weekly report was noted, no other is due before the user's
/// calendar shows a day seven days later: not at the instant at which it
/// was noted, and at no instant whose day lies less than seven days after.
pub proof fn lemma_weekly_report_throttled(user: UserConfig, noted: Instant, later: Instant)
    requires
        match (user.local_today(noted), user.local_today(later)) {
            (Some(then), Some(today)) => today - then < 7,
            _ => true,
        },
    ensures
        !user.with_weekly_report(noted).weekly_report_needed(later),
        !user.with_weekly_report(noted).weekly_report_needed(noted),
{
}

/// A user without any report time is never due by the clock.
pub proof fn lemma_no_report_times_no_window(user: UserConfig, last: Instant, now: Instant)
    requires
        user.report_times@.len() == 0,
    ensures
        user.alert_window(last, now) == Seq::<Instant>::empty(),
{
}

/// A weekly report that was never made is due.
pub proof fn lemma_first_weekly_report_due(user: UserConfig, now: Instant)
    requires
        user.last_weekly_report is None,
    ensures
        user.weekly_report_needed(now),
{
}

} // verus!

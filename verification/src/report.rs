//! One cycle of reporting: who is due in each guild, and what each due
//! user is told.
//!
//! A cycle first fetches the open pull requests and leads issues of every
//! guild that has a channel to report in, and only then delivers anything:
//! a fetch that fails stops the cycle before a single message has changed.
//! The weekly alerts are delivered first, then the alerts that are due at
//! once.

use vstd::prelude::*;
use vstd::string::*;
use crate::config::{user_ids, Config, GuildConfig, UserConfig};
use crate::github::{
    filter_leads_issues_for_guild, filter_prs_for_guild, issue_for_guild, pr_for_guild,
    LeadsIssue, LeadsIssueState, Pr, PrState, Urgency,
};
use crate::ids::{DiscordChannelId, DiscordGuildId, DiscordUserId};
use crate::render::{
    alert_header, format_issue, format_pr, generate_alert_messages, header_for, pack, texts,
    BLOCKING_ISSUES_HEADER, NONURGENT_ISSUES_HEADER, PR_HEADER,
};
use crate::time::Instant;
use crate::window::{user_report_times, user_weekly_report_needed};

verus! {

/// Whether `id` is among the identifiers.
pub open spec fn ids_contain(ids: Seq<DiscordUserId>, id: Seq<char>) -> bool {
    exists|i: int| 0 <= i < ids.len() && (#[trigger] ids[i])@ == id
}

/// Whether the user is among the identifiers.
pub fn contains_id(ids: &Vec<DiscordUserId>, id: &DiscordUserId) -> (r: bool)
    ensures
        r == ids_contain(ids@, id@),
{
    let mut i: usize = 0;
    while i < ids.len()
        invariant
            i <= ids@.len(),
            forall|j: int| 0 <= j < i ==> (#[trigger] ids@[j])@ != id@,
        decreases ids@.len() - i,
    {
        if ids[i].same(id) {
            return true;
        }
        i += 1;
    }
    false
}

impl Pr {
    /// Whether the pull request awaits a review by the user: the user is
    /// one of those whose review was requested.
    pub open spec fn awaits(&self, user: Seq<char>) -> bool {
        exists|j: int|
            0 <= j < self.reviewers@.len() && ids_contain(
                (#[trigger] self.reviewers@[j]).discord_users@,
                user,
            )
    }

    /// Whether the pull request awaits a review by the user.
    pub fn is_for(&self, user: &DiscordUserId) -> (r: bool)
        ensures
            r == self.awaits(user@),
    {
        let mut j: usize = 0;
        while j < self.reviewers.len()
            invariant
                j <= self.reviewers@.len(),
                forall|k: int|
                    0 <= k < j ==> !ids_contain(
                        (#[trigger] self.reviewers@[k]).discord_users@,
                        user@,
                    ),
            decreases self.reviewers@.len() - j,
        {
            if contains_id(&self.reviewers[j].discord_users, user) {
                return true;
            }
            j += 1;
        }
        false
    }
}

impl LeadsIssue {
    /// Whether the issue blocks work and the user is one of its leads.
    pub open spec fn blocks(&self, user: Seq<char>) -> bool {
        self.urgency == Urgency::Blocked && ids_contain(self.leads@, user)
    }

    /// Whether the issue blocks no work and the user is one of its leads.
    pub open spec fn waits_for(&self, user: Seq<char>) -> bool {
        self.urgency != Urgency::Blocked && ids_contain(self.leads@, user)
    }

    /// Whether the issue is told to the user at once, or else with the
    /// weekly alerts.
    pub open spec fn concerns(&self, user: Seq<char>, at_once: bool) -> bool {
        if at_once {
            self.blocks(user)
        } else {
            self.waits_for(user)
        }
    }

    /// Whether the issue is told to the user at once, or else with the
    /// weekly alerts.
    pub fn is_for(&self, user: &DiscordUserId, at_once: bool) -> (r: bool)
        ensures
            r == self.concerns(user@, at_once),
    {
        let blocked = match self.urgency {
            Urgency::Blocked => true,
            Urgency::Normal => false,
            Urgency::Background => false,
        };
        blocked == at_once && contains_id(&self.leads, user)
    }
}

/// The lines of the pull requests that await a review by the user, in the
/// order of the pull requests.
pub open spec fn pr_lines(prs: Seq<Pr>, user: Seq<char>) -> Seq<Seq<char>> {
    prs.filter(|p: Pr| p.awaits(user)).map_values(|p: Pr| p.line())
}

/// The lines of the issues that are told to the user, at once or else with
/// the weekly alerts, in the order of the issues.
pub open spec fn issue_lines(issues: Seq<LeadsIssue>, user: Seq<char>, at_once: bool) -> Seq<
    Seq<char>,
> {
    issues.filter(|i: LeadsIssue| i.concerns(user, at_once)).map_values(|i: LeadsIssue| i.line())
}

fn user_pr_lines(prs: &Vec<Pr>, user: &DiscordUserId) -> (r: Vec<String>)
    ensures
        texts(r@) == pr_lines(prs@, user@),
{
    let mut lines: Vec<String> = Vec::new();
    let mut i: usize = 0;
    while i < prs.len()
        invariant
            i <= prs@.len(),
            texts(lines@) == pr_lines(prs@.take(i as int), user@),
        decreases prs@.len() - i,
    {
        proof {
            let p = |p: Pr| p.awaits(user@);
            let before = prs@.take(i as int);
            assert(prs@.take(i + 1) =~= before.push(prs@[i as int]));
            before.lemma_filter_push(prs@[i as int], p);
        }
        if prs[i].is_for(user) {
            let ghost done = lines@;
            lines.push(format_pr(&prs[i]));
            proof {
                assert(texts(lines@) =~= texts(done).push(prs@[i as int].line()));
            }
        }
        proof {
            assert(texts(lines@) =~= pr_lines(prs@.take(i + 1), user@));
        }
        i += 1;
    }
    assert(prs@.take(i as int) =~= prs@);
    lines
}

fn user_issue_lines(issues: &Vec<LeadsIssue>, user: &DiscordUserId, at_once: bool) -> (r: Vec<
    String,
>)
    ensures
        texts(r@) == issue_lines(issues@, user@, at_once),
{
    let mut lines: Vec<String> = Vec::new();
    let mut i: usize = 0;
    while i < issues.len()
        invariant
            i <= issues@.len(),
            texts(lines@) == issue_lines(issues@.take(i as int), user@, at_once),
        decreases issues@.len() - i,
    {
        proof {
            let p = |x: LeadsIssue| x.concerns(user@, at_once);
            let before = issues@.take(i as int);
            assert(issues@.take(i + 1) =~= before.push(issues@[i as int]));
            before.lemma_filter_push(issues@[i as int], p);
        }
        if issues[i].is_for(user, at_once) {
            let ghost done = lines@;
            lines.push(format_issue(&issues[i]));
            proof {
                assert(texts(lines@) =~= texts(done).push(issues@[i as int].line()));
            }
        }
        proof {
            assert(texts(lines@) =~= issue_lines(issues@.take(i + 1), user@, at_once));
        }
        i += 1;
    }
    assert(issues@.take(i as int) =~= issues@);
    lines
}

/// The alerts of one kind for one user: the header under which they stand
/// in the channel, and the messages to post. The messages under the header
/// that stand in the channel already are to be deleted first.
#[derive(Debug)]
pub struct Delivery {
    pub header: String,
    pub messages: Vec<String>,
}

impl Delivery {
    /// The delivery is that of the lines for the user under the title: its
    /// header is the title with the user's mention, and its messages are
    /// the lines packed under that header.
    pub open spec fn carries(&self, title: Seq<char>, user: Seq<char>, lines: Seq<Seq<char>>) -> bool {
        &&& self.header@ == header_for(title, user)
        &&& texts(self.messages@) == pack(header_for(title, user), lines)
    }
}

/// What a user is told at once: the pull requests that await the user's
/// review, and the leads issues that block work.
#[derive(Debug)]
pub struct UserAlerts {
    pub prs: Delivery,
    pub issues: Delivery,
}

fn deliver(title: &str, user: &DiscordUserId, lines: &Vec<String>) -> (r: Delivery)
    ensures
        r.carries(title@, user@, texts(lines@)),
{
    let header = alert_header(title, user);
    let messages = generate_alert_messages(&header, lines);
    Delivery { header, messages }
}

/// What the user is told at once.
pub fn report_alerts_for_user(prs: &Vec<Pr>, issues: &Vec<LeadsIssue>, discord_user_id: &DiscordUserId) -> (r:
    UserAlerts)
    ensures
        r.prs.carries(PR_HEADER@, discord_user_id@, pr_lines(prs@, discord_user_id@)),
        r.issues.carries(
            BLOCKING_ISSUES_HEADER@,
            discord_user_id@,
            issue_lines(issues@, discord_user_id@, true),
        ),
{
    let user_prs = user_pr_lines(prs, discord_user_id);
    let user_issues = user_issue_lines(issues, discord_user_id, true);
    UserAlerts {
        prs: deliver(PR_HEADER, discord_user_id, &user_prs),
        issues: deliver(BLOCKING_ISSUES_HEADER, discord_user_id, &user_issues),
    }
}

/// What the user is told with the weekly alerts: the leads issues that
/// block no work.
pub fn report_weekly_alerts_for_user(issues: &Vec<LeadsIssue>, discord_user_id: &DiscordUserId) -> (r:
    Delivery)
    ensures
        r.carries(
            NONURGENT_ISSUES_HEADER@,
            discord_user_id@,
            issue_lines(issues@, discord_user_id@, false),
        ),
{
    let user_issues = user_issue_lines(issues, discord_user_id, false);
    deliver(NONURGENT_ISSUES_HEADER, discord_user_id, &user_issues)
}

impl UserConfig {
    /// Whether the user is told at once: a report of the user has come due
    /// since the last cycle that went through, or the cycle was asked for
    /// by hand, which passes over the report times.
    pub open spec fn due_now(&self, last: Instant, now: Instant, ignore_time: bool) -> bool {
        ignore_time || self.alert_window(last, now).len() > 0
    }

    /// Whether the user gets the weekly alerts in this cycle: the user is
    /// told at once, and the weekly report is due.
    pub open spec fn due_weekly(&self, last: Instant, now: Instant, ignore_time: bool) -> bool {
        self.due_now(last, now, ignore_time) && self.weekly_report_needed(now)
    }

    /// Whether the user is told at once.
    pub fn is_due_now(&self, last: &Instant, now: &Instant, ignore_time: bool) -> (r: bool)
        ensures
            r == self.due_now(*last, *now, ignore_time),
    {
        ignore_time || user_report_times(self, last, now).len() > 0
    }
}

/// The users who are told at once, in the order of the guild's users.
pub open spec fn users_due_now(
    users: Seq<(DiscordUserId, UserConfig)>,
    last: Instant,
    now: Instant,
    ignore_time: bool,
) -> Seq<DiscordUserId> {
    users.filter(|e: (DiscordUserId, UserConfig)| e.1.due_now(last, now, ignore_time)).map_values(
        |e: (DiscordUserId, UserConfig)| e.0,
    )
}

/// The users who get the weekly alerts, in the order of the guild's users.
pub open spec fn users_due_weekly(
    users: Seq<(DiscordUserId, UserConfig)>,
    last: Instant,
    now: Instant,
    ignore_time: bool,
) -> Seq<DiscordUserId> {
    users.filter(
        |e: (DiscordUserId, UserConfig)| e.1.due_weekly(last, now, ignore_time),
    ).map_values(|e: (DiscordUserId, UserConfig)| e.0)
}

/// The users of the guild who are told at once, and those who get the
/// weekly alerts.
pub fn users_to_alert(cfg: &GuildConfig, last: &Instant, now: &Instant, ignore_time: bool) -> (r: (
    Vec<DiscordUserId>,
    Vec<DiscordUserId>,
))
    ensures
        r.0@ == users_due_now(cfg.users@, *last, *now, ignore_time),
        r.1@ == users_due_weekly(cfg.users@, *last, *now, ignore_time),
{
    let mut to_alert: Vec<DiscordUserId> = Vec::new();
    let mut to_weekly_alert: Vec<DiscordUserId> = Vec::new();
    let mut i: usize = 0;
    while i < cfg.users.len()
        invariant
            i <= cfg.users@.len(),
            to_alert@ == users_due_now(cfg.users@.take(i as int), *last, *now, ignore_time),
            to_weekly_alert@ == users_due_weekly(
                cfg.users@.take(i as int),
                *last,
                *now,
                ignore_time,
            ),
        decreases cfg.users@.len() - i,
    {
        proof {
            let due = |e: (DiscordUserId, UserConfig)| e.1.due_now(*last, *now, ignore_time);
            let weekly = |e: (DiscordUserId, UserConfig)| e.1.due_weekly(*last, *now, ignore_time);
            let before = cfg.users@.take(i as int);
            assert(cfg.users@.take(i + 1) =~= before.push(cfg.users@[i as int]));
            before.lemma_filter_push(cfg.users@[i as int], due);
            before.lemma_filter_push(cfg.users@[i as int], weekly);
        }
        let user = &cfg.users[i].1;
        if user.is_due_now(last, now, ignore_time) {
            to_alert.push(cfg.users[i].0.clone());
            if user_weekly_report_needed(user, now) {
                to_weekly_alert.push(cfg.users[i].0.clone());
            }
        }
        proof {
            assert(to_alert@ =~= users_due_now(cfg.users@.take(i + 1), *last, *now, ignore_time));
            assert(to_weekly_alert@ =~= users_due_weekly(
                cfg.users@.take(i + 1),
                *last,
                *now,
                ignore_time,
            ));
        }
        i += 1;
    }
    assert(cfg.users@.take(i as int) =~= cfg.users@);
    (to_alert, to_weekly_alert)
}

proof fn lemma_filter_keeps_ids_apart(
    users: Seq<(DiscordUserId, UserConfig)>,
    keep: spec_fn((DiscordUserId, UserConfig)) -> bool,
)
    requires
        user_ids(users).no_duplicates(),
    ensures
        user_ids(users.filter(keep)).no_duplicates(),
    decreases users.len(),
{
    reveal(Seq::filter);
    if users.len() > 0 {
        let rest = users.drop_last();
        let last = users.last();
        assert forall|i: int, j: int|
            0 <= i < rest.len() && 0 <= j < rest.len() && i != j implies user_ids(rest)[i]
            != user_ids(rest)[j] by {
            assert(user_ids(users)[i] != user_ids(users)[j]);
        }
        lemma_filter_keeps_ids_apart(rest, keep);
        if keep(last) {
            let kept = rest.filter(keep);
            assert(users.filter(keep) =~= kept.push(last));
            assert forall|i: int| 0 <= i < kept.len() implies user_ids(kept)[i] != last.0@ by {
                rest.lemma_filter_contains_rev(keep, kept[i]);
                let at = choose|at: int| 0 <= at < rest.len() && rest[at] == kept[i];
                assert(user_ids(users)[at] != user_ids(users)[users.len() - 1]);
            }
            assert forall|i: int, j: int|
                0 <= i < kept.len() + 1 && 0 <= j < kept.len() + 1 && i != j implies user_ids(
                kept.push(last),
            )[i] != user_ids(kept.push(last))[j] by {
                let all = kept.push(last);
                if i < kept.len() && j < kept.len() {
                    assert(user_ids(kept)[i] != user_ids(kept)[j]);
                    assert(user_ids(all)[i] == user_ids(kept)[i]);
                    assert(user_ids(all)[j] == user_ids(kept)[j]);
                } else if i < kept.len() {
                    assert(user_ids(kept)[i] != last.0@);
                    assert(user_ids(all)[i] == user_ids(kept)[i]);
                    assert(user_ids(all)[j] == last.0@);
                } else {
                    assert(user_ids(kept)[j] != last.0@);
                    assert(user_ids(all)[j] == user_ids(kept)[j]);
                    assert(user_ids(all)[i] == last.0@);
                }
            }
        }
    }
}

/// In a guild where no user stands twice, no user is told twice in a
/// cycle: neither at once nor with the weekly alerts.
pub proof fn lemma_no_user_told_twice(
    guild: GuildConfig,
    last: Instant,
    now: Instant,
    ignore_time: bool,
)
    requires
        guild.wf(),
    ensures
        users_due_now(guild.users@, last, now, ignore_time).map_values(
            |id: DiscordUserId| id@,
        ).no_duplicates(),
        users_due_weekly(guild.users@, last, now, ignore_time).map_values(
            |id: DiscordUserId| id@,
        ).no_duplicates(),
{
    let due = |e: (DiscordUserId, UserConfig)| e.1.due_now(last, now, ignore_time);
    let weekly = |e: (DiscordUserId, UserConfig)| e.1.due_weekly(last, now, ignore_time);
    lemma_filter_keeps_ids_apart(guild.users@, due);
    lemma_filter_keeps_ids_apart(guild.users@, weekly);
    assert(users_due_now(guild.users@, last, now, ignore_time).map_values(|id: DiscordUserId| id@)
        =~= user_ids(guild.users@.filter(due)));
    assert(users_due_weekly(guild.users@, last, now, ignore_time).map_values(
        |id: DiscordUserId| id@,
    ) =~= user_ids(guild.users@.filter(weekly)));
}

/// No user who is due is passed over, and no user is told who is not due:
/// the users who are told at once are the users of the guild who are due.
pub proof fn lemma_due_users_are_told(
    guild: GuildConfig,
    last: Instant,
    now: Instant,
    ignore_time: bool,
    id: DiscordUserId,
)
    ensures
        users_due_now(guild.users@, last, now, ignore_time).contains(id) <==> exists|k: int|
            0 <= k < guild.users@.len() && (#[trigger] guild.users@[k]).0 == id
                && guild.users@[k].1.due_now(last, now, ignore_time),
{
    let due = |e: (DiscordUserId, UserConfig)| e.1.due_now(last, now, ignore_time);
    let kept = guild.users@.filter(due);
    let told = users_due_now(guild.users@, last, now, ignore_time);
    if told.contains(id) {
        let at = choose|at: int| 0 <= at < told.len() && told[at] == id;
        assert(kept[at].0 == id);
        guild.users@.lemma_filter_pred(due, at);
        guild.users@.lemma_filter_contains_rev(due, kept[at]);
        let k = choose|k: int| 0 <= k < guild.users@.len() && guild.users@[k] == kept[at];
        assert(guild.users@[k].0 == id && guild.users@[k].1.due_now(last, now, ignore_time));
    }
    if exists|k: int|
        0 <= k < guild.users@.len() && (#[trigger] guild.users@[k]).0 == id
            && guild.users@[k].1.due_now(last, now, ignore_time) {
        let k = choose|k: int|
            0 <= k < guild.users@.len() && (#[trigger] guild.users@[k]).0 == id
                && guild.users@[k].1.due_now(last, now, ignore_time);
        guild.users@.lemma_filter_contains(due, k);
        let at = choose|at: int| 0 <= at < kept.len() && kept[at] == guild.users@[k];
        assert(told[at] == id);
    }
}

/// The weekly alerts go to no user who is not told at once in the same
/// cycle.
pub proof fn lemma_weekly_implies_due(user: UserConfig, last: Instant, now: Instant, ignore_time: bool)
    requires
        user.due_weekly(last, now, ignore_time),
    ensures
        user.due_now(last, now, ignore_time),
{
}

/// A cycle that was asked for by hand tells every user at once, whatever
/// the workdays, the time away and the report times; the weekly alerts go
/// to those whose weekly report is due, as in any other cycle.
pub proof fn lemma_asked_for_by_hand(user: UserConfig, last: Instant, now: Instant)
    ensures
        user.due_now(last, now, true),
        user.due_weekly(last, now, true) == user.weekly_report_needed(now),
{
}

/// A user without any report time is told at once only in a cycle that
/// was asked for by hand.
pub proof fn lemma_no_report_times_only_by_hand(
    user: UserConfig,
    last: Instant,
    now: Instant,
    ignore_time: bool,
)
    requires
        user.report_times@.len() == 0,
    ensures
        user.due_now(last, now, ignore_time) == ignore_time,
{
}

/// A guild whose open pull requests and leads issues a cycle has to fetch.
#[derive(Debug)]
pub struct FetchRequest {
    pub discord_guild_id: DiscordGuildId,
    pub repo_owner: String,
    pub repo_name: String,
}

/// What was fetched for a guild.
#[derive(Debug)]
pub struct GuildFetch {
    pub discord_guild_id: DiscordGuildId,
    pub prs: PrState,
    pub issues: LeadsIssueState,
}

/// What a cycle has to deliver in one guild.
#[derive(Debug)]
pub struct GuildAlerts {
    pub discord_guild_id: DiscordGuildId,
    /// The channel to report in.
    pub discord_channel_id: DiscordChannelId,
    /// The users who are told at once.
    pub discord_user_ids: Vec<DiscordUserId>,
    /// The users who get the weekly alerts.
    pub weekly_discord_user_ids: Vec<DiscordUserId>,
    pub prs: Vec<Pr>,
    pub issues: Vec<LeadsIssue>,
}

impl GuildConfig {
    /// Whether the guild has a channel to report in.
    pub open spec fn reports(&self) -> bool {
        self.report_channel_id@.0.len() > 0 && self.report_channel_id@.1.len() > 0
    }
}

/// Whether the cycle was asked for by hand for this guild.
pub open spec fn ignores_time(asked_for: Option<DiscordGuildId>, guild: Seq<char>) -> bool {
    match asked_for {
        Some(id) => id@ == guild,
        None => false,
    }
}

/// `request` asks for what the guild of the entry needs: it names the
/// guild and the guild's repository.
pub open spec fn request_for(request: FetchRequest, entry: (DiscordGuildId, GuildConfig)) -> bool {
    &&& request.discord_guild_id == entry.0
    &&& request.repo_owner == entry.1.repo_owner
    &&& request.repo_name == entry.1.repo_name
}

/// The guilds that report, in the order of the configuration.
pub open spec fn reporting_guilds(guilds: Seq<(DiscordGuildId, GuildConfig)>) -> Seq<
    (DiscordGuildId, GuildConfig),
> {
    guilds.filter(|e: (DiscordGuildId, GuildConfig)| e.1.reports())
}

/// What a cycle has to fetch: the repository of every guild that has a
/// channel to report in, in the order of the configuration.
pub fn guilds_to_fetch(config: &Config) -> (r: Vec<FetchRequest>)
    ensures
        r@.len() == reporting_guilds(config.guilds@).len(),
        forall|k: int|
            0 <= k < r@.len() ==> request_for(
                #[trigger] r@[k],
                reporting_guilds(config.guilds@)[k],
            ),
{
    let mut requests: Vec<FetchRequest> = Vec::new();
    let mut i: usize = 0;
    while i < config.guilds.len()
        invariant
            i <= config.guilds@.len(),
            requests@.len() == reporting_guilds(config.guilds@.take(i as int)).len(),
            forall|k: int|
                0 <= k < requests@.len() ==> request_for(
                    #[trigger] requests@[k],
                    reporting_guilds(config.guilds@.take(i as int))[k],
                ),
        decreases config.guilds@.len() - i,
    {
        proof {
            let p = |e: (DiscordGuildId, GuildConfig)| e.1.reports();
            let before = config.guilds@.take(i as int);
            assert(config.guilds@.take(i + 1) =~= before.push(config.guilds@[i as int]));
            before.lemma_filter_push(config.guilds@[i as int], p);
        }
        let guild = &config.guilds[i].1;
        if !guild.report_channel_id.is_empty() {
            requests.push(
                FetchRequest {
                    discord_guild_id: config.guilds[i].0.clone(),
                    repo_owner: guild.repo_owner.clone(),
                    repo_name: guild.repo_name.clone(),
                },
            );
        }
        i += 1;
    }
    assert(config.guilds@.take(i as int) =~= config.guilds@);
    requests
}

/// `alerts` is what the cycle delivers in the guild that `fetched` was
/// fetched for. In a guild that reports: its channel, its users who are told
/// at once and those who get the weekly alerts, and the fetched pull
/// requests and issues as the guild sees them. In a guild that does not
/// report, or that the configuration does not know: nothing.
pub open spec fn alerts_for(
    alerts: GuildAlerts,
    fetched: GuildFetch,
    config: Config,
    last: Instant,
    now: Instant,
    asked_for: Option<DiscordGuildId>,
) -> bool {
    let ignore_time = ignores_time(asked_for, fetched.discord_guild_id@);
    &&& alerts.discord_guild_id == fetched.discord_guild_id
    &&& match config.guild(fetched.discord_guild_id@) {
        Some(cfg) => if cfg.reports() {
            &&& alerts.discord_channel_id == cfg.report_channel_id
            &&& alerts.discord_user_ids@ == users_due_now(cfg.users@, last, now, ignore_time)
            &&& alerts.weekly_discord_user_ids@ == users_due_weekly(
                cfg.users@,
                last,
                now,
                ignore_time,
            )
            &&& alerts.prs@.len() == fetched.prs.prs@.len()
            &&& forall|k: int|
                0 <= k < alerts.prs@.len() ==> pr_for_guild(
                    #[trigger] alerts.prs@[k],
                    fetched.prs.prs@[k],
                    cfg,
                )
            &&& alerts.issues@.len() == fetched.issues.issues@.len()
            &&& forall|k: int|
                0 <= k < alerts.issues@.len() ==> issue_for_guild(
                    #[trigger] alerts.issues@[k],
                    fetched.issues.issues@[k],
                    cfg,
                )
        } else {
            alerts.delivers_nothing()
        },
        None => alerts.delivers_nothing(),
    }
}

impl GuildAlerts {
    /// No user is told anything, and no channel is named.
    pub open spec fn delivers_nothing(&self) -> bool {
        &&& self.discord_channel_id@ == (Seq::<char>::empty(), Seq::<char>::empty())
        &&& self.discord_user_ids@.len() == 0
        &&& self.weekly_discord_user_ids@.len() == 0
        &&& self.prs@.len() == 0
        &&& self.issues@.len() == 0
    }
}

/// Whether the cycle was asked for by hand for this guild.
pub fn guild_ignores_time(asked_for: &Option<DiscordGuildId>, guild_id: &DiscordGuildId) -> (r:
    bool)
    ensures
        r == ignores_time(*asked_for, guild_id@),
{
    match asked_for {
        Some(id) => id.same(guild_id),
        None => false,
    }
}

fn nothing_for(guild_id: DiscordGuildId) -> (r: GuildAlerts)
    ensures
        r.discord_guild_id == guild_id,
        r.delivers_nothing(),
{
    GuildAlerts {
        discord_guild_id: guild_id,
        discord_channel_id: DiscordChannelId(DiscordGuildId(String::new()), String::new()),
        discord_user_ids: Vec::new(),
        weekly_discord_user_ids: Vec::new(),
        prs: Vec::new(),
        issues: Vec::new(),
    }
}

fn guild_alerts(
    config: &Config,
    fetched: GuildFetch,
    last: &Instant,
    now: &Instant,
    ignore_time_for_guild_id: &Option<DiscordGuildId>,
) -> (r: GuildAlerts)
    ensures
        alerts_for(r, fetched, *config, *last, *now, *ignore_time_for_guild_id),
{
    let g = match config.find_guild(&fetched.discord_guild_id) {
        Some(g) => g,
        None => {
            return nothing_for(fetched.discord_guild_id);
        },
    };
    let cfg = &config.guilds[g].1;
    if cfg.report_channel_id.is_empty() {
        return nothing_for(fetched.discord_guild_id);
    }
    let ignore_time = guild_ignores_time(ignore_time_for_guild_id, &fetched.discord_guild_id);
    let (discord_user_ids, weekly_discord_user_ids) = users_to_alert(cfg, last, now, ignore_time);
    let prs = filter_prs_for_guild(fetched.prs, cfg);
    let issues = filter_leads_issues_for_guild(fetched.issues, cfg);
    GuildAlerts {
        discord_guild_id: fetched.discord_guild_id,
        discord_channel_id: cfg.report_channel_id.clone(),
        discord_user_ids,
        weekly_discord_user_ids,
        prs,
        issues,
    }
}

/// What a cycle has to deliver, guild by guild, from what was fetched.
///
/// A user is told at once when one of the user's report times has come
/// since `last`, the instant of the last cycle that went through, and not
/// after `now`. A user who is told at once also gets the weekly alerts
/// where the weekly report is due. In the guild that the cycle was asked for
/// by hand, every user is told at once, whatever the report times say; the
/// weekly alerts keep to their week.
pub fn report_alerts(
    config: &Config,
    fetched: Vec<GuildFetch>,
    last_report_timestamp: &Instant,
    now: &Instant,
    ignore_time_for_guild_id: &Option<DiscordGuildId>,
) -> (r: Vec<GuildAlerts>)
    ensures
        r@.len() == fetched@.len(),
        forall|i: int|
            0 <= i < r@.len() ==> alerts_for(
                #[trigger] r@[i],
                fetched@[i],
                *config,
                *last_report_timestamp,
                *now,
                *ignore_time_for_guild_id,
            ),
{
    let mut alerts: Vec<GuildAlerts> = Vec::new();
    let ghost source = fetched@;
    for guild in it: fetched.into_iter()
        invariant
            it.seq() == source,
            alerts@.len() == it.index(),
            forall|i: int|
                0 <= i < alerts@.len() ==> alerts_for(
                    #[trigger] alerts@[i],
                    source[i],
                    *config,
                    *last_report_timestamp,
                    *now,
                    *ignore_time_for_guild_id,
                ),
    {
        let guild_alerts = guild_alerts(
            config,
            guild,
            last_report_timestamp,
            now,
            ignore_time_for_guild_id,
        );
        alerts.push(guild_alerts);
    }
    alerts
}

} // verus!

//! The order in which the alerts of a cycle go out.
//!
//! A cycle is delivered step by step, and a step that fails ends the
//! delivery: no later step is taken. The weekly alerts come first, and each
//! user's weekly report is noted right after that user's alerts were
//! posted, so that no report is noted that did not go out. Then the
//! configuration is saved, and then the alerts that are due at once go out.
//! Alerts are replaced, not added: the messages under a header are deleted
//! before the fresh ones under that header are posted.

use vstd::prelude::*;
use vstd::string::*;
use crate::error::CycleFailure;
use crate::ids::{DiscordChannelId, DiscordGuildId, DiscordUserId};
use crate::render::{
    header_for, lemma_alerts_do_not_overlap, lemma_messages_well_formed, pack, texts,
    well_formed_message, BLOCKING_ISSUES_HEADER, NONURGENT_ISSUES_HEADER, PR_HEADER,
};
use crate::report::{
    issue_lines, pr_lines, report_alerts_for_user, report_weekly_alerts_for_user, GuildAlerts,
};
use crate::resync::{
    contents, delivered, lemma_filter_all, lemma_filter_none, lemma_one_live_set, live_alerts,
    posted_for, stale, survivors, ChannelMessage,
};
use crate::time::Instant;

verus! {

/// One step of a delivery.
#[derive(Debug)]
pub enum Step {
    /// Delete from the channel every message that the bot wrote under the
    /// header.
    Resync { channel: DiscordChannelId, header: String },
    /// Post the messages to the channel, in their order.
    Post { channel: DiscordChannelId, messages: Vec<String> },
    /// Note that the weekly report of the user went out at the instant `at`.
    MarkWeeklyReported { guild: DiscordGuildId, user: DiscordUserId, at: Instant },
    /// Save the configuration.
    SaveConfig,
}

impl Step {
    /// What has failed where the step fails: the delivery where a message
    /// could not be deleted or posted, the configuration where a report
    /// could not be noted or saved.
    pub fn failure(&self) -> (r: CycleFailure)
        ensures
            r == match *self {
                Step::Resync { .. } => CycleFailure::DeliveryFailed,
                Step::Post { .. } => CycleFailure::DeliveryFailed,
                Step::MarkWeeklyReported { .. } => CycleFailure::ConfigUnavailable,
                Step::SaveConfig => CycleFailure::ConfigUnavailable,
            },
    {
        match self {
            Step::Resync { .. } => CycleFailure::DeliveryFailed,
            Step::Post { .. } => CycleFailure::DeliveryFailed,
            Step::MarkWeeklyReported { .. } => CycleFailure::ConfigUnavailable,
            Step::SaveConfig => CycleFailure::ConfigUnavailable,
        }
    }
}

/// A step with its texts as plain values.
pub enum StepView {
    Resync { channel: (Seq<char>, Seq<char>), header: Seq<char> },
    Post { channel: (Seq<char>, Seq<char>), messages: Seq<Seq<char>> },
    MarkWeeklyReported { guild: Seq<char>, user: Seq<char>, at: Instant },
    SaveConfig,
}

impl View for Step {
    type V = StepView;

    open spec fn view(&self) -> StepView {
        match *self {
            Step::Resync { channel, header } => StepView::Resync {
                channel: channel@,
                header: header@,
            },
            Step::Post { channel, messages } => StepView::Post {
                channel: channel@,
                messages: texts(messages@),
            },
            Step::MarkWeeklyReported { guild, user, at } => StepView::MarkWeeklyReported {
                guild: guild@,
                user: user@,
                at,
            },
            Step::SaveConfig => StepView::SaveConfig,
        }
    }
}

/// The steps as plain values, in their order.
pub open spec fn step_views(steps: Seq<Step>) -> Seq<StepView> {
    steps.map_values(|s: Step| s@)
}

/// The steps that deliver the weekly alerts of one user: the old ones are
/// deleted, the fresh ones posted, and the report is noted.
pub open spec fn weekly_steps(alerts: GuildAlerts, user: DiscordUserId, now: Instant) -> Seq<
    StepView,
> {
    let channel = alerts.discord_channel_id@;
    let header = header_for(NONURGENT_ISSUES_HEADER@, user@);
    seq![
        StepView::Resync { channel, header },
        StepView::Post { channel, messages: pack(header, issue_lines(alerts.issues@, user@, false)) },
        StepView::MarkWeeklyReported { guild: alerts.discord_guild_id@, user: user@, at: now },
    ]
}

/// The steps that deliver what one user is told at once: the old alerts of
/// both kinds are deleted, then the pull requests are posted, then the
/// issues that block work.
pub open spec fn now_steps(alerts: GuildAlerts, user: DiscordUserId) -> Seq<StepView> {
    let channel = alerts.discord_channel_id@;
    let prs = header_for(PR_HEADER@, user@);
    let issues = header_for(BLOCKING_ISSUES_HEADER@, user@);
    seq![
        StepView::Resync { channel, header: prs },
        StepView::Resync { channel, header: issues },
        StepView::Post { channel, messages: pack(prs, pr_lines(alerts.prs@, user@)) },
        StepView::Post { channel, messages: pack(issues, issue_lines(alerts.issues@, user@, true)) },
    ]
}

/// The weekly steps of a guild for the users given, user by user.
pub open spec fn guild_weekly_steps(alerts: GuildAlerts, users: Seq<DiscordUserId>, now: Instant) -> Seq<
    StepView,
>
    decreases users.len(),
{
    if users.len() == 0 {
        Seq::empty()
    } else {
        guild_weekly_steps(alerts, users.drop_last(), now) + weekly_steps(alerts, users.last(), now)
    }
}

/// The steps of a guild for the users given who are told at once, user by
/// user.
pub open spec fn guild_now_steps(alerts: GuildAlerts, users: Seq<DiscordUserId>) -> Seq<StepView>
    decreases users.len(),
{
    if users.len() == 0 {
        Seq::empty()
    } else {
        guild_now_steps(alerts, users.drop_last()) + now_steps(alerts, users.last())
    }
}

/// The weekly steps of all the guilds, guild by guild.
pub open spec fn all_weekly_steps(alerts: Seq<GuildAlerts>, now: Instant) -> Seq<StepView>
    decreases alerts.len(),
{
    if alerts.len() == 0 {
        Seq::empty()
    } else {
        all_weekly_steps(alerts.drop_last(), now) + guild_weekly_steps(
            alerts.last(),
            alerts.last().weekly_discord_user_ids@,
            now,
        )
    }
}

/// The steps of all the guilds for the users who are told at once, guild
/// by guild.
pub open spec fn all_now_steps(alerts: Seq<GuildAlerts>) -> Seq<StepView>
    decreases alerts.len(),
{
    if alerts.len() == 0 {
        Seq::empty()
    } else {
        all_now_steps(alerts.drop_last()) + guild_now_steps(
            alerts.last(),
            alerts.last().discord_user_ids@,
        )
    }
}

/// The steps of a whole delivery: the weekly alerts of every guild, then
/// saving the configuration, then what is told at once in every guild.
pub open spec fn delivery(alerts: Seq<GuildAlerts>, now: Instant) -> Seq<StepView> {
    all_weekly_steps(alerts, now) + seq![StepView::SaveConfig] + all_now_steps(alerts)
}

/// The step at `k` notes no weekly report, or it notes one for the instant
/// `now`, right after the user's weekly alerts were posted, which came
/// right after the old ones were deleted.
pub open spec fn noted_after_posting(steps: Seq<StepView>, k: int, now: Instant) -> bool {
    match steps[k] {
        StepView::MarkWeeklyReported { guild, user, at } => {
            &&& at == now
            &&& k >= 2
            &&& steps[k - 1] is Post
            &&& steps[k - 2] is Resync
            &&& steps[k - 2]->Resync_header == header_for(NONURGENT_ISSUES_HEADER@, user)
            &&& steps[k - 1]->Post_channel == steps[k - 2]->Resync_channel
        },
        _ => true,
    }
}

/// The step at `k` posts nothing, or an earlier step has deleted the old
/// messages in the same channel under a header that every message posted
/// begins with.
pub open spec fn posted_after_resync(steps: Seq<StepView>, k: int) -> bool {
    match steps[k] {
        StepView::Post { channel, messages } => exists|j: int|
            0 <= j < k && (#[trigger] steps[j]) is Resync && steps[j]->Resync_channel == channel
                && forall|m: int|
                0 <= m < messages.len() ==> well_formed_message(
                    steps[j]->Resync_header,
                    #[trigger] messages[m],
                ),
        _ => true,
    }
}

/// Every step of `steps` is in order.
pub open spec fn in_order(steps: Seq<StepView>, now: Instant) -> bool {
    &&& forall|k: int| 0 <= k < steps.len() ==> #[trigger] noted_after_posting(steps, k, now)
    &&& forall|k: int| 0 <= k < steps.len() ==> #[trigger] posted_after_resync(steps, k)
}

/// No step of `steps` notes a weekly report or saves the configuration.
pub open spec fn only_resyncs_and_posts(steps: Seq<StepView>) -> bool {
    forall|k: int| 0 <= k < steps.len() ==> (#[trigger] steps[k]) is Resync || steps[k] is Post
}

/// No step of `steps` saves the configuration.
pub open spec fn never_saves(steps: Seq<StepView>) -> bool {
    forall|k: int| 0 <= k < steps.len() ==> !((#[trigger] steps[k]) is SaveConfig)
}

proof fn lemma_in_order_joined(first: Seq<StepView>, second: Seq<StepView>, now: Instant)
    requires
        in_order(first, now),
        in_order(second, now),
    ensures
        in_order(first + second, now),
{
    let all = first + second;
    assert forall|k: int| 0 <= k < all.len() implies #[trigger] noted_after_posting(
        all,
        k,
        now,
    ) by {
        if k < first.len() {
            assert(all[k] == first[k]);
            assert(noted_after_posting(first, k, now));
            if first[k] is MarkWeeklyReported {
                assert(all[k - 1] == first[k - 1]);
                assert(all[k - 2] == first[k - 2]);
            }
        } else {
            let at = k - first.len();
            assert(all[k] == second[at]);
            assert(noted_after_posting(second, at, now));
            if second[at] is MarkWeeklyReported {
                assert(all[k - 1] == second[at - 1]);
                assert(all[k - 2] == second[at - 2]);
            }
        }
    }
    assert forall|k: int| 0 <= k < all.len() implies #[trigger] posted_after_resync(all, k) by {
        if k < first.len() {
            assert(all[k] == first[k]);
            assert(posted_after_resync(first, k));
            if first[k] is Post {
                let j = choose|j: int|
                    0 <= j < k && (#[trigger] first[j]) is Resync && first[j]->Resync_channel
                        == first[k]->Post_channel && forall|m: int|
                        0 <= m < first[k]->Post_messages.len() ==> well_formed_message(
                            first[j]->Resync_header,
                            #[trigger] first[k]->Post_messages[m],
                        );
                assert(all[j] == first[j]);
            }
        } else {
            let at = k - first.len();
            assert(all[k] == second[at]);
            assert(posted_after_resync(second, at));
            if second[at] is Post {
                let j = choose|j: int|
                    0 <= j < at && (#[trigger] second[j]) is Resync && second[j]->Resync_channel
                        == second[at]->Post_channel && forall|m: int|
                        0 <= m < second[at]->Post_messages.len() ==> well_formed_message(
                            second[j]->Resync_header,
                            #[trigger] second[at]->Post_messages[m],
                        );
                assert(all[j + first.len()] == second[j]);
            }
        }
    }
}

proof fn lemma_weekly_steps_in_order(alerts: GuildAlerts, user: DiscordUserId, now: Instant)
    ensures
        in_order(weekly_steps(alerts, user, now), now),
        never_saves(weekly_steps(alerts, user, now)),
{
    let steps = weekly_steps(alerts, user, now);
    let header = header_for(NONURGENT_ISSUES_HEADER@, user@);
    lemma_messages_well_formed(header, issue_lines(alerts.issues@, user@, false));
    assert(steps[0] is Resync);
    assert(posted_after_resync(steps, 0));
    assert(posted_after_resync(steps, 1));
    assert(posted_after_resync(steps, 2));
    assert(noted_after_posting(steps, 0, now));
    assert(noted_after_posting(steps, 1, now));
    assert(noted_after_posting(steps, 2, now));
}

proof fn lemma_now_steps_in_order(alerts: GuildAlerts, user: DiscordUserId, now: Instant)
    ensures
        in_order(now_steps(alerts, user), now),
        only_resyncs_and_posts(now_steps(alerts, user)),
{
    let steps = now_steps(alerts, user);
    let prs = header_for(PR_HEADER@, user@);
    let issues = header_for(BLOCKING_ISSUES_HEADER@, user@);
    lemma_messages_well_formed(prs, pr_lines(alerts.prs@, user@));
    lemma_messages_well_formed(issues, issue_lines(alerts.issues@, user@, true));
    assert(steps[0] is Resync);
    assert(steps[1] is Resync);
    assert(posted_after_resync(steps, 0));
    assert(posted_after_resync(steps, 1));
    assert(posted_after_resync(steps, 2));
    assert(posted_after_resync(steps, 3));
    assert(noted_after_posting(steps, 0, now));
    assert(noted_after_posting(steps, 1, now));
    assert(noted_after_posting(steps, 2, now));
    assert(noted_after_posting(steps, 3, now));
}

proof fn lemma_guild_weekly_in_order(alerts: GuildAlerts, users: Seq<DiscordUserId>, now: Instant)
    ensures
        in_order(guild_weekly_steps(alerts, users, now), now),
        never_saves(guild_weekly_steps(alerts, users, now)),
    decreases users.len(),
{
    if users.len() > 0 {
        lemma_guild_weekly_in_order(alerts, users.drop_last(), now);
        lemma_weekly_steps_in_order(alerts, users.last(), now);
        lemma_in_order_joined(
            guild_weekly_steps(alerts, users.drop_last(), now),
            weekly_steps(alerts, users.last(), now),
            now,
        );
    }
}

proof fn lemma_guild_now_in_order(alerts: GuildAlerts, users: Seq<DiscordUserId>, now: Instant)
    ensures
        in_order(guild_now_steps(alerts, users), now),
        only_resyncs_and_posts(guild_now_steps(alerts, users)),
    decreases users.len(),
{
    if users.len() > 0 {
        lemma_guild_now_in_order(alerts, users.drop_last(), now);
        lemma_now_steps_in_order(alerts, users.last(), now);
        lemma_in_order_joined(
            guild_now_steps(alerts, users.drop_last()),
            now_steps(alerts, users.last()),
            now,
        );
    }
}

proof fn lemma_all_weekly_in_order(alerts: Seq<GuildAlerts>, now: Instant)
    ensures
        in_order(all_weekly_steps(alerts, now), now),
        never_saves(all_weekly_steps(alerts, now)),
    decreases alerts.len(),
{
    if alerts.len() > 0 {
        lemma_all_weekly_in_order(alerts.drop_last(), now);
        lemma_guild_weekly_in_order(alerts.last(), alerts.last().weekly_discord_user_ids@, now);
        lemma_in_order_joined(
            all_weekly_steps(alerts.drop_last(), now),
            guild_weekly_steps(alerts.last(), alerts.last().weekly_discord_user_ids@, now),
            now,
        );
    }
}

proof fn lemma_all_now_in_order(alerts: Seq<GuildAlerts>, now: Instant)
    ensures
        in_order(all_now_steps(alerts), now),
        only_resyncs_and_posts(all_now_steps(alerts)),
    decreases alerts.len(),
{
    if alerts.len() > 0 {
        lemma_all_now_in_order(alerts.drop_last(), now);
        lemma_guild_now_in_order(alerts.last(), alerts.last().discord_user_ids@, now);
        lemma_in_order_joined(
            all_now_steps(alerts.drop_last()),
            guild_now_steps(alerts.last(), alerts.last().discord_user_ids@),
            now,
        );
    }
}

/// In a delivery nothing is posted before the old messages under the same
/// header were deleted, and a weekly report is noted only right after the
/// user's weekly alerts were posted, with the instant of the cycle.
pub proof fn lemma_delivery_in_order(alerts: Seq<GuildAlerts>, now: Instant)
    ensures
        in_order(delivery(alerts, now), now),
{
    lemma_all_weekly_in_order(alerts, now);
    lemma_all_now_in_order(alerts, now);
    let save = seq![StepView::SaveConfig];
    assert(in_order(save, now)) by {
        assert(posted_after_resync(save, 0));
        assert(noted_after_posting(save, 0, now));
    }
    lemma_in_order_joined(all_weekly_steps(alerts, now), save, now);
    lemma_in_order_joined(all_weekly_steps(alerts, now) + save, all_now_steps(alerts), now);
}

/// A delivery saves the configuration once: after all the weekly alerts,
/// so that every weekly report that was noted is saved, and before
/// anything is told at once. No weekly report is noted after that.
pub proof fn lemma_saved_after_weekly(alerts: Seq<GuildAlerts>, now: Instant, k: int)
    requires
        0 <= k < delivery(alerts, now).len(),
    ensures
        delivery(alerts, now)[k] is SaveConfig <==> k == all_weekly_steps(alerts, now).len(),
        delivery(alerts, now)[k] is MarkWeeklyReported ==> k < all_weekly_steps(alerts, now).len(),
{
    lemma_all_weekly_in_order(alerts, now);
    lemma_all_now_in_order(alerts, now);
    let weekly = all_weekly_steps(alerts, now);
    let told = all_now_steps(alerts);
    if k < weekly.len() {
        assert(delivery(alerts, now)[k] == weekly[k]);
    } else if k > weekly.len() {
        assert(delivery(alerts, now)[k] == told[k - weekly.len() - 1]);
    }
}

/// `after` is the channel `before` once the bot has taken the step: a
/// resync leaves what it does not delete, posting adds the messages at the
/// end, written by the bot for everyone to see, and the other steps leave
/// the channel alone.
pub open spec fn step_taken(
    before: Seq<ChannelMessage>,
    after: Seq<ChannelMessage>,
    step: StepView,
    bot: u64,
) -> bool {
    match step {
        StepView::Resync { channel, header } => after == survivors(before, bot, header),
        StepView::Post { channel, messages } => exists|posted: Seq<ChannelMessage>|
            #![auto]
            after == before + posted && contents(posted) == messages && forall|k: int|
                0 <= k < posted.len() ==> (#[trigger] posted[k]).author == bot
                    && !posted[k].ephemeral,
        _ => after == before,
    }
}

/// Deleting the old messages under a header and then posting the lines
/// packed under it is a delivery of those lines: what holds of a delivery
/// holds of the two steps.
pub proof fn lemma_resync_then_post_delivers(
    start: Seq<ChannelMessage>,
    cleared: Seq<ChannelMessage>,
    end: Seq<ChannelMessage>,
    bot: u64,
    channel: (Seq<char>, Seq<char>),
    header: Seq<char>,
    lines: Seq<Seq<char>>,
)
    requires
        step_taken(start, cleared, StepView::Resync { channel, header }, bot),
        step_taken(cleared, end, StepView::Post { channel, messages: pack(header, lines) }, bot),
    ensures
        delivered(start, end, bot, header, lines),
        contents(live_alerts(end, bot, header)) == pack(header, lines),
        survivors(end, bot, header) == survivors(start, bot, header),
{
    let posted = choose|posted: Seq<ChannelMessage>|
        #![auto]
        end == cleared + posted && contents(posted) == pack(header, lines) && forall|k: int|
            0 <= k < posted.len() ==> (#[trigger] posted[k]).author == bot && !posted[k].ephemeral;
    assert(posted_for(posted, bot, header, lines));
    assert(delivered(start, end, bot, header, lines));
    lemma_one_live_set(start, end, bot, header, lines);
}

/// A message that is an alert neither under the one header nor under the
/// other.
pub open spec fn under_neither(
    message: ChannelMessage,
    bot: u64,
    one: Seq<char>,
    other: Seq<char>,
) -> bool {
    !stale(message, bot, one) && !stale(message, bot, other)
}

proof fn lemma_filter_twice<A>(s: Seq<A>, p: spec_fn(A) -> bool, q: spec_fn(A) -> bool)
    ensures
        s.filter(p).filter(q) == s.filter(|x: A| p(x) && q(x)),
    decreases s.len(),
{
    reveal(Seq::filter);
    let both = |x: A| p(x) && q(x);
    if s.len() > 0 {
        lemma_filter_twice(s.drop_last(), p, q);
        if p(s.last()) {
            assert(s.filter(p) =~= s.drop_last().filter(p).push(s.last()));
            s.drop_last().filter(p).lemma_filter_push(s.last(), q);
        }
        assert(s.filter(p).filter(q) =~= s.filter(both));
    } else {
        assert(s.filter(p).filter(q) =~= s.filter(both));
    }
}

/// What one user is told at once stands in the channel once the four
/// steps were taken: the alerts under the header of the pull requests are
/// the fresh ones and no others, so are those under the header of the
/// blocking issues, and every message that is an alert under neither
/// header stands as before. Neither kind of alert deletes or doubles the
/// other.
pub proof fn lemma_now_alerts_stand(
    alerts: GuildAlerts,
    user: DiscordUserId,
    bot: u64,
    start: Seq<ChannelMessage>,
    cleared_prs: Seq<ChannelMessage>,
    cleared: Seq<ChannelMessage>,
    posted_prs: Seq<ChannelMessage>,
    end: Seq<ChannelMessage>,
)
    requires
        !user@.contains('>'),
        step_taken(start, cleared_prs, now_steps(alerts, user)[0], bot),
        step_taken(cleared_prs, cleared, now_steps(alerts, user)[1], bot),
        step_taken(cleared, posted_prs, now_steps(alerts, user)[2], bot),
        step_taken(posted_prs, end, now_steps(alerts, user)[3], bot),
    ensures
        ({
            let prs = header_for(PR_HEADER@, user@);
            let issues = header_for(BLOCKING_ISSUES_HEADER@, user@);
            &&& contents(live_alerts(end, bot, prs)) == pack(prs, pr_lines(alerts.prs@, user@))
            &&& contents(live_alerts(end, bot, issues)) == pack(
                issues,
                issue_lines(alerts.issues@, user@, true),
            )
            &&& end.filter(|m: ChannelMessage| under_neither(m, bot, prs, issues)) == start.filter(
                |m: ChannelMessage| under_neither(m, bot, prs, issues),
            )
        }),
{
    let prs = header_for(PR_HEADER@, user@);
    let issues = header_for(BLOCKING_ISSUES_HEADER@, user@);
    let steps = now_steps(alerts, user);
    let is_pr = |m: ChannelMessage| stale(m, bot, prs);
    let is_issue = |m: ChannelMessage| stale(m, bot, issues);
    let no_pr = |m: ChannelMessage| !stale(m, bot, prs);
    let no_issue = |m: ChannelMessage| !stale(m, bot, issues);
    let neither = |m: ChannelMessage| under_neither(m, bot, prs, issues);
    let p = choose|posted: Seq<ChannelMessage>|
        #![auto]
        posted_prs == cleared + posted && contents(posted) == steps[2]->Post_messages
            && forall|k: int|
            0 <= k < posted.len() ==> (#[trigger] posted[k]).author == bot && !posted[k].ephemeral;
    let q = choose|posted: Seq<ChannelMessage>|
        #![auto]
        end == posted_prs + posted && contents(posted) == steps[3]->Post_messages && forall|k: int|
            0 <= k < posted.len() ==> (#[trigger] posted[k]).author == bot && !posted[k].ephemeral;
    lemma_messages_well_formed(prs, pr_lines(alerts.prs@, user@));
    lemma_messages_well_formed(issues, issue_lines(alerts.issues@, user@, true));
    assert(PR_HEADER@ != BLOCKING_ISSUES_HEADER@) by {
        reveal_strlit(":notepad_spiral: PRs for review ");
        reveal_strlit(":fire_engine: Open leads issues (blocking) ");
        assert(PR_HEADER@[1] != BLOCKING_ISSUES_HEADER@[1]);
    }
    // What was cleared holds no alert of either kind.
    assert forall|k: int| 0 <= k < cleared.len() implies neither(#[trigger] cleared[k]) by {
        cleared_prs.lemma_filter_pred(no_issue, k);
        cleared_prs.lemma_filter_contains_rev(no_issue, cleared[k]);
        let at = choose|at: int| 0 <= at < cleared_prs.len() && cleared_prs[at] == cleared[k];
        start.lemma_filter_pred(no_pr, at);
    }
    // The fresh pull requests are alerts of their kind, and of no other.
    assert forall|k: int| 0 <= k < p.len() implies is_pr(#[trigger] p[k]) && !is_issue(p[k]) by {
        assert(contents(p)[k] == p[k].content@);
        assert(well_formed_message(prs, pack(prs, pr_lines(alerts.prs@, user@))[k]));
        if is_issue(p[k]) {
            lemma_alerts_do_not_overlap(
                PR_HEADER@,
                user@,
                BLOCKING_ISSUES_HEADER@,
                user@,
                p[k].content@,
            );
        }
    }
    assert forall|k: int| 0 <= k < q.len() implies is_issue(#[trigger] q[k]) && !is_pr(q[k]) by {
        assert(contents(q)[k] == q[k].content@);
        assert(well_formed_message(
            issues,
            pack(issues, issue_lines(alerts.issues@, user@, true))[k],
        ));
        if is_pr(q[k]) {
            lemma_alerts_do_not_overlap(
                PR_HEADER@,
                user@,
                BLOCKING_ISSUES_HEADER@,
                user@,
                q[k].content@,
            );
        }
    }
    lemma_filter_none(cleared, is_pr);
    lemma_filter_none(cleared, is_issue);
    lemma_filter_all(cleared, neither);
    lemma_filter_all(p, is_pr);
    lemma_filter_none(p, is_issue);
    lemma_filter_none(p, neither);
    lemma_filter_all(q, is_issue);
    lemma_filter_none(q, is_pr);
    lemma_filter_none(q, neither);
    Seq::filter_distributes_over_add(cleared, p, is_pr);
    Seq::filter_distributes_over_add(cleared + p, q, is_pr);
    Seq::filter_distributes_over_add(cleared, p, is_issue);
    Seq::filter_distributes_over_add(cleared + p, q, is_issue);
    Seq::filter_distributes_over_add(cleared, p, neither);
    Seq::filter_distributes_over_add(cleared + p, q, neither);
    assert(live_alerts(end, bot, prs) =~= p);
    assert(live_alerts(end, bot, issues) =~= q);
    lemma_filter_twice(start, no_pr, no_issue);
    assert((|m: ChannelMessage| no_pr(m) && no_issue(m)) =~= neither);
    assert(end.filter(neither) =~= cleared);
    assert(start.filter(neither) =~= cleared);
}

fn push_weekly_steps(steps: &mut Vec<Step>, alerts: &GuildAlerts, user: &DiscordUserId, now: Instant)
    ensures
        step_views(final(steps)@) == step_views(old(steps)@) + weekly_steps(*alerts, *user, now),
{
    let weekly = report_weekly_alerts_for_user(&alerts.issues, user);
    steps.push(Step::Resync { channel: alerts.discord_channel_id.clone(), header: weekly.header });
    steps.push(
        Step::Post { channel: alerts.discord_channel_id.clone(), messages: weekly.messages },
    );
    steps.push(
        Step::MarkWeeklyReported {
            guild: alerts.discord_guild_id.clone(),
            user: user.clone(),
            at: now,
        },
    );
    assert(step_views(steps@) =~= step_views(old(steps)@) + weekly_steps(*alerts, *user, now));
}

fn push_now_steps(steps: &mut Vec<Step>, alerts: &GuildAlerts, user: &DiscordUserId)
    ensures
        step_views(final(steps)@) == step_views(old(steps)@) + now_steps(*alerts, *user),
{
    let told = report_alerts_for_user(&alerts.prs, &alerts.issues, user);
    steps.push(Step::Resync { channel: alerts.discord_channel_id.clone(), header: told.prs.header });
    steps.push(
        Step::Resync { channel: alerts.discord_channel_id.clone(), header: told.issues.header },
    );
    steps.push(
        Step::Post { channel: alerts.discord_channel_id.clone(), messages: told.prs.messages },
    );
    steps.push(
        Step::Post { channel: alerts.discord_channel_id.clone(), messages: told.issues.messages },
    );
    assert(step_views(steps@) =~= step_views(old(steps)@) + now_steps(*alerts, *user));
}

/// The steps that deliver the alerts of a cycle, in the order in which they
/// are to be taken. The weekly reports are noted with the instant `now` of
/// the cycle.
pub fn delivery_steps(alerts: &Vec<GuildAlerts>, now: Instant) -> (r: Vec<Step>)
    ensures
        step_views(r@) == delivery(alerts@, now),
{
    let mut steps: Vec<Step> = Vec::new();
    let mut g: usize = 0;
    while g < alerts.len()
        invariant
            g <= alerts@.len(),
            step_views(steps@) == all_weekly_steps(alerts@.take(g as int), now),
        decreases alerts@.len() - g,
    {
        let guild = &alerts[g];
        let ghost before = step_views(steps@);
        let mut u: usize = 0;
        while u < guild.weekly_discord_user_ids.len()
            invariant
                u <= guild.weekly_discord_user_ids@.len(),
                step_views(steps@) == before + guild_weekly_steps(
                    *guild,
                    guild.weekly_discord_user_ids@.take(u as int),
                    now,
                ),
            decreases guild.weekly_discord_user_ids@.len() - u,
        {
            proof {
                let users = guild.weekly_discord_user_ids@;
                assert(users.take(u + 1).drop_last() =~= users.take(u as int));
            }
            push_weekly_steps(&mut steps, guild, &guild.weekly_discord_user_ids[u], now);
            u += 1;
        }
        proof {
            let users = guild.weekly_discord_user_ids@;
            assert(users.take(u as int) =~= users);
            assert(alerts@.take(g + 1).drop_last() =~= alerts@.take(g as int));
        }
        g += 1;
    }
    assert(alerts@.take(g as int) =~= alerts@);
    steps.push(Step::SaveConfig);
    let ghost weekly_and_save = step_views(steps@);
    assert(weekly_and_save =~= all_weekly_steps(alerts@, now) + seq![StepView::SaveConfig]);
    let mut g: usize = 0;
    while g < alerts.len()
        invariant
            g <= alerts@.len(),
            step_views(steps@) == weekly_and_save + all_now_steps(alerts@.take(g as int)),
        decreases alerts@.len() - g,
    {
        let guild = &alerts[g];
        let ghost before = step_views(steps@);
        let mut u: usize = 0;
        while u < guild.discord_user_ids.len()
            invariant
                u <= guild.discord_user_ids@.len(),
                step_views(steps@) == before + guild_now_steps(
                    *guild,
                    guild.discord_user_ids@.take(u as int),
                ),
            decreases guild.discord_user_ids@.len() - u,
        {
            proof {
                let users = guild.discord_user_ids@;
                assert(users.take(u + 1).drop_last() =~= users.take(u as int));
            }
            push_now_steps(&mut steps, guild, &guild.discord_user_ids[u]);
            u += 1;
        }
        proof {
            let users = guild.discord_user_ids@;
            assert(users.take(u as int) =~= users);
            assert(alerts@.take(g + 1).drop_last() =~= alerts@.take(g as int));
        }
        g += 1;
    }
    assert(alerts@.take(g as int) =~= alerts@);
    steps
}

} // verus!

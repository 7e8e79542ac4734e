use fizz::delivery::{delivery_steps, Step};
use fizz::error::CycleFailure;
use fizz::github::{Issue, LeadsIssue, Pr, PullRequest, Reviewer, Urgency};
use fizz::ids::{DiscordChannelId, DiscordGuildId, DiscordUserId, GithubUserName};
use fizz::report::GuildAlerts;
use fizz::time::Instant;

fn user(id: &str) -> DiscordUserId {
    DiscordUserId(id.to_string())
}

fn pr_for(number: u64, who: &[&str]) -> Pr {
    Pr {
        pr: PullRequest {
            number,
            user: Some(GithubUserName::from_str("author")),
            title: Some(format!("title {}", number)),
            requested_reviewers: None,
        },
        url: format!("https://github.com/o/r/{}", number),
        reviewers: vec![Reviewer {
            github_user: GithubUserName::from_str("someone"),
            discord_users: who.iter().map(|w| user(w)).collect(),
        }],
    }
}

fn issue_for(number: u64, urgency: Urgency, leads: &[&str]) -> LeadsIssue {
    LeadsIssue {
        github_issue: Issue { number, title: format!("issue {}", number), labels: vec![] },
        url: format!("https://github.com/o/r/pull/{}", number),
        urgency,
        leads: leads.iter().map(|w| user(w)).collect(),
    }
}

fn guild(id: &str, now: &[&str], weekly: &[&str]) -> GuildAlerts {
    GuildAlerts {
        discord_guild_id: DiscordGuildId(id.to_string()),
        discord_channel_id: DiscordChannelId(DiscordGuildId(id.to_string()), format!("chan-{}", id)),
        discord_user_ids: now.iter().map(|w| user(w)).collect(),
        weekly_discord_user_ids: weekly.iter().map(|w| user(w)).collect(),
        prs: vec![pr_for(1, &["1", "2"]), pr_for(2, &["2"])],
        issues: vec![
            issue_for(10, Urgency::Blocked, &["1", "2"]),
            issue_for(11, Urgency::Normal, &["1", "2"]),
            issue_for(12, Urgency::Background, &["1", "2"]),
        ],
    }
}

fn shape(steps: &[Step]) -> Vec<String> {
    steps
        .iter()
        .map(|s| match s {
            Step::Resync { channel, header } => format!("resync {} {}", channel.1, header),
            Step::Post { channel, messages } => format!("post {} {}", channel.1, messages.len()),
            Step::MarkWeeklyReported { guild, user, at } => {
                format!("mark {} {} {}", guild.0, user.0, at.secs)
            }
            Step::SaveConfig => "save".to_string(),
        })
        .collect()
}

#[test]
fn nothing_to_deliver_still_saves() {
    let steps = delivery_steps(&vec![], Instant::new(5, 0));
    assert_eq!(shape(&steps), vec!["save"]);
    let steps = delivery_steps(&vec![guild("a", &[], &[])], Instant::new(5, 0));
    assert_eq!(shape(&steps), vec!["save"]);
}

#[test]
fn weekly_alerts_come_first_then_the_save() {
    let now = Instant::new(1_717_405_260, 0);
    let steps = delivery_steps(&vec![guild("a", &["1", "2"], &["2"]), guild("b", &["1"], &["1"])], now);
    assert_eq!(
        shape(&steps),
        vec![
            "resync chan-a :chipmunk: Open leads issues (non-blocking) <@2>",
            "post chan-a 1",
            "mark a 2 1717405260",
            "resync chan-b :chipmunk: Open leads issues (non-blocking) <@1>",
            "post chan-b 1",
            "mark b 1 1717405260",
            "save",
            "resync chan-a :notepad_spiral: PRs for review <@1>",
            "resync chan-a :fire_engine: Open leads issues (blocking) <@1>",
            "post chan-a 1",
            "post chan-a 1",
            "resync chan-a :notepad_spiral: PRs for review <@2>",
            "resync chan-a :fire_engine: Open leads issues (blocking) <@2>",
            "post chan-a 1",
            "post chan-a 1",
            "resync chan-b :notepad_spiral: PRs for review <@1>",
            "resync chan-b :fire_engine: Open leads issues (blocking) <@1>",
            "post chan-b 1",
            "post chan-b 1",
        ]
    );
}

#[test]
fn steps_carry_the_rendered_messages() {
    let steps = delivery_steps(&vec![guild("a", &["1"], &["1"])], Instant::new(9, 0));
    let posted: Vec<&Vec<String>> = steps
        .iter()
        .filter_map(|s| match s {
            Step::Post { messages, .. } => Some(messages),
            _ => None,
        })
        .collect();
    assert_eq!(posted.len(), 3);
    assert_eq!(
        posted[0],
        &vec![format!(
            "{}\n* {}\n* {}",
            ":chipmunk: Open leads issues (non-blocking) <@1>",
            "[Issue #11](<https://github.com/o/r/pull/11>) issue 11",
            "[Issue #12](<https://github.com/o/r/pull/12>) issue 12"
        )]
    );
    assert_eq!(
        posted[1],
        &vec![format!(
            "{}\n* {}",
            ":notepad_spiral: PRs for review <@1>",
            "[PR #1](<https://github.com/o/r/1>) **author**\n    title 1"
        )]
    );
    assert_eq!(
        posted[2],
        &vec![format!(
            "{}\n* {}",
            ":fire_engine: Open leads issues (blocking) <@1>",
            "[Issue #10](<https://github.com/o/r/pull/10>) issue 10"
        )]
    );
}

#[test]
fn user_without_items_gets_the_old_alerts_cleared() {
    let steps = delivery_steps(&vec![guild("a", &["3"], &["3"])], Instant::new(9, 0));
    assert_eq!(
        shape(&steps),
        vec![
            "resync chan-a :chipmunk: Open leads issues (non-blocking) <@3>",
            "post chan-a 0",
            "mark a 3 9",
            "save",
            "resync chan-a :notepad_spiral: PRs for review <@3>",
            "resync chan-a :fire_engine: Open leads issues (blocking) <@3>",
            "post chan-a 0",
            "post chan-a 0",
        ]
    );
}

#[test]
fn every_post_follows_its_resync_and_every_mark_its_post() {
    let steps = delivery_steps(
        &vec![guild("a", &["1", "2", "3"], &["2", "1"]), guild("b", &[], &["2"])],
        Instant::new(9, 0),
    );
    let mut cleared: Vec<(String, String)> = Vec::new();
    let mut saved = false;
    for (k, step) in steps.iter().enumerate() {
        match step {
            Step::Resync { channel, header } => cleared.push((channel.1.clone(), header.clone())),
            Step::Post { channel, messages } => {
                for m in messages {
                    assert!(cleared.iter().any(|(c, h)| c == &channel.1 && m.starts_with(h.as_str())));
                }
            }
            Step::MarkWeeklyReported { user, at, .. } => {
                assert!(!saved);
                assert_eq!(*at, Instant::new(9, 0));
                assert!(matches!(&steps[k - 1], Step::Post { .. }));
                assert!(matches!(
                    &steps[k - 2],
                    Step::Resync { header, .. }
                        if header == &format!(":chipmunk: Open leads issues (non-blocking) <@{}>", user.0)
                ));
            }
            Step::SaveConfig => {
                assert!(!saved);
                saved = true;
            }
        }
    }
    assert!(saved);
}

#[test]
fn failed_step_names_what_failed() {
    let steps = delivery_steps(&vec![guild("a", &["1"], &["1"])], Instant::new(9, 0));
    for step in &steps {
        let expected = match step {
            Step::Resync { .. } | Step::Post { .. } => CycleFailure::DeliveryFailed,
            Step::MarkWeeklyReported { .. } | Step::SaveConfig => CycleFailure::ConfigUnavailable,
        };
        assert_eq!(step.failure(), expected);
    }
}

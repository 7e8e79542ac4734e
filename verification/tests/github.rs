use fizz::config::{GuildConfig, UserConfig};
use fizz::github::{
    classify_urgency, discord_users_of, filter_leads_issues_for_guild, filter_prs_for_guild,
    github_issue_url, github_pr_url, leads_of, Issue, LeadsIssueState, PrState, PullRequest,
    Urgency, GITHUB_URL_BASE, LABEL_BACKGROUND, LABEL_BLOCKED, LABEL_LEADS_ISSUE,
};
use fizz::ids::{DiscordUserId, GithubUserName};

fn guild(users: Vec<(&str, Vec<&str>, bool)>) -> GuildConfig {
    let mut g = GuildConfig::default();
    g.repo_owner = "carbon".to_string();
    g.repo_name = "lang".to_string();
    for (id, names, lead) in users {
        let mut u = UserConfig::new(id.to_string());
        u.github_names = names.into_iter().map(GithubUserName::from_str).collect();
        u.lead = lead;
        g.users.push((DiscordUserId(id.to_string()), u));
    }
    g
}

fn labels(names: &[&str]) -> Vec<String> {
    names.iter().map(|n| n.to_string()).collect()
}

fn ids(v: &[DiscordUserId]) -> Vec<String> {
    v.iter().map(|i| i.0.clone()).collect()
}

#[test]
fn label_names() {
    assert_eq!(GITHUB_URL_BASE, "https://github.com");
    assert_eq!(LABEL_LEADS_ISSUE, "leads question");
    assert_eq!(LABEL_BACKGROUND, "long term issue");
    assert_eq!(LABEL_BLOCKED, "blocking work");
}

#[test]
fn addresses() {
    let g = guild(vec![]);
    assert_eq!(github_pr_url(&g, 42), "https://github.com/carbon/lang/42");
    assert_eq!(github_issue_url(&g, 42), "https://github.com/carbon/lang/pull/42");
    assert_eq!(github_pr_url(&g, 0), "https://github.com/carbon/lang/0");
    assert_eq!(
        github_issue_url(&g, u64::MAX),
        "https://github.com/carbon/lang/pull/18446744073709551615"
    );
}

#[test]
fn urgency_from_labels() {
    assert_eq!(classify_urgency(&labels(&[])), Urgency::Normal);
    assert_eq!(classify_urgency(&labels(&["leads question"])), Urgency::Normal);
    assert_eq!(classify_urgency(&labels(&["blocking work"])), Urgency::Blocked);
    assert_eq!(classify_urgency(&labels(&["long term issue"])), Urgency::Background);
    assert_eq!(classify_urgency(&labels(&["leads question", "long term issue"])), Urgency::Background);
}

#[test]
fn blocked_takes_precedence_over_background() {
    assert_eq!(classify_urgency(&labels(&["blocking work", "long term issue"])), Urgency::Blocked);
    assert_eq!(classify_urgency(&labels(&["long term issue", "blocking work"])), Urgency::Blocked);
    assert_eq!(
        classify_urgency(&labels(&["long term issue", "x", "blocking work", "long term issue"])),
        Urgency::Blocked
    );
}

#[test]
fn label_names_are_exact() {
    assert_eq!(classify_urgency(&labels(&["Blocking work"])), Urgency::Normal);
    assert_eq!(classify_urgency(&labels(&["blocking work "])), Urgency::Normal);
    assert_eq!(classify_urgency(&labels(&["long term"])), Urgency::Normal);
}

#[test]
fn users_by_github_name() {
    let g = guild(vec![
        ("1", vec!["alice"], false),
        ("2", vec!["bob", "alice"], true),
        ("3", vec![], false),
        ("4", vec!["Alice"], false),
    ]);
    assert_eq!(ids(&discord_users_of(&g, &GithubUserName::from_str("alice"))), vec!["1", "2"]);
    assert_eq!(ids(&discord_users_of(&g, &GithubUserName::from_str("bob"))), vec!["2"]);
    assert!(discord_users_of(&g, &GithubUserName::from_str("carol")).is_empty());
    assert!(g.users[1].1.is_known_as(&GithubUserName::from_str("bob")));
    assert!(!g.users[0].1.is_known_as(&GithubUserName::from_str("bob")));
}

#[test]
fn leads_of_the_guild() {
    let g = guild(vec![("1", vec![], true), ("2", vec![], false), ("3", vec![], true)]);
    assert_eq!(ids(&leads_of(&g)), vec!["1", "3"]);
    assert!(leads_of(&guild(vec![("1", vec![], false)])).is_empty());
}

#[test]
fn pull_requests_as_the_guild_sees_them() {
    let g = guild(vec![("1", vec!["alice"], false), ("2", vec!["bob"], false)]);
    let fetched = PrState {
        prs: vec![
            PullRequest {
                number: 10,
                user: Some(GithubUserName::from_str("carol")),
                title: Some("First".to_string()),
                requested_reviewers: Some(vec![
                    GithubUserName::from_str("bob"),
                    GithubUserName::from_str("dave"),
                ]),
            },
            PullRequest { number: 11, user: None, title: None, requested_reviewers: None },
        ],
    };
    let prs = filter_prs_for_guild(fetched, &g);
    assert_eq!(prs.len(), 2);
    assert_eq!(prs[0].pr.number, 10);
    assert_eq!(prs[0].pr.title.as_deref(), Some("First"));
    assert_eq!(prs[0].url, "https://github.com/carbon/lang/10");
    assert_eq!(prs[0].reviewers.len(), 2);
    assert_eq!(prs[0].reviewers[0].github_user.0, "bob");
    assert_eq!(ids(&prs[0].reviewers[0].discord_users), vec!["2"]);
    assert_eq!(prs[0].reviewers[1].github_user.0, "dave");
    assert!(prs[0].reviewers[1].discord_users.is_empty());
    assert_eq!(prs[1].pr.number, 11);
    assert_eq!(prs[1].url, "https://github.com/carbon/lang/11");
    assert!(prs[1].reviewers.is_empty());
}

#[test]
fn issues_as_the_guild_sees_them() {
    let g = guild(vec![("1", vec![], true), ("2", vec![], false), ("3", vec![], true)]);
    let fetched = LeadsIssueState {
        issues: vec![
            Issue { number: 5, title: "A".to_string(), labels: labels(&["blocking work"]) },
            Issue { number: 6, title: "B".to_string(), labels: labels(&["long term issue"]) },
            Issue { number: 7, title: "C".to_string(), labels: labels(&["leads question"]) },
        ],
    };
    let issues = filter_leads_issues_for_guild(fetched, &g);
    assert_eq!(issues.len(), 3);
    assert_eq!(issues[0].urgency, Urgency::Blocked);
    assert_eq!(issues[1].urgency, Urgency::Background);
    assert_eq!(issues[2].urgency, Urgency::Normal);
    for (i, issue) in issues.iter().enumerate() {
        assert_eq!(issue.github_issue.number, 5 + i as u64);
        assert_eq!(issue.url, format!("https://github.com/carbon/lang/pull/{}", 5 + i));
        assert_eq!(ids(&issue.leads), vec!["1", "3"]);
    }
    assert!(filter_leads_issues_for_guild(LeadsIssueState { issues: vec![] }, &g).is_empty());
}

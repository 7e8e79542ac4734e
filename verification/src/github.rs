//! Open pull requests and leads issues, and whom in a guild each concerns.

use vstd::prelude::*;
use vstd::string::*;
use crate::config::{GuildConfig, UserConfig};
use crate::ids::{DiscordUserId, GithubUserName};
use crate::text::{decimal, push_decimal};

verus! {

pub const GITHUB_URL_BASE: &'static str = "https://github.com";

/// The label that marks an issue as one for the leads.
pub const LABEL_LEADS_ISSUE: &'static str = "leads question";

/// The label of an issue that may take long.
pub const LABEL_BACKGROUND: &'static str = "long term issue";

/// The label of an issue that blocks work.
pub const LABEL_BLOCKED: &'static str = "blocking work";

/// What the alerts need of an open pull request.
#[derive(Debug)]
pub struct PullRequest {
    pub number: u64,
    /// The author.
    pub user: Option<GithubUserName>,
    pub title: Option<String>,
    /// The users whose review was requested.
    pub requested_reviewers: Option<Vec<GithubUserName>>,
}

/// What the alerts need of an open issue.
#[derive(Debug)]
pub struct Issue {
    pub number: u64,
    pub title: String,
    /// The names of the issue's labels.
    pub labels: Vec<String>,
}

/// The open pull requests of a repository, as they were fetched.
#[derive(Debug)]
pub struct PrState {
    pub prs: Vec<PullRequest>,
}

/// The open leads issues of a repository, as they were fetched.
#[derive(Debug)]
pub struct LeadsIssueState {
    pub issues: Vec<Issue>,
}

/// A GitHub user whose review was requested, and the guild's users who go
/// by that GitHub name.
#[derive(Debug)]
pub struct Reviewer {
    pub github_user: GithubUserName,
    pub discord_users: Vec<DiscordUserId>,
}

/// A pull request with its address and those in the guild whose review
/// was requested.
#[derive(Debug)]
pub struct Pr {
    pub pr: PullRequest,
    pub url: String,
    pub reviewers: Vec<Reviewer>,
}

/// How pressing an issue is.
#[derive(Clone, Copy, Debug, PartialEq, Eq, Structural)]
pub enum Urgency {
    Blocked,
    Normal,
    Background,
}

/// A leads issue with its address, its urgency and the guild's leads.
#[derive(Debug)]
pub struct LeadsIssue {
    pub github_issue: Issue,
    pub url: String,
    pub urgency: Urgency,
    pub leads: Vec<DiscordUserId>,
}

/// The address of a pull request of the guild's repository.
pub open spec fn pr_url(owner: Seq<char>, name: Seq<char>, number: u64) -> Seq<char> {
    GITHUB_URL_BASE@ + seq!['/'] + owner + seq!['/'] + name + seq!['/'] + decimal(number as nat)
}

/// The address of an issue of the guild's repository.
pub open spec fn issue_url(owner: Seq<char>, name: Seq<char>, number: u64) -> Seq<char> {
    GITHUB_URL_BASE@ + seq!['/'] + owner + seq!['/'] + name + "/pull/"@ + decimal(number as nat)
}

pub fn github_pr_url(cfg: &GuildConfig, number: u64) -> (r: String)
    ensures
        r@ == pr_url(cfg.repo_owner@, cfg.repo_name@, number),
{
    let mut url = String::from_str(GITHUB_URL_BASE);
    url.append("/");
    url.append(cfg.repo_owner.as_str());
    url.append("/");
    url.append(cfg.repo_name.as_str());
    url.append("/");
    push_decimal(&mut url, number);
    proof {
        reveal_strlit("/");
        assert("/"@ =~= seq!['/']);
    }
    url
}

pub fn github_issue_url(cfg: &GuildConfig, number: u64) -> (r: String)
    ensures
        r@ == issue_url(cfg.repo_owner@, cfg.repo_name@, number),
{
    let mut url = String::from_str(GITHUB_URL_BASE);
    url.append("/");
    url.append(cfg.repo_owner.as_str());
    url.append("/");
    url.append(cfg.repo_name.as_str());
    url.append("/pull/");
    push_decimal(&mut url, number);
    proof {
        reveal_strlit("/");
        assert("/"@ =~= seq!['/']);
    }
    url
}

/// Whether one of the labels is `name`.
pub open spec fn has_label(labels: Seq<String>, name: Seq<char>) -> bool {
    exists|i: int| 0 <= i < labels.len() && (#[trigger] labels[i])@ == name
}

/// The urgency that an issue's labels give it: blocked where one says that
/// the issue blocks work; else background where one says that it may take
/// long; else normal.
pub open spec fn urgency_of(labels: Seq<String>) -> Urgency {
    if has_label(labels, LABEL_BLOCKED@) {
        Urgency::Blocked
    } else if has_label(labels, LABEL_BACKGROUND@) {
        Urgency::Background
    } else {
        Urgency::Normal
    }
}

/// The urgency that an issue's labels give it.
pub fn classify_urgency(labels: &Vec<String>) -> (r: Urgency)
    ensures
        r == urgency_of(labels@),
{
    let blocked = String::from_str(LABEL_BLOCKED);
    let background = String::from_str(LABEL_BACKGROUND);
    let mut seen_blocked = false;
    let mut seen_background = false;
    let mut i: usize = 0;
    while i < labels.len()
        invariant
            i <= labels@.len(),
            blocked@ == LABEL_BLOCKED@,
            background@ == LABEL_BACKGROUND@,
            seen_blocked == has_label(labels@.take(i as int), LABEL_BLOCKED@),
            seen_background == has_label(labels@.take(i as int), LABEL_BACKGROUND@),
        decreases labels@.len() - i,
    {
        proof {
            let before = labels@.take(i as int);
            let after = labels@.take(i + 1);
            assert(after =~= before.push(labels@[i as int]));
            assert forall|name: Seq<char>|
                has_label(after, name) == (has_label(before, name) || labels@[i as int]@
                    == name) by {
                if has_label(before, name) {
                    let k = choose|k: int| 0 <= k < before.len() && (#[trigger] before[k])@ == name;
                    assert(after[k]@ == name);
                }
                if labels@[i as int]@ == name {
                    assert(after[i as int]@ == name);
                }
            }
        }
        if labels[i] == blocked {
            seen_blocked = true;
        }
        if labels[i] == background {
            seen_background = true;
        }
        i += 1;
    }
    assert(labels@.take(i as int) =~= labels@);
    if seen_blocked {
        Urgency::Blocked
    } else if seen_background {
        Urgency::Background
    } else {
        Urgency::Normal
    }
}

/// The users among `users`, in their order, who go by the GitHub name
/// `name`.
pub open spec fn users_known_as(users: Seq<(DiscordUserId, UserConfig)>, name: Seq<char>) -> Seq<
    DiscordUserId,
> {
    users.filter(|e: (DiscordUserId, UserConfig)| e.1.has_github_name(name)).map_values(
        |e: (DiscordUserId, UserConfig)| e.0,
    )
}

/// The users among `users`, in their order, who are leads.
pub open spec fn leads_among(users: Seq<(DiscordUserId, UserConfig)>) -> Seq<DiscordUserId> {
    users.filter(|e: (DiscordUserId, UserConfig)| e.1.lead).map_values(
        |e: (DiscordUserId, UserConfig)| e.0,
    )
}

/// The guild's users who go by the GitHub name.
pub fn discord_users_of(cfg: &GuildConfig, github_user: &GithubUserName) -> (r: Vec<DiscordUserId>)
    ensures
        r@ == users_known_as(cfg.users@, github_user@),
{
    let mut found: Vec<DiscordUserId> = Vec::new();
    let mut i: usize = 0;
    while i < cfg.users.len()
        invariant
            i <= cfg.users@.len(),
            found@ == users_known_as(cfg.users@.take(i as int), github_user@),
        decreases cfg.users@.len() - i,
    {
        proof {
            let p = |e: (DiscordUserId, UserConfig)| e.1.has_github_name(github_user@);
            let before = cfg.users@.take(i as int);
            assert(cfg.users@.take(i + 1) =~= before.push(cfg.users@[i as int]));
            before.lemma_filter_push(cfg.users@[i as int], p);
        }
        if cfg.users[i].1.is_known_as(github_user) {
            found.push(cfg.users[i].0.clone());
        }
        proof {
            assert(found@ =~= users_known_as(cfg.users@.take(i + 1), github_user@));
        }
        i += 1;
    }
    assert(cfg.users@.take(i as int) =~= cfg.users@);
    found
}

/// The guild's leads.
pub fn leads_of(cfg: &GuildConfig) -> (r: Vec<DiscordUserId>)
    ensures
        r@ == leads_among(cfg.users@),
{
    let mut leads: Vec<DiscordUserId> = Vec::new();
    let mut i: usize = 0;
    while i < cfg.users.len()
        invariant
            i <= cfg.users@.len(),
            leads@ == leads_among(cfg.users@.take(i as int)),
        decreases cfg.users@.len() - i,
    {
        proof {
            let p = |e: (DiscordUserId, UserConfig)| e.1.lead;
            let before = cfg.users@.take(i as int);
            assert(cfg.users@.take(i + 1) =~= before.push(cfg.users@[i as int]));
            before.lemma_filter_push(cfg.users@[i as int], p);
        }
        if cfg.users[i].1.lead {
            leads.push(cfg.users[i].0.clone());
        }
        proof {
            assert(leads@ =~= leads_among(cfg.users@.take(i + 1)));
        }
        i += 1;
    }
    assert(cfg.users@.take(i as int) =~= cfg.users@);
    leads
}

/// The list holds the GitHub users whose review of a pull request was
/// requested, in their order, each with the guild's users who go by that
/// name.
pub open spec fn reviewers_of(
    reviewers: Seq<Reviewer>,
    requested: Option<Vec<GithubUserName>>,
    users: Seq<(DiscordUserId, UserConfig)>,
) -> bool {
    match requested {
        None => reviewers.len() == 0,
        Some(names) => {
            &&& reviewers.len() == names@.len()
            &&& forall|j: int|
                0 <= j < names@.len() ==> {
                    &&& (#[trigger] reviewers[j]).github_user == names@[j]
                    &&& reviewers[j].discord_users@ == users_known_as(users, names@[j]@)
                }
        },
    }
}

/// `pr` is the pull request `source` as the guild sees it: with its address
/// in the guild's repository and, for each requested review, the guild's
/// users who are meant.
pub open spec fn pr_for_guild(pr: Pr, source: PullRequest, cfg: GuildConfig) -> bool {
    &&& pr.pr == source
    &&& pr.url@ == pr_url(cfg.repo_owner@, cfg.repo_name@, source.number)
    &&& reviewers_of(pr.reviewers@, source.requested_reviewers, cfg.users@)
}

/// `issue` is the issue `source` as the guild sees it: with its address in
/// the guild's repository, the urgency its labels give it, and all the
/// guild's leads.
pub open spec fn issue_for_guild(issue: LeadsIssue, source: Issue, cfg: GuildConfig) -> bool {
    &&& issue.github_issue == source
    &&& issue.url@ == issue_url(cfg.repo_owner@, cfg.repo_name@, source.number)
    &&& issue.urgency == urgency_of(source.labels@)
    &&& issue.leads@ == leads_among(cfg.users@)
}

fn reviewers_for_guild(requested: &Option<Vec<GithubUserName>>, cfg: &GuildConfig) -> (r: Vec<
    Reviewer,
>)
    ensures
        reviewers_of(r@, *requested, cfg.users@),
{
    let mut reviewers: Vec<Reviewer> = Vec::new();
    match requested {
        None => {},
        Some(names) => {
            let mut j: usize = 0;
            while j < names.len()
                invariant
                    j <= names@.len(),
                    reviewers@.len() == j,
                    forall|k: int|
                        0 <= k < j ==> {
                            &&& (#[trigger] reviewers@[k]).github_user == names@[k]
                            &&& reviewers@[k].discord_users@ == users_known_as(
                                cfg.users@,
                                names@[k]@,
                            )
                        },
                decreases names@.len() - j,
            {
                let github_user = names[j].clone();
                let discord_users = discord_users_of(cfg, &github_user);
                reviewers.push(Reviewer { github_user, discord_users });
                j += 1;
            }
        },
    }
    reviewers
}

/// The pull requests as the guild sees them, in the order in which they
/// were fetched.
pub fn filter_prs_for_guild(prs: PrState, cfg: &GuildConfig) -> (r: Vec<Pr>)
    ensures
        r@.len() == prs.prs@.len(),
        forall|i: int| 0 <= i < r@.len() ==> pr_for_guild(#[trigger] r@[i], prs.prs@[i], *cfg),
{
    let mut out: Vec<Pr> = Vec::new();
    let ghost source = prs.prs@;
    for pr in it: prs.prs.into_iter()
        invariant
            it.seq() == source,
            out@.len() == it.index(),
            forall|i: int| 0 <= i < out@.len() ==> pr_for_guild(#[trigger] out@[i], source[i], *cfg),
    {
        let reviewers = reviewers_for_guild(&pr.requested_reviewers, cfg);
        let url = github_pr_url(cfg, pr.number);
        out.push(Pr { url, pr, reviewers });
    }
    out
}

/// The leads issues as the guild sees them, in the order in which they were
/// fetched.
pub fn filter_leads_issues_for_guild(issues: LeadsIssueState, cfg: &GuildConfig) -> (r: Vec<
    LeadsIssue,
>)
    ensures
        r@.len() == issues.issues@.len(),
        forall|i: int|
            0 <= i < r@.len() ==> issue_for_guild(#[trigger] r@[i], issues.issues@[i], *cfg),
{
    let mut out: Vec<LeadsIssue> = Vec::new();
    let ghost source = issues.issues@;
    for issue in it: issues.issues.into_iter()
        invariant
            it.seq() == source,
            out@.len() == it.index(),
            forall|i: int|
                0 <= i < out@.len() ==> issue_for_guild(#[trigger] out@[i], source[i], *cfg),
    {
        let urgency = classify_urgency(&issue.labels);
        let leads = leads_of(cfg);
        let url = github_issue_url(cfg, issue.number);
        out.push(LeadsIssue { url, github_issue: issue, urgency, leads });
    }
    out
}

} // verus!

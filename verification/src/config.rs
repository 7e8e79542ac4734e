//! What is configured for each guild and for each of its users.
//!
//! A guild holds its users as a list of entries, each an identifier with the
//! user's settings; the configuration holds its guilds in the same way. A
//! list is well formed when no identifier stands in it twice. Looking an
//! identifier up finds the first entry under it, which in a well-formed list
//! is the only one.

use vstd::prelude::*;
use vstd::string::*;
use crate::error::Error;
use crate::ids::{DiscordChannelId, DiscordGuildId, DiscordUserId, GithubUserName};
use crate::text::{push_signed_decimal, signed_decimal};
use crate::time::{Instant, TimeOfDay};

verus! {

pub const APP_NAME: &'static str = "fizz";

/// The version of the configuration's layout that this library reads and
/// writes.
pub const VERSION: i32 = 1;

/// The settings of one user of a guild, and what the scheduler remembers of
/// the user.
#[derive(Clone, Debug)]
pub struct UserConfig {
    /// The GitHub user names of the user.
    pub github_names: Vec<GithubUserName>,
    /// Whether the user wants to hear of leads issues.
    pub lead: bool,
    /// The name of the time zone the user works in. Dates and times that the
    /// user gives are all relative to it.
    pub timezone: String,
    /// The workdays of the user as a string of digits: 0 means Sunday, 1
    /// means Monday, and so on.
    pub workdays: String,
    /// The times of day at which the user is told of outstanding reviews.
    pub report_times: Vec<TimeOfDay>,
    /// The last calendar day on which the user is away: up to and including
    /// this day the user gets no timed report.
    pub away_until: Option<i32>,
    /// The discord user name when the user was first seen. It may be stale.
    pub friendly_name: String,
    /// When the last weekly report of non-urgent leads issues was made for
    /// the user.
    pub last_weekly_report: Option<Instant>,
}

/// Monday to Friday.
pub fn default_workdays() -> (r: String)
    ensures
        r@ == "12345"@,
{
    String::from_str("12345")
}

/// Nine o'clock and noon.
pub fn default_report_times() -> (r: Vec<TimeOfDay>)
    ensures
        r@ == seq![TimeOfDay { secs: 32400, nanos: 0 }, TimeOfDay { secs: 43200, nanos: 0 }],
{
    let mut times: Vec<TimeOfDay> = Vec::new();
    times.push(TimeOfDay { secs: 32400, nanos: 0 });
    times.push(TimeOfDay { secs: 43200, nanos: 0 });
    assert(times@ =~= seq![
        TimeOfDay { secs: 32400, nanos: 0 },
        TimeOfDay { secs: 43200, nanos: 0 },
    ]);
    times
}

impl UserConfig {
    /// The settings of a user who has said nothing yet: no GitHub name, no
    /// lead, the zone UTC, the default workdays and report times, not away,
    /// and no weekly report so far.
    pub fn new(friendly_name: String) -> (r: Self)
        ensures
            r.friendly_name == friendly_name,
            r.is_new(),
    {
        UserConfig {
            friendly_name,
            github_names: Vec::new(),
            lead: false,
            timezone: String::from_str("UTC"),
            workdays: default_workdays(),
            report_times: default_report_times(),
            away_until: None,
            last_weekly_report: None,
        }
    }

    /// The settings are those of a user who has said nothing yet.
    pub open spec fn is_new(&self) -> bool {
        &&& self.github_names@.len() == 0
        &&& !self.lead
        &&& self.timezone@ == "UTC"@
        &&& self.workdays@ == "12345"@
        &&& self.report_times@ == seq![
            TimeOfDay { secs: 32400, nanos: 0 },
            TimeOfDay { secs: 43200, nanos: 0 },
        ]
        &&& self.away_until is None
        &&& self.last_weekly_report is None
    }

    /// The same settings with the last weekly report made at `now`.
    pub open spec fn with_weekly_report(self, now: Instant) -> UserConfig {
        UserConfig { last_weekly_report: Some(now), ..self }
    }

    /// Whether `name` is one of the user's GitHub names.
    pub open spec fn has_github_name(&self, name: Seq<char>) -> bool {
        exists|i: int| 0 <= i < self.github_names@.len() && (#[trigger] self.github_names@[i])@ == name
    }

    /// Whether `name` is one of the user's GitHub names.
    pub fn is_known_as(&self, name: &GithubUserName) -> (r: bool)
        ensures
            r == self.has_github_name(name@),
    {
        let mut i: usize = 0;
        while i < self.github_names.len()
            invariant
                i <= self.github_names@.len(),
                forall|j: int| 0 <= j < i ==> (#[trigger] self.github_names@[j])@ != name@,
            decreases self.github_names@.len() - i,
        {
            if self.github_names[i].same(name) {
                return true;
            }
            i += 1;
        }
        false
    }
}

/// The identifiers of a list of users, in the list's order.
pub open spec fn user_ids(users: Seq<(DiscordUserId, UserConfig)>) -> Seq<Seq<char>> {
    users.map_values(|e: (DiscordUserId, UserConfig)| e.0@)
}

/// The identifiers of a list of guilds, in the list's order.
pub open spec fn guild_ids(guilds: Seq<(DiscordGuildId, GuildConfig)>) -> Seq<Seq<char>> {
    guilds.map_values(|e: (DiscordGuildId, GuildConfig)| e.0@)
}

/// What is configured for one guild (server).
#[derive(Debug)]
pub struct GuildConfig {
    pub repo_owner: String,
    pub repo_name: String,
    /// The channel that reports go to. Empty until the guild is set up.
    pub report_channel_id: DiscordChannelId,
    /// The name of the channel when it was set. It may be stale.
    pub report_channel_name: String,
    /// The users of the guild with their settings.
    pub users: Vec<(DiscordUserId, UserConfig)>,
}

impl Default for GuildConfig {
    /// A guild with nothing configured.
    fn default() -> (r: Self)
        ensures
            r.is_unset(),
    {
        GuildConfig {
            repo_owner: String::new(),
            repo_name: String::new(),
            report_channel_id: DiscordChannelId(DiscordGuildId(String::new()), String::new()),
            report_channel_name: String::new(),
            users: Vec::new(),
        }
    }
}

impl GuildConfig {
    /// Nothing is configured for the guild: no repository, no channel, no
    /// user.
    pub open spec fn is_unset(&self) -> bool {
        &&& self.repo_owner@.len() == 0
        &&& self.repo_name@.len() == 0
        &&& self.report_channel_id@ == (Seq::<char>::empty(), Seq::<char>::empty())
        &&& self.report_channel_name@.len() == 0
        &&& self.users@.len() == 0
    }

    /// No user stands in the guild twice.
    pub open spec fn wf(&self) -> bool {
        user_ids(self.users@).no_duplicates()
    }

    /// Everything but the list of users is as in `other`.
    pub open spec fn differs_in_users_only(&self, other: GuildConfig) -> bool {
        &&& self.repo_owner == other.repo_owner
        &&& self.repo_name == other.repo_name
        &&& self.report_channel_id == other.report_channel_id
        &&& self.report_channel_name == other.report_channel_name
    }

    /// Where the user `id` stands in the list of users.
    pub open spec fn user_position(&self, id: Seq<char>) -> Option<int> {
        user_ids(self.users@).index_of_first(id)
    }

    /// The settings of the user `id`.
    pub open spec fn user(&self, id: Seq<char>) -> Option<UserConfig> {
        match self.user_position(id) {
            Some(i) => Some(self.users@[i].1),
            None => None,
        }
    }

    /// Where the user stands in the list of users.
    pub fn find_user(&self, id: &DiscordUserId) -> (r: Option<usize>)
        ensures
            match r {
                Some(i) => i < self.users@.len() && self.user_position(id@) == Some(i as int),
                None => self.user_position(id@) is None,
            },
    {
        proof {
            user_ids(self.users@).index_of_first_ensures(id@);
        }
        let mut i: usize = 0;
        while i < self.users.len()
            invariant
                i <= self.users@.len(),
                forall|j: int| 0 <= j < i ==> user_ids(self.users@)[j] != id@,
            decreases self.users@.len() - i,
        {
            if self.users[i].0.same(id) {
                proof {
                    assert(user_ids(self.users@)[i as int] == id@);
                    user_ids(self.users@).index_of_first_ensures(id@);
                }
                return Some(i);
            }
            i += 1;
        }
        None
    }

    /// The place of the user in the list of users. A user who is not in the
    /// list yet is added at its end, with the settings of a new user of that
    /// name; nothing else changes.
    pub fn user_entry(&mut self, id: &DiscordUserId, friendly_name: String) -> (r: usize)
        ensures
            old(self).wf() ==> final(self).wf(),
            r < final(self).users@.len(),
            final(self).user_position(id@) == Some(r as int),
            final(self).differs_in_users_only(*old(self)),
            old(self).user_position(id@) is Some ==> final(self).users@ == old(self).users@,
            old(self).user_position(id@) is None ==> {
                &&& r == old(self).users@.len()
                &&& final(self).users@.len() == old(self).users@.len() + 1
                &&& final(self).users@.drop_last() == old(self).users@
                &&& final(self).users@.last().0 == *id
                &&& final(self).users@.last().1.friendly_name == friendly_name
                &&& final(self).users@.last().1.is_new()
            },
    {
        match self.find_user(id) {
            Some(i) => i,
            None => {
                let ghost before = self.users@;
                proof {
                    user_ids(before).index_of_first_ensures(id@);
                }
                self.users.push((id.clone(), UserConfig::new(friendly_name)));
                proof {
                    let after = self.users@;
                    assert(after.drop_last() =~= before);
                    assert(user_ids(after) =~= user_ids(before).push(id@));
                    assert forall|j: int| 0 <= j < before.len() implies user_ids(before)[j]
                        != id@ by {
                        assert(user_ids(before).contains(user_ids(before)[j]));
                    }
                    user_ids(after).index_of_first_ensures(id@);
                    assert(user_ids(after)[after.len() - 1] == id@);
                }
                self.users.len() - 1
            },
        }
    }

    /// Forgets the user: the user's entry leaves the list. Where the user is
    /// not in the guild nothing changes.
    pub fn remove_user(&mut self, id: &DiscordUserId)
        ensures
            old(self).wf() ==> final(self).wf() && final(self).user_position(id@) is None,
            final(self).differs_in_users_only(*old(self)),
            match old(self).user_position(id@) {
                Some(i) => final(self).users@ == old(self).users@.remove(i),
                None => final(self).users@ == old(self).users@,
            },
    {
        proof {
            user_ids(self.users@).index_of_first_ensures(id@);
        }
        match self.find_user(id) {
            Some(i) => {
                let ghost before = self.users@;
                self.users.remove(i);
                proof {
                    let after = self.users@;
                    assert(user_ids(after) =~= user_ids(before).remove(i as int));
                    if old(self).wf() {
                        assert forall|j: int| 0 <= j < after.len() implies user_ids(after)[j]
                            != id@ by {
                            if j < i {
                                assert(user_ids(after)[j] == user_ids(before)[j]);
                            } else {
                                assert(user_ids(after)[j] == user_ids(before)[j + 1]);
                            }
                        }
                        user_ids(after).index_of_first_ensures(id@);
                    }
                }
            },
            None => {},
        }
    }
}

/// The whole configuration: the guilds with what is configured for each.
#[derive(Debug)]
pub struct Config {
    /// The version of the layout that the configuration was written in.
    pub version: i32,
    pub guilds: Vec<(DiscordGuildId, GuildConfig)>,
}

pub fn app_name() -> (r: &'static str)
    ensures
        r@ == "fizz"@,
{
    APP_NAME
}

/// What is wrong with a configuration that was written in another layout.
pub open spec fn unknown_version(version: i32) -> Seq<char> {
    "Config file has unknown version "@ + signed_decimal(version as int)
}

/// Takes the configuration that was read from the file at `file_path`, where
/// it was written in the layout that this library knows; else it is refused
/// with an error that names the file and the version found.
pub fn load(config: Config, file_path: String) -> (r: Result<Config, Error>)
    ensures
        match r {
            Ok(loaded) => config.version == VERSION && loaded == config,
            Err(Error::ConfigParsingError(path, message)) => {
                &&& config.version != VERSION
                &&& path == file_path
                &&& message@ == unknown_version(config.version)
            },
            Err(_) => false,
        },
{
    if config.version != VERSION {
        let mut message = String::from_str("Config file has unknown version ");
        push_signed_decimal(&mut message, config.version);
        return Err(Error::ConfigParsingError(file_path, message));
    }
    Ok(config)
}

/// A configuration without any guild.
pub fn new() -> (r: Config)
    ensures
        r.version == VERSION,
        r.guilds@.len() == 0,
        r.wf(),
{
    Config { version: VERSION, guilds: Vec::new() }
}

impl Config {
    /// No guild stands in the configuration twice, and every guild is well
    /// formed.
    pub open spec fn wf(&self) -> bool {
        &&& guild_ids(self.guilds@).no_duplicates()
        &&& forall|i: int| 0 <= i < self.guilds@.len() ==> (#[trigger] self.guilds@[i]).1.wf()
    }

    /// Where the guild `id` stands in the list of guilds.
    pub open spec fn guild_position(&self, id: Seq<char>) -> Option<int> {
        guild_ids(self.guilds@).index_of_first(id)
    }

    /// What is configured for the guild `id`.
    pub open spec fn guild(&self, id: Seq<char>) -> Option<GuildConfig> {
        match self.guild_position(id) {
            Some(i) => Some(self.guilds@[i].1),
            None => None,
        }
    }

    /// Where the guild stands in the list of guilds.
    pub fn find_guild(&self, id: &DiscordGuildId) -> (r: Option<usize>)
        ensures
            match r {
                Some(i) => i < self.guilds@.len() && self.guild_position(id@) == Some(i as int),
                None => self.guild_position(id@) is None,
            },
    {
        proof {
            guild_ids(self.guilds@).index_of_first_ensures(id@);
        }
        let mut i: usize = 0;
        while i < self.guilds.len()
            invariant
                i <= self.guilds@.len(),
                forall|j: int| 0 <= j < i ==> guild_ids(self.guilds@)[j] != id@,
            decreases self.guilds@.len() - i,
        {
            if self.guilds[i].0.same(id) {
                proof {
                    assert(guild_ids(self.guilds@)[i as int] == id@);
                    guild_ids(self.guilds@).index_of_first_ensures(id@);
                }
                return Some(i);
            }
            i += 1;
        }
        None
    }

    /// Notes that the weekly report of the user went out at `now`. Where the
    /// guild or the user is not configured nothing changes; nothing but
    /// that one user's last weekly report ever does.
    pub fn mark_weekly_reported(
        &mut self,
        guild_id: &DiscordGuildId,
        user_id: &DiscordUserId,
        now: Instant,
    )
        ensures
            final(self).version == old(self).version,
            old(self).wf() ==> final(self).wf(),
            final(self).guilds@.len() == old(self).guilds@.len(),
            match old(self).guild_position(guild_id@) {
                Some(g) => match old(self).guilds@[g].1.user_position(user_id@) {
                    Some(u) => {
                        &&& forall|k: int|
                            0 <= k < old(self).guilds@.len() && k != g ==> final(self).guilds@[k]
                                == old(self).guilds@[k]
                        &&& final(self).guilds@[g].0 == old(self).guilds@[g].0
                        &&& final(self).guilds@[g].1.differs_in_users_only(old(self).guilds@[g].1)
                        &&& final(self).guilds@[g].1.users@ == old(self).guilds@[g].1.users@.update(
                            u,
                            (
                                old(self).guilds@[g].1.users@[u].0,
                                old(self).guilds@[g].1.users@[u].1.with_weekly_report(now),
                            ),
                        )
                    },
                    None => final(self).guilds@ == old(self).guilds@,
                },
                None => final(self).guilds@ == old(self).guilds@,
            },
    {
        let ghost before = self.guilds@;
        match self.find_guild(guild_id) {
            Some(g) => {
                match self.guilds[g].1.find_user(user_id) {
                    Some(u) => {
                        self.guilds[g].1.users[u].1.last_weekly_report = Some(now);
                        proof {
                            let after = self.guilds@;
                            assert(after[g as int].1.users@ =~= before[g as int].1.users@.update(
                                u as int,
                                (
                                    before[g as int].1.users@[u as int].0,
                                    before[g as int].1.users@[u as int].1.with_weekly_report(now),
                                ),
                            ));
                            assert(guild_ids(after) =~= guild_ids(before));
                            assert(user_ids(after[g as int].1.users@) =~= user_ids(
                                before[g as int].1.users@,
                            ));
                            if old(self).wf() {
                                assert forall|k: int| 0 <= k < after.len() implies (
                                #[trigger] after[k]).1.wf() by {
                                    if k != g {
                                        assert(after[k] == before[k]);
                                    }
                                }
                            }
                        }
                    },
                    None => {},
                }
            },
            None => {},
        }
    }
}

/// Makes sure that the guild is in the configuration, so that what is
/// configured for it can be changed, and says where it stands in the list of
/// guilds. A guild that is not in the list yet is added at its end, with
/// nothing configured; nothing else changes.
pub fn update_guild_config(config: &mut Config, id: &DiscordGuildId) -> (r: usize)
    ensures
        old(config).wf() ==> final(config).wf(),
        final(config).version == old(config).version,
        r < final(config).guilds@.len(),
        final(config).guild_position(id@) == Some(r as int),
        old(config).guild_position(id@) is Some ==> final(config).guilds@ == old(config).guilds@,
        old(config).guild_position(id@) is None ==> {
            &&& r == old(config).guilds@.len()
            &&& final(config).guilds@.len() == old(config).guilds@.len() + 1
            &&& final(config).guilds@.drop_last() == old(config).guilds@
            &&& final(config).guilds@.last().0 == *id
            &&& final(config).guilds@.last().1.is_unset()
        },
{
    match config.find_guild(id) {
        Some(i) => i,
        None => {
            let ghost before = config.guilds@;
            proof {
                guild_ids(before).index_of_first_ensures(id@);
            }
            let fresh = GuildConfig::default();
            assert(user_ids(fresh.users@) =~= Seq::<Seq<char>>::empty());
            config.guilds.push((id.clone(), fresh));
            proof {
                let after = config.guilds@;
                assert(after.drop_last() =~= before);
                assert(guild_ids(after) =~= guild_ids(before).push(id@));
                assert forall|j: int| 0 <= j < before.len() implies guild_ids(before)[j]
                    != id@ by {
                    assert(guild_ids(before).contains(guild_ids(before)[j]));
                }
                guild_ids(after).index_of_first_ensures(id@);
                assert(guild_ids(after)[after.len() - 1] == id@);
                if old(config).wf() {
                    assert forall|k: int| 0 <= k < after.len() implies (
                    #[trigger] after[k]).1.wf() by {
                        if k < before.len() {
                            assert(after[k] == before[k]);
                        }
                    }
                }
            }
            config.guilds.len() - 1
        },
    }
}

/// `after` is the list of users `before` with a new user of the name
/// given added at its end.
pub open spec fn user_added(
    before: Seq<(DiscordUserId, UserConfig)>,
    after: Seq<(DiscordUserId, UserConfig)>,
    id: DiscordUserId,
    friendly_name: String,
) -> bool {
    &&& after.len() == before.len() + 1
    &&& after.drop_last() == before
    &&& after.last().0 == id
    &&& after.last().1.friendly_name == friendly_name
    &&& after.last().1.is_new()
}

/// `after` is the configuration `before` in which it was made sure that
/// the guild is configured and holds the user: the guild stands at place
/// `g`, and nothing has changed but what had to be added.
pub open spec fn user_made_sure(
    before: Config,
    after: Config,
    guild_id: DiscordGuildId,
    user_id: DiscordUserId,
    friendly_name: String,
    g: int,
) -> bool {
    &&& after.version == before.version
    &&& forall|k: int|
        0 <= k < before.guilds@.len() && k != g ==> #[trigger] after.guilds@[k] == before.guilds@[k]
    &&& match before.guild_position(guild_id@) {
        Some(at) => {
            let guild = before.guilds@[at].1;
            &&& g == at
            &&& after.guilds@.len() == before.guilds@.len()
            &&& after.guilds@[g].0 == before.guilds@[g].0
            &&& after.guilds@[g].1.differs_in_users_only(guild)
            &&& match guild.user_position(user_id@) {
                Some(u) => after.guilds@[g].1.users@ == guild.users@,
                None => user_added(guild.users@, after.guilds@[g].1.users@, user_id, friendly_name),
            }
        },
        None => {
            &&& g == before.guilds@.len()
            &&& after.guilds@.len() == before.guilds@.len() + 1
            &&& after.guilds@[g].0 == guild_id
            &&& after.guilds@[g].1.repo_owner@.len() == 0
            &&& after.guilds@[g].1.repo_name@.len() == 0
            &&& after.guilds@[g].1.report_channel_id@ == (
                Seq::<char>::empty(),
                Seq::<char>::empty(),
            )
            &&& after.guilds@[g].1.report_channel_name@.len() == 0
            &&& user_added(Seq::empty(), after.guilds@[g].1.users@, user_id, friendly_name)
        },
    }
}

/// Makes sure that the guild is in the configuration and the user among
/// the guild's users, so that the user's settings can be changed, and says
/// where the two stand: the guild in the list of guilds, the user in the
/// guild's list of users. A guild that is missing is added with nothing
/// configured, a user who is missing with the settings of a new user of the
/// name given.
pub fn update_user_config(
    config: &mut Config,
    guild_id: &DiscordGuildId,
    user_id: &DiscordUserId,
    friendly_name: String,
) -> (r: (usize, usize))
    ensures
        old(config).wf() ==> final(config).wf(),
        r.0 < final(config).guilds@.len(),
        r.1 < final(config).guilds@[r.0 as int].1.users@.len(),
        final(config).guild_position(guild_id@) == Some(r.0 as int),
        final(config).guilds@[r.0 as int].1.user_position(user_id@) == Some(r.1 as int),
        user_made_sure(
            *old(config),
            *final(config),
            *guild_id,
            *user_id,
            friendly_name,
            r.0 as int,
        ),
{
    let g = update_guild_config(config, guild_id);
    let ghost mid = config.guilds@;
    let u = config.guilds[g].1.user_entry(user_id, friendly_name);
    proof {
        let before = old(config).guilds@;
        let after = config.guilds@;
        assert(guild_ids(after) =~= guild_ids(mid));
        guild_ids(before).index_of_first_ensures(guild_id@);
        user_ids(mid[g as int].1.users@).index_of_first_ensures(user_id@);
        if old(config).wf() {
            assert forall|k: int| 0 <= k < after.len() implies (#[trigger] after[k]).1.wf() by {
                if k != g {
                    assert(after[k] == mid[k]);
                }
            }
        }
        assert forall|k: int| 0 <= k < before.len() && k != g implies #[trigger] after[k]
            == before[k] by {
            assert(after[k] == mid[k]);
            if old(config).guild_position(guild_id@) is None {
                assert(mid.drop_last()[k] == before[k]);
            }
        }
        if old(config).guild_position(guild_id@) is None {
            assert(mid.drop_last() == before);
            assert(mid[g as int].1.users@ =~= Seq::<(DiscordUserId, UserConfig)>::empty());
        }
    }
    (g, u)
}

} // verus!

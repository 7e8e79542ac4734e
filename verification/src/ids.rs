//! Identifiers of guilds, users and channels, and GitHub user names.

use vstd::prelude::*;
use vstd::string::*;

verus! {

/// The text a user identifier is written as inside a message: `<@id>`.
pub open spec fn mention(id: Seq<char>) -> Seq<char> {
    seq!['<', '@'] + id + seq!['>']
}

/// A stable discord guild (server) identifier.
#[derive(Debug, Default, PartialEq, Eq, Hash)]
pub struct DiscordGuildId(pub String);

impl View for DiscordGuildId {
    type V = Seq<char>;

    open spec fn view(&self) -> Seq<char> {
        self.0@
    }
}

impl Clone for DiscordGuildId {
    fn clone(&self) -> (r: Self)
        ensures
            r == *self,
    {
        DiscordGuildId(self.0.clone())
    }
}

impl DiscordGuildId {
    pub fn is_empty(&self) -> (r: bool)
        ensures
            r == (self@.len() == 0),
    {
        self.0.as_str().is_empty()
    }

    /// Whether two identifiers name the same guild.
    pub fn same(&self, other: &DiscordGuildId) -> (r: bool)
        ensures
            r == (self@ == other@),
    {
        self.0 == other.0
    }
}

/// A stable discord user identifier.
#[derive(Debug, Default, PartialEq, Eq, Hash)]
pub struct DiscordUserId(pub String);

impl View for DiscordUserId {
    type V = Seq<char>;

    open spec fn view(&self) -> Seq<char> {
        self.0@
    }
}

impl Clone for DiscordUserId {
    fn clone(&self) -> (r: Self)
        ensures
            r == *self,
    {
        DiscordUserId(self.0.clone())
    }
}

impl DiscordUserId {
    pub fn is_empty(&self) -> (r: bool)
        ensures
            r == (self@.len() == 0),
    {
        self.0.as_str().is_empty()
    }

    /// Whether two identifiers name the same user.
    pub fn same(&self, other: &DiscordUserId) -> (r: bool)
        ensures
            r == (self@ == other@),
    {
        self.0 == other.0
    }

    /// The mention of the user, as it stands in a message.
    pub fn to_string(&self) -> (r: String)
        ensures
            r@ == mention(self@),
    {
        let mut out = String::from_str("<@");
        out.append(self.0.as_str());
        out.append(">");
        proof {
            reveal_strlit("<@");
            reveal_strlit(">");
            assert(out@ =~= mention(self@));
        }
        out
    }
}

/// A stable discord channel identifier: the guild it lies in, and the
/// channel's own identifier.
#[derive(Debug, Default, PartialEq, Eq, Hash)]
pub struct DiscordChannelId(pub DiscordGuildId, pub String);

impl View for DiscordChannelId {
    type V = (Seq<char>, Seq<char>);

    open spec fn view(&self) -> (Seq<char>, Seq<char>) {
        (self.0@, self.1@)
    }
}

impl Clone for DiscordChannelId {
    fn clone(&self) -> (r: Self)
        ensures
            r == *self,
    {
        DiscordChannelId(self.0.clone(), self.1.clone())
    }
}

impl DiscordChannelId {
    /// A channel without a guild or without an identifier of its own is no
    /// channel to report in.
    pub fn is_empty(&self) -> (r: bool)
        ensures
            r == (self@.0.len() == 0 || self@.1.len() == 0),
    {
        self.0.is_empty() || self.1.as_str().is_empty()
    }

    /// Whether two identifiers name the same channel.
    pub fn same(&self, other: &DiscordChannelId) -> (r: bool)
        ensures
            r == (self@ == other@),
    {
        self.0.same(&other.0) && self.1 == other.1
    }
}

/// A github user name.
#[derive(Debug, Default, PartialEq, Eq, Hash)]
pub struct GithubUserName(pub String);

impl View for GithubUserName {
    type V = Seq<char>;

    open spec fn view(&self) -> Seq<char> {
        self.0@
    }
}

impl Clone for GithubUserName {
    fn clone(&self) -> (r: Self)
        ensures
            r == *self,
    {
        GithubUserName(self.0.clone())
    }
}

impl GithubUserName {
    pub fn from_str(s: &str) -> (r: Self)
        ensures
            r@ == s@,
    {
        GithubUserName(String::from_str(s))
    }

    /// Whether two names are the same name.
    pub fn same(&self, other: &GithubUserName) -> (r: bool)
        ensures
            r == (self@ == other@),
    {
        self.0 == other.0
    }
}

} // verus!

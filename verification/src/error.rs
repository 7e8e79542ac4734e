//! What can go wrong, and how it is told.

use vstd::prelude::*;
use vstd::string::*;

verus! {

/// A failure outside the chat platform. Paths and the causes that other
/// libraries report are held as text.
#[derive(Debug)]
pub enum Error {
    /// A failure that was told already.
    Silent,
    UnableToFindHomeDir,
    /// The path, where one was involved, and what the system said.
    IoError(Option<String>, String),
    /// The path at which a configuration was looked for.
    ConfigFileMissing(String),
    /// The path of the configuration and what is wrong with it.
    ConfigParsingError(String, String),
    FailedToGetIssues(String),
    FailedToGetPRs(String),
    /// The name of the environment variable that should hold the token.
    DiscordTokenMissing(String),
    DiscordConnectFailed(String),
}

impl Error {
    /// The failure in words.
    pub open spec fn text(&self) -> Seq<char> {
        match *self {
            Error::Silent => Seq::empty(),
            Error::UnableToFindHomeDir => "unable to find home dir"@,
            Error::IoError(Some(path), io) => io@ + ": "@ + path@,
            Error::IoError(None, io) => io@,
            Error::ConfigFileMissing(path) => "no config found at "@ + path@,
            Error::ConfigParsingError(path, msg) => "error parsing config file: "@ + msg@
                + " (path: "@ + path@ + ")"@,
            Error::FailedToGetIssues(e) => "unable to get GitHub Issues: "@ + e@,
            Error::FailedToGetPRs(e) => "unable to get GitHub PRs: "@ + e@,
            Error::DiscordTokenMissing(var) => "missing discord token in "@ + var@
                + " environment variable"@,
            Error::DiscordConnectFailed(e) => "unable to connect to discord: "@ + e@,
        }
    }

    /// The failure in words.
    pub fn to_string(&self) -> (r: String)
        ensures
            r@ == self.text(),
    {
        match self {
            Error::Silent => String::new(),
            Error::UnableToFindHomeDir => String::from_str("unable to find home dir"),
            Error::IoError(Some(path), io) => {
                let mut out = io.clone();
                out.append(": ");
                out.append(path.as_str());
                out
            },
            Error::IoError(None, io) => io.clone(),
            Error::ConfigFileMissing(path) => {
                let mut out = String::from_str("no config found at ");
                out.append(path.as_str());
                out
            },
            Error::ConfigParsingError(path, msg) => {
                let mut out = String::from_str("error parsing config file: ");
                out.append(msg.as_str());
                out.append(" (path: ");
                out.append(path.as_str());
                out.append(")");
                out
            },
            Error::FailedToGetIssues(e) => {
                let mut out = String::from_str("unable to get GitHub Issues: ");
                out.append(e.as_str());
                out
            },
            Error::FailedToGetPRs(e) => {
                let mut out = String::from_str("unable to get GitHub PRs: ");
                out.append(e.as_str());
                out
            },
            Error::DiscordTokenMissing(var) => {
                let mut out = String::from_str("missing discord token in ");
                out.append(var.as_str());
                out.append(" environment variable");
                out
            },
            Error::DiscordConnectFailed(e) => {
                let mut out = String::from_str("unable to connect to discord: ");
                out.append(e.as_str());
                out
            },
        }
    }
}

/// Why a cycle failed. Whatever the cause, the loop waits a moment and runs
/// the cycle again from where the failed one began.
#[derive(Clone, Copy, Debug, PartialEq, Eq, Structural)]
pub enum CycleFailure {
    /// The open pull requests or issues could not be fetched.
    UpstreamFetchFailed,
    /// A message could not be listed, deleted or posted. What was posted
    /// before stays.
    DeliveryFailed,
    /// The configuration could not be read or saved.
    ConfigUnavailable,
}

/// A failure while talking to the chat platform.
#[derive(Debug)]
pub struct DiscordError {
    /// What the user is told, if anything.
    pub reply: Option<String>,
    /// The cause in words, for the log.
    pub details: Option<String>,
}

impl DiscordError {
    /// A failure with a reply for the user and a cause for the log.
    pub fn new(reply: String, details: String) -> (r: Self)
        ensures
            r.reply == Some(reply),
            r.details == Some(details),
    {
        DiscordError { reply: Some(reply), details: Some(details) }
    }

    /// A failure that only the log is told of, with the failure's words as
    /// the cause.
    pub fn from_error(details: &Error) -> (r: Self)
        ensures
            r.reply is None,
            match r.details {
                Some(cause) => cause@ == details.text(),
                None => false,
            },
    {
        DiscordError { reply: None, details: Some(details.to_string()) }
    }
}

impl From<String> for DiscordError {
    /// A failure that the user is told of.
    fn from(reply: String) -> (r: Self)
        ensures
            r.reply == Some(reply),
            r.details is None,
    {
        DiscordError { reply: Some(reply), details: None }
    }
}

impl vstd::std_specs::convert::FromSpecImpl<String> for DiscordError {
    open spec fn obeys_from_spec() -> bool {
        true
    }

    open spec fn from_spec(reply: String) -> Self {
        DiscordError { reply: Some(reply), details: None }
    }
}

} // verus!

use fizz::error::{DiscordError, Error};

#[test]
fn failures_in_words() {
    assert_eq!(Error::Silent.to_string(), "");
    assert_eq!(Error::UnableToFindHomeDir.to_string(), "unable to find home dir");
    assert_eq!(
        Error::IoError(Some("/etc/fizz".to_string()), "permission denied".to_string()).to_string(),
        "permission denied: /etc/fizz"
    );
    assert_eq!(Error::IoError(None, "permission denied".to_string()).to_string(), "permission denied");
    assert_eq!(
        Error::ConfigFileMissing("/home/a/.config/fizz/fizz.toml".to_string()).to_string(),
        "no config found at /home/a/.config/fizz/fizz.toml"
    );
    assert_eq!(
        Error::ConfigParsingError("fizz.toml".to_string(), "missing field".to_string()).to_string(),
        "error parsing config file: missing field (path: fizz.toml)"
    );
    assert_eq!(
        Error::FailedToGetIssues("timeout".to_string()).to_string(),
        "unable to get GitHub Issues: timeout"
    );
    assert_eq!(
        Error::FailedToGetPRs("timeout".to_string()).to_string(),
        "unable to get GitHub PRs: timeout"
    );
    assert_eq!(
        Error::DiscordTokenMissing("DISCORD_TOKEN".to_string()).to_string(),
        "missing discord token in DISCORD_TOKEN environment variable"
    );
    assert_eq!(
        Error::DiscordConnectFailed("refused".to_string()).to_string(),
        "unable to connect to discord: refused"
    );
}

#[test]
fn discord_error_with_reply_and_cause() {
    let e = DiscordError::new("Failed to save config!".to_string(), "disk full".to_string());
    assert_eq!(e.reply.as_deref(), Some("Failed to save config!"));
    assert_eq!(e.details.as_deref(), Some("disk full"));
}

#[test]
fn discord_error_from_a_reply() {
    let e = DiscordError::from("Unknown timezone 'x'".to_string());
    assert_eq!(e.reply.as_deref(), Some("Unknown timezone 'x'"));
    assert_eq!(e.details, None);
}

#[test]
fn discord_error_from_a_failure() {
    let e = DiscordError::from_error(&Error::FailedToGetPRs("timeout".to_string()));
    assert_eq!(e.reply, None);
    assert_eq!(e.details.as_deref(), Some("unable to get GitHub PRs: timeout"));
}

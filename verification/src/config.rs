//! The fixed places and limits of the tool, gathered in one value so that
//! a test can put others in their place.

use vstd::prelude::*;
use vstd::string::StringExecFns;
use crate::authentication::RETRIES;
use crate::cache::DEFAULT_AUTH_CACHE_DURATION;

verus! {

/// Where things are and how much is allowed.
#[derive(Debug, Clone, PartialEq, Eq)]
pub struct Config {
    /// The file that holds the policy.
    pub rudoers_path: String,
    /// The name under which the authentication stack is addressed.
    pub auth_service: String,
    /// How many times the caller may try their password.
    pub retries: u32,
    /// How long an authentication counts, in seconds.
    pub auth_cache_duration: u32,
    /// The directory of the cache records, with the slash at its end.
    pub auth_cache_path: String,
    /// The directory of the session markers, with the slash at its end.
    pub session_cache_path: String,
}

impl Config {
    /// The directory that holds the cache records of the shell `ppid`.
    pub open spec fn auth_cache_dir_spec(&self, ppid: Seq<char>) -> Seq<char> {
        self.auth_cache_path@ + ppid
    }

    /// The file that holds the cache record of the shell `ppid` for the
    /// account `alias`.
    pub open spec fn auth_cache_file_spec(&self, ppid: Seq<char>, alias: Seq<char>) -> Seq<char> {
        self.auth_cache_path@ + ppid + "/"@ + alias
    }

    /// The session marker of the shell `ppid`.
    pub open spec fn session_marker_spec(&self, ppid: Seq<char>) -> Seq<char> {
        self.session_cache_path@ + ppid
    }

    /// The configuration the tool runs with.
    pub fn standard() -> (config: Self)
        ensures
            config.rudoers_path@ == "/etc/rudoers.toml"@,
            config.auth_service@ == "system-auth"@,
            config.retries == RETRIES,
            config.auth_cache_duration == DEFAULT_AUTH_CACHE_DURATION,
            config.auth_cache_path@ == "/var/db/rudo/cache/auth/"@,
            config.session_cache_path@ == "/var/db/rudo/cache/session/"@,
    {
        Config {
            rudoers_path: String::from_str("/etc/rudoers.toml"),
            auth_service: String::from_str("system-auth"),
            retries: RETRIES,
            auth_cache_duration: DEFAULT_AUTH_CACHE_DURATION,
            auth_cache_path: String::from_str("/var/db/rudo/cache/auth/"),
            session_cache_path: String::from_str("/var/db/rudo/cache/session/"),
        }
    }

    /// Returns the directory that holds the cache records of the shell
    /// `ppid`.
    pub fn auth_cache_dir(&self, ppid: &str) -> (path: String)
        ensures
            path@ == self.auth_cache_dir_spec(ppid@),
    {
        self.auth_cache_path.clone().concat(ppid)
    }

    /// Returns the file that holds the cache record of the shell `ppid`
    /// for the account `alias`.
    pub fn auth_cache_file(&self, ppid: &str, alias: &str) -> (path: String)
        ensures
            path@ == self.auth_cache_file_spec(ppid@, alias@),
    {
        self.auth_cache_path.clone().concat(ppid).concat("/").concat(alias)
    }

    /// Returns the session marker of the shell `ppid`.
    pub fn session_marker(&self, ppid: &str) -> (path: String)
        ensures
            path@ == self.session_marker_spec(ppid@),
    {
        self.session_cache_path.clone().concat(ppid)
    }
}

/// The cache file of a shell and account lies in the cache directory of
/// that shell, so removing the directory removes the record of every
/// account of the shell.
pub proof fn lemma_cache_file_in_dir(config: Config, ppid: Seq<char>, alias: Seq<char>)
    ensures
        config.auth_cache_file_spec(ppid, alias) == config.auth_cache_dir_spec(ppid) + "/"@ + alias,
{
}

} // verus!

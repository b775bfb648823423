use rudo::collections::{StringMap, StringSet};
use rudo::error::RudoError;
use rudo::request::App;
use rudo::rudoers::{
    check_entry, check_groups, check_rudoers, default_password_required, Entry, HostPerms, Rudoers,
};
use rudo::user_info::ResolvedIdentity;

fn set_of(items: &[&str]) -> StringSet {
    let mut set = StringSet::new();
    for item in items {
        set.insert(item.to_string());
    }
    set
}

fn host(password_required: bool, aliases: &[&str], commands: &[&str]) -> HostPerms {
    HostPerms { password_required, aliases: set_of(aliases), commands: set_of(commands) }
}

fn hosts_of(entries: Vec<(&str, HostPerms)>) -> Entry {
    let mut hosts = StringMap::new();
    for (name, perms) in entries {
        hosts.insert(name.to_string(), perms);
    }
    Entry::Hosts(hosts)
}

fn northpole() -> Entry {
    hosts_of(vec![("northpole", host(false, &["root"], &["/bin/cat", "/bin/grep", "/bin/xargs"]))])
}

fn request(user: Option<&str>, cmd: Option<Vec<&str>>) -> App {
    App {
        background: false,
        user: user.map(|u| u.to_string()),
        validate: false,
        cmd: cmd.map(|tokens| tokens.into_iter().map(|t| t.to_string()).collect()),
    }
}

fn caller(username: &str, groups: &[&str], hostname: &str, command_path: &str) -> ResolvedIdentity {
    ResolvedIdentity {
        username: username.to_string(),
        groups: groups.iter().map(|g| g.to_string()).collect(),
        hostname: hostname.to_string(),
        command_path: command_path.to_string(),
        parent_pid: 4242,
    }
}

#[test]
fn host_alias_command_match() {
    assert_eq!(check_entry(&northpole(), "northpole", "root", "/bin/cat"), Ok(false));
    let mut policy = Rudoers::default();
    policy.users.insert("alice".to_string(), northpole());
    let who = caller("alice", &[], "northpole", "/bin/cat");
    assert_eq!(check_rudoers(&request(None, Some(vec!["cat", "x"])), &who, &policy), Ok(false));
    assert_eq!(
        check_rudoers(&request(Some("root"), Some(vec!["cat"])), &who, &policy),
        Ok(false)
    );
}

#[test]
fn command_denial() {
    assert_eq!(
        check_entry(&northpole(), "northpole", "root", "/bin/rm"),
        Err(RudoError::PermissionDenied)
    );
}

#[test]
fn unknown_host_is_denied() {
    assert_eq!(
        check_entry(&northpole(), "southpole", "root", "/bin/cat"),
        Err(RudoError::PermissionDenied)
    );
}

#[test]
fn hostname_wildcard_matches_any_host() {
    let entry = hosts_of(vec![("ALL", host(true, &["root"], &["/bin/cat"]))]);
    assert_eq!(check_entry(&entry, "northpole", "root", "/bin/cat"), Ok(true));
    assert_eq!(check_entry(&entry, "elsewhere", "root", "/bin/cat"), Ok(true));
}

#[test]
fn exact_host_is_preferred_to_wildcard() {
    let entry = hosts_of(vec![
        ("ALL", host(true, &["root"], &["/bin/cat"])),
        ("northpole", host(false, &["root"], &["/bin/grep"])),
    ]);
    assert_eq!(check_entry(&entry, "northpole", "root", "/bin/grep"), Ok(false));
    assert_eq!(
        check_entry(&entry, "northpole", "root", "/bin/cat"),
        Err(RudoError::PermissionDenied)
    );
    assert_eq!(check_entry(&entry, "southpole", "root", "/bin/cat"), Ok(true));
}

#[test]
fn command_wildcard_authorizes_any_command() {
    let entry = hosts_of(vec![("northpole", host(false, &["root"], &["ALL"]))]);
    assert_eq!(check_entry(&entry, "northpole", "root", "/bin/rm"), Ok(false));
    assert_eq!(check_entry(&entry, "northpole", "root", "anything at all"), Ok(false));
    let flat = Entry::CommandPaths(set_of(&["ALL"]));
    assert_eq!(check_entry(&flat, "northpole", "bob", "/usr/bin/id"), Ok(true));
}

#[test]
fn alias_wildcard_authorizes_any_account() {
    let entry = hosts_of(vec![("northpole", host(true, &["ALL"], &["/bin/cat"]))]);
    assert_eq!(check_entry(&entry, "northpole", "bob", "/bin/cat"), Ok(true));
    assert_eq!(check_entry(&entry, "northpole", "root", "/bin/cat"), Ok(true));
}

#[test]
fn non_root_switch_denial_kind() {
    assert_eq!(
        check_entry(&northpole(), "northpole", "bob", "/bin/cat"),
        Err(RudoError::NoSwitchEntry)
    );
    let only_bob = hosts_of(vec![("northpole", host(false, &["bob"], &["/bin/cat"]))]);
    assert_eq!(
        check_entry(&only_bob, "northpole", "root", "/bin/cat"),
        Err(RudoError::PermissionDenied)
    );
    assert_eq!(check_entry(&only_bob, "northpole", "bob", "/bin/cat"), Ok(false));
}

#[test]
fn switch_denial_comes_before_command_denial() {
    assert_eq!(
        check_entry(&northpole(), "northpole", "bob", "/bin/rm"),
        Err(RudoError::NoSwitchEntry)
    );
}

#[test]
fn group_fallback_with_reason_collapse() {
    let mut policy = Rudoers::default();
    policy.groups.insert(
        "eng".to_string(),
        hosts_of(vec![("northpole", host(false, &["root"], &["/bin/grep"]))]),
    );
    policy.groups.insert(
        "wheel".to_string(),
        hosts_of(vec![("northpole", host(true, &["root"], &["/bin/cat"]))]),
    );
    let who = caller("dave", &["eng", "wheel"], "northpole", "/bin/cat");
    let args = request(None, Some(vec!["cat"]));
    assert_eq!(check_rudoers(&args, &who, &policy), Ok(true));

    let refused = caller("dave", &["eng", "wheel"], "northpole", "/bin/rm");
    assert_eq!(check_rudoers(&args, &refused, &policy), Err(RudoError::NotInRudoers));
    let as_bob = request(Some("bob"), Some(vec!["cat"]));
    assert_eq!(check_rudoers(&as_bob, &who, &policy), Err(RudoError::NotInRudoers));
}

#[test]
fn first_permitting_group_decides() {
    let mut policy = Rudoers::default();
    policy.groups.insert(
        "eng".to_string(),
        hosts_of(vec![("ALL", host(false, &["root"], &["/bin/cat"]))]),
    );
    policy.groups.insert("wheel".to_string(), Entry::CommandPaths(set_of(&["ALL"])));
    let groups = vec!["wheel".to_string(), "eng".to_string()];
    assert_eq!(check_groups(&policy, &groups, "northpole", "root", "/bin/cat"), Ok(true));
    let groups = vec!["eng".to_string(), "wheel".to_string()];
    assert_eq!(check_groups(&policy, &groups, "northpole", "root", "/bin/cat"), Ok(false));
}

#[test]
fn user_without_entry_or_groups_is_not_in_rudoers() {
    let mut policy = Rudoers::default();
    policy.users.insert("alice".to_string(), northpole());
    let who = caller("mallory", &[], "northpole", "/bin/cat");
    let args = request(None, Some(vec!["cat"]));
    assert_eq!(check_rudoers(&args, &who, &policy), Err(RudoError::NotInRudoers));
    let unlisted = caller("mallory", &["staff"], "northpole", "/bin/cat");
    assert_eq!(check_rudoers(&args, &unlisted, &policy), Err(RudoError::NotInRudoers));
}

#[test]
fn user_entry_is_not_rescued_by_groups() {
    let mut policy = Rudoers::default();
    policy.users.insert("alice".to_string(), northpole());
    policy.groups.insert("wheel".to_string(), Entry::CommandPaths(set_of(&["ALL"])));
    let who = caller("alice", &["wheel"], "northpole", "/bin/rm");
    let args = request(None, Some(vec!["rm"]));
    assert_eq!(check_rudoers(&args, &who, &policy), Err(RudoError::PermissionDenied));
}

#[test]
fn flat_command_list_always_requires_password() {
    let carol = Entry::CommandPaths(set_of(&["/bin/ls"]));
    assert_eq!(check_entry(&carol, "northpole", "root", "/bin/ls"), Ok(true));
    assert_eq!(check_entry(&carol, "anywhere", "bob", "/bin/ls"), Ok(true));
    assert_eq!(
        check_entry(&carol, "northpole", "root", "/bin/cat"),
        Err(RudoError::PermissionDenied)
    );
}

#[test]
fn request_without_command_is_refused() {
    let mut policy = Rudoers::default();
    policy.users.insert("alice".to_string(), Entry::CommandPaths(set_of(&["ALL"])));
    let who = caller("alice", &[], "northpole", "");
    assert_eq!(
        check_rudoers(&request(None, None), &who, &policy),
        Err(RudoError::NoCommandSpecified)
    );
    assert_eq!(
        check_rudoers(&request(None, Some(vec![])), &who, &policy),
        Err(RudoError::NoCommandSpecified)
    );
}

#[test]
fn password_is_required_by_default() {
    assert!(default_password_required());
}

#[test]
fn empty_policy_lists_nobody() {
    let policy = Rudoers::default();
    assert_eq!(policy.users.entries.len(), 0);
    assert_eq!(policy.groups.entries.len(), 0);
    assert_eq!(policy, Rudoers::new());
}

//! The authorization policy and its evaluation.
//!
//! A policy maps user names and group names to entries. An entry is either a
//! flat set of commands, which always asks for a password, or a table of hosts
//! with the accounts and commands permitted on each. The literal `ALL` stands
//! for any host, any account or any command.

use vstd::prelude::*;
use crate::collections::{StringMap, StringSet};
use crate::error::RudoError;
use crate::request::{default_account, App};
use crate::text::same_text;
use crate::user_info::{texts, ResolvedIdentity};

verus! {

/// The wildcard that matches any host, account or command.
pub open spec fn wildcard() -> Seq<char> {
    "ALL"@
}

/// Whether a host entry asks for a password where the policy does not say.
pub fn default_password_required() -> (required: bool)
    ensures
        required,
{
    true
}

/// What one principal may do on one host.
#[derive(Debug, Clone, PartialEq, Eq)]
pub struct HostPerms {
    /// Whether the action needs the caller's password.
    pub password_required: bool,
    /// The accounts the principal may run commands as.
    pub aliases: StringSet,
    /// The commands the principal may run.
    pub commands: StringSet,
}

/// The rule attached to one principal.
#[derive(Debug, Clone, PartialEq, Eq)]
pub enum Entry {
    /// Commands that may be run as any account, always with a password.
    CommandPaths(StringSet),
    /// Permissions per host name.
    Hosts(StringMap<HostPerms>),
}

/// The policy: one entry per user name and per group name.
#[derive(Debug, Clone, PartialEq, Eq)]
pub struct Rudoers {
    pub users: StringMap<Entry>,
    pub groups: StringMap<Entry>,
}

/// The mathematical content of a [`HostPerms`].
pub struct HostRule {
    pub password_required: bool,
    pub aliases: Set<Seq<char>>,
    pub commands: Set<Seq<char>>,
}

/// The mathematical content of an [`Entry`].
pub enum Rule {
    CommandPaths(Set<Seq<char>>),
    Hosts(Map<Seq<char>, HostRule>),
}

/// The mathematical content of a [`Rudoers`].
pub struct Policy {
    pub users: Map<Seq<char>, Rule>,
    pub groups: Map<Seq<char>, Rule>,
}

impl View for HostPerms {
    type V = HostRule;

    open spec fn view(&self) -> HostRule {
        HostRule {
            password_required: self.password_required,
            aliases: self.aliases@,
            commands: self.commands@,
        }
    }
}

impl View for Entry {
    type V = Rule;

    open spec fn view(&self) -> Rule {
        match self {
            Entry::CommandPaths(commands) => Rule::CommandPaths(commands@),
            Entry::Hosts(hosts) => Rule::Hosts(hosts@.map_values(|perms: HostPerms| perms@)),
        }
    }
}

impl View for Rudoers {
    type V = Policy;

    open spec fn view(&self) -> Policy {
        Policy {
            users: self.users@.map_values(|entry: Entry| entry@),
            groups: self.groups@.map_values(|entry: Entry| entry@),
        }
    }
}

impl HostPerms {
    /// No account and no command is listed twice.
    pub open spec fn wf(&self) -> bool {
        self.aliases.wf() && self.commands.wf()
    }
}

impl Entry {
    /// No command, host, account is listed twice.
    pub open spec fn wf(&self) -> bool {
        match self {
            Entry::CommandPaths(commands) => commands.wf(),
            Entry::Hosts(hosts) => hosts.wf() && forall|i: int|
                0 <= i < hosts.entries@.len() ==> (#[trigger] hosts.entries@[i]).1.wf(),
        }
    }
}

impl Rudoers {
    /// No principal is listed twice, and every entry is well formed.
    pub open spec fn wf(&self) -> bool {
        &&& self.users.wf()
        &&& self.groups.wf()
        &&& forall|i: int| 0 <= i < self.users.entries@.len() ==> (#[trigger] self.users.entries@[i]).1.wf()
        &&& forall|i: int|
            0 <= i < self.groups.entries@.len() ==> (#[trigger] self.groups.entries@[i]).1.wf()
    }

    /// The policy that lists nobody.
    pub fn new() -> (policy: Self)
        ensures
            policy@.users == Map::<Seq<char>, Rule>::empty(),
            policy@.groups == Map::<Seq<char>, Rule>::empty(),
            policy.wf(),
    {
        let policy = Rudoers { users: StringMap::new(), groups: StringMap::new() };
        assert(policy@.users =~= Map::<Seq<char>, Rule>::empty());
        assert(policy@.groups =~= Map::<Seq<char>, Rule>::empty());
        policy
    }
}

impl Default for Rudoers {
    fn default() -> (policy: Self)
        ensures
            policy@.users == Map::<Seq<char>, Rule>::empty(),
            policy@.groups == Map::<Seq<char>, Rule>::empty(),
            policy.wf(),
    {
        Rudoers::new()
    }
}

/// A set names `item`, or holds the wildcard.
pub open spec fn permits(set: Set<Seq<char>>, item: Seq<char>) -> bool {
    set.contains(item) || set.contains(wildcard())
}

/// The rule that applies on `hostname`: the one under that name, else the
/// one under the wildcard, else none.
pub open spec fn host_rule(hosts: Map<Seq<char>, HostRule>, hostname: Seq<char>) -> Option<HostRule> {
    if hosts.contains_key(hostname) {
        Some(hosts[hostname])
    } else if hosts.contains_key(wildcard()) {
        Some(hosts[wildcard()])
    } else {
        None
    }
}

/// What a host rule decides for running `command_path` as `alias`.
pub open spec fn check_host_spec(rule: HostRule, alias: Seq<char>, command_path: Seq<char>) -> Result<
    bool,
    RudoError,
> {
    if !permits(rule.aliases, alias) {
        if alias == default_account() {
            Err(RudoError::PermissionDenied)
        } else {
            Err(RudoError::NoSwitchEntry)
        }
    } else if !permits(rule.commands, command_path) {
        Err(RudoError::PermissionDenied)
    } else {
        Ok(rule.password_required)
    }
}

/// What an entry decides for running `command_path` as `alias` on
/// `hostname`: `Ok` with whether a password is required, or the refusal.
pub open spec fn check_entry_spec(
    rule: Rule,
    hostname: Seq<char>,
    alias: Seq<char>,
    command_path: Seq<char>,
) -> Result<bool, RudoError> {
    match rule {
        Rule::CommandPaths(commands) => {
            if permits(commands, command_path) {
                Ok(true)
            } else {
                Err(RudoError::PermissionDenied)
            }
        },
        Rule::Hosts(hosts) => {
            match host_rule(hosts, hostname) {
                Some(rule) => check_host_spec(rule, alias, command_path),
                None => Err(RudoError::PermissionDenied),
            }
        },
    }
}

/// Whether `set` names `item` or holds the wildcard.
fn set_permits(set: &StringSet, item: &str) -> (allowed: bool)
    ensures
        allowed == permits(set@, item@),
{
    set.contains(item) || set.contains("ALL")
}

/// Decides whether `entry` lets `command_path` run as `alias` on `hostname`.
///
/// Returns whether a password is required, or why the entry refuses.
pub fn check_entry(entry: &Entry, hostname: &str, alias: &str, command_path: &str) -> (decision:
    Result<bool, RudoError>)
    ensures
        decision == check_entry_spec(entry@, hostname@, alias@, command_path@),
{
    match entry {
        Entry::CommandPaths(commands) => {
            if set_permits(commands, command_path) {
                Ok(true)
            } else {
                Err(RudoError::PermissionDenied)
            }
        },
        Entry::Hosts(hosts) => {
            let found = match hosts.get(hostname) {
                Some(perms) => Some(perms),
                None => hosts.get("ALL"),
            };
            match found {
                Some(perms) => {
                    assert(host_rule(entry@->Hosts_0, hostname@) == Some(perms@));
                    if set_permits(&perms.aliases, alias) {
                        if set_permits(&perms.commands, command_path) {
                            Ok(perms.password_required)
                        } else {
                            Err(RudoError::PermissionDenied)
                        }
                    } else {
                        Err(
                            if same_text(alias, "root") {
                                RudoError::PermissionDenied
                            } else {
                                RudoError::NoSwitchEntry
                            },
                        )
                    }
                },
                None => {
                    assert(host_rule(entry@->Hosts_0, hostname@) is None);
                    Err(RudoError::PermissionDenied)
                },
            }
        },
    }
}

/// What the group entries decide for a user in `groups`: the decision of the
/// first group, in the order given, that has an entry which permits the
/// action; `NotInRudoers` where no group has one, whatever the entries that
/// refused would have said.
pub open spec fn check_groups_spec(
    rules: Map<Seq<char>, Rule>,
    groups: Seq<Seq<char>>,
    hostname: Seq<char>,
    alias: Seq<char>,
    command_path: Seq<char>,
) -> Result<bool, RudoError>
    decreases groups.len(),
{
    if groups.len() == 0 {
        Err(RudoError::NotInRudoers)
    } else if group_grants(rules, groups[0], hostname, alias, command_path) {
        check_entry_spec(rules[groups[0]], hostname, alias, command_path)
    } else {
        check_groups_spec(rules, groups.drop_first(), hostname, alias, command_path)
    }
}

/// The group `group` has an entry, and the entry permits the action.
pub open spec fn group_grants(
    rules: Map<Seq<char>, Rule>,
    group: Seq<char>,
    hostname: Seq<char>,
    alias: Seq<char>,
    command_path: Seq<char>,
) -> bool {
    rules.contains_key(group) && check_entry_spec(rules[group], hostname, alias, command_path) is Ok
}

/// What the policy decides for `username`, a member of `groups`, running
/// `command_path` as `alias` on `hostname`.
///
/// A user with an entry of their own is judged by it alone. Any other user
/// is judged by the entries of their groups.
pub open spec fn check_policy_spec(
    policy: Policy,
    username: Seq<char>,
    groups: Seq<Seq<char>>,
    hostname: Seq<char>,
    alias: Seq<char>,
    command_path: Seq<char>,
) -> Result<bool, RudoError> {
    if policy.users.contains_key(username) {
        check_entry_spec(policy.users[username], hostname, alias, command_path)
    } else {
        check_groups_spec(policy.groups, groups, hostname, alias, command_path)
    }
}

/// What the policy decides for a request: `NoCommandSpecified` where the
/// request names no program, else the decision of the policy for the caller.
pub open spec fn check_rudoers_spec(args: App, who: ResolvedIdentity, policy: Policy) -> Result<
    bool,
    RudoError,
> {
    if !args.has_command() {
        Err(RudoError::NoCommandSpecified)
    } else {
        check_policy_spec(
            policy,
            who.username@,
            texts(who.groups@),
            who.hostname@,
            args.alias_spec(),
            who.command_path@,
        )
    }
}

/// Decides by the group entries of `policy` whether a member of `groups` may
/// run `command_path` as `alias` on `hostname`.
pub fn check_groups(
    policy: &Rudoers,
    groups: &Vec<String>,
    hostname: &str,
    alias: &str,
    command_path: &str,
) -> (decision: Result<bool, RudoError>)
    ensures
        decision == check_groups_spec(
            policy@.groups,
            texts(groups@),
            hostname@,
            alias@,
            command_path@,
        ),
{
    let ghost all = texts(groups@);
    let mut i: usize = 0;
    assert(all.skip(0) =~= all);
    while i < groups.len()
        invariant
            i <= groups@.len(),
            all == texts(groups@),
            check_groups_spec(policy@.groups, all, hostname@, alias@, command_path@)
                == check_groups_spec(
                policy@.groups,
                all.skip(i as int),
                hostname@,
                alias@,
                command_path@,
            ),
        decreases groups@.len() - i,
    {
        let ghost rest = all.skip(i as int);
        assert(rest.len() > 0 && rest[0] == groups@[i as int]@);
        assert(rest.drop_first() =~= all.skip(i + 1));
        match policy.groups.get(groups[i].as_str()) {
            Some(entry) => {
                let output = check_entry(entry, hostname, alias, command_path);
                if output.is_ok() {
                    return output;
                }
            },
            None => {},
        }
        i += 1;
    }
    assert(all.skip(i as int).len() == 0);
    Err(RudoError::NotInRudoers)
}

/// Decides whether `policy` authorizes the request `args` of the caller
/// described by `who`.
///
/// Returns whether a password is required, or why the request is refused.
pub fn check_rudoers(args: &App, who: &ResolvedIdentity, policy: &Rudoers) -> (decision: Result<
    bool,
    RudoError,
>)
    ensures
        decision == check_rudoers_spec(*args, *who, policy@),
{
    if args.program().is_none() {
        return Err(RudoError::NoCommandSpecified);
    }
    let alias = args.alias();
    match policy.users.get(who.username.as_str()) {
        Some(entry) => check_entry(entry, who.hostname.as_str(), alias, who.command_path.as_str()),
        None => check_groups(
            policy,
            &who.groups,
            who.hostname.as_str(),
            alias,
            who.command_path.as_str(),
        ),
    }
}

/// A host table with an entry under the wildcard, and none under
/// `hostname` itself, judges a request on `hostname` by the wildcard's rule.
pub proof fn lemma_wildcard_host_applies(
    hosts: Map<Seq<char>, HostRule>,
    hostname: Seq<char>,
    alias: Seq<char>,
    command_path: Seq<char>,
)
    requires
        hosts.contains_key(wildcard()),
        !hosts.contains_key(hostname),
    ensures
        host_rule(hosts, hostname) == Some(hosts[wildcard()]),
        check_entry_spec(Rule::Hosts(hosts), hostname, alias, command_path) == check_host_spec(
            hosts[wildcard()],
            alias,
            command_path,
        ),
{
}

/// A host table with an entry under `hostname` judges by that entry, whether
/// or not it also has one under the wildcard.
pub proof fn lemma_exact_host_wins(
    hosts: Map<Seq<char>, HostRule>,
    hostname: Seq<char>,
    alias: Seq<char>,
    command_path: Seq<char>,
)
    requires
        hosts.contains_key(hostname),
    ensures
        check_entry_spec(Rule::Hosts(hosts), hostname, alias, command_path) == check_host_spec(
            hosts[hostname],
            alias,
            command_path,
        ),
{
}

/// A flat command list that holds the wildcard authorizes every command, as
/// any account and on any host, with a password.
pub proof fn lemma_wildcard_command_list(
    commands: Set<Seq<char>>,
    hostname: Seq<char>,
    alias: Seq<char>,
    command_path: Seq<char>,
)
    requires
        commands.contains(wildcard()),
    ensures
        check_entry_spec(Rule::CommandPaths(commands), hostname, alias, command_path) == Ok::<
            bool,
            RudoError,
        >(true),
{
}

/// A host rule whose commands hold the wildcard authorizes every command
/// for each account that it permits.
pub proof fn lemma_wildcard_command_host(rule: HostRule, alias: Seq<char>, command_path: Seq<char>)
    requires
        rule.commands.contains(wildcard()),
        permits(rule.aliases, alias),
    ensures
        check_host_spec(rule, alias, command_path) == Ok::<bool, RudoError>(rule.password_required),
{
}

/// A host rule whose accounts hold the wildcard lets each of its commands
/// run as any account.
pub proof fn lemma_wildcard_alias_host(rule: HostRule, alias: Seq<char>, command_path: Seq<char>)
    requires
        rule.aliases.contains(wildcard()),
        permits(rule.commands, command_path),
    ensures
        check_host_spec(rule, alias, command_path) == Ok::<bool, RudoError>(rule.password_required),
{
}

/// A host rule that does not permit the requested account refuses with
/// `NoSwitchEntry` where another account than the default was asked for, and
/// with `PermissionDenied` where the default account was, whatever the
/// command.
pub proof fn lemma_switch_denial_kind(rule: HostRule, alias: Seq<char>, command_path: Seq<char>)
    requires
        !permits(rule.aliases, alias),
    ensures
        alias != default_account() ==> check_host_spec(rule, alias, command_path) == Err::<
            bool,
            RudoError,
        >(RudoError::NoSwitchEntry),
        alias == default_account() ==> check_host_spec(rule, alias, command_path) == Err::<
            bool,
            RudoError,
        >(RudoError::PermissionDenied),
{
}

/// A flat command list authorizes each command it names, as any account and
/// on any host, and always asks for a password; every other command it
/// refuses, unless it holds the wildcard.
pub proof fn lemma_command_list_requires_password(
    commands: Set<Seq<char>>,
    hostname: Seq<char>,
    alias: Seq<char>,
    command_path: Seq<char>,
)
    ensures
        commands.contains(command_path) ==> check_entry_spec(
            Rule::CommandPaths(commands),
            hostname,
            alias,
            command_path,
        ) == Ok::<bool, RudoError>(true),
        check_entry_spec(Rule::CommandPaths(commands), hostname, alias, command_path) != Ok::<
            bool,
            RudoError,
        >(false),
        !permits(commands, command_path) ==> check_entry_spec(
            Rule::CommandPaths(commands),
            hostname,
            alias,
            command_path,
        ) == Err::<bool, RudoError>(RudoError::PermissionDenied),
{
}

/// A successful decision never carries an error, and the only refusals an
/// entry gives are `PermissionDenied` and `NoSwitchEntry`.
pub proof fn lemma_entry_refusals(
    rule: Rule,
    hostname: Seq<char>,
    alias: Seq<char>,
    command_path: Seq<char>,
)
    ensures
        match check_entry_spec(rule, hostname, alias, command_path) {
            Ok(_) => true,
            Err(e) => e == RudoError::PermissionDenied || (e == RudoError::NoSwitchEntry && alias
                != default_account()),
        },
{
}

/// Where no group of the user has an entry that permits the action, the
/// group entries refuse with `NotInRudoers`, whatever each entry said.
pub proof fn lemma_groups_all_refuse(
    rules: Map<Seq<char>, Rule>,
    groups: Seq<Seq<char>>,
    hostname: Seq<char>,
    alias: Seq<char>,
    command_path: Seq<char>,
)
    requires
        forall|i: int|
            0 <= i < groups.len() ==> !group_grants(
                rules,
                #[trigger] groups[i],
                hostname,
                alias,
                command_path,
            ),
    ensures
        check_groups_spec(rules, groups, hostname, alias, command_path) == Err::<bool, RudoError>(
            RudoError::NotInRudoers,
        ),
    decreases groups.len(),
{
    if groups.len() > 0 {
        assert(!group_grants(rules, groups[0], hostname, alias, command_path));
        let rest = groups.drop_first();
        assert forall|i: int| 0 <= i < rest.len() implies !group_grants(
            rules,
            #[trigger] rest[i],
            hostname,
            alias,
            command_path,
        ) by {
            assert(rest[i] == groups[i + 1]);
        }
        lemma_groups_all_refuse(rules, rest, hostname, alias, command_path);
    }
}

/// Where the group at position `first` has an entry that permits the action
/// and no group before it has, the group entries decide as that entry does.
pub proof fn lemma_groups_first_grant_wins(
    rules: Map<Seq<char>, Rule>,
    groups: Seq<Seq<char>>,
    first: int,
    hostname: Seq<char>,
    alias: Seq<char>,
    command_path: Seq<char>,
)
    requires
        0 <= first < groups.len(),
        group_grants(rules, groups[first], hostname, alias, command_path),
        forall|i: int|
            0 <= i < first ==> !group_grants(
                rules,
                #[trigger] groups[i],
                hostname,
                alias,
                command_path,
            ),
    ensures
        check_groups_spec(rules, groups, hostname, alias, command_path) == check_entry_spec(
            rules[groups[first]],
            hostname,
            alias,
            command_path,
        ),
        check_groups_spec(rules, groups, hostname, alias, command_path) is Ok,
    decreases first,
{
    if first > 0 {
        assert(!group_grants(rules, groups[0], hostname, alias, command_path));
        let rest = groups.drop_first();
        assert(rest[first - 1] == groups[first]);
        assert forall|i: int| 0 <= i < first - 1 implies !group_grants(
            rules,
            #[trigger] rest[i],
            hostname,
            alias,
            command_path,
        ) by {
            assert(rest[i] == groups[i + 1]);
        }
        lemma_groups_first_grant_wins(rules, rest, first - 1, hostname, alias, command_path);
    }
}

/// The group entries either permit the action or refuse with `NotInRudoers`:
/// no other refusal comes out of them.
pub proof fn lemma_groups_refusal_is_not_in_rudoers(
    rules: Map<Seq<char>, Rule>,
    groups: Seq<Seq<char>>,
    hostname: Seq<char>,
    alias: Seq<char>,
    command_path: Seq<char>,
)
    ensures
        check_groups_spec(rules, groups, hostname, alias, command_path) is Err
            ==> check_groups_spec(rules, groups, hostname, alias, command_path) == Err::<
            bool,
            RudoError,
        >(RudoError::NotInRudoers),
    decreases groups.len(),
{
    if groups.len() > 0 && !group_grants(rules, groups[0], hostname, alias, command_path) {
        lemma_groups_refusal_is_not_in_rudoers(
            rules,
            groups.drop_first(),
            hostname,
            alias,
            command_path,
        );
    }
}

/// A user with an entry of their own is judged by it alone: the groups and
/// their entries change nothing.
pub proof fn lemma_user_entry_shadows_groups(
    policy: Policy,
    username: Seq<char>,
    groups: Seq<Seq<char>>,
    hostname: Seq<char>,
    alias: Seq<char>,
    command_path: Seq<char>,
)
    requires
        policy.users.contains_key(username),
    ensures
        check_policy_spec(policy, username, groups, hostname, alias, command_path)
            == check_entry_spec(policy.users[username], hostname, alias, command_path),
{
}

} // verus!

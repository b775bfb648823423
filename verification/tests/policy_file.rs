use rudo::collections::{StringMap, StringSet};
use rudo::document::{
    decode_entry, decode_host, decode_policy, decode_text_set, encode_policy, Node,
};
use rudo::error::RudoError;
use rudo::policy_file::{parse_document, parse_rudoers, PolicyError};
use rudo::rudoers::{check_entry, Entry, HostPerms, Rudoers};

const NORTHPOLE: &str = r#"
[users.alice.northpole]
password_required = false
aliases = ["root"]
commands = ["/bin/cat", "/bin/grep", "/bin/xargs"]
"#;

fn set_of(items: &[&str]) -> StringSet {
    let mut set = StringSet::new();
    for item in items {
        set.insert(item.to_string());
    }
    set
}

fn table(fields: Vec<(&str, Node)>) -> Node {
    Node::Table(StringMap {
        entries: fields.into_iter().map(|(k, v)| (k.to_string(), v)).collect(),
    })
}

fn strings(items: &[&str]) -> Node {
    Node::Array(items.iter().map(|s| Node::Text(s.to_string())).collect())
}

fn lower(node: &Node) -> toml::Value {
    match node {
        Node::Text(text) => toml::Value::String(text.clone()),
        Node::Flag(flag) => toml::Value::Boolean(*flag),
        Node::Array(items) => toml::Value::Array(items.iter().map(lower).collect()),
        Node::Table(fields) => toml::Value::Table(
            fields.entries.iter().map(|(k, v)| (k.clone(), lower(v))).collect(),
        ),
        Node::Other => toml::Value::Integer(0),
    }
}

fn sample_policy() -> Rudoers {
    let perms = HostPerms {
        password_required: false,
        aliases: set_of(&["root"]),
        commands: set_of(&["/bin/cat", "/bin/grep", "/bin/xargs"]),
    };
    let mut policy = Rudoers::default();
    for user in ["alice", "bob"] {
        let mut hosts = StringMap::new();
        hosts.insert("northpole".to_string(), perms.clone());
        policy.users.insert(user.to_string(), Entry::Hosts(hosts));
    }
    policy
}

#[test]
fn rudoers_toml() {
    let rudoers = sample_policy();
    let text = toml::to_string(&lower(&encode_policy(&rudoers))).unwrap();
    assert!(text.contains("[users.alice.northpole]"));
    assert!(text.contains("[users.bob.northpole]"));
    assert_eq!(parse_rudoers(&text), Ok(rudoers));
}

#[test]
fn parsed_policy_authorizes_listed_command() {
    let policy = parse_rudoers(NORTHPOLE).unwrap();
    let alice = policy.users.get("alice").unwrap();
    assert!(matches!(alice, Entry::Hosts(_)));
    assert_eq!(check_entry(alice, "northpole", "root", "/bin/cat"), Ok(false));
    assert_eq!(
        check_entry(alice, "northpole", "root", "/bin/rm"),
        Err(RudoError::PermissionDenied)
    );
    assert_eq!(policy.groups.entries.len(), 0);
}

#[test]
fn text_that_is_not_toml_is_a_syntax_error() {
    assert!(matches!(parse_rudoers("users = ["), Err(PolicyError::Syntax(_))));
    assert!(parse_document("users = [").is_err());
}

#[test]
fn document_without_users_is_no_policy() {
    assert_eq!(parse_rudoers("[groups]\nwheel = [\"ALL\"]\n"), Err(PolicyError::Shape));
    assert_eq!(parse_rudoers(""), Err(PolicyError::Shape));
}

#[test]
fn parsed_document_keeps_kinds_and_content() {
    let node = parse_document("a = \"x\"\nb = true\nc = [\"y\", 1]\nd = 1.5\n[e]\nf = 1979-05-27\n")
        .unwrap();
    let expected = table(vec![
        ("a", Node::Text("x".to_string())),
        ("b", Node::Flag(true)),
        ("c", Node::Array(vec![Node::Text("y".to_string()), Node::Other])),
        ("d", Node::Other),
        ("e", table(vec![("f", Node::Other)])),
    ]);
    assert_eq!(node, expected);
}

#[test]
fn entry_kind_is_told_by_shape() {
    let policy = parse_rudoers(
        r#"
[users]
carol = ["/bin/ls", "ALL"]

[users.dave.ALL]
aliases = ["ALL"]

[groups.wheel.northpole]
password_required = true
aliases = ["root", "bob"]
commands = []
"#,
    )
    .unwrap();
    assert_eq!(
        policy.users.get("carol"),
        Some(&Entry::CommandPaths(set_of(&["/bin/ls", "ALL"])))
    );
    let mut dave = StringMap::new();
    dave.insert(
        "ALL".to_string(),
        HostPerms { password_required: true, aliases: set_of(&["ALL"]), commands: set_of(&[]) },
    );
    assert_eq!(policy.users.get("dave"), Some(&Entry::Hosts(dave)));
    let mut wheel = StringMap::new();
    wheel.insert(
        "northpole".to_string(),
        HostPerms {
            password_required: true,
            aliases: set_of(&["root", "bob"]),
            commands: set_of(&[]),
        },
    );
    assert_eq!(policy.groups.get("wheel"), Some(&Entry::Hosts(wheel)));
}

#[test]
fn host_defaults_apply_where_keys_are_absent() {
    let perms = decode_host(&table(vec![("aliases", strings(&["root"]))])).unwrap();
    assert!(perms.password_required);
    assert_eq!(perms.aliases, set_of(&["root"]));
    assert_eq!(perms.commands, set_of(&[]));
    let perms = decode_host(&table(vec![
        ("aliases", strings(&["root"])),
        ("comment", Node::Other),
        ("password_required", Node::Flag(false)),
    ]))
    .unwrap();
    assert!(!perms.password_required);
}

#[test]
fn host_without_aliases_or_with_wrong_kinds_is_refused() {
    assert_eq!(decode_host(&table(vec![("commands", strings(&["/bin/ls"]))])), None);
    assert_eq!(
        decode_host(&table(vec![
            ("aliases", strings(&["root"])),
            ("password_required", Node::Text("no".to_string())),
        ])),
        None
    );
    assert_eq!(
        decode_host(&table(vec![("aliases", Node::Text("root".to_string()))])),
        None
    );
    assert_eq!(
        decode_host(&table(vec![("aliases", strings(&["root"])), ("commands", Node::Flag(true))])),
        None
    );
    assert_eq!(decode_host(&strings(&["root"])), None);
}

#[test]
fn text_sets_drop_repeats_and_refuse_other_items() {
    assert_eq!(decode_text_set(&strings(&["a", "b", "a"])), Some(set_of(&["a", "b"])));
    assert_eq!(decode_text_set(&strings(&[])), Some(set_of(&[])));
    assert_eq!(decode_text_set(&Node::Array(vec![Node::Text("a".to_string()), Node::Flag(true)])), None);
    assert_eq!(decode_text_set(&Node::Text("a".to_string())), None);
}

#[test]
fn entries_of_other_shapes_are_refused() {
    assert_eq!(decode_entry(&Node::Text("ALL".to_string())), None);
    assert_eq!(decode_entry(&Node::Flag(true)), None);
    assert_eq!(decode_entry(&Node::Other), None);
    assert_eq!(decode_entry(&Node::Array(vec![Node::Other])), None);
    assert_eq!(decode_entry(&table(vec![("northpole", strings(&["root"]))])), None);
    assert_eq!(decode_entry(&table(vec![])), Some(Entry::Hosts(StringMap::new())));
    assert_eq!(decode_entry(&strings(&[])), Some(Entry::CommandPaths(set_of(&[]))));
}

#[test]
fn policy_needs_a_users_table() {
    assert_eq!(decode_policy(&table(vec![])), None);
    assert_eq!(decode_policy(&table(vec![("users", strings(&[]))])), None);
    assert_eq!(decode_policy(&Node::Other), None);
    assert_eq!(decode_policy(&table(vec![("users", table(vec![]))])), Some(Rudoers::default()));
    assert_eq!(
        decode_policy(&table(vec![("users", table(vec![])), ("groups", Node::Flag(true))])),
        None
    );
    assert_eq!(
        decode_policy(&table(vec![("users", table(vec![("eve", Node::Other)]))])),
        None
    );
}

#[test]
fn policy_document_round_trip() {
    let mut policy = sample_policy();
    policy.users.insert("carol".to_string(), Entry::CommandPaths(set_of(&["/bin/ls"])));
    let mut hosts = StringMap::new();
    hosts.insert(
        "ALL".to_string(),
        HostPerms { password_required: true, aliases: set_of(&["ALL"]), commands: set_of(&[]) },
    );
    policy.groups.insert("wheel".to_string(), Entry::Hosts(hosts));
    policy.groups.insert("ops".to_string(), Entry::CommandPaths(set_of(&[])));
    let document = encode_policy(&policy);
    assert_eq!(decode_policy(&document), Some(policy.clone()));

    let text = toml::to_string(&lower(&document)).unwrap();
    let read = parse_rudoers(&text).unwrap();
    for name in ["alice", "bob", "carol"] {
        assert_eq!(read.users.get(name), policy.users.get(name));
    }
    for name in ["wheel", "ops"] {
        assert_eq!(read.groups.get(name), policy.groups.get(name));
    }
    assert_eq!(read.users.entries.len(), 3);
    assert_eq!(read.groups.entries.len(), 2);
}

#[test]
fn encoded_host_holds_all_three_keys() {
    let mut hosts = StringMap::new();
    hosts.insert(
        "northpole".to_string(),
        HostPerms {
            password_required: false,
            aliases: set_of(&["root"]),
            commands: set_of(&["/bin/cat"]),
        },
    );
    let mut policy = Rudoers::default();
    policy.users.insert("alice".to_string(), Entry::Hosts(hosts));
    let expected = table(vec![
        (
            "users",
            table(vec![(
                "alice",
                table(vec![(
                    "northpole",
                    table(vec![
                        ("password_required", Node::Flag(false)),
                        ("aliases", strings(&["root"])),
                        ("commands", strings(&["/bin/cat"])),
                    ]),
                )]),
            )]),
        ),
        ("groups", table(vec![])),
    ]);
    assert_eq!(encode_policy(&policy), expected);
}

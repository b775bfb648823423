//! The policy file as a tree of values, and the policy it spells out.
//!
//! A policy document is a table with the sections `users` and `groups`. Each
//! section maps a principal to an entry, and the shape of the entry's value
//! alone tells which kind it is: an array of strings is a flat command list,
//! a table is a table of hosts.

use vstd::prelude::*;
use crate::collections::{StringMap, StringSet};
use crate::rudoers::{Entry, HostPerms, HostRule, Policy, Rudoers, Rule};

verus! {

/// One value of a parsed document.
#[derive(Debug, PartialEq, Eq)]
pub enum Node {
    /// A string.
    Text(String),
    /// A boolean.
    Flag(bool),
    /// An array of values.
    Array(Vec<Node>),
    /// A table of values by key.
    Table(StringMap<Node>),
    /// A value of a kind that no policy uses: a number or a date.
    Other,
}

/// The mathematical content of a [`Node`].
pub enum Doc {
    Text(Seq<char>),
    Flag(bool),
    Array(Seq<Doc>),
    Table(Map<Seq<char>, Doc>),
    Other,
}

impl Node {
    /// The content of this value.
    pub open spec fn doc(&self) -> Doc
        decreases self,
    {
        match self {
            Node::Text(text) => Doc::Text(text@),
            Node::Flag(flag) => Doc::Flag(*flag),
            Node::Array(items) => Doc::Array(
                Seq::new(
                    items@.len(),
                    |i: int|
                        if 0 <= i < items@.len() {
                            items@[i].doc()
                        } else {
                            Doc::Other
                        },
                ),
            ),
            Node::Table(fields) => Doc::Table(
                Map::new(
                    |k: Seq<char>| fields.has_key(k),
                    |k: Seq<char>|
                        {
                            let i = fields.slot(k);
                            if 0 <= i < fields.entries@.len() {
                                fields.entries@[i].1.doc()
                            } else {
                                Doc::Other
                            }
                        },
                ),
            ),
            Node::Other => Doc::Other,
        }
    }
}

impl View for Node {
    type V = Doc;

    open spec fn view(&self) -> Doc {
        self.doc()
    }
}

/// The content of a table is the content of each value under its key.
pub proof fn lemma_table_doc(fields: StringMap<Node>)
    ensures
        Node::Table(fields).doc() == Doc::Table(fields@.map_values(|n: Node| n.doc())),
{
    let direct = Node::Table(fields).doc()->Table_0;
    let mapped = fields@.map_values(|n: Node| n.doc());
    assert forall|k: Seq<char>| #[trigger] direct.contains_key(k) implies direct[k] == mapped[k] by {
        fields.lemma_slot(k);
    }
    assert(direct =~= mapped);
}

/// The content of an array is the content of each item at its place.
pub proof fn lemma_array_doc(items: Vec<Node>)
    ensures
        Node::Array(items).doc() == Doc::Array(items@.map_values(|n: Node| n.doc())),
{
    assert(Node::Array(items).doc()->Array_0 =~= items@.map_values(|n: Node| n.doc()));
}

/// The set that an array of strings spells out; `None` for any other value.
pub open spec fn text_set(doc: Doc) -> Option<Set<Seq<char>>> {
    match doc {
        Doc::Array(items) => {
            if forall|i: int| 0 <= i < items.len() ==> #[trigger] items[i] is Text {
                Some(Set::new(|text: Seq<char>| items.contains(Doc::Text(text))))
            } else {
                None
            }
        },
        _ => None,
    }
}

/// The rule that a host's table spells out: `aliases` is needed,
/// `password_required` is `true` where absent, `commands` is empty where
/// absent, other keys count for nothing. `None` where the value is no table
/// or one of the three has the wrong kind.
pub open spec fn host_rule_of(doc: Doc) -> Option<HostRule> {
    match doc {
        Doc::Table(fields) => {
            let required = if fields.contains_key("password_required"@) {
                match fields["password_required"@] {
                    Doc::Flag(flag) => Some(flag),
                    _ => None,
                }
            } else {
                Some(true)
            };
            let aliases = if fields.contains_key("aliases"@) {
                text_set(fields["aliases"@])
            } else {
                None
            };
            let commands = if fields.contains_key("commands"@) {
                text_set(fields["commands"@])
            } else {
                Some(Set::empty())
            };
            if required is Some && aliases is Some && commands is Some {
                Some(
                    HostRule {
                        password_required: required->Some_0,
                        aliases: aliases->Some_0,
                        commands: commands->Some_0,
                    },
                )
            } else {
                None
            }
        },
        _ => None,
    }
}

/// The host table that a table of hosts spells out; `None` where the value
/// of some host spells out no rule.
pub open spec fn hosts_of(fields: Map<Seq<char>, Doc>) -> Option<Map<Seq<char>, HostRule>> {
    if forall|k: Seq<char>| fields.contains_key(k) ==> #[trigger] host_rule_of(fields[k]) is Some {
        Some(fields.map_values(|d: Doc| host_rule_of(d)->Some_0))
    } else {
        None
    }
}

/// The entry that a value spells out, told by its shape: an array of
/// strings is a command list, a table is a table of hosts.
pub open spec fn rule_of(doc: Doc) -> Option<Rule> {
    match doc {
        Doc::Array(_) => match text_set(doc) {
            Some(commands) => Some(Rule::CommandPaths(commands)),
            None => None,
        },
        Doc::Table(fields) => match hosts_of(fields) {
            Some(hosts) => Some(Rule::Hosts(hosts)),
            None => None,
        },
        _ => None,
    }
}

/// The entries by principal that a section spells out.
pub open spec fn section_of(doc: Doc) -> Option<Map<Seq<char>, Rule>> {
    match doc {
        Doc::Table(fields) => {
            if forall|k: Seq<char>| fields.contains_key(k) ==> #[trigger] rule_of(fields[k]) is Some {
                Some(fields.map_values(|d: Doc| rule_of(d)->Some_0))
            } else {
                None
            }
        },
        _ => None,
    }
}

/// The policy that a document spells out: `users` is needed, `groups` is
/// empty where absent, other keys count for nothing. `None` where the
/// document is no policy.
pub open spec fn policy_of(doc: Doc) -> Option<Policy> {
    match doc {
        Doc::Table(fields) => {
            let users = if fields.contains_key("users"@) {
                section_of(fields["users"@])
            } else {
                None
            };
            let groups = if fields.contains_key("groups"@) {
                section_of(fields["groups"@])
            } else {
                Some(Map::empty())
            };
            if users is Some && groups is Some {
                Some(Policy { users: users->Some_0, groups: groups->Some_0 })
            } else {
                None
            }
        },
        _ => None,
    }
}

/// Reads a set of strings from an array of strings.
pub fn decode_text_set(node: &Node) -> (decoded: Option<StringSet>)
    ensures
        match decoded {
            Some(set) => text_set(node@) == Some(set@) && set.wf(),
            None => text_set(node@) is None,
        },
{
    match node {
        Node::Array(items) => {
            let ghost docs = node@->Array_0;
            let mut set = StringSet::new();
            let mut i: usize = 0;
            while i < items.len()
                invariant
                    i <= items@.len(),
                    node@ == Doc::Array(docs),
                    docs.len() == items@.len(),
                    forall|j: int| 0 <= j < items@.len() ==> #[trigger] docs[j] == items@[j].doc(),
                    forall|j: int| 0 <= j < i ==> #[trigger] docs[j] is Text,
                    set.wf(),
                    forall|text: Seq<char>|
                        set@.contains(text) <==> exists|j: int|
                            0 <= j < i && #[trigger] docs[j] == Doc::Text(text),
                decreases items@.len() - i,
            {
                match &items[i] {
                    Node::Text(text) => {
                        let ghost before = set@;
                        set.insert(text.clone());
                        assert forall|t: Seq<char>| set@.contains(t) <==> exists|j: int|
                            0 <= j < i + 1 && #[trigger] docs[j] == Doc::Text(t) by {
                            if set@.contains(t) {
                                if before.contains(t) {
                                    let j = choose|j: int|
                                        0 <= j < i && #[trigger] docs[j] == Doc::Text(t);
                                    assert(0 <= j < i + 1 && docs[j] == Doc::Text(t));
                                } else {
                                    assert(docs[i as int] == Doc::Text(t));
                                }
                            }
                            if exists|j: int| 0 <= j < i + 1 && #[trigger] docs[j] == Doc::Text(t) {
                                let j = choose|j: int|
                                    0 <= j < i + 1 && #[trigger] docs[j] == Doc::Text(t);
                                if j < i {
                                    assert(before.contains(t));
                                }
                            }
                        }
                    },
                    _ => {
                        assert(!(docs[i as int] is Text));
                        return None;
                    },
                }
                i += 1;
            }
            assert(set@ =~= text_set(node@)->Some_0) by {
                assert forall|t: Seq<char>| set@.contains(t) <==> docs.contains(Doc::Text(t)) by {
                    if docs.contains(Doc::Text(t)) {
                        let j = choose|j: int| 0 <= j < docs.len() && docs[j] == Doc::Text(t);
                        assert(0 <= j < i && docs[j] == Doc::Text(t));
                    }
                }
            }
            Some(set)
        },
        _ => None,
    }
}

/// Reads the rule of one host from its table.
pub fn decode_host(node: &Node) -> (decoded: Option<HostPerms>)
    ensures
        match decoded {
            Some(perms) => host_rule_of(node@) == Some(perms@) && perms.wf(),
            None => host_rule_of(node@) is None,
        },
{
    match node {
        Node::Table(fields) => {
            proof {
                lemma_table_doc(*fields);
            }
            let password_required = match fields.get("password_required") {
                Some(Node::Flag(flag)) => *flag,
                Some(_) => {
                    return None;
                },
                None => true,
            };
            let aliases = match fields.get("aliases") {
                Some(listed) => match decode_text_set(listed) {
                    Some(set) => set,
                    None => {
                        return None;
                    },
                },
                None => {
                    return None;
                },
            };
            let commands = match fields.get("commands") {
                Some(listed) => match decode_text_set(listed) {
                    Some(set) => set,
                    None => {
                        return None;
                    },
                },
                None => StringSet::new(),
            };
            Some(HostPerms { password_required, aliases, commands })
        },
        _ => None,
    }
}

/// Reads a table of hosts.
pub fn decode_hosts(fields: &StringMap<Node>) -> (decoded: Option<StringMap<HostPerms>>)
    ensures
        match decoded {
            Some(hosts) => {
                &&& hosts_of(Node::Table(*fields)@->Table_0) == Some(
                    hosts@.map_values(|perms: HostPerms| perms@),
                )
                &&& Entry::Hosts(hosts).wf()
            },
            None => hosts_of(Node::Table(*fields)@->Table_0) is None,
        },
{
    proof {
        lemma_table_doc(*fields);
    }
    let ghost docs = fields@.map_values(|n: Node| n.doc());
    let mut hosts: StringMap<HostPerms> = StringMap::new();
    let mut i: usize = 0;
    while i < fields.entries.len()
        invariant
            i <= fields.entries@.len(),
            docs == fields@.map_values(|n: Node| n.doc()),
            Node::Table(*fields)@ == Doc::Table(docs),
            hosts.wf(),
            forall|j: int| 0 <= j < hosts.entries@.len() ==> (#[trigger] hosts.entries@[j]).1.wf(),
            forall|k: Seq<char>|
                hosts@.contains_key(k) <==> exists|j: int|
                    0 <= j < i && #[trigger] fields.key_at(j) == k,
            forall|k: Seq<char>| #[trigger]
                hosts@.contains_key(k) ==> docs.contains_key(k) && host_rule_of(docs[k]) == Some(
                    hosts@[k]@,
                ),
        decreases fields.entries@.len() - i,
    {
        let name = &fields.entries[i].0;
        let ghost k0 = name@;
        assert(fields.key_at(i as int) == k0);
        if !hosts.contains_key(name.as_str()) {
            proof {
                assert(fields.first_at(k0, i as int)) by {
                    assert forall|j: int| 0 <= j < i implies #[trigger] fields.key_at(j) != k0 by {
                        if fields.key_at(j) == k0 {
                            assert(hosts@.contains_key(k0));
                        }
                    }
                }
                fields.lemma_slot(k0);
                assert(docs.contains_key(k0) && docs[k0] == fields.entries@[i as int].1.doc());
            }
            match decode_host(&fields.entries[i].1) {
                Some(perms) => {
                    let ghost before = hosts;
                    hosts.insert(name.clone(), perms);
                    proof {
                        assert forall|j: int| 0 <= j < hosts.entries@.len() implies (
                        #[trigger] hosts.entries@[j]).1.wf() by {
                            if j < before.entries@.len() {
                                assert(hosts.entries@[j] == before.entries@[j]);
                            }
                        }
                        assert forall|k: Seq<char>|
                            hosts@.contains_key(k) <==> exists|j: int|
                                0 <= j < i + 1 && #[trigger] fields.key_at(j) == k by {
                            if before@.contains_key(k) {
                                let j = choose|j: int| 0 <= j < i && #[trigger] fields.key_at(j) == k;
                                assert(0 <= j < i + 1 && fields.key_at(j) == k);
                            }
                            if exists|j: int| 0 <= j < i + 1 && #[trigger] fields.key_at(j) == k {
                                let j = choose|j: int|
                                    0 <= j < i + 1 && #[trigger] fields.key_at(j) == k;
                                if j < i {
                                    assert(before@.contains_key(k));
                                }
                            }
                        }
                    }
                },
                None => {
                    assert(docs.contains_key(k0) && host_rule_of(docs[k0]) is None);
                    return None;
                },
            }
        } else {
            proof {
                assert forall|k: Seq<char>|
                    hosts@.contains_key(k) <==> exists|j: int|
                        0 <= j < i + 1 && #[trigger] fields.key_at(j) == k by {
                    if hosts@.contains_key(k) {
                        let j = choose|j: int| 0 <= j < i && #[trigger] fields.key_at(j) == k;
                        assert(0 <= j < i + 1 && fields.key_at(j) == k);
                    }
                    if exists|j: int| 0 <= j < i + 1 && #[trigger] fields.key_at(j) == k {
                        let j = choose|j: int| 0 <= j < i + 1 && #[trigger] fields.key_at(j) == k;
                        assert(j < i || k == k0);
                    }
                }
            }
        }
        i += 1;
    }
    proof {
        let decoded = hosts@.map_values(|perms: HostPerms| perms@);
        assert forall|k: Seq<char>| docs.contains_key(k) implies hosts@.contains_key(k) by {
            let j = choose|j: int|
                0 <= j < fields.entries@.len() && #[trigger] fields.key_at(j) == k;
            assert(0 <= j < i && fields.key_at(j) == k);
        }
        assert(hosts_of(docs) is Some);
        assert(decoded =~= hosts_of(docs)->Some_0);
    }
    Some(hosts)
}

/// Reads one entry, told by the shape of its value.
pub fn decode_entry(node: &Node) -> (decoded: Option<Entry>)
    ensures
        match decoded {
            Some(entry) => rule_of(node@) == Some(entry@) && entry.wf(),
            None => rule_of(node@) is None,
        },
{
    match node {
        Node::Array(_) => match decode_text_set(node) {
            Some(commands) => Some(Entry::CommandPaths(commands)),
            None => None,
        },
        Node::Table(fields) => match decode_hosts(fields) {
            Some(hosts) => Some(Entry::Hosts(hosts)),
            None => None,
        },
        _ => None,
    }
}

/// Reads the entries of one section.
pub fn decode_section(node: &Node) -> (decoded: Option<StringMap<Entry>>)
    ensures
        match decoded {
            Some(entries) => {
                &&& section_of(node@) == Some(entries@.map_values(|entry: Entry| entry@))
                &&& entries.wf()
                &&& forall|j: int|
                    0 <= j < entries.entries@.len() ==> (#[trigger] entries.entries@[j]).1.wf()
            },
            None => section_of(node@) is None,
        },
{
    let fields = match node {
        Node::Table(fields) => fields,
        _ => {
            return None;
        },
    };
    proof {
        lemma_table_doc(*fields);
    }
    let ghost docs = fields@.map_values(|n: Node| n.doc());
    let mut entries: StringMap<Entry> = StringMap::new();
    let mut i: usize = 0;
    while i < fields.entries.len()
        invariant
            i <= fields.entries@.len(),
            docs == fields@.map_values(|n: Node| n.doc()),
            node@ == Doc::Table(docs),
            entries.wf(),
            forall|j: int|
                0 <= j < entries.entries@.len() ==> (#[trigger] entries.entries@[j]).1.wf(),
            forall|k: Seq<char>|
                entries@.contains_key(k) <==> exists|j: int|
                    0 <= j < i && #[trigger] fields.key_at(j) == k,
            forall|k: Seq<char>| #[trigger]
                entries@.contains_key(k) ==> docs.contains_key(k) && rule_of(docs[k]) == Some(
                    entries@[k]@,
                ),
        decreases fields.entries@.len() - i,
    {
        let name = &fields.entries[i].0;
        let ghost k0 = name@;
        assert(fields.key_at(i as int) == k0);
        if !entries.contains_key(name.as_str()) {
            proof {
                assert(fields.first_at(k0, i as int)) by {
                    assert forall|j: int| 0 <= j < i implies #[trigger] fields.key_at(j) != k0 by {
                        if fields.key_at(j) == k0 {
                            assert(entries@.contains_key(k0));
                        }
                    }
                }
                fields.lemma_slot(k0);
                assert(docs.contains_key(k0) && docs[k0] == fields.entries@[i as int].1.doc());
            }
            match decode_entry(&fields.entries[i].1) {
                Some(entry) => {
                    let ghost before = entries;
                    entries.insert(name.clone(), entry);
                    proof {
                        assert forall|j: int| 0 <= j < entries.entries@.len() implies (
                        #[trigger] entries.entries@[j]).1.wf() by {
                            if j < before.entries@.len() {
                                assert(entries.entries@[j] == before.entries@[j]);
                            }
                        }
                        assert forall|k: Seq<char>|
                            entries@.contains_key(k) <==> exists|j: int|
                                0 <= j < i + 1 && #[trigger] fields.key_at(j) == k by {
                            if before@.contains_key(k) {
                                let j = choose|j: int| 0 <= j < i && #[trigger] fields.key_at(j) == k;
                                assert(0 <= j < i + 1 && fields.key_at(j) == k);
                            }
                            if exists|j: int| 0 <= j < i + 1 && #[trigger] fields.key_at(j) == k {
                                let j = choose|j: int|
                                    0 <= j < i + 1 && #[trigger] fields.key_at(j) == k;
                                if j < i {
                                    assert(before@.contains_key(k));
                                }
                            }
                        }
                    }
                },
                None => {
                    assert(docs.contains_key(k0) && rule_of(docs[k0]) is None);
                    return None;
                },
            }
        } else {
            proof {
                assert forall|k: Seq<char>|
                    entries@.contains_key(k) <==> exists|j: int|
                        0 <= j < i + 1 && #[trigger] fields.key_at(j) == k by {
                    if entries@.contains_key(k) {
                        let j = choose|j: int| 0 <= j < i && #[trigger] fields.key_at(j) == k;
                        assert(0 <= j < i + 1 && fields.key_at(j) == k);
                    }
                    if exists|j: int| 0 <= j < i + 1 && #[trigger] fields.key_at(j) == k {
                        let j = choose|j: int| 0 <= j < i + 1 && #[trigger] fields.key_at(j) == k;
                        assert(j < i || k == k0);
                    }
                }
            }
        }
        i += 1;
    }
    proof {
        let decoded = entries@.map_values(|entry: Entry| entry@);
        assert forall|k: Seq<char>| docs.contains_key(k) implies entries@.contains_key(k) by {
            let j = choose|j: int|
                0 <= j < fields.entries@.len() && #[trigger] fields.key_at(j) == k;
            assert(0 <= j < i && fields.key_at(j) == k);
        }
        assert(section_of(node@) is Some);
        assert(decoded =~= section_of(node@)->Some_0);
    }
    Some(entries)
}

/// Reads the policy that a document spells out.
///
/// Returns `None` where the document is no policy: where it is no table,
/// has no `users` section, or holds a value of the wrong shape.
pub fn decode_policy(node: &Node) -> (decoded: Option<Rudoers>)
    ensures
        match decoded {
            Some(policy) => policy_of(node@) == Some(policy@) && policy.wf(),
            None => policy_of(node@) is None,
        },
{
    match node {
        Node::Table(fields) => {
            proof {
                lemma_table_doc(*fields);
            }
            let users = match fields.get("users") {
                Some(section) => match decode_section(section) {
                    Some(entries) => entries,
                    None => {
                        return None;
                    },
                },
                None => {
                    return None;
                },
            };
            let groups = match fields.get("groups") {
                Some(section) => match decode_section(section) {
                    Some(entries) => entries,
                    None => {
                        return None;
                    },
                },
                None => StringMap::new(),
            };
            let policy = Rudoers { users, groups };
            assert(policy@.groups =~= policy_of(node@)->Some_0.groups);
            Some(policy)
        },
        _ => None,
    }
}

/// The array of strings that writes a set down, in the order stored.
pub open spec fn encode_set(set: StringSet) -> Doc {
    Doc::Array(set.items@.map_values(|item: String| Doc::Text(item@)))
}

/// The table that writes the rule of one host down, with all three keys.
pub open spec fn encode_host(perms: HostPerms) -> Doc {
    Doc::Table(
        Map::<Seq<char>, Doc>::empty().insert(
            "password_required"@,
            Doc::Flag(perms.password_required),
        ).insert("aliases"@, encode_set(perms.aliases)).insert(
            "commands"@,
            encode_set(perms.commands),
        ),
    )
}

/// The value that writes an entry down: an array for a command list, a
/// table for a table of hosts.
pub open spec fn encode_entry(entry: Entry) -> Doc {
    match entry {
        Entry::CommandPaths(commands) => encode_set(commands),
        Entry::Hosts(hosts) => Doc::Table(hosts@.map_values(|perms: HostPerms| encode_host(perms))),
    }
}

/// The table that writes the entries of one section down.
pub open spec fn encode_section(entries: StringMap<Entry>) -> Doc {
    Doc::Table(entries@.map_values(|entry: Entry| encode_entry(entry)))
}

/// The document that writes a policy down, with both sections.
pub open spec fn encode_doc(policy: Rudoers) -> Doc {
    Doc::Table(
        Map::<Seq<char>, Doc>::empty().insert("users"@, encode_section(policy.users)).insert(
            "groups"@,
            encode_section(policy.groups),
        ),
    )
}

/// Writes a set of strings as an array.
pub fn encode_text_set(set: &StringSet) -> (node: Node)
    ensures
        node@ == encode_set(*set),
{
    let mut items: Vec<Node> = Vec::new();
    let mut i: usize = 0;
    while i < set.items.len()
        invariant
            i <= set.items@.len(),
            items@.len() == i,
            forall|j: int| 0 <= j < i ==> (#[trigger] items@[j]).doc() == Doc::Text(set.items@[j]@),
        decreases set.items@.len() - i,
    {
        items.push(Node::Text(set.items[i].clone()));
        i += 1;
    }
    proof {
        lemma_array_doc(items);
        assert(items@.map_values(|n: Node| n.doc()) =~= set.items@.map_values(
            |item: String| Doc::Text(item@),
        ));
    }
    Node::Array(items)
}

/// Writes the rule of one host as a table.
pub fn encode_host_perms(perms: &HostPerms) -> (node: Node)
    ensures
        node@ == encode_host(*perms),
{
    let mut fields: StringMap<Node> = StringMap::new();
    fields.insert("password_required".to_owned(), Node::Flag(perms.password_required));
    fields.insert("aliases".to_owned(), encode_text_set(&perms.aliases));
    fields.insert("commands".to_owned(), encode_text_set(&perms.commands));
    proof {
        lemma_table_doc(fields);
        assert(fields@.map_values(|n: Node| n.doc()) =~= encode_host(*perms)->Table_0);
    }
    Node::Table(fields)
}

/// Writes an entry as an array or a table.
pub fn encode_rule(entry: &Entry) -> (node: Node)
    ensures
        node@ == encode_entry(*entry),
{
    match entry {
        Entry::CommandPaths(commands) => encode_text_set(commands),
        Entry::Hosts(hosts) => {
            let mut entries: Vec<(String, Node)> = Vec::new();
            let mut i: usize = 0;
            while i < hosts.entries.len()
                invariant
                    i <= hosts.entries@.len(),
                    entries@.len() == i,
                    forall|j: int|
                        0 <= j < i ==> (#[trigger] entries@[j]).0@ == hosts.key_at(j) && entries@[j].1.doc()
                            == encode_host(hosts.entries@[j].1),
                decreases hosts.entries@.len() - i,
            {
                let name = hosts.entries[i].0.clone();
                let value = encode_host_perms(&hosts.entries[i].1);
                entries.push((name, value));
                i += 1;
            }
            let fields = StringMap { entries };
            proof {
                lemma_table_doc(fields);
                fields.lemma_same_keys(hosts);
                let written = fields@.map_values(|n: Node| n.doc());
                let wanted = hosts@.map_values(|perms: HostPerms| encode_host(perms));
                assert forall|k: Seq<char>| #[trigger] written.contains_key(k) implies written[k]
                    == wanted[k] by {
                    fields.lemma_slot(k);
                    assert(fields.entries@[fields.slot(k)].1.doc() == encode_host(
                        hosts.entries@[fields.slot(k)].1,
                    ));
                }
                assert(written =~= wanted);
            }
            Node::Table(fields)
        },
    }
}

/// Writes the entries of one section as a table.
pub fn encode_entries(section: &StringMap<Entry>) -> (node: Node)
    ensures
        node@ == encode_section(*section),
{
    let mut entries: Vec<(String, Node)> = Vec::new();
    let mut i: usize = 0;
    while i < section.entries.len()
        invariant
            i <= section.entries@.len(),
            entries@.len() == i,
            forall|j: int|
                0 <= j < i ==> (#[trigger] entries@[j]).0@ == section.key_at(j) && entries@[j].1.doc()
                    == encode_entry(section.entries@[j].1),
        decreases section.entries@.len() - i,
    {
        let name = section.entries[i].0.clone();
        let value = encode_rule(&section.entries[i].1);
        entries.push((name, value));
        i += 1;
    }
    let fields = StringMap { entries };
    proof {
        lemma_table_doc(fields);
        fields.lemma_same_keys(section);
        let written = fields@.map_values(|n: Node| n.doc());
        let wanted = section@.map_values(|entry: Entry| encode_entry(entry));
        assert forall|k: Seq<char>| #[trigger] written.contains_key(k) implies written[k]
            == wanted[k] by {
            fields.lemma_slot(k);
            assert(fields.entries@[fields.slot(k)].1.doc() == encode_entry(
                section.entries@[fields.slot(k)].1,
            ));
        }
        assert(written =~= wanted);
    }
    Node::Table(fields)
}

/// Writes a policy as a document.
pub fn encode_policy(policy: &Rudoers) -> (node: Node)
    ensures
        node@ == encode_doc(*policy),
{
    let mut fields: StringMap<Node> = StringMap::new();
    fields.insert("users".to_owned(), encode_entries(&policy.users));
    fields.insert("groups".to_owned(), encode_entries(&policy.groups));
    proof {
        lemma_table_doc(fields);
        assert(fields@.map_values(|n: Node| n.doc()) =~= encode_doc(*policy)->Table_0);
    }
    Node::Table(fields)
}

/// A set that is written down and read again is the same set.
pub proof fn lemma_set_round_trip(set: StringSet)
    ensures
        text_set(encode_set(set)) == Some(set@),
{
    let items = set.items@.map_values(|item: String| Doc::Text(item@));
    assert forall|i: int| 0 <= i < items.len() implies #[trigger] items[i] is Text by {}
    let read = Set::new(|text: Seq<char>| items.contains(Doc::Text(text)));
    assert forall|text: Seq<char>| read.contains(text) <==> set@.contains(text) by {
        if read.contains(text) {
            let i = choose|i: int| 0 <= i < items.len() && items[i] == Doc::Text(text);
            assert(set.items@[i]@ == text);
        }
        if set@.contains(text) {
            let i = choose|i: int| 0 <= i < set.items@.len() && #[trigger] set.items@[i]@ == text;
            assert(items[i] == Doc::Text(text));
        }
    }
    assert(read =~= set@);
}

/// The rule of a host that is written down and read again is the same rule.
pub proof fn lemma_host_round_trip(perms: HostPerms)
    ensures
        host_rule_of(encode_host(perms)) == Some(perms@),
{
    reveal_strlit("password_required");
    reveal_strlit("aliases");
    reveal_strlit("commands");
    assert("password_required"@.len() != "aliases"@.len());
    assert("password_required"@.len() != "commands"@.len());
    assert("aliases"@.len() != "commands"@.len());
    lemma_set_round_trip(perms.aliases);
    lemma_set_round_trip(perms.commands);
}

/// An entry that is written down and read again is the same entry, of the
/// same kind.
pub proof fn lemma_entry_round_trip(entry: Entry)
    ensures
        rule_of(encode_entry(entry)) == Some(entry@),
{
    match entry {
        Entry::CommandPaths(commands) => {
            lemma_set_round_trip(commands);
        },
        Entry::Hosts(hosts) => {
            let written = hosts@.map_values(|perms: HostPerms| encode_host(perms));
            assert forall|k: Seq<char>| written.contains_key(k) implies #[trigger] host_rule_of(
                written[k],
            ) == Some(hosts@[k]@) by {
                lemma_host_round_trip(hosts@[k]);
            }
            assert(hosts_of(written)->Some_0 =~= hosts@.map_values(|perms: HostPerms| perms@));
        },
    }
}

/// A section that is written down and read again holds the same entries.
pub proof fn lemma_section_round_trip(entries: StringMap<Entry>)
    ensures
        section_of(encode_section(entries)) == Some(entries@.map_values(|entry: Entry| entry@)),
{
    let written = entries@.map_values(|entry: Entry| encode_entry(entry));
    assert forall|k: Seq<char>| written.contains_key(k) implies #[trigger] rule_of(written[k])
        == Some(entries@[k]@) by {
        lemma_entry_round_trip(entries@[k]);
    }
    assert(section_of(encode_section(entries))->Some_0 =~= entries@.map_values(
        |entry: Entry| entry@,
    ));
}

/// A policy that is written down as a document and read again is the same
/// policy: the same users and groups, each with an entry of the same kind
/// and content.
pub proof fn lemma_policy_round_trip(policy: Rudoers)
    ensures
        policy_of(encode_doc(policy)) == Some(policy@),
{
    reveal_strlit("users");
    reveal_strlit("groups");
    assert("users"@.len() != "groups"@.len());
    lemma_section_round_trip(policy.users);
    lemma_section_round_trip(policy.groups);
}

} // verus!

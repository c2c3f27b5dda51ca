//! The handshake decisions: what happens between `accept` and the
//! first routed frame.
//!
//! The driver resolves the peer's host and IP, sends the nonce, and
//! reads one reply line; everything after that is decided here.  The
//! reply must carry exactly two tokens, name and digest.  A taken
//! name consults the reconnect rules and may evict the incumbent; a
//! per-node host check and the key digest follow; only then does the
//! node enter the directory, with its `NodeConnected` event and the
//! `_Connected` notices to its subscribers.

use vstd::prelude::*;

use crate::alias::spec_resolve_alias;
use crate::directory::NodeList;
use crate::events::EventV;
use crate::events::ServerEvent;
use crate::keycheck::check_nodekey;
use crate::keycheck::spec_digest;
use crate::name::str_eq;
use crate::policy::any_host_rule_matches;
use crate::policy::check_host_rules;
use crate::policy::HostRule;
use crate::router::Action;
use crate::router::ActionV;
use crate::router::delnode;
use crate::router::notify_into;
use crate::router::spec_delnode;
use crate::router::spec_notify;
use crate::router::s3;
use crate::state::SdV;
use crate::state::StarsData;
use crate::text::spec_tokens;
use crate::text::split_tokens;

verus! {

/// Splits the handshake reply into node name and digest: exactly two
/// whitespace-separated tokens, or nothing.
pub fn parse_handshake(msg: &str) -> (r: Option<(String, String)>)
    ensures
        match r {
            Some(nd) => spec_tokens(msg@).len() == 2 && nd.0@ == spec_tokens(msg@)[0] && nd.1@
                == spec_tokens(msg@)[1],
            None => spec_tokens(msg@).len() != 2,
        },
{
    let mut toks = split_tokens(msg);
    if toks.len() == 2 {
        let digest = toks.pop().unwrap();
        let name = toks.pop().unwrap();
        proof {
            assert(name@ == spec_tokens(msg@)[0]);
            assert(digest@ == spec_tokens(msg@)[1]);
        }
        Some((name, digest))
    } else {
        None
    }
}

/// Whether the global host list admits a peer: an empty list admits
/// everyone; otherwise some rule must match.  Rules written as plain
/// `host ip` pairs carry the name pattern `*` and so apply to every
/// connection.
pub fn host_allowed(rules: &Vec<HostRule>, name: &str, host: &str, ip: &str) -> (r: bool)
    ensures
        r == (rules@.len() == 0 || any_host_rule_matches(rules.deep_view(), name@, host@, ip@)),
{
    rules.len() == 0 || check_host_rules(rules, name, host, ip)
}

/// What a two-token handshake reply does, given the outcomes of the
/// outside checks: a taken name without reconnect permission is
/// turned away; an evictable incumbent leaves first; then the
/// per-node host check and the key digest gate registration.  The
/// reserved name `System` is never registered: the virtual node is
/// not in the directory.
pub open spec fn spec_addnode(
    sd: SdV,
    nodes: Seq<Seq<char>>,
    name: Seq<char>,
    host: Seq<char>,
    ip: Seq<char>,
    host_ok: bool,
    key_ok: bool,
) -> (SdV, Seq<Seq<char>>, Seq<ActionV>, bool) {
    let collision = nodes.contains(name);
    if collision && !any_host_rule_matches(sd.reconnecttable, name, host, ip) {
        (
            sd,
            nodes,
            seq![
                ActionV::ReplySender { line: "System> Er: "@ + name + " already exists.\n"@ },
            ],
            false,
        )
    } else {
        let evicted = if collision {
            spec_delnode(sd, nodes, name)
        } else {
            (sd, nodes, Seq::empty())
        };
        if !host_ok {
            (
                evicted.0,
                evicted.1,
                evicted.2 + seq![
                    ActionV::ReplySender { line: "System> Er: Bad host for "@ + name + "\n"@ },
                ],
                false,
            )
        } else if !key_ok || name == "System"@ {
            (
                evicted.0,
                evicted.1,
                evicted.2 + seq![
                    ActionV::ReplySender { line: "System> Er: Bad node name or key\n"@ },
                ],
                false,
            )
        } else {
            let nodes2 = evicted.1.push(name);
            let display = spec_resolve_alias(evicted.0.aliases, name);
            let notices = spec_notify(evicted.0.subs, nodes2, display, name, "_Connected"@);
            (
                evicted.0,
                nodes2,
                evicted.2 + seq![
                    ActionV::ReplySender { line: "System>"@ + name + " Ok:\n"@ },
                    ActionV::Emit { event: EventV::NodeConnected { name: name } },
                ] + notices,
                true,
            )
        }
    }
}

/// Decides a handshake whose reply parsed into `name` and `digest`.
/// The driver supplies the peer's host and IP, the per-node host
/// check's outcome, and the key file's text if it could be read; an
/// unreadable key file fails the digest check.  Returns whether the
/// node was registered, and the driver's homework; when it was not,
/// the driver closes the socket.
pub fn addnode(
    name: &str,
    digest: &str,
    nodekey: u64,
    keytext: Option<&str>,
    host: &str,
    ip: &str,
    host_ok: bool,
    nodes: &mut NodeList,
    sd: &mut StarsData,
) -> (r: (bool, Vec<Action>))
    requires
        old(nodes).wf(),
        old(sd).wf(),
    ensures
        ({
            let key_ok = match keytext {
                Some(t) => digest@ == spec_digest(t@, nodekey as int),
                None => false,
            };
            (final(sd)@, final(nodes)@, r.1.deep_view(), r.0) == spec_addnode(
                old(sd)@,
                old(nodes)@,
                name@,
                host@,
                ip@,
                host_ok,
                key_ok,
            )
        }),
        final(nodes).wf(),
        final(sd).wf(),
{
    let ghost oldsd = sd@;
    let ghost oldnodes = nodes@;
    let collision = nodes.contains(name);
    if collision && !check_host_rules(&sd.reconnecttable, name, host, ip) {
        let line = s3("System> Er: ", name, " already exists.\n");
        let mut acts: Vec<Action> = Vec::new();
        acts.push(Action::ReplySender { line });
        proof {
            assert(acts.deep_view() =~= spec_addnode(
                oldsd,
                oldnodes,
                name@,
                host@,
                ip@,
                host_ok,
                false,
            ).2);
            assert(acts.deep_view() =~= spec_addnode(
                oldsd,
                oldnodes,
                name@,
                host@,
                ip@,
                host_ok,
                true,
            ).2);
        }
        return (false, acts);
    }
    let mut acts: Vec<Action> = if collision {
        delnode(name, nodes, sd)
    } else {
        Vec::new()
    };
    let ghost acts0 = acts.deep_view();
    let ghost sd1 = sd@;
    let ghost nodes1 = nodes@;
    if !host_ok {
        let line = s3("System> Er: Bad host for ", name, "\n");
        acts.push(Action::ReplySender { line });
        proof {
            assert(acts.deep_view() =~= acts0 + seq![
                ActionV::ReplySender { line: "System> Er: Bad host for "@ + name@ + "\n"@ },
            ]);
        }
        return (false, acts);
    }
    let key_ok = match keytext {
        Some(t) => check_nodekey(t, nodekey, digest),
        None => false,
    };
    if !key_ok || str_eq(name, "System") {
        let line = String::from_str("System> Er: Bad node name or key\n");
        acts.push(Action::ReplySender { line });
        proof {
            assert(acts.deep_view() =~= acts0 + seq![
                ActionV::ReplySender { line: "System> Er: Bad node name or key\n"@ },
            ]);
        }
        return (false, acts);
    }
    let line = s3("System>", name, " Ok:\n");
    acts.push(Action::ReplySender { line });
    acts.push(
        Action::Emit { event: ServerEvent::NodeConnected { name: String::from_str(name) } },
    );
    nodes.insert(String::from_str(name));
    let display = sd.aliases.resolve_alias(name);
    notify_into(&sd.subs, nodes, display.as_str(), name, "_Connected", &mut acts);
    proof {
        let target = spec_addnode(oldsd, oldnodes, name@, host@, ip@, host_ok, true);
        assert(nodes@ == nodes1.push(name@));
        assert(acts.deep_view() =~= target.2);
    }
    (true, acts)
}

/// Handshake totality.  A directory without duplicate names stays
/// without them through any handshake decision; a registered name is
/// in the directory afterwards (and, being unduplicated, exactly
/// once); a refused handshake leaves the directory as it was, except
/// that a permitted eviction may have removed the incumbent — it
/// never adds the new connection.  And under no decision does the
/// reserved name `System` enter the directory.
pub proof fn lemma_handshake_totality(
    sd: SdV,
    nodes: Seq<Seq<char>>,
    name: Seq<char>,
    host: Seq<char>,
    ip: Seq<char>,
    host_ok: bool,
    key_ok: bool,
)
    requires
        forall|i: int, j: int| 0 <= i < j < nodes.len() ==> nodes[i] != nodes[j],
    ensures
        ({
            let r = spec_addnode(sd, nodes, name, host, ip, host_ok, key_ok);
            &&& (forall|i: int, j: int| 0 <= i < j < r.1.len() ==> r.1[i] != r.1[j])
            &&& (r.3 ==> r.1.contains(name))
            &&& (!r.3 ==> r.1 == nodes || (nodes.contains(name) && r.1 == nodes.remove_value(
                name,
            )))
            &&& (!r.3 ==> !r.1.contains(name) || r.1 == nodes)
            &&& (!nodes.contains("System"@) ==> !r.1.contains("System"@))
        }),
{
    let r = spec_addnode(sd, nodes, name, host, ip, host_ok, key_ok);
    let collision = nodes.contains(name);
    nodes.index_of_first_ensures(name);
    if collision && !any_host_rule_matches(sd.reconnecttable, name, host, ip) {
    } else {
        let nodes1 = if collision {
            nodes.remove_value(name)
        } else {
            nodes
        };
        if collision {
            let i = nodes.index_of_first(name)->Some_0;
            nodes.remove_ensures(i);
            assert forall|a: int, b: int| 0 <= a < b < nodes1.len() implies nodes1[a]
                != nodes1[b] by {
                if b < i {
                } else if a < i {
                    assert(nodes1[a] == nodes[a] && nodes1[b] == nodes[b + 1]);
                } else {
                    assert(nodes1[a] == nodes[a + 1] && nodes1[b] == nodes[b + 1]);
                }
            }
            assert(!nodes1.contains(name)) by {
                if nodes1.contains(name) {
                    let w = choose|w: int| 0 <= w < nodes1.len() && nodes1[w] == name;
                    if w < i {
                        assert(nodes[w] == name);
                        assert(nodes[i] == name);
                    } else {
                        assert(nodes[w + 1] == name);
                        assert(nodes[i] == name);
                    }
                }
            }
        }
        if host_ok && key_ok && name != "System"@ {
            let nodes2 = nodes1.push(name);
            assert(nodes2.contains(name)) by {
                assert(nodes2[nodes2.len() - 1] == name);
            }
            assert forall|a: int, b: int| 0 <= a < b < nodes2.len() implies nodes2[a]
                != nodes2[b] by {
                if b == nodes2.len() - 1 {
                    assert(nodes2[a] == nodes1[a]);
                    assert(!nodes1.contains(name) ==> nodes1[a] != name);
                    if collision {
                    } else {
                        if nodes1[a] == name {
                            assert(nodes1.contains(name));
                        }
                    }
                } else {
                    assert(nodes2[a] == nodes1[a] && nodes2[b] == nodes1[b]);
                }
            }
        }
    }
}

} // verus!

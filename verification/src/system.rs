//! The `System` virtual node: the hub's built-in command surface.
//!
//! `System` is always addressable and never in the directory.  A
//! command-class payload addressed to it runs one of the built-in
//! verbs; an event-class payload (`_` first) is not routed but
//! broadcast to the sender's subscribers.  Replies always take the
//! form `System><from> @<verb>[ <text>]`.

use vstd::prelude::*;

use crate::alias::spec_resolve_real;
use crate::directory::NodeList;
use crate::name::is_name_char;
use crate::name::name_char;
use crate::name::str_eq;
use crate::policy::any_glob_matches;
use crate::policy::is_shutdowncmd_allow;
use crate::policy::parse_host_rules;
use crate::policy::parse_rules;
use crate::policy::spec_parse_host_rules;
use crate::policy::spec_parse_patterns;
use crate::policy::spec_parse_rules;
use crate::policy::parse_patterns;
use crate::alias::AliasTable;
use crate::alias::spec_parse_aliases;
use crate::router::Action;
use crate::router::ActionV;
use crate::router::delnode;
use crate::router::notify_into;
use crate::router::spec_delnode;
use crate::router::spec_notify;
use crate::router::s3;
use crate::router::s5;
use crate::state::SdV;
use crate::state::StarsData;
use crate::subs::FlgoffOutcome;
use crate::subs::spec_flgoff;
use crate::subs::spec_flgon;
use crate::text::first_space;
use crate::text::space_char;
use crate::timefmt::spec_time_string;
use crate::timefmt::system_get_time;
use crate::frame::lemma_space_run_at;
use crate::frame::space_run;
use crate::text::lemma_first_space_at;

verus! {

/// The verb: the first whitespace-separated token of the payload.
pub open spec fn verb_of(cmd: Seq<char>) -> Seq<char> {
    cmd.subrange(0, first_space(cmd))
}

/// The argument: what follows the verb and the whitespace run after
/// it.
pub open spec fn arg_of(cmd: Seq<char>) -> Seq<char> {
    let e = first_space(cmd);
    cmd.skip(e + space_run(cmd.skip(e)))
}

/// An argument that can name a node: it starts with a name character.
pub open spec fn has_param(arg: Seq<char>) -> bool {
    arg.len() > 0 && is_name_char(arg[0])
}

/// Space-separated joining, for `listnodes`.
pub open spec fn spec_join(names: Seq<Seq<char>>) -> Seq<char>
    decreases names.len(),
{
    if names.len() == 0 {
        Seq::empty()
    } else if names.len() == 1 {
        names[0]
    } else {
        spec_join(names.drop_last()) + " "@ + names.last()
    }
}

/// `alias=real` joining, for `listaliases`.
pub open spec fn spec_join_aliases(ps: Seq<(Seq<char>, Seq<char>)>) -> Seq<char>
    decreases ps.len(),
{
    if ps.len() == 0 {
        Seq::empty()
    } else if ps.len() == 1 {
        ps[0].0 + "="@ + ps[0].1
    } else {
        spec_join_aliases(ps.drop_last()) + " "@ + ps.last().0 + "="@ + ps.last().1
    }
}

/// The farewell every node receives when the server shuts down.
pub open spec fn spec_shutdown_sends(nodes: Seq<Seq<char>>) -> Seq<ActionV> {
    Seq::new(
        nodes.len(),
        |i: int|
            ActionV::Send { to: nodes[i], line: "System>"@ + nodes[i] + " SYSTEMSHUTDOWN\n"@ },
    )
}

/// What `System disconnect <name>` does: resolves the argument
/// through alias-to-real, refuses a missing parameter or an offline
/// victim, and otherwise confirms and removes the victim.
pub open spec fn spec_sys_disconnect(
    sd: SdV,
    nodes: Seq<Seq<char>>,
    from: Seq<char>,
    arg: Seq<char>,
) -> (SdV, Seq<Seq<char>>, Seq<ActionV>) {
    if !has_param(arg) {
        (
            sd,
            nodes,
            seq![
                ActionV::ReplySender {
                    line: "System>"@ + from + " @disconnect Er: Parameter is not enough.\n"@,
                },
            ],
        )
    } else {
        let victim = spec_resolve_real(sd.aliases, arg);
        if !nodes.contains(victim) {
            (
                sd,
                nodes,
                seq![
                    ActionV::ReplySender {
                        line: "System>"@ + from + " @disconnect Er: Node "@ + victim
                            + " is down.\n"@,
                    },
                ],
            )
        } else {
            let d = spec_delnode(sd, nodes, victim);
            (
                d.0,
                d.1,
                seq![
                    ActionV::ReplySender {
                        line: "System>"@ + from + " @disconnect "@ + victim + ".\n"@,
                    },
                ] + d.2,
            )
        }
    }
}

/// What `System flgon <path>` does: registers `(from, path)` unless
/// the path is already watched.
pub open spec fn spec_sys_flgon(
    sd: SdV,
    nodes: Seq<Seq<char>>,
    from: Seq<char>,
    arg: Seq<char>,
) -> (SdV, Seq<Seq<char>>, Seq<ActionV>) {
    if !has_param(arg) {
        (
            sd,
            nodes,
            seq![
                ActionV::ReplySender {
                    line: "System>"@ + from + " @flgon Er: Parameter is not enough.\n"@,
                },
            ],
        )
    } else {
        let r = spec_flgon(sd.subs, from, arg);
        if r.1 {
            (
                SdV { subs: r.0, ..sd },
                nodes,
                seq![
                    ActionV::ReplySender {
                        line: "System>"@ + from + " @flgon Node "@ + arg
                            + " has been registered.\n"@,
                    },
                ],
            )
        } else {
            (
                sd,
                nodes,
                seq![
                    ActionV::ReplySender {
                        line: "System>"@ + from + " @flgon Er: Node "@ + arg
                            + " is allready in the list.\n"@,
                    },
                ],
            )
        }
    }
}

/// What `System flgoff <path>` does: withdraws `(from, path)`,
/// reporting a missing subscriber or a path that was not watched.
pub open spec fn spec_sys_flgoff(
    sd: SdV,
    nodes: Seq<Seq<char>>,
    from: Seq<char>,
    arg: Seq<char>,
) -> (SdV, Seq<Seq<char>>, Seq<ActionV>) {
    if !has_param(arg) {
        (
            sd,
            nodes,
            seq![
                ActionV::ReplySender {
                    line: "System>"@ + from + " @flgoff Er: Parameter is not enough.\n"@,
                },
            ],
        )
    } else {
        let r = spec_flgoff(sd.subs, from, arg);
        if r.1 == FlgoffOutcome::Removed {
            (
                SdV { subs: r.0, ..sd },
                nodes,
                seq![
                    ActionV::ReplySender {
                        line: "System>"@ + from + " @flgoff Node "@ + arg + " has been removed.\n"@,
                    },
                ],
            )
        } else if r.1 == FlgoffOutcome::NotInList {
            (
                sd,
                nodes,
                seq![
                    ActionV::ReplySender {
                        line: "System>"@ + from + " @flgoff Er: Node "@ + arg
                            + " is not in the list.\n"@,
                    },
                ],
            )
        } else {
            (
                sd,
                nodes,
                seq![
                    ActionV::ReplySender { line: "System>"@ + from + " @flgoff Er: List is void.\n"@ },
                ],
            )
        }
    }
}

/// What one payload addressed to `System` does.  An event-class
/// payload is broadcast to the sender's subscribers under its real
/// name; `disconnect`, `flgon` and `flgoff` take their first-token
/// argument; every other verb is the whole payload, and an unknown
/// one earns the not-found reply.
pub open spec fn spec_system(
    sd: SdV,
    nodes: Seq<Seq<char>>,
    node: Seq<char>,
    from: Seq<char>,
    cmd: Seq<char>,
    now: int,
) -> (SdV, Seq<Seq<char>>, Seq<ActionV>) {
    if cmd.len() > 0 && cmd[0] == '_' {
        let frn = spec_resolve_real(sd.aliases, node);
        (sd, nodes, spec_notify(sd.subs, nodes, frn, frn, cmd))
    } else {
        let verb = verb_of(cmd);
        let arg = arg_of(cmd);
        if verb == "disconnect"@ {
            spec_sys_disconnect(sd, nodes, from, arg)
        } else if verb == "flgon"@ {
            spec_sys_flgon(sd, nodes, from, arg)
        } else if verb == "flgoff"@ {
            spec_sys_flgoff(sd, nodes, from, arg)
        } else if cmd == "loadpermission"@ {
            (sd, nodes, seq![ActionV::LoadCommandPermission])
        } else if cmd == "loadreconnectablepermission"@ {
            (sd, nodes, seq![ActionV::LoadReconnectPermission])
        } else if cmd == "loadaliases"@ {
            (sd, nodes, seq![ActionV::LoadAliases])
        } else if cmd == "listaliases"@ {
            (
                sd,
                nodes,
                seq![
                    ActionV::ReplySender {
                        line: "System>"@ + from + " @listaliases "@ + spec_join_aliases(sd.aliases)
                            + "\n"@,
                    },
                ],
            )
        } else if cmd == "listnodes"@ {
            (
                sd,
                nodes,
                seq![
                    ActionV::ReplySender {
                        line: "System>"@ + from + " @listnodes "@ + spec_join(nodes) + "\n"@,
                    },
                ],
            )
        } else if cmd == "getversion"@ {
            (
                sd,
                nodes,
                seq![
                    ActionV::ReplySender {
                        line: "System>"@ + from + " @getversion Version: 1.0 (Rust Server)\n"@,
                    },
                ],
            )
        } else if cmd == "gettime"@ {
            (
                sd,
                nodes,
                seq![
                    ActionV::ReplySender {
                        line: "System>"@ + from + " @gettime "@ + spec_time_string(now) + "\n"@,
                    },
                ],
            )
        } else if cmd == "hello"@ {
            (
                sd,
                nodes,
                seq![
                    ActionV::ReplySender {
                        line: "System>"@ + from + " @hello Nice to meet you.\n"@,
                    },
                ],
            )
        } else if cmd == "help"@ {
            (
                sd,
                nodes,
                seq![
                    ActionV::ReplySender {
                        line: "System>"@ + from
                            + " @help flgon flgoff loadaliases listaliases loadpermission loadreconnectablepermission listnodes shutdown getversion gettime hello disconnect\n"@,
                    },
                ],
            )
        } else if cmd == "shutdown"@ {
            if sd.shutallow.len() > 0 && any_glob_matches(sd.shutallow, from) {
                (sd, nodes, spec_shutdown_sends(nodes) + seq![ActionV::Shutdown])
            } else {
                (
                    sd,
                    nodes,
                    seq![
                        ActionV::ReplySender {
                            line: "System>"@ + from + " @shutdown Er: Command denied.\n"@,
                        },
                    ],
                )
            }
        } else {
            (
                sd,
                nodes,
                seq![
                    ActionV::ReplySender {
                        line: "System>"@ + from + " @"@ + cmd
                            + " Er: Command is not found or parameter is not enough!\n"@,
                    },
                ],
            )
        }
    }
}

/// Broadcasts an event-class payload from `node` to its subscribers:
/// the sender's name is resolved through alias-to-real, and every
/// watched path headed by that real name earns a delivery.
pub fn system_event(node: &str, cmd: &str, nodes: &NodeList, sd: &StarsData) -> (r: Vec<Action>)
    ensures
        r.deep_view() == spec_notify(
            sd@.subs,
            nodes@,
            spec_resolve_real(sd@.aliases, node@),
            spec_resolve_real(sd@.aliases, node@),
            cmd@,
        ),
{
    let frn = sd.aliases.resolve_real(node);
    let mut acts: Vec<Action> = Vec::new();
    proof {
        assert(acts.deep_view() =~= Seq::<ActionV>::empty());
    }
    notify_into(&sd.subs, nodes, frn.as_str(), frn.as_str(), cmd, &mut acts);
    acts
}

/// Runs `System disconnect <arg>` for `fromnode`.
pub fn system_disconnect(
    fromnode: &str,
    arg: &str,
    sd: &mut StarsData,
    nodes: &mut NodeList,
) -> (r: Vec<Action>)
    requires
        old(sd).wf(),
        old(nodes).wf(),
    ensures
        (final(sd)@, final(nodes)@, r.deep_view()) == spec_sys_disconnect(
            old(sd)@,
            old(nodes)@,
            fromnode@,
            arg@,
        ),
        final(sd).wf(),
        final(nodes).wf(),
{
    let an: usize = arg.unicode_len();
    if an == 0 || !name_char(arg.get_char(0)) {
        let line = s3("System>", fromnode, " @disconnect Er: Parameter is not enough.\n");
        let mut acts: Vec<Action> = Vec::new();
        acts.push(Action::ReplySender { line });
        proof {
            assert(acts.deep_view() =~= spec_sys_disconnect(sd@, nodes@, fromnode@, arg@).2);
        }
        return acts;
    }
    let victim = sd.aliases.resolve_real(arg);
    if !nodes.contains(victim.as_str()) {
        let line = s5(
            "System>",
            fromnode,
            " @disconnect Er: Node ",
            victim.as_str(),
            " is down.\n",
        );
        let mut acts: Vec<Action> = Vec::new();
        acts.push(Action::ReplySender { line });
        proof {
            assert(acts.deep_view() =~= spec_sys_disconnect(sd@, nodes@, fromnode@, arg@).2);
        }
        return acts;
    }
    let line = s5("System>", fromnode, " @disconnect ", victim.as_str(), ".\n");
    let mut acts: Vec<Action> = Vec::new();
    acts.push(Action::ReplySender { line });
    let ghost oldsd = sd@;
    let ghost oldnodes = nodes@;
    let mut rest = delnode(victim.as_str(), nodes, sd);
    acts.append(&mut rest);
    proof {
        assert(acts.deep_view() =~= spec_sys_disconnect(oldsd, oldnodes, fromnode@, arg@).2);
    }
    acts
}

/// Runs `System flgon <arg>` for `fromnode`.
pub fn system_flgon(
    fromnode: &str,
    arg: &str,
    sd: &mut StarsData,
    nodes: &mut NodeList,
) -> (r: Vec<Action>)
    requires
        old(sd).wf(),
        old(nodes).wf(),
    ensures
        (final(sd)@, final(nodes)@, r.deep_view()) == spec_sys_flgon(
            old(sd)@,
            old(nodes)@,
            fromnode@,
            arg@,
        ),
        final(sd).wf(),
        final(nodes).wf(),
{
    let an: usize = arg.unicode_len();
    let mut acts: Vec<Action> = Vec::new();
    if an == 0 || !name_char(arg.get_char(0)) {
        let line = s3("System>", fromnode, " @flgon Er: Parameter is not enough.\n");
        acts.push(Action::ReplySender { line });
        proof {
            assert(acts.deep_view() =~= spec_sys_flgon(sd@, nodes@, fromnode@, arg@).2);
        }
        return acts;
    }
    let added = sd.subs.flgon(fromnode, arg);
    if added {
        let line = s5("System>", fromnode, " @flgon Node ", arg, " has been registered.\n");
        acts.push(Action::ReplySender { line });
    } else {
        let line = s5(
            "System>",
            fromnode,
            " @flgon Er: Node ",
            arg,
            " is allready in the list.\n",
        );
        acts.push(Action::ReplySender { line });
    }
    proof {
        assert(acts.deep_view() =~= spec_sys_flgon(old(sd)@, nodes@, fromnode@, arg@).2);
    }
    acts
}

/// Runs `System flgoff <arg>` for `fromnode`.
pub fn system_flgoff(
    fromnode: &str,
    arg: &str,
    sd: &mut StarsData,
    nodes: &mut NodeList,
) -> (r: Vec<Action>)
    requires
        old(sd).wf(),
        old(nodes).wf(),
    ensures
        (final(sd)@, final(nodes)@, r.deep_view()) == spec_sys_flgoff(
            old(sd)@,
            old(nodes)@,
            fromnode@,
            arg@,
        ),
        final(sd).wf(),
        final(nodes).wf(),
{
    let an: usize = arg.unicode_len();
    let mut acts: Vec<Action> = Vec::new();
    if an == 0 || !name_char(arg.get_char(0)) {
        let line = s3("System>", fromnode, " @flgoff Er: Parameter is not enough.\n");
        acts.push(Action::ReplySender { line });
        proof {
            assert(acts.deep_view() =~= spec_sys_flgoff(sd@, nodes@, fromnode@, arg@).2);
        }
        return acts;
    }
    let out = sd.subs.flgoff(fromnode, arg);
    match out {
        FlgoffOutcome::Removed => {
            let line = s5("System>", fromnode, " @flgoff Node ", arg, " has been removed.\n");
            acts.push(Action::ReplySender { line });
        },
        FlgoffOutcome::NotInList => {
            let line = s5(
                "System>",
                fromnode,
                " @flgoff Er: Node ",
                arg,
                " is not in the list.\n",
            );
            acts.push(Action::ReplySender { line });
        },
        FlgoffOutcome::Void => {
            let line = s3("System>", fromnode, " @flgoff Er: List is void.\n");
            acts.push(Action::ReplySender { line });
        },
    }
    proof {
        assert(acts.deep_view() =~= spec_sys_flgoff(old(sd)@, nodes@, fromnode@, arg@).2);
    }
    acts
}

/// The farewell broadcast of `System shutdown`, one line per node in
/// directory order, then the order to stop.
#[verifier::loop_isolation(false)]
pub fn system_shutdown(nodes: &NodeList) -> (r: Vec<Action>)
    ensures
        r.deep_view() == spec_shutdown_sends(nodes@) + seq![ActionV::Shutdown],
{
    let mut acts: Vec<Action> = Vec::new();
    let n = nodes.len();
    let mut i: usize = 0;
    while i < n
        invariant
            0 <= i <= n,
            n == nodes@.len(),
            acts.deep_view().len() == i,
            forall|k: int| 0 <= k < i ==> acts.deep_view()[k] == spec_shutdown_sends(nodes@)[k],
        decreases n - i,
    {
        let name = nodes.at(i).clone();
        let line = s3("System>", name.as_str(), " SYSTEMSHUTDOWN\n");
        let ghost before = acts.deep_view();
        acts.push(Action::Send { to: name, line });
        proof {
            assert(acts.deep_view() =~= before.push(
                ActionV::Send {
                    to: nodes@[i as int],
                    line: "System>"@ + nodes@[i as int] + " SYSTEMSHUTDOWN\n"@,
                },
            ));
        }
        i = i + 1;
    }
    let ghost before = acts.deep_view();
    acts.push(Action::Shutdown);
    proof {
        assert(acts.deep_view() =~= before.push(ActionV::Shutdown));
        assert(acts.deep_view() =~= spec_shutdown_sends(nodes@) + seq![ActionV::Shutdown]);
    }
    acts
}

/// The `listnodes` text: the online names, space-separated.
#[verifier::loop_isolation(false)]
pub fn system_list_nodes(nodes: &NodeList) -> (r: String)
    ensures
        r@ == spec_join(nodes@),
{
    let mut out = String::new();
    let n = nodes.len();
    let mut i: usize = 0;
    proof {
        assert(nodes@.take(0) =~= Seq::<Seq<char>>::empty());
    }
    while i < n
        invariant
            0 <= i <= n,
            n == nodes@.len(),
            out@ =~= spec_join(nodes@.take(i as int)),
        decreases n - i,
    {
        proof {
            assert(nodes@.take(i as int + 1).drop_last() =~= nodes@.take(i as int));
            assert(nodes@.take(i as int + 1).last() == nodes@[i as int]);
        }
        if i > 0 {
            out.append(" ");
        }
        out.append(nodes.at(i).as_str());
        i = i + 1;
    }
    proof {
        assert(nodes@.take(n as int) =~= nodes@);
    }
    out
}

/// The `listaliases` text: `alias=real` entries, space-separated.
#[verifier::loop_isolation(false)]
pub fn system_list_aliases(sd: &StarsData) -> (r: String)
    ensures
        r@ == spec_join_aliases(sd@.aliases),
{
    let mut out = String::new();
    let ps = &sd.aliases.pairs;
    let n = ps.len();
    let mut i: usize = 0;
    proof {
        assert(sd@.aliases.take(0) =~= Seq::<(Seq<char>, Seq<char>)>::empty());
    }
    while i < n
        invariant
            0 <= i <= n,
            n == sd@.aliases.len(),
            out@ =~= spec_join_aliases(sd@.aliases.take(i as int)),
        decreases n - i,
    {
        proof {
            assert(sd@.aliases[i as int] == ps@[i as int]@);
            assert(sd@.aliases.take(i as int + 1).drop_last() =~= sd@.aliases.take(i as int));
            assert(sd@.aliases.take(i as int + 1).last() == sd@.aliases[i as int]);
        }
        if i > 0 {
            out.append(" ");
        }
        out.append(ps[i].alias.as_str());
        out.append("=");
        out.append(ps[i].real.as_str());
        i = i + 1;
    }
    proof {
        assert(sd@.aliases.take(n as int) =~= sd@.aliases);
    }
    out
}

/// Dispatches one payload addressed to `System`, from the socket of
/// `node` displaying as `fromnode`.
#[verifier::loop_isolation(false)]
pub fn system_commands(
    node: &str,
    fromnode: &str,
    cmd: &str,
    sd: &mut StarsData,
    nodes: &mut NodeList,
    now_secs: u64,
) -> (r: Vec<Action>)
    requires
        old(sd).wf(),
        old(nodes).wf(),
    ensures
        (final(sd)@, final(nodes)@, r.deep_view()) == spec_system(
            old(sd)@,
            old(nodes)@,
            node@,
            fromnode@,
            cmd@,
            now_secs as int,
        ),
        final(sd).wf(),
        final(nodes).wf(),
{
    let n: usize = cmd.unicode_len();
    if n > 0 && cmd.get_char(0) == '_' {
        return system_event(node, cmd, nodes, sd);
    }
    let mut e: usize = 0;
    while e < n && !space_char(cmd.get_char(e))
        invariant
            0 <= e <= n,
            forall|k: int| 0 <= k < e ==> !crate::text::is_space(cmd@[k]),
        decreases n - e,
    {
        e = e + 1;
    }
    proof {
        lemma_first_space_at(cmd@, e as int);
    }
    let mut p: usize = e;
    while p < n && space_char(cmd.get_char(p))
        invariant
            e <= p <= n,
            forall|k: int| e <= k < p ==> crate::text::is_space(cmd@[k]),
        decreases n - p,
    {
        p = p + 1;
    }
    proof {
        let t = cmd@.skip(e as int);
        assert(forall|k: int| 0 <= k < p - e ==> t[k] == cmd@[k + e]);
        if p < n {
            assert(t[p - e] == cmd@[p as int]);
        }
        lemma_space_run_at(t, p as int - e);
        assert(t.skip(p as int - e) =~= cmd@.skip(p as int));
        assert(cmd@.skip(p as int) =~= cmd@.subrange(p as int, n as int));
        assert(verb_of(cmd@) =~= cmd@.subrange(0, e as int));
    }
    let verb = cmd.substring_char(0, e);
    let arg = cmd.substring_char(p, n);
    if str_eq(verb, "disconnect") {
        system_disconnect(fromnode, arg, sd, nodes)
    } else if str_eq(verb, "flgon") {
        system_flgon(fromnode, arg, sd, nodes)
    } else if str_eq(verb, "flgoff") {
        system_flgoff(fromnode, arg, sd, nodes)
    } else {
        let mut acts: Vec<Action> = Vec::new();
        if str_eq(cmd, "loadpermission") {
            acts.push(Action::LoadCommandPermission);
        } else if str_eq(cmd, "loadreconnectablepermission") {
            acts.push(Action::LoadReconnectPermission);
        } else if str_eq(cmd, "loadaliases") {
            acts.push(Action::LoadAliases);
        } else if str_eq(cmd, "listaliases") {
            let text = system_list_aliases(sd);
            let line = s5("System>", fromnode, " @listaliases ", text.as_str(), "\n");
            acts.push(Action::ReplySender { line });
        } else if str_eq(cmd, "listnodes") {
            let text = system_list_nodes(nodes);
            let line = s5("System>", fromnode, " @listnodes ", text.as_str(), "\n");
            acts.push(Action::ReplySender { line });
        } else if str_eq(cmd, "getversion") {
            let line = s3("System>", fromnode, " @getversion Version: 1.0 (Rust Server)\n");
            acts.push(Action::ReplySender { line });
        } else if str_eq(cmd, "gettime") {
            let t = system_get_time(now_secs);
            let line = s5("System>", fromnode, " @gettime ", t.as_str(), "\n");
            acts.push(Action::ReplySender { line });
        } else if str_eq(cmd, "hello") {
            let line = s3("System>", fromnode, " @hello Nice to meet you.\n");
            acts.push(Action::ReplySender { line });
        } else if str_eq(cmd, "help") {
            let line = s3(
                "System>",
                fromnode,
                " @help flgon flgoff loadaliases listaliases loadpermission loadreconnectablepermission listnodes shutdown getversion gettime hello disconnect\n",
            );
            acts.push(Action::ReplySender { line });
        } else if str_eq(cmd, "shutdown") {
            if sd.shutallow.len() > 0 && is_shutdowncmd_allow(fromnode, &sd.shutallow) {
                let r = system_shutdown(nodes);
                proof {
                    assert(r.deep_view() =~= spec_system(
                        sd@,
                        nodes@,
                        node@,
                        fromnode@,
                        cmd@,
                        now_secs as int,
                    ).2);
                }
                return r;
            }
            let line = s3("System>", fromnode, " @shutdown Er: Command denied.\n");
            acts.push(Action::ReplySender { line });
        } else {
            let line = s5(
                "System>",
                fromnode,
                " @",
                cmd,
                " Er: Command is not found or parameter is not enough!\n",
            );
            acts.push(Action::ReplySender { line });
        }
        proof {
            assert(acts.deep_view() =~= spec_system(
                sd@,
                nodes@,
                node@,
                fromnode@,
                cmd@,
                now_secs as int,
            ).2);
        }
        acts
    }
}

/// Applies a re-read of the command allow and deny files: the parsed
/// rules replace both lists, or an unreadable file leaves the store
/// untouched; either way the sender hears how it went.
pub fn system_load_commandpermission(
    sd: &mut StarsData,
    fromnode: &str,
    files: Option<(Vec<String>, Vec<String>)>,
) -> (r: Vec<Action>)
    requires
        old(sd).wf(),
    ensures
        final(sd).wf(),
        match files {
            Some(f) => final(sd)@ == (SdV {
                cmdallow: spec_parse_rules(f.0.deep_view()),
                cmddeny: spec_parse_rules(f.1.deep_view()),
                ..old(sd)@
            }) && r.deep_view() =~= seq![
                ActionV::ReplySender {
                    line: "System>"@ + fromnode@
                        + " @loadpermission Command permission list has been loaded.\n"@,
                },
            ],
            None => final(sd)@ == old(sd)@ && r.deep_view() =~= seq![
                ActionV::ReplySender {
                    line: "System>"@ + fromnode@
                        + " @loadpermission Er: Command permission list has been NOT loaded!\n"@,
                },
            ],
        },
{
    let mut acts: Vec<Action> = Vec::new();
    match files {
        Some((allow_lines, deny_lines)) => {
            sd.cmdallow = parse_rules(&allow_lines);
            sd.cmddeny = parse_rules(&deny_lines);
            let line = s3(
                "System>",
                fromnode,
                " @loadpermission Command permission list has been loaded.\n",
            );
            acts.push(Action::ReplySender { line });
        },
        None => {
            let line = s3(
                "System>",
                fromnode,
                " @loadpermission Er: Command permission list has been NOT loaded!\n",
            );
            acts.push(Action::ReplySender { line });
        },
    }
    acts
}

/// Applies a re-read of the reconnect-permission file.
pub fn system_load_reconnecttable_permission(
    sd: &mut StarsData,
    fromnode: &str,
    files: Option<Vec<String>>,
) -> (r: Vec<Action>)
    requires
        old(sd).wf(),
    ensures
        final(sd).wf(),
        match files {
            Some(f) => final(sd)@ == (SdV {
                reconnecttable: spec_parse_host_rules(f.deep_view()),
                ..old(sd)@
            }) && r.deep_view() =~= seq![
                ActionV::ReplySender {
                    line: "System>"@ + fromnode@
                        + " @loadreconnectablepermission Reconnectable permission list has been loaded.\n"@,
                },
            ],
            None => final(sd)@ == old(sd)@ && r.deep_view() =~= seq![
                ActionV::ReplySender {
                    line: "System>"@ + fromnode@
                        + " @loadreconnectablepermission Er: Reconnectable permission list has been NOT loaded!\n"@,
                },
            ],
        },
{
    let mut acts: Vec<Action> = Vec::new();
    match files {
        Some(lines) => {
            sd.reconnecttable = parse_host_rules(&lines);
            let line = s3(
                "System>",
                fromnode,
                " @loadreconnectablepermission Reconnectable permission list has been loaded.\n",
            );
            acts.push(Action::ReplySender { line });
        },
        None => {
            let line = s3(
                "System>",
                fromnode,
                " @loadreconnectablepermission Er: Reconnectable permission list has been NOT loaded!\n",
            );
            acts.push(Action::ReplySender { line });
        },
    }
    acts
}

/// Applies a re-read of the alias file.
pub fn system_load_aliases(
    sd: &mut StarsData,
    fromnode: &str,
    files: Option<Vec<String>>,
) -> (r: Vec<Action>)
    requires
        old(sd).wf(),
    ensures
        final(sd).wf(),
        match files {
            Some(f) => final(sd)@ == (SdV {
                aliases: spec_parse_aliases(f.deep_view()),
                ..old(sd)@
            }) && r.deep_view() =~= seq![
                ActionV::ReplySender {
                    line: "System>"@ + fromnode@ + " @loadaliases Aliases has been loaded.\n"@,
                },
            ],
            None => final(sd)@ == old(sd)@ && r.deep_view() =~= seq![
                ActionV::ReplySender {
                    line: "System>"@ + fromnode@
                        + " @loadaliases Er: Aliases has been NOT loaded!\n"@,
                },
            ],
        },
{
    let mut acts: Vec<Action> = Vec::new();
    match files {
        Some(lines) => {
            sd.aliases = AliasTable::load(&lines);
            let line = s3("System>", fromnode, " @loadaliases Aliases has been loaded.\n");
            acts.push(Action::ReplySender { line });
        },
        None => {
            let line = s3("System>", fromnode, " @loadaliases Er: Aliases has been NOT loaded!\n");
            acts.push(Action::ReplySender { line });
        },
    }
    acts
}

/// Applies a read of the shutdown-permission file: its absence simply
/// leaves shutdown denied to everyone.
pub fn system_load_shutdown_permission(sd: &mut StarsData, files: Option<Vec<String>>)
    requires
        old(sd).wf(),
    ensures
        final(sd).wf(),
        match files {
            Some(f) => final(sd)@ == (SdV {
                shutallow: spec_parse_patterns(f.deep_view()),
                ..old(sd)@
            }),
            None => final(sd)@ == (SdV { shutallow: Seq::empty(), ..old(sd)@ }),
        },
{
    match files {
        Some(lines) => {
            sd.shutallow = parse_patterns(&lines);
        },
        None => {
            sd.shutallow = Vec::new();
            proof {
                assert(sd@.shutallow =~= Seq::<Seq<char>>::empty());
            }
        },
    }
}

} // verus!

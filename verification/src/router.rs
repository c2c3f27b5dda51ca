//! The routing engine.
//!
//! Every decision of the hub is returned as a list of [`Action`]s for
//! the driver to perform: write a line to a node or back to the
//! sender, emit an observer event, close a socket, reload a file, or
//! shut the whole server down.  The state changes themselves (the
//! directory, the subscription table) are applied here, under the
//! caller's locks; the driver only moves bytes.

use vstd::prelude::*;

use crate::alias::spec_resolve_alias;
use crate::alias::spec_resolve_real;
use crate::directory::NodeList;
use crate::events::EventV;
use crate::events::ServerEvent;
use crate::frame::spec_after_from;
use crate::frame::spec_from_name;
use crate::frame::spec_parse_to;
use crate::frame::parse_from;
use crate::frame::parse_to;
use crate::name::head;
use crate::name::head_of;
use crate::name::str_eq;
use crate::policy::command_denied;
use crate::policy::spec_denied;
use crate::state::SdV;
use crate::state::StarsData;
use crate::subs::SubTable;
use crate::subs::spec_unsubscribe_all;
use crate::system::spec_system;
use crate::system::system_commands;

verus! {

/// One thing the driver must do on the hub's behalf, in order.
pub enum Action {
    /// Write `line` to the socket of the node named `to`.
    Send { to: String, line: String },
    /// Write `line` back to the socket the frame came from.
    ReplySender { line: String },
    /// Hand an event to the observer stream, dropping it if the
    /// stream is absent or full.
    Emit { event: ServerEvent },
    /// Shut down the socket of a node just removed from the directory.
    CloseNode { name: String },
    /// Re-read the command allow/deny files, then call
    /// [`crate::system::system_load_commandpermission`].
    LoadCommandPermission,
    /// Re-read the reconnect-permission file, then call
    /// [`crate::system::system_load_reconnecttable_permission`].
    LoadReconnectPermission,
    /// Re-read the alias file, then call
    /// [`crate::system::system_load_aliases`].
    LoadAliases,
    /// Close every socket and exit; the farewell lines precede this.
    Shutdown,
}

/// The mathematical image of an [`Action`].
pub enum ActionV {
    Send { to: Seq<char>, line: Seq<char> },
    ReplySender { line: Seq<char> },
    Emit { event: EventV },
    CloseNode { name: Seq<char> },
    LoadCommandPermission,
    LoadReconnectPermission,
    LoadAliases,
    Shutdown,
}

impl View for Action {
    type V = ActionV;

    open spec fn view(&self) -> ActionV {
        match self {
            Action::Send { to, line } => ActionV::Send { to: to@, line: line@ },
            Action::ReplySender { line } => ActionV::ReplySender { line: line@ },
            Action::Emit { event } => ActionV::Emit { event: event@ },
            Action::CloseNode { name } => ActionV::CloseNode { name: name@ },
            Action::LoadCommandPermission => ActionV::LoadCommandPermission,
            Action::LoadReconnectPermission => ActionV::LoadReconnectPermission,
            Action::LoadAliases => ActionV::LoadAliases,
            Action::Shutdown => ActionV::Shutdown,
        }
    }
}

impl DeepView for Action {
    type V = ActionV;

    open spec fn deep_view(&self) -> ActionV {
        self.view()
    }
}

/// Concatenates two pieces.
pub fn s2(a: &str, b: &str) -> (r: String)
    ensures
        r@ =~= a@ + b@,
{
    let mut m = String::new();
    m.append(a);
    m.append(b);
    m
}

/// Concatenates three pieces.
pub fn s3(a: &str, b: &str, c: &str) -> (r: String)
    ensures
        r@ =~= a@ + b@ + c@,
{
    let mut m = String::new();
    m.append(a);
    m.append(b);
    m.append(c);
    m
}

/// Concatenates four pieces.
pub fn s4(a: &str, b: &str, c: &str, d: &str) -> (r: String)
    ensures
        r@ =~= a@ + b@ + c@ + d@,
{
    let mut m = String::new();
    m.append(a);
    m.append(b);
    m.append(c);
    m.append(d);
    m
}

/// Concatenates five pieces.
pub fn s5(a: &str, b: &str, c: &str, d: &str, e: &str) -> (r: String)
    ensures
        r@ =~= a@ + b@ + c@ + d@ + e@,
{
    let mut m = String::new();
    m.append(a);
    m.append(b);
    m.append(c);
    m.append(d);
    m.append(e);
    m
}

/// Concatenates six pieces.
pub fn s6(a: &str, b: &str, c: &str, d: &str, e: &str, f: &str) -> (r: String)
    ensures
        r@ =~= a@ + b@ + c@ + d@ + e@ + f@,
{
    let mut m = String::new();
    m.append(a);
    m.append(b);
    m.append(c);
    m.append(d);
    m.append(e);
    m.append(f);
    m
}

/// The notice one watched path may produce when `subject` has an
/// event: if the path's first segment is the subject and the
/// subscriber's first segment is online, the subscriber receives
/// `display>path payload`.
pub open spec fn spec_path_notice(
    u: Seq<char>,
    p: Seq<char>,
    nodes: Seq<Seq<char>>,
    display: Seq<char>,
    subject: Seq<char>,
    payload: Seq<char>,
) -> Seq<ActionV> {
    if head_of(p) == subject && nodes.contains(head_of(u)) {
        seq![
            ActionV::Send {
                to: head_of(u),
                line: display + ">"@ + p + " "@ + payload + "\n"@,
            },
        ]
    } else {
        Seq::empty()
    }
}

/// The notices one subscriber's watched paths produce, in order.
pub open spec fn spec_entry_notices(
    u: Seq<char>,
    paths: Seq<Seq<char>>,
    nodes: Seq<Seq<char>>,
    display: Seq<char>,
    subject: Seq<char>,
    payload: Seq<char>,
) -> Seq<ActionV>
    decreases paths.len(),
{
    if paths.len() == 0 {
        Seq::empty()
    } else {
        spec_entry_notices(u, paths.drop_last(), nodes, display, subject, payload)
            + spec_path_notice(u, paths.last(), nodes, display, subject, payload)
    }
}

/// All the notices a subject's event produces across the table, in
/// table order.
pub open spec fn spec_notify(
    subs: Seq<(Seq<char>, Seq<Seq<char>>)>,
    nodes: Seq<Seq<char>>,
    display: Seq<char>,
    subject: Seq<char>,
    payload: Seq<char>,
) -> Seq<ActionV>
    decreases subs.len(),
{
    if subs.len() == 0 {
        Seq::empty()
    } else {
        spec_notify(subs.drop_last(), nodes, display, subject, payload) + spec_entry_notices(
            subs.last().0,
            subs.last().1,
            nodes,
            display,
            subject,
            payload,
        )
    }
}

/// Appends the notices for `subject`'s event to `acts`.
#[verifier::loop_isolation(false)]
pub fn notify_into(
    subs: &SubTable,
    nodes: &NodeList,
    display: &str,
    subject: &str,
    payload: &str,
    acts: &mut Vec<Action>,
)
    ensures
        final(acts).deep_view() == old(acts).deep_view() + spec_notify(
            subs@,
            nodes@,
            display@,
            subject@,
            payload@,
        ),
{
    let ghost base = acts.deep_view();
    let ne = subs.entries.len();
    let mut e: usize = 0;
    proof {
        assert(subs@.take(0) =~= Seq::<(Seq<char>, Seq<Seq<char>>)>::empty());
        assert(base + spec_notify(subs@.take(0), nodes@, display@, subject@, payload@) =~= base);
    }
    while e < ne
        invariant
            0 <= e <= ne,
            ne == subs@.len(),
            acts.deep_view() =~= base + spec_notify(
                subs@.take(e as int),
                nodes@,
                display@,
                subject@,
                payload@,
            ),
        decreases ne - e,
    {
        proof {
            assert(subs@[e as int] == subs.entries@[e as int]@);
        }
        let entry = &subs.entries[e];
        let u = &entry.subscriber;
        let np = entry.paths.len();
        let ghost uv = subs@[e as int].0;
        let ghost pathsv = subs@[e as int].1;
        let hu = head(u.as_str());
        let online = nodes.contains(hu.as_str());
        let mut k: usize = 0;
        proof {
            assert(pathsv.take(0) =~= Seq::<Seq<char>>::empty());
        }
        while k < np
            invariant
                0 <= k <= np,
                e < subs@.len(),
                np == pathsv.len(),
                uv == subs@[e as int].0,
                pathsv == subs@[e as int].1,
                subs@[e as int] == subs.entries@[e as int]@,
                hu@ == head_of(uv),
                online == nodes@.contains(head_of(uv)),
                acts.deep_view() =~= base + spec_notify(
                    subs@.take(e as int),
                    nodes@,
                    display@,
                    subject@,
                    payload@,
                ) + spec_entry_notices(uv, pathsv.take(k as int), nodes@, display@, subject@, payload@),
            decreases np - k,
        {
            proof {
                assert(pathsv[k as int] == subs.entries@[e as int].paths@[k as int]@);
                assert(pathsv.take(k as int + 1).drop_last() =~= pathsv.take(k as int));
                assert(pathsv.take(k as int + 1).last() == pathsv[k as int]);
            }
            let p = &subs.entries[e].paths[k];
            let hp = head(p.as_str());
            let ghost before = acts.deep_view();
            if str_eq(hp.as_str(), subject) && online {
                let line = s6(display, ">", p.as_str(), " ", payload, "\n");
                acts.push(Action::Send { to: hu.clone(), line });
                proof {
                    assert(acts.deep_view() =~= before + spec_path_notice(
                        uv,
                        pathsv[k as int],
                        nodes@,
                        display@,
                        subject@,
                        payload@,
                    ));
                }
            } else {
                proof {
                    assert(spec_path_notice(
                        uv,
                        pathsv[k as int],
                        nodes@,
                        display@,
                        subject@,
                        payload@,
                    ) =~= Seq::<ActionV>::empty());
                    assert(acts.deep_view() =~= before + spec_path_notice(
                        uv,
                        pathsv[k as int],
                        nodes@,
                        display@,
                        subject@,
                        payload@,
                    ));
                }
            }
            k = k + 1;
        }
        proof {
            assert(pathsv.take(np as int) =~= pathsv);
            assert(subs@.take(e as int + 1).drop_last() =~= subs@.take(e as int));
            assert(subs@.take(e as int + 1).last() == subs@[e as int]);
        }
        e = e + 1;
    }
    proof {
        assert(subs@.take(ne as int) =~= subs@);
    }
}

/// What a departure does: the node leaves the directory, its socket
/// is closed once, its own subscriptions go, the observers hear
/// `NodeDisconnected`, and every subscriber watching a path headed by
/// the leaving node's name receives `_Disconnected` shown under the
/// node's public alias.  A name that is not online does nothing.
pub open spec fn spec_delnode(sd: SdV, nodes: Seq<Seq<char>>, node: Seq<char>) -> (
    SdV,
    Seq<Seq<char>>,
    Seq<ActionV>,
) {
    if !nodes.contains(node) {
        (sd, nodes, Seq::empty())
    } else {
        let nodes2 = nodes.remove_value(node);
        let sd2 = SdV { subs: spec_unsubscribe_all(sd.subs, node), ..sd };
        let display = spec_resolve_alias(sd.aliases, node);
        let notices = spec_notify(sd2.subs, nodes2, display, node, "_Disconnected"@);
        (
            sd2,
            nodes2,
            seq![
                ActionV::Emit { event: EventV::NodeDisconnected { name: node } },
                ActionV::CloseNode { name: node },
            ] + notices,
        )
    }
}

/// Removes a node, returning the driver's homework.
pub fn delnode(node: &str, nodes: &mut NodeList, sd: &mut StarsData) -> (r: Vec<Action>)
    requires
        old(nodes).wf(),
        old(sd).wf(),
    ensures
        (final(sd)@, final(nodes)@, r.deep_view()) == spec_delnode(old(sd)@, old(nodes)@, node@),
        final(nodes).wf(),
        final(sd).wf(),
        !final(nodes)@.contains(node@),
{
    let ghost oldsd = sd@;
    let ghost oldnodes = nodes@;
    let mut acts: Vec<Action> = Vec::new();
    if nodes.remove(node) {
        acts.push(
            Action::Emit {
                event: ServerEvent::NodeDisconnected { name: String::from_str(node) },
            },
        );
        acts.push(Action::CloseNode { name: String::from_str(node) });
        sd.subs.unsubscribe_all(node);
        let display = sd.aliases.resolve_alias(node);
        notify_into(&sd.subs, nodes, display.as_str(), node, "_Disconnected", &mut acts);
        proof {
            assert(sd@ == (SdV { subs: spec_unsubscribe_all(oldsd.subs, node@), ..oldsd }));
            assert(acts.deep_view() =~= spec_delnode(oldsd, oldnodes, node@).2);
        }
        acts
    } else {
        proof {
            oldnodes.index_of_first_ensures(node@);
            assert(nodes@ == oldnodes);
            assert(acts.deep_view() =~= Seq::<ActionV>::empty());
        }
        acts
    }
}

/// What one frame from `node` does, stage by stage:
/// originator override, destination parse, alias resolution
/// on the destination, command policy, then dispatch to the `System`
/// handler, to the addressed node, or to an error reply.
pub open spec fn spec_sendmes(
    sd: SdV,
    nodes: Seq<Seq<char>>,
    node: Seq<char>,
    msg: Seq<char>,
    now: int,
) -> (SdV, Seq<Seq<char>>, Seq<ActionV>) {
    let displayed = match spec_from_name(msg) {
        Some(f) => f,
        None => node,
    };
    let buf = spec_after_from(msg);
    match spec_parse_to(buf) {
        None => (
            sd,
            nodes,
            seq![ActionV::ReplySender { line: "System>"@ + displayed + "> @\n"@ }],
        ),
        Some(tp) => {
            let to = spec_resolve_real(sd.aliases, tp.0);
            let payload = tp.1;
            if payload.len() > 0 && payload[0] != '@' && spec_denied(
                sd.cmddeny,
                sd.cmdallow,
                node,
                to,
                payload,
            ) {
                if payload[0] != '_' {
                    (
                        sd,
                        nodes,
                        seq![
                            ActionV::ReplySender {
                                line: "System>"@ + displayed + " @"@ + payload
                                    + " Er: Command denied.\n"@,
                            },
                        ],
                    )
                } else {
                    (sd, nodes, Seq::empty())
                }
            } else {
                let to_head = head_of(to);
                if to_head == "System"@ {
                    spec_system(sd, nodes, node, displayed, payload, now)
                } else if nodes.contains(to_head) {
                    let display2 = spec_resolve_alias(sd.aliases, displayed);
                    (
                        sd,
                        nodes,
                        seq![
                            ActionV::Send {
                                to: to_head,
                                line: display2 + ">"@ + to + " "@ + payload + "\n"@,
                            },
                            ActionV::Emit {
                                event: EventV::MessageRouted { from: display2, to: to },
                            },
                        ],
                    )
                } else if payload.len() == 0 || (payload[0] != '_' && payload[0] != '@') {
                    (
                        sd,
                        nodes,
                        seq![
                            ActionV::ReplySender {
                                line: "System>"@ + displayed + " @"@ + payload + " Er: "@ + to_head
                                    + " is down.\n"@,
                            },
                        ],
                    )
                } else {
                    (sd, nodes, Seq::empty())
                }
            }
        },
    }
}

/// Routes one frame received from `node`.
pub fn sendmes(
    node: &str,
    msg: &str,
    nodes: &mut NodeList,
    sd: &mut StarsData,
    now_secs: u64,
) -> (r: Vec<Action>)
    requires
        old(nodes).wf(),
        old(sd).wf(),
    ensures
        (final(sd)@, final(nodes)@, r.deep_view()) == spec_sendmes(
            old(sd)@,
            old(nodes)@,
            node@,
            msg@,
            now_secs as int,
        ),
        final(nodes).wf(),
        final(sd).wf(),
{
    let (fromopt, buf) = parse_from(msg);
    let displayed = match fromopt {
        Some(f) => f,
        None => String::from_str(node),
    };
    let parsed = parse_to(buf.as_str());
    match parsed {
        None => {
            let line = s3("System>", displayed.as_str(), "> @\n");
            let mut acts: Vec<Action> = Vec::new();
            acts.push(Action::ReplySender { line });
            proof {
                assert(acts.deep_view() =~= spec_sendmes(
                    sd@,
                    nodes@,
                    node@,
                    msg@,
                    now_secs as int,
                ).2);
            }
            acts
        },
        Some((to0, payload)) => {
            let to = sd.aliases.resolve_real(to0.as_str());
            let pl = payload.as_str();
            let pn = pl.unicode_len();
            let first: char = if pn > 0 {
                pl.get_char(0)
            } else {
                '\0'
            };
            if pn > 0 && first != '@' && command_denied(
                &sd.cmddeny,
                &sd.cmdallow,
                node,
                to.as_str(),
                pl,
            ) {
                let mut acts: Vec<Action> = Vec::new();
                if first != '_' {
                    let line = s5(
                        "System>",
                        displayed.as_str(),
                        " @",
                        pl,
                        " Er: Command denied.\n",
                    );
                    acts.push(Action::ReplySender { line });
                    proof {
                        assert(acts.deep_view() =~= spec_sendmes(
                            sd@,
                            nodes@,
                            node@,
                            msg@,
                            now_secs as int,
                        ).2);
                    }
                } else {
                    proof {
                        assert(acts.deep_view() =~= Seq::<ActionV>::empty());
                    }
                }
                acts
            } else {
                let to_head = head(to.as_str());
                if str_eq(to_head.as_str(), "System") {
                    system_commands(node, displayed.as_str(), pl, sd, nodes, now_secs)
                } else if nodes.contains(to_head.as_str()) {
                    let display2 = sd.aliases.resolve_alias(displayed.as_str());
                    let line = s6(display2.as_str(), ">", to.as_str(), " ", pl, "\n");
                    let mut acts: Vec<Action> = Vec::new();
                    acts.push(Action::Send { to: to_head, line });
                    acts.push(
                        Action::Emit {
                            event: ServerEvent::MessageRouted { from: display2, to: to },
                        },
                    );
                    proof {
                        assert(acts.deep_view() =~= spec_sendmes(
                            sd@,
                            nodes@,
                            node@,
                            msg@,
                            now_secs as int,
                        ).2);
                    }
                    acts
                } else {
                    let mut acts: Vec<Action> = Vec::new();
                    if pn == 0 || (first != '_' && first != '@') {
                        let line = s6(
                            "System>",
                            displayed.as_str(),
                            " @",
                            pl,
                            " Er: ",
                            to_head.as_str(),
                        );
                        let line = s2(line.as_str(), " is down.\n");
                        acts.push(Action::ReplySender { line });
                        proof {
                            assert(acts.deep_view() =~= spec_sendmes(
                                sd@,
                                nodes@,
                                node@,
                                msg@,
                                now_secs as int,
                            ).2);
                        }
                    } else {
                        proof {
                            assert(acts.deep_view() =~= Seq::<ActionV>::empty());
                        }
                    }
                    acts
                }
            }
        },
    }
}

} // verus!

//! The broker's cross-cutting guarantees, stated and proved on their
//! own: what the event stream may look like for one node, and how
//! `_Connected` and `_Disconnected` notices mirror one another.

use vstd::prelude::*;

use crate::events::EventV;
use crate::handshake::spec_addnode;
use crate::name::head_of;
use crate::router::ActionV;
use crate::router::spec_delnode;
use crate::router::spec_entry_notices;
use crate::router::spec_notify;
use crate::router::spec_path_notice;
use crate::router::spec_sendmes;
use crate::state::SdV;
use crate::system::spec_system;

verus! {

/// The events among a list of actions, in action order.
pub open spec fn emitted_events(acts: Seq<ActionV>) -> Seq<EventV>
    decreases acts.len(),
{
    if acts.len() == 0 {
        Seq::empty()
    } else {
        emitted_events(acts.drop_last()) + (match acts.last() {
            ActionV::Emit { event } => seq![event],
            _ => Seq::empty(),
        })
    }
}

/// Whether an event belongs to node `n`'s history: its lifecycle
/// events, and the routed messages addressed to it.  The displayed
/// originator of a routed message is not authenticated (any frame may
/// override it), so no ordering can be promised of it and it is not
/// counted here.
pub open spec fn event_touches(e: EventV, n: Seq<char>) -> bool {
    match e {
        EventV::NodeConnected { name } => name == n,
        EventV::NodeDisconnected { name } => name == n,
        EventV::MessageRouted { from, to } => to == n,
    }
}

/// The phase of `n` after a history of events: `Some(online)` while
/// the history restricted to `n` is a prefix of repeated
/// `(Connected, MessageRouted*, Disconnected)` rounds, `None` once it
/// is not such a prefix.
pub open spec fn trace_phase(h: Seq<EventV>, n: Seq<char>) -> Option<bool>
    decreases h.len(),
{
    if h.len() == 0 {
        Some(false)
    } else {
        match trace_phase(h.drop_last(), n) {
            None => None,
            Some(on) => {
                if !event_touches(h.last(), n) {
                    Some(on)
                } else {
                    match h.last() {
                        EventV::NodeConnected { .. } => if on {
                            None
                        } else {
                            Some(true)
                        },
                        EventV::NodeDisconnected { .. } => if on {
                            Some(false)
                        } else {
                            None
                        },
                        EventV::MessageRouted { .. } => if on {
                            Some(true)
                        } else {
                            None
                        },
                    }
                }
            },
        }
    }
}

/// The phase a further event run leads to, starting from `on`.
pub open spec fn trace_phase_from(t: Seq<EventV>, n: Seq<char>, on: bool) -> Option<bool>
    decreases t.len(),
{
    if t.len() == 0 {
        Some(on)
    } else {
        match trace_phase_from(t.drop_last(), n, on) {
            None => None,
            Some(cur) => {
                if !event_touches(t.last(), n) {
                    Some(cur)
                } else {
                    match t.last() {
                        EventV::NodeConnected { .. } => if cur {
                            None
                        } else {
                            Some(true)
                        },
                        EventV::NodeDisconnected { .. } => if cur {
                            Some(false)
                        } else {
                            None
                        },
                        EventV::MessageRouted { .. } => if cur {
                            Some(true)
                        } else {
                            None
                        },
                    }
                }            },
        }
    }
}

/// Concatenation runs the phase of the tail from the phase of the
/// head.
pub proof fn lemma_trace_append(h: Seq<EventV>, t: Seq<EventV>, n: Seq<char>, on: bool)
    requires
        trace_phase(h, n) == Some(on),
    ensures
        trace_phase(h + t, n) == trace_phase_from(t, n, on),
    decreases t.len(),
{
    if t.len() == 0 {
        assert(h + t =~= h);
    } else {
        lemma_trace_append(h, t.drop_last(), n, on);
        assert((h + t).drop_last() =~= h + t.drop_last());
        assert((h + t).last() == t.last());
    }
}

/// Subscription notices carry no events.
pub proof fn lemma_notify_no_events(
    subs: Seq<(Seq<char>, Seq<Seq<char>>)>,
    nodes: Seq<Seq<char>>,
    display: Seq<char>,
    subject: Seq<char>,
    payload: Seq<char>,
)
    ensures
        emitted_events(spec_notify(subs, nodes, display, subject, payload)) =~= Seq::empty(),
    decreases subs.len(),
{
    if subs.len() > 0 {
        lemma_notify_no_events(subs.drop_last(), nodes, display, subject, payload);
        lemma_entry_no_events(subs.last().0, subs.last().1, nodes, display, subject, payload);
        lemma_emitted_add(
            spec_notify(subs.drop_last(), nodes, display, subject, payload),
            spec_entry_notices(subs.last().0, subs.last().1, nodes, display, subject, payload),
        );
    }
}

proof fn lemma_entry_no_events(
    u: Seq<char>,
    paths: Seq<Seq<char>>,
    nodes: Seq<Seq<char>>,
    display: Seq<char>,
    subject: Seq<char>,
    payload: Seq<char>,
)
    ensures
        emitted_events(spec_entry_notices(u, paths, nodes, display, subject, payload))
            =~= Seq::empty(),
    decreases paths.len(),
{
    if paths.len() > 0 {
        lemma_entry_no_events(u, paths.drop_last(), nodes, display, subject, payload);
        let pn = spec_path_notice(u, paths.last(), nodes, display, subject, payload);
        lemma_emitted_add(
            spec_entry_notices(u, paths.drop_last(), nodes, display, subject, payload),
            pn,
        );
        if pn.len() > 0 {
            lemma_emitted_one(pn[0]);
            assert(pn =~= seq![pn[0]]);
        }
    }
}

/// Events of a concatenation are the concatenated events.
pub proof fn lemma_emitted_add(a: Seq<ActionV>, b: Seq<ActionV>)
    ensures
        emitted_events(a + b) =~= emitted_events(a) + emitted_events(b),
    decreases b.len(),
{
    if b.len() == 0 {
        assert(a + b =~= a);
    } else {
        lemma_emitted_add(a, b.drop_last());
        assert((a + b).drop_last() =~= a + b.drop_last());
        assert((a + b).last() == b.last());
    }
}

/// A list without `Emit` carries no events.
pub proof fn lemma_emitted_none(acts: Seq<ActionV>)
    requires
        forall|i: int| 0 <= i < acts.len() ==> !(#[trigger] acts[i] matches ActionV::Emit { .. }),
    ensures
        emitted_events(acts) =~= Seq::empty(),
    decreases acts.len(),
{
    if acts.len() > 0 {
        lemma_emitted_none(acts.drop_last());
    }
}

/// Events of a one-action list.
pub proof fn lemma_emitted_one(a: ActionV)
    ensures
        emitted_events(seq![a]) =~= (match a {
            ActionV::Emit { event } => seq![event],
            _ => Seq::empty()
        }),
{
    let s = seq![a];
    assert(s.drop_last() =~= Seq::<ActionV>::empty());
    assert(s.last() == a);
    assert(emitted_events(s.drop_last()) =~= Seq::<EventV>::empty());
    match a {
        ActionV::Emit { event } => {
            assert(emitted_events(s) =~= seq![event]);
        },
        _ => {
            assert(emitted_events(s) =~= Seq::<EventV>::empty());
        },
    }
}

/// Phase steps of a one-event run.
pub proof fn lemma_phase_one(e: EventV, n: Seq<char>, on: bool)
    ensures
        trace_phase_from(seq![e], n, on) == (if !event_touches(e, n) {
            Some(on)
        } else {
            match e {
                EventV::NodeConnected { .. } => if on {
                    None
                } else {
                    Some(true)
                },
                EventV::NodeDisconnected { .. } => if on {
                    Some(false)
                } else {
                    None
                },
                EventV::MessageRouted { .. } => if on {
                    Some(true)
                } else {
                    None
                },
            }
        }),
{
    let s = seq![e];
    assert(s.drop_last() =~= Seq::<EventV>::empty());
    assert(s.last() == e);
    assert(trace_phase_from(s.drop_last(), n, on) == Some(on));
}

/// Removing one name leaves every other name's membership alone.
pub proof fn lemma_remove_value_other(s: Seq<Seq<char>>, y: Seq<char>, x: Seq<char>)
    requires
        x != y,
    ensures
        s.remove_value(y).contains(x) == s.contains(x),
{
    s.index_of_first_ensures(y);
    match s.index_of_first(y) {
        Some(i) => {
            s.remove_ensures(i);
            let r = s.remove(i);
            if s.contains(x) {
                let w = choose|w: int| 0 <= w < s.len() && s[w] == x;
                if w < i {
                    assert(r[w] == x);
                } else if w > i {
                    assert(r[w - 1] == x);
                } else {
                    assert(false);
                }
                assert(r.contains(x));
            }
            if r.contains(x) {
                let w = choose|w: int| 0 <= w < r.len() && r[w] == x;
                if w < i {
                    assert(s[w] == x);
                } else {
                    assert(s[w + 1] == x);
                }
                assert(s.contains(x));
            }
        },
        None => {},
    }
}

/// A departure's events: exactly one `NodeDisconnected`, for an
/// online node; none otherwise.
pub proof fn lemma_delnode_events(sd: SdV, nodes: Seq<Seq<char>>, node: Seq<char>)
    ensures
        emitted_events(spec_delnode(sd, nodes, node).2) =~= if nodes.contains(node) {
            seq![EventV::NodeDisconnected { name: node }]
        } else {
            Seq::empty()
        },
{
    if nodes.contains(node) {
        let d = spec_delnode(sd, nodes, node);
        let pre = seq![
            ActionV::Emit { event: EventV::NodeDisconnected { name: node } },
            ActionV::CloseNode { name: node },
        ];
        let notices = spec_notify(
            d.0.subs,
            d.1,
            crate::alias::spec_resolve_alias(sd.aliases, node),
            node,
            "_Disconnected"@,
        );
        lemma_emitted_add(pre, notices);
        lemma_notify_no_events(
            d.0.subs,
            d.1,
            crate::alias::spec_resolve_alias(sd.aliases, node),
            node,
            "_Disconnected"@,
        );
        let emit = ActionV::Emit { event: EventV::NodeDisconnected { name: node } };
        let close = ActionV::CloseNode { name: node };
        assert(pre =~= seq![emit] + seq![close]);
        lemma_emitted_add(seq![emit], seq![close]);
        lemma_emitted_one(emit);
        lemma_emitted_one(close);
        assert(emitted_events(pre) =~= seq![EventV::NodeDisconnected { name: node }]);
    }
}

/// Event ordering through routing.  For an undotted name `n` whose
/// event history so far is a well-formed prefix of
/// `(Connected, MessageRouted*, Disconnected)` rounds, with its phase
/// equal to `n`'s presence in the directory, routing any one frame
/// keeps the history well formed and the phase equal to `n`'s
/// presence afterwards: a message is routed to `n` only while `n` is
/// online, and `n` disconnects only from online.
pub proof fn lemma_event_ordering_route(
    h: Seq<EventV>,
    sd: SdV,
    nodes: Seq<Seq<char>>,
    node: Seq<char>,
    msg: Seq<char>,
    now: int,
    n: Seq<char>,
)
    requires
        head_of(n) == n,
        forall|i: int, j: int| 0 <= i < j < nodes.len() ==> nodes[i] != nodes[j],
        trace_phase(h, n) == Some(nodes.contains(n)),
    ensures
        ({
            let r = spec_sendmes(sd, nodes, node, msg, now);
            trace_phase(h + emitted_events(r.2), n) == Some(r.1.contains(n))
        }),
{
    let r = spec_sendmes(sd, nodes, node, msg, now);
    let on = nodes.contains(n);
    let displayed = match crate::frame::spec_from_name(msg) {
        Some(f) => f,
        None => node,
    };
    let buf = crate::frame::spec_after_from(msg);
    match crate::frame::spec_parse_to(buf) {
        None => {
            lemma_emitted_none(r.2);
            assert(h + emitted_events(r.2) =~= h);
        },
        Some(tp) => {
            let to = crate::alias::spec_resolve_real(sd.aliases, tp.0);
            let payload = tp.1;
            if payload.len() > 0 && payload[0] != '@' && crate::policy::spec_denied(
                sd.cmddeny,
                sd.cmdallow,
                node,
                to,
                payload,
            ) {
                lemma_emitted_none(r.2);
                assert(h + emitted_events(r.2) =~= h);
            } else {
                let to_head = head_of(to);
                if to_head == "System"@ {
                    lemma_event_ordering_system(h, sd, nodes, node, displayed, payload, now, n);
                } else if nodes.contains(to_head) {
                    let display2 = crate::alias::spec_resolve_alias(sd.aliases, displayed);
                    let acts = r.2;
                    let snd = ActionV::Send {
                        to: to_head,
                        line: display2 + ">"@ + to + " "@ + payload + "\n"@,
                    };
                    let emit = ActionV::Emit {
                        event: EventV::MessageRouted { from: display2, to: to },
                    };
                    assert(acts =~= seq![snd] + seq![emit]);
                    lemma_emitted_add(seq![snd], seq![emit]);
                    lemma_emitted_one(snd);
                    lemma_emitted_one(emit);
                    assert(emitted_events(acts) =~= seq![
                        EventV::MessageRouted { from: display2, to: to },
                    ]);
                    lemma_trace_append(h, emitted_events(acts), n, on);
                    lemma_phase_one(EventV::MessageRouted { from: display2, to: to }, n, on);
                    if to == n {
                        assert(head_of(to) == n);
                        assert(on);
                    }
                } else {
                    lemma_emitted_none(r.2);
                    assert(h + emitted_events(r.2) =~= h);
                }
            }
        },
    }
}

/// Event ordering through the `System` verbs: only `disconnect` emits
/// an event, and only for an online victim.
pub proof fn lemma_event_ordering_system(
    h: Seq<EventV>,
    sd: SdV,
    nodes: Seq<Seq<char>>,
    node: Seq<char>,
    from: Seq<char>,
    cmd: Seq<char>,
    now: int,
    n: Seq<char>,
)
    requires
        forall|i: int, j: int| 0 <= i < j < nodes.len() ==> nodes[i] != nodes[j],
        trace_phase(h, n) == Some(nodes.contains(n)),
    ensures
        ({
            let r = spec_system(sd, nodes, node, from, cmd, now);
            trace_phase(h + emitted_events(r.2), n) == Some(r.1.contains(n))
        }),
{
    let r = spec_system(sd, nodes, node, from, cmd, now);
    let on = nodes.contains(n);
    if cmd.len() > 0 && cmd[0] == '_' {
        let frn = crate::alias::spec_resolve_real(sd.aliases, node);
        lemma_notify_no_events(sd.subs, nodes, frn, frn, cmd);
        assert(h + emitted_events(r.2) =~= h);
    } else {
        let verb = crate::system::verb_of(cmd);
        let arg = crate::system::arg_of(cmd);
        if verb == "disconnect"@ && crate::system::has_param(arg) {
            let victim = crate::alias::spec_resolve_real(sd.aliases, arg);
            if nodes.contains(victim) {
                let d = spec_delnode(sd, nodes, victim);
                lemma_delnode_events(sd, nodes, victim);
                let reply = seq![
                    ActionV::ReplySender {
                        line: "System>"@ + from + " @disconnect "@ + victim + ".\n"@,
                    },
                ];
                lemma_emitted_add(reply, d.2);
                lemma_emitted_none(reply);
                assert(r.2 == reply + d.2);
                assert(emitted_events(r.2) =~= seq![EventV::NodeDisconnected { name: victim }]);
                lemma_trace_append(h, emitted_events(r.2), n, on);
                lemma_phase_one(EventV::NodeDisconnected { name: victim }, n, on);
                if victim == n {
                    nodes.index_of_first_ensures(n);
                    let i = nodes.index_of_first(n)->Some_0;
                    nodes.remove_ensures(i);
                    assert(!d.1.contains(n)) by {
                        if d.1.contains(n) {
                            let w = choose|w: int| 0 <= w < d.1.len() && d.1[w] == n;
                            if w < i {
                                assert(nodes[w] == n && nodes[i] == n);
                            } else {
                                assert(nodes[w + 1] == n && nodes[i] == n);
                            }
                        }
                    }
                } else {
                    lemma_remove_value_other(nodes, victim, n);
                }
            } else {
                lemma_emitted_none(r.2);
                assert(h + emitted_events(r.2) =~= h);
            }
        } else {
            lemma_emitted_none(r.2);
            assert(h + emitted_events(r.2) =~= h);
        }
    }
}

/// Event ordering through the handshake: a refused handshake emits at
/// most the incumbent's `NodeDisconnected`; a successful one emits
/// `NodeConnected` exactly when the name was (or became) absent.
pub proof fn lemma_event_ordering_handshake(
    h: Seq<EventV>,
    sd: SdV,
    nodes: Seq<Seq<char>>,
    name: Seq<char>,
    host: Seq<char>,
    ip: Seq<char>,
    host_ok: bool,
    key_ok: bool,
    n: Seq<char>,
)
    requires
        forall|i: int, j: int| 0 <= i < j < nodes.len() ==> nodes[i] != nodes[j],
        trace_phase(h, n) == Some(nodes.contains(n)),
    ensures
        ({
            let r = spec_addnode(sd, nodes, name, host, ip, host_ok, key_ok);
            trace_phase(h + emitted_events(r.2), n) == Some(r.1.contains(n))
        }),
{
    let r = spec_addnode(sd, nodes, name, host, ip, host_ok, key_ok);
    let on = nodes.contains(n);
    let collision = nodes.contains(name);
    if collision && !any_host_rule(sd, name, host, ip) {
        lemma_emitted_none(r.2);
        assert(h + emitted_events(r.2) =~= h);
    } else {
        let evicted = if collision {
            spec_delnode(sd, nodes, name)
        } else {
            (sd, nodes, Seq::<ActionV>::empty())
        };
        lemma_delnode_events(sd, nodes, name);
        let ghost mid = if collision {
            if name == n {
                false
            } else {
                on
            }
        } else {
            on
        };
        if collision {
            nodes.index_of_first_ensures(name);
            let i = nodes.index_of_first(name)->Some_0;
            nodes.remove_ensures(i);
            if name == n {
                assert(!evicted.1.contains(n)) by {
                    if evicted.1.contains(n) {
                        let w = choose|w: int| 0 <= w < evicted.1.len() && evicted.1[w] == n;
                        if w < i {
                            assert(nodes[w] == n && nodes[i] == n);
                        } else {
                            assert(nodes[w + 1] == n && nodes[i] == n);
                        }
                    }
                }
            } else {
                lemma_remove_value_other(nodes, name, n);
            }
        }
        assert(evicted.1.contains(n) == mid);
        let ghost evicted_events: Seq<EventV> = if collision {
            seq![EventV::NodeDisconnected { name: name }]
        } else {
            Seq::empty()
        };
        assert(emitted_events(evicted.2) =~= evicted_events);
        assert(trace_phase(h + evicted_events, n) == Some(mid)) by {
            lemma_trace_append(h, evicted_events, n, on);
            if collision {
                lemma_phase_one(EventV::NodeDisconnected { name: name }, n, on);
            } else {
                assert(h + evicted_events =~= h);
            }
        }
        if !host_ok || !key_ok || name == "System"@ {
            let tail = r.2.skip(evicted.2.len() as int);
            assert(r.2 =~= evicted.2 + tail);
            lemma_emitted_add(evicted.2, tail);
            lemma_emitted_none(tail);
            assert(emitted_events(r.2) =~= evicted_events);
            assert(h + emitted_events(r.2) =~= h + evicted_events);
        } else {
            let nodes2 = evicted.1.push(name);
            let display = crate::alias::spec_resolve_alias(evicted.0.aliases, name);
            let notices = spec_notify(evicted.0.subs, nodes2, display, name, "_Connected"@);
            let reply = ActionV::ReplySender { line: "System>"@ + name + " Ok:\n"@ };
            let emit = ActionV::Emit { event: EventV::NodeConnected { name: name } };
            let regacts = seq![reply, emit];
            lemma_emitted_add(evicted.2 + regacts, notices);
            lemma_emitted_add(evicted.2, regacts);
            lemma_notify_no_events(evicted.0.subs, nodes2, display, name, "_Connected"@);
            assert(r.2 =~= (evicted.2 + regacts) + notices);
            assert(regacts =~= seq![reply] + seq![emit]);
            lemma_emitted_add(seq![reply], seq![emit]);
            lemma_emitted_one(reply);
            lemma_emitted_one(emit);
            assert(emitted_events(regacts) =~= seq![EventV::NodeConnected { name: name }]);
            assert(emitted_events(r.2) =~= evicted_events + seq![
                EventV::NodeConnected { name: name },
            ]);
            assert(h + emitted_events(r.2) =~= (h + evicted_events) + seq![
                EventV::NodeConnected { name: name },
            ]);
            lemma_trace_append(
                h + evicted_events,
                seq![EventV::NodeConnected { name: name }],
                n,
                mid,
            );
            lemma_phase_one(EventV::NodeConnected { name: name }, n, mid);
            if name == n {
                assert(!mid);
            }
            assert(nodes2.contains(n) == (mid || name == n)) by {
                if name == n {
                    assert(nodes2[nodes2.len() - 1] == n);
                } else {
                    if evicted.1.contains(n) {
                        let w = choose|w: int| 0 <= w < evicted.1.len() && evicted.1[w] == n;
                        assert(nodes2[w] == n);
                    }
                    if nodes2.contains(n) {
                        let w = choose|w: int| 0 <= w < nodes2.len() && nodes2[w] == n;
                        assert(w < evicted.1.len());
                        assert(evicted.1[w] == n);
                    }
                }
            }
        }
    }
}

/// The reconnect-rule test, under a short local name.
spec fn any_host_rule(sd: SdV, name: Seq<char>, host: Seq<char>, ip: Seq<char>) -> bool {
    crate::policy::any_host_rule_matches(sd.reconnecttable, name, host, ip)
}

/// The destination of a `Send` notice.
pub open spec fn send_to(a: ActionV) -> Seq<char> {
    match a {
        ActionV::Send { to, .. } => to,
        _ => Seq::empty(),
    }
}

/// Subscription symmetry.  Over one subscription table and one
/// directory, the `_Connected` notices of a subject and its
/// `_Disconnected` notices go to exactly the same subscribers, in the
/// same order: whoever was told of a connection is told of the
/// disconnection, provided its subscription and directory entry still
/// stand when the subject leaves.
pub proof fn lemma_subscription_symmetry(
    subs: Seq<(Seq<char>, Seq<Seq<char>>)>,
    nodes: Seq<Seq<char>>,
    display: Seq<char>,
    subject: Seq<char>,
)
    ensures
        ({
            let c = spec_notify(subs, nodes, display, subject, "_Connected"@);
            let d = spec_notify(subs, nodes, display, subject, "_Disconnected"@);
            c.len() == d.len() && (forall|i: int|
                0 <= i < c.len() ==> c[i] is Send && d[i] is Send && send_to(c[i]) == send_to(
                    d[i],
                ))
        }),
    decreases subs.len(),
{
    if subs.len() > 0 {
        lemma_subscription_symmetry(subs.drop_last(), nodes, display, subject);
        lemma_entry_symmetry(subs.last().0, subs.last().1, nodes, display, subject);
    }
}

proof fn lemma_entry_symmetry(
    u: Seq<char>,
    paths: Seq<Seq<char>>,
    nodes: Seq<Seq<char>>,
    display: Seq<char>,
    subject: Seq<char>,
)
    ensures
        ({
            let c = spec_entry_notices(u, paths, nodes, display, subject, "_Connected"@);
            let d = spec_entry_notices(u, paths, nodes, display, subject, "_Disconnected"@);
            c.len() == d.len() && (forall|i: int|
                0 <= i < c.len() ==> c[i] is Send && d[i] is Send && send_to(c[i]) == send_to(
                    d[i],
                ))
        }),
    decreases paths.len(),
{
    if paths.len() > 0 {
        lemma_entry_symmetry(u, paths.drop_last(), nodes, display, subject);
    }
}

} // verus!

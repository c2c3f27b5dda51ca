//! The policy store's rule lists and their decisions.
//!
//! Four kinds of rules, all built from glob patterns over whole fields:
//!  * command rules `(from, to, command)` for the allow and deny lists;
//!  * host rules `(host, ip)` for the global host list;
//!  * reconnect rules `(name, host, ip)` governing eviction of a live
//!    node by a new connection of the same name;
//!  * shutdown patterns, matched against the originator of
//!    `System shutdown`.
//!
//! A rule file is one rule per line, fields separated by whitespace;
//! lines with the wrong number of fields are ignored.  Matching is
//! top-to-bottom, first match wins; since every rule of one list
//! carries the same decision, that is simply "any rule matches".

use vstd::prelude::*;

use crate::glob::glob_match;
use crate::glob::glob_matches;
use crate::text::spec_tokens;
use crate::text::split_tokens;

verus! {

/// A command rule: three glob patterns over originator, destination
/// and command text.
pub struct Rule {
    pub from: String,
    pub to: String,
    pub cmd: String,
}

/// The mathematical image of a [`Rule`].
pub struct RuleV {
    pub from: Seq<char>,
    pub to: Seq<char>,
    pub cmd: Seq<char>,
}

impl View for Rule {
    type V = RuleV;

    open spec fn view(&self) -> RuleV {
        RuleV { from: self.from@, to: self.to@, cmd: self.cmd@ }
    }
}

impl DeepView for Rule {
    type V = RuleV;

    open spec fn deep_view(&self) -> RuleV {
        self.view()
    }
}

/// One command rule matches the triple.
pub open spec fn rule_matches(r: RuleV, from: Seq<char>, to: Seq<char>, cmd: Seq<char>) -> bool {
    glob_matches(r.from, from) && glob_matches(r.to, to) && glob_matches(r.cmd, cmd)
}

/// Some rule of the list matches the triple.
pub open spec fn any_rule_matches(
    rs: Seq<RuleV>,
    from: Seq<char>,
    to: Seq<char>,
    cmd: Seq<char>,
) -> bool {
    exists|i: int| 0 <= i < rs.len() && rule_matches(rs[i], from, to, cmd)
}

/// Whether the deny list, taken alone, denies the triple: it does
/// exactly when one of its rules matches.
pub fn is_deny_checkcmd_deny(from: &str, to: &str, cmd: &str, rules: &Vec<Rule>) -> (r: bool)
    ensures
        r == any_rule_matches(rules.deep_view(), from@, to@, cmd@),
{
    let n = rules.len();
    let mut i: usize = 0;
    while i < n
        invariant
            0 <= i <= n,
            n == rules@.len(),
            forall|k: int|
                0 <= k < i ==> !rule_matches(rules.deep_view()[k], from@, to@, cmd@),
        decreases n - i,
    {
        let rule = &rules[i];
        if glob_match(rule.from.as_str(), from) && glob_match(rule.to.as_str(), to) && glob_match(
            rule.cmd.as_str(),
            cmd,
        ) {
            assert(rule_matches(rules.deep_view()[i as int], from@, to@, cmd@));
            return true;
        }
        i = i + 1;
    }
    false
}

/// Whether the allow list, taken alone, denies the triple: it does
/// exactly when none of its rules matches.
pub fn is_deny_checkcmd_allow(from: &str, to: &str, cmd: &str, rules: &Vec<Rule>) -> (r: bool)
    ensures
        r == !any_rule_matches(rules.deep_view(), from@, to@, cmd@),
{
    !is_deny_checkcmd_deny(from, to, cmd, rules)
}

/// The command-policy decision: a non-empty deny list denies when some
/// rule matches; a non-empty allow list denies when no rule matches;
/// both conditions together also deny.  Empty lists impose nothing.
pub open spec fn spec_denied(
    deny: Seq<RuleV>,
    allow: Seq<RuleV>,
    from: Seq<char>,
    to: Seq<char>,
    cmd: Seq<char>,
) -> bool {
    (deny.len() > 0 && any_rule_matches(deny, from, to, cmd)) || (allow.len() > 0
        && !any_rule_matches(allow, from, to, cmd))
}

/// Runtime command-policy decision, exact against `spec_denied`.
pub fn command_denied(
    deny: &Vec<Rule>,
    allow: &Vec<Rule>,
    from: &str,
    to: &str,
    cmd: &str,
) -> (r: bool)
    ensures
        r == spec_denied(deny.deep_view(), allow.deep_view(), from@, to@, cmd@),
{
    (deny.len() > 0 && is_deny_checkcmd_deny(from, to, cmd, deny)) || (allow.len() > 0
        && is_deny_checkcmd_allow(from, to, cmd, allow))
}

/// The deny decision is a pure function of the policy lists and the
/// `(from, to, command)` triple: any two results obtained for the same
/// inputs are equal.
pub proof fn lemma_policy_deterministic(
    deny: Seq<RuleV>,
    allow: Seq<RuleV>,
    from: Seq<char>,
    to: Seq<char>,
    cmd: Seq<char>,
    r1: bool,
    r2: bool,
)
    requires
        r1 == spec_denied(deny, allow, from, to, cmd),
        r2 == spec_denied(deny, allow, from, to, cmd),
    ensures
        r1 == r2,
{
}

/// Some pattern of the list glob-matches `s`.
pub open spec fn any_glob_matches(ps: Seq<Seq<char>>, s: Seq<char>) -> bool {
    exists|i: int| 0 <= i < ps.len() && glob_matches(ps[i], s)
}

/// Whether the shutdown-permission list lets `from` invoke
/// `System shutdown`: it does exactly when some pattern matches.
pub fn is_shutdowncmd_allow(from: &str, ps: &Vec<String>) -> (r: bool)
    ensures
        r == any_glob_matches(ps.deep_view(), from@),
{
    let n = ps.len();
    let mut i: usize = 0;
    while i < n
        invariant
            0 <= i <= n,
            n == ps@.len(),
            forall|k: int| 0 <= k < i ==> !glob_matches(ps.deep_view()[k], from@),
        decreases n - i,
    {
        if glob_match(ps[i].as_str(), from) {
            assert(glob_matches(ps.deep_view()[i as int], from@));
            return true;
        }
        i = i + 1;
    }
    false
}

/// A host rule: glob patterns over the remote hostname and IP text.
pub struct HostRule {
    pub name: String,
    pub host: String,
    pub ip: String,
}

/// The mathematical image of a [`HostRule`].
pub struct HostRuleV {
    pub name: Seq<char>,
    pub host: Seq<char>,
    pub ip: Seq<char>,
}

impl View for HostRule {
    type V = HostRuleV;

    open spec fn view(&self) -> HostRuleV {
        HostRuleV { name: self.name@, host: self.host@, ip: self.ip@ }
    }
}

impl DeepView for HostRule {
    type V = HostRuleV;

    open spec fn deep_view(&self) -> HostRuleV {
        self.view()
    }
}

/// One host rule matches a `(name, host, ip)` triple.
pub open spec fn host_rule_matches(
    r: HostRuleV,
    name: Seq<char>,
    host: Seq<char>,
    ip: Seq<char>,
) -> bool {
    glob_matches(r.name, name) && (glob_matches(r.host, host) || glob_matches(r.ip, ip))
}

/// Some host rule of the list matches the triple.
pub open spec fn any_host_rule_matches(
    rs: Seq<HostRuleV>,
    name: Seq<char>,
    host: Seq<char>,
    ip: Seq<char>,
) -> bool {
    exists|i: int| 0 <= i < rs.len() && host_rule_matches(rs[i], name, host, ip)
}

/// Whether a host-rule list matches the triple.  Used both for the
/// global host list (with the name pattern `*`) and for the
/// reconnect-permission list; an empty list matches nothing.
pub fn check_host_rules(rules: &Vec<HostRule>, name: &str, host: &str, ip: &str) -> (r: bool)
    ensures
        r == any_host_rule_matches(rules.deep_view(), name@, host@, ip@),
{
    let n = rules.len();
    let mut i: usize = 0;
    while i < n
        invariant
            0 <= i <= n,
            n == rules@.len(),
            forall|k: int|
                0 <= k < i ==> !host_rule_matches(rules.deep_view()[k], name@, host@, ip@),
        decreases n - i,
    {
        let rule = &rules[i];
        if glob_match(rule.name.as_str(), name) && (glob_match(rule.host.as_str(), host)
            || glob_match(rule.ip.as_str(), ip)) {
            assert(host_rule_matches(rules.deep_view()[i as int], name@, host@, ip@));
            return true;
        }
        i = i + 1;
    }
    false
}

/// The command rule a line yields: its three whitespace-separated
/// fields, or nothing if the line does not have exactly three.
pub open spec fn line_rule(line: Seq<char>) -> Seq<RuleV> {
    let t = spec_tokens(line);
    if t.len() == 3 {
        seq![RuleV { from: t[0], to: t[1], cmd: t[2] }]
    } else {
        Seq::empty()
    }
}

/// The command rules a rule file yields, line by line.
pub open spec fn spec_parse_rules(lines: Seq<Seq<char>>) -> Seq<RuleV>
    decreases lines.len(),
{
    if lines.len() == 0 {
        Seq::empty()
    } else {
        spec_parse_rules(lines.drop_last()) + line_rule(lines.last())
    }
}

/// Parses a command-rule file given as its lines: each line with
/// exactly three whitespace-separated fields becomes a rule.
pub fn parse_rules(lines: &Vec<String>) -> (r: Vec<Rule>)
    ensures
        r.deep_view() == spec_parse_rules(lines.deep_view()),
{
    let n = lines.len();
    let mut out: Vec<Rule> = Vec::new();
    let mut i: usize = 0;
    while i < n
        invariant
            0 <= i <= n,
            n == lines@.len(),
            out.deep_view() =~= spec_parse_rules(lines.deep_view().take(i as int)),
        decreases n - i,
    {
        let mut toks = split_tokens(lines[i].as_str());
        proof {
            let lv = lines.deep_view();
            assert(lv.take(i as int + 1).drop_last() =~= lv.take(i as int));
            assert(lv.take(i as int + 1).last() == lv[i as int]);
        }
        let ghost old_out = out.deep_view();
        if toks.len() == 3 {
            let cmd = toks.pop().unwrap();
            let to = toks.pop().unwrap();
            let from = toks.pop().unwrap();
            out.push(Rule { from, to, cmd });
            proof {
                assert(out.deep_view() =~= old_out + line_rule(lines.deep_view()[i as int]));
            }
        } else {
            proof {
                assert(out.deep_view() =~= old_out + line_rule(lines.deep_view()[i as int]));
            }
        }
        i = i + 1;
    }
    proof {
        assert(lines.deep_view().take(n as int) =~= lines.deep_view());
    }
    out
}

/// The host rule a line yields: `host ip` pairs get the name pattern
/// `*`; `name host ip` triples are taken as written.
pub open spec fn line_host_rule(line: Seq<char>) -> Seq<HostRuleV> {
    let t = spec_tokens(line);
    if t.len() == 2 {
        seq![HostRuleV { name: "*"@, host: t[0], ip: t[1] }]
    } else if t.len() == 3 {
        seq![HostRuleV { name: t[0], host: t[1], ip: t[2] }]
    } else {
        Seq::empty()
    }
}

/// The host rules a host or reconnect file yields, line by line.
pub open spec fn spec_parse_host_rules(lines: Seq<Seq<char>>) -> Seq<HostRuleV>
    decreases lines.len(),
{
    if lines.len() == 0 {
        Seq::empty()
    } else {
        spec_parse_host_rules(lines.drop_last()) + line_host_rule(lines.last())
    }
}

/// Parses a host-rule or reconnect-rule file given as its lines.
pub fn parse_host_rules(lines: &Vec<String>) -> (r: Vec<HostRule>)
    ensures
        r.deep_view() == spec_parse_host_rules(lines.deep_view()),
{
    let n = lines.len();
    let mut out: Vec<HostRule> = Vec::new();
    let mut i: usize = 0;
    while i < n
        invariant
            0 <= i <= n,
            n == lines@.len(),
            out.deep_view() =~= spec_parse_host_rules(lines.deep_view().take(i as int)),
        decreases n - i,
    {
        let mut toks = split_tokens(lines[i].as_str());
        proof {
            let lv = lines.deep_view();
            assert(lv.take(i as int + 1).drop_last() =~= lv.take(i as int));
            assert(lv.take(i as int + 1).last() == lv[i as int]);
        }
        let ghost old_out = out.deep_view();
        if toks.len() == 2 {
            let ip = toks.pop().unwrap();
            let host = toks.pop().unwrap();
            out.push(HostRule { name: String::from_str("*"), host, ip });
            proof {
                assert(out.deep_view() =~= old_out + line_host_rule(lines.deep_view()[i as int]));
            }
        } else if toks.len() == 3 {
            let ip = toks.pop().unwrap();
            let host = toks.pop().unwrap();
            let name = toks.pop().unwrap();
            out.push(HostRule { name, host, ip });
            proof {
                assert(out.deep_view() =~= old_out + line_host_rule(lines.deep_view()[i as int]));
            }
        } else {
            proof {
                assert(out.deep_view() =~= old_out + line_host_rule(lines.deep_view()[i as int]));
            }
        }
        i = i + 1;
    }
    proof {
        assert(lines.deep_view().take(n as int) =~= lines.deep_view());
    }
    out
}

/// The shutdown patterns a file yields: the first field of each line;
/// blank lines are skipped.
pub open spec fn line_pattern(line: Seq<char>) -> Seq<Seq<char>> {
    let t = spec_tokens(line);
    if t.len() >= 1 {
        seq![t[0]]
    } else {
        Seq::empty()
    }
}

/// The patterns a shutdown-permission file yields, line by line.
pub open spec fn spec_parse_patterns(lines: Seq<Seq<char>>) -> Seq<Seq<char>>
    decreases lines.len(),
{
    if lines.len() == 0 {
        Seq::empty()
    } else {
        spec_parse_patterns(lines.drop_last()) + line_pattern(lines.last())
    }
}

/// Parses a shutdown-permission file given as its lines.
pub fn parse_patterns(lines: &Vec<String>) -> (r: Vec<String>)
    ensures
        r.deep_view() == spec_parse_patterns(lines.deep_view()),
{
    let n = lines.len();
    let mut out: Vec<String> = Vec::new();
    let mut i: usize = 0;
    while i < n
        invariant
            0 <= i <= n,
            n == lines@.len(),
            out.deep_view() =~= spec_parse_patterns(lines.deep_view().take(i as int)),
        decreases n - i,
    {
        let mut toks = split_tokens(lines[i].as_str());
        proof {
            let lv = lines.deep_view();
            assert(lv.take(i as int + 1).drop_last() =~= lv.take(i as int));
            assert(lv.take(i as int + 1).last() == lv[i as int]);
        }
        let ghost old_out = out.deep_view();
        if toks.len() >= 1 {
            let mut toks = toks;
            let first = toks.remove(0);
            out.push(first);
            proof {
                assert(out.deep_view() =~= old_out + line_pattern(lines.deep_view()[i as int]));
            }
        } else {
            proof {
                assert(out.deep_view() =~= old_out + line_pattern(lines.deep_view()[i as int]));
            }
        }
        i = i + 1;
    }
    proof {
        assert(lines.deep_view().take(n as int) =~= lines.deep_view());
    }
    out
}

} // verus!

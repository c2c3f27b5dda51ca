use stars::alias::AliasTable;
use stars::directory::NodeList;
use stars::policy::{command_denied, is_deny_checkcmd_allow, is_deny_checkcmd_deny, parse_rules};
use stars::subs::{FlgoffOutcome, SubTable};

#[test]
fn directory_membership() {
    let mut d = NodeList::new();
    assert_eq!(d.len(), 0);
    assert!(!d.contains("A"));
    d.insert("A".to_string());
    d.insert("B".to_string());
    assert!(d.contains("A"));
    assert!(d.contains("B"));
    assert!(!d.contains("C"));
    assert_eq!(d.len(), 2);
    assert!(d.remove("A"));
    assert!(!d.contains("A"));
    assert!(!d.remove("A"));
    assert_eq!(d.len(), 1);
    assert_eq!(d.at(0), "B");
}

#[test]
fn alias_resolution() {
    let t = AliasTable::load(&vec!["Alice=A".to_string(), "Bob=B".to_string()]);
    assert_eq!(t.resolve_real("Alice"), "A");
    assert_eq!(t.resolve_real("Bob"), "B");
    assert_eq!(t.resolve_real("C"), "C");
    assert_eq!(t.resolve_alias("A"), "Alice");
    assert_eq!(t.resolve_alias("C"), "C");
}

#[test]
fn alias_resolution_is_idempotent() {
    // Resolving an already-real name is a no-op, and a second
    // resolution never moves further: no chains.
    let t = AliasTable::load(&vec!["Alice=A".to_string(), "A=B".to_string()]);
    // The chain-forming entry `A=B` was refused: `A` is already real.
    assert_eq!(t.resolve_real("A"), "A");
    let once = t.resolve_real("Alice");
    let twice = t.resolve_real(&once);
    assert_eq!(once, "A");
    assert_eq!(twice, once);
}

#[test]
fn alias_loader_skips_malformed() {
    let t = AliasTable::load(&vec![
        "no equals sign".to_string(),
        "=A".to_string(),
        "X=".to_string(),
        "Self=Self".to_string(),
        " Good = G ".to_string(),
        "Good=Elsewhere".to_string(),
    ]);
    assert_eq!(t.resolve_real("Good"), "G");
    assert_eq!(t.resolve_real("Self"), "Self");
    assert_eq!(t.resolve_real("X"), "X");
}

#[test]
fn subscriptions() {
    let mut s = SubTable::new();
    assert!(s.flgon("U", "A.temp"));
    assert!(!s.flgon("U", "A.temp"));
    assert!(s.flgon("U", "B"));
    assert!(s.flgon("V", "A.temp"));
    assert_eq!(s.flgoff("U", "A.temp"), FlgoffOutcome::Removed);
    assert_eq!(s.flgoff("U", "A.temp"), FlgoffOutcome::NotInList);
    assert_eq!(s.flgoff("W", "A.temp"), FlgoffOutcome::Void);
    s.unsubscribe_all("V");
    assert_eq!(s.flgoff("V", "A.temp"), FlgoffOutcome::Void);
}

#[test]
fn policy_lists() {
    let deny = parse_rules(&vec!["* B secret*".to_string(), "C * *".to_string()]);
    let allow = parse_rules(&Vec::new());
    assert!(is_deny_checkcmd_deny("A", "B", "secret 1", &deny));
    assert!(!is_deny_checkcmd_deny("A", "B", "status", &deny));
    assert!(is_deny_checkcmd_deny("C", "D", "anything", &deny));
    // Empty lists impose nothing.
    assert!(!command_denied(&allow, &allow, "A", "B", "x"));
    // A non-empty allow list denies what it does not match.
    let allow = parse_rules(&vec!["A B status*".to_string()]);
    assert!(is_deny_checkcmd_allow("A", "B", "reboot", &allow));
    assert!(!is_deny_checkcmd_allow("A", "B", "status now", &allow));
    assert!(command_denied(&deny, &allow, "A", "B", "reboot"));
    assert!(!command_denied(&deny, &allow, "A", "B", "status now"));
}

#[test]
fn policy_is_deterministic() {
    // The deny decision is a pure function of the lists and the
    // triple: repeated evaluation agrees.
    let deny = parse_rules(&vec!["* B secret*".to_string()]);
    let allow = parse_rules(&vec!["A * *".to_string()]);
    for _ in 0..3 {
        assert_eq!(command_denied(&deny, &allow, "A", "B", "secret 1"), true);
        assert_eq!(command_denied(&deny, &allow, "A", "B", "open"), false);
    }
}

#[test]
fn rule_lines_need_three_fields() {
    let rules = parse_rules(&vec![
        "only two".to_string(),
        "a b c d".to_string(),
        "".to_string(),
        "A B C".to_string(),
    ]);
    assert!(is_deny_checkcmd_deny("A", "B", "C", &rules));
    assert!(!is_deny_checkcmd_deny("only", "two", "", &rules));
    assert!(!is_deny_checkcmd_deny("a", "b", "c", &rules));
}

use stars::directory::NodeList;
use stars::handshake::{addnode, host_allowed, parse_handshake};
use stars::keycheck::{check_nodekey, compute_digest};
use stars::policy::parse_host_rules;
use stars::router::Action;
use stars::state::StarsData;

fn replies(acts: &[Action]) -> Vec<String> {
    let mut out = Vec::new();
    for a in acts {
        if let Action::ReplySender { line } = a {
            out.push(line.clone());
        }
    }
    out
}

#[test]
fn handshake_reply_needs_two_tokens() {
    assert_eq!(
        parse_handshake("term1 0123abcd"),
        Some(("term1".to_string(), "0123abcd".to_string()))
    );
    assert_eq!(parse_handshake("  A   xyz  "), Some(("A".to_string(), "xyz".to_string())));
    assert_eq!(parse_handshake("justaname"), None);
    assert_eq!(parse_handshake("a b c"), None);
    assert_eq!(parse_handshake(""), None);
}

#[test]
fn digest_round_trip() {
    let d = compute_digest("some key text\n", 12345);
    assert_eq!(d.len(), 16);
    assert!(check_nodekey("some key text\n", 12345, &d));
    assert!(!check_nodekey("some key text\n", 12346, &d));
    assert!(!check_nodekey("other key\n", 12345, &d));
    assert_ne!(compute_digest("a", 1), compute_digest("b", 1));
}

#[test]
fn register_success() {
    let mut nodes = NodeList::new();
    let mut sd = StarsData::new();
    let d = compute_digest("key", 99);
    let (ok, acts) =
        addnode("A", &d, 99, Some("key"), "h", "127.0.0.1", true, &mut nodes, &mut sd);
    assert!(ok);
    assert!(nodes.contains("A"));
    assert_eq!(replies(&acts), vec!["System>A Ok:\n".to_string()]);
}

#[test]
fn register_bad_key() {
    let mut nodes = NodeList::new();
    let mut sd = StarsData::new();
    let (ok, acts) =
        addnode("A", "wrong", 99, Some("key"), "h", "127.0.0.1", true, &mut nodes, &mut sd);
    assert!(!ok);
    assert!(!nodes.contains("A"));
    assert_eq!(replies(&acts), vec!["System> Er: Bad node name or key\n".to_string()]);
    // An unreadable key file fails the same check.
    let (ok, _) = addnode("A", "wrong", 99, None, "h", "127.0.0.1", true, &mut nodes, &mut sd);
    assert!(!ok);
}

#[test]
fn register_bad_host() {
    let mut nodes = NodeList::new();
    let mut sd = StarsData::new();
    let d = compute_digest("key", 99);
    let (ok, acts) =
        addnode("A", &d, 99, Some("key"), "h", "127.0.0.1", false, &mut nodes, &mut sd);
    assert!(!ok);
    assert_eq!(replies(&acts), vec!["System> Er: Bad host for A\n".to_string()]);
}

#[test]
fn name_collision_refused_without_rule() {
    let mut nodes = NodeList::new();
    let mut sd = StarsData::new();
    let d = compute_digest("key", 99);
    addnode("A", &d, 99, Some("key"), "h", "127.0.0.1", true, &mut nodes, &mut sd);
    let (ok, acts) =
        addnode("A", &d, 99, Some("key"), "h", "127.0.0.1", true, &mut nodes, &mut sd);
    assert!(!ok);
    assert!(nodes.contains("A"));
    assert_eq!(replies(&acts), vec!["System> Er: A already exists.\n".to_string()]);
}

#[test]
fn name_collision_evicts_with_rule() {
    let mut nodes = NodeList::new();
    let mut sd = StarsData::new();
    sd.reconnecttable = parse_host_rules(&vec!["A * *".to_string()]);
    let d = compute_digest("key", 99);
    addnode("A", &d, 99, Some("key"), "h", "127.0.0.1", true, &mut nodes, &mut sd);
    let (ok, acts) =
        addnode("A", &d, 99, Some("key"), "h", "127.0.0.1", true, &mut nodes, &mut sd);
    assert!(ok);
    assert!(nodes.contains("A"));
    // The incumbent's socket is closed, and the observers see the
    // disconnect before the connect.
    let mut close_seen = false;
    let mut disconnect_at = usize::MAX;
    let mut connect_at = usize::MAX;
    for (i, a) in acts.iter().enumerate() {
        match a {
            Action::CloseNode { name } => {
                assert_eq!(name, "A");
                close_seen = true;
            }
            Action::Emit { event: stars::events::ServerEvent::NodeDisconnected { .. } } => {
                disconnect_at = i;
            }
            Action::Emit { event: stars::events::ServerEvent::NodeConnected { .. } } => {
                connect_at = i;
            }
            _ => {}
        }
    }
    assert!(close_seen);
    assert!(disconnect_at < connect_at);
}

#[test]
fn host_list_semantics() {
    // An empty list admits everyone; otherwise a rule must match by
    // hostname or by address.
    let empty: Vec<stars::policy::HostRule> = Vec::new();
    assert!(host_allowed(&empty, "", "anywhere", "1.2.3.4"));
    let rules = parse_host_rules(&vec![
        "*.lab.example 10.0.0.*".to_string(),
        "nowhere 192.168.1.7".to_string(),
    ]);
    assert!(host_allowed(&rules, "", "pc1.lab.example", "172.16.0.9"));
    assert!(host_allowed(&rules, "", "other", "10.0.0.42"));
    assert!(host_allowed(&rules, "", "other", "192.168.1.7"));
    assert!(!host_allowed(&rules, "", "other", "192.168.1.8"));
}

#[test]
fn system_name_is_reserved() {
    let mut nodes = NodeList::new();
    let mut sd = StarsData::new();
    let d = compute_digest("key", 99);
    let (ok, acts) =
        addnode("System", &d, 99, Some("key"), "h", "127.0.0.1", true, &mut nodes, &mut sd);
    assert!(!ok);
    assert!(!nodes.contains("System"));
    assert_eq!(replies(&acts), vec!["System> Er: Bad node name or key\n".to_string()]);
}

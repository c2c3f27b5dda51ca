use stars::directory::NodeList;
use stars::router::{sendmes, Action};
use stars::state::StarsData;

fn online(nodes: &mut NodeList, name: &str) {
    nodes.insert(name.to_string());
}

fn only_reply(acts: &[Action]) -> String {
    assert_eq!(acts.len(), 1);
    match &acts[0] {
        Action::ReplySender { line } => line.clone(),
        _ => panic!("expected a reply to the sender"),
    }
}

#[test]
fn hello() {
    let mut nodes = NodeList::new();
    let mut sd = StarsData::new();
    online(&mut nodes, "A");
    let acts = sendmes("A", "System hello", &mut nodes, &mut sd, 0);
    assert_eq!(only_reply(&acts), "System>A @hello Nice to meet you.\n");
}

#[test]
fn gettime_at_epoch() {
    let mut nodes = NodeList::new();
    let mut sd = StarsData::new();
    online(&mut nodes, "A");
    let acts = sendmes("A", "System gettime", &mut nodes, &mut sd, 0);
    assert_eq!(only_reply(&acts), "System>A @gettime 1970/01/01 00:00:00\n");
}

#[test]
fn gettime_modern() {
    let mut nodes = NodeList::new();
    let mut sd = StarsData::new();
    online(&mut nodes, "A");
    let acts = sendmes("A", "System gettime", &mut nodes, &mut sd, 1_700_000_000);
    assert_eq!(only_reply(&acts), "System>A @gettime 2023/11/14 22:13:20\n");
}

#[test]
fn gettime_leap_day() {
    assert_eq!(stars::timefmt::system_get_time(1_582_934_400), "2020/02/29 00:00:00");
    assert_eq!(stars::timefmt::system_get_time(951_827_696), "2000/02/29 12:34:56");
}

#[test]
fn getversion() {
    let mut nodes = NodeList::new();
    let mut sd = StarsData::new();
    online(&mut nodes, "A");
    let acts = sendmes("A", "System getversion", &mut nodes, &mut sd, 0);
    assert_eq!(only_reply(&acts), "System>A @getversion Version: 1.0 (Rust Server)\n");
}

#[test]
fn help_lists_verbs() {
    let mut nodes = NodeList::new();
    let mut sd = StarsData::new();
    online(&mut nodes, "A");
    let acts = sendmes("A", "System help", &mut nodes, &mut sd, 0);
    let line = only_reply(&acts);
    assert!(line.starts_with("System>A @help "));
    for verb in ["flgon", "flgoff", "listnodes", "shutdown", "gettime", "disconnect"] {
        assert!(line.contains(verb));
    }
}

#[test]
fn listnodes() {
    let mut nodes = NodeList::new();
    let mut sd = StarsData::new();
    online(&mut nodes, "A");
    online(&mut nodes, "B");
    let acts = sendmes("A", "System listnodes", &mut nodes, &mut sd, 0);
    assert_eq!(only_reply(&acts), "System>A @listnodes A B\n");
}

#[test]
fn listaliases() {
    let mut nodes = NodeList::new();
    let mut sd = StarsData::new();
    online(&mut nodes, "A");
    sd.aliases = stars::alias::AliasTable::load(&vec![
        "Alice=A".to_string(),
        "Bob=B".to_string(),
    ]);
    let acts = sendmes("A", "System listaliases", &mut nodes, &mut sd, 0);
    assert_eq!(only_reply(&acts), "System>A @listaliases Alice=A Bob=B\n");
}

#[test]
fn unknown_verb() {
    let mut nodes = NodeList::new();
    let mut sd = StarsData::new();
    online(&mut nodes, "A");
    let acts = sendmes("A", "System frobnicate", &mut nodes, &mut sd, 0);
    assert_eq!(
        only_reply(&acts),
        "System>A @frobnicate Er: Command is not found or parameter is not enough!\n"
    );
}

#[test]
fn flgon_duplicate() {
    let mut nodes = NodeList::new();
    let mut sd = StarsData::new();
    online(&mut nodes, "U");
    sendmes("U", "System flgon A", &mut nodes, &mut sd, 0);
    let acts = sendmes("U", "System flgon A", &mut nodes, &mut sd, 0);
    assert_eq!(only_reply(&acts), "System>U @flgon Er: Node A is allready in the list.\n");
}

#[test]
fn flgon_missing_parameter() {
    let mut nodes = NodeList::new();
    let mut sd = StarsData::new();
    online(&mut nodes, "U");
    let acts = sendmes("U", "System flgon", &mut nodes, &mut sd, 0);
    assert_eq!(only_reply(&acts), "System>U @flgon Er: Parameter is not enough.\n");
}

#[test]
fn flgoff_paths() {
    let mut nodes = NodeList::new();
    let mut sd = StarsData::new();
    online(&mut nodes, "U");
    // No entry at all.
    let acts = sendmes("U", "System flgoff A", &mut nodes, &mut sd, 0);
    assert_eq!(only_reply(&acts), "System>U @flgoff Er: List is void.\n");
    // Entry exists, path does not.
    sendmes("U", "System flgon B", &mut nodes, &mut sd, 0);
    let acts = sendmes("U", "System flgoff A", &mut nodes, &mut sd, 0);
    assert_eq!(only_reply(&acts), "System>U @flgoff Er: Node A is not in the list.\n");
    // Path removed.
    let acts = sendmes("U", "System flgoff B", &mut nodes, &mut sd, 0);
    assert_eq!(only_reply(&acts), "System>U @flgoff Node B has been removed.\n");
}

#[test]
fn disconnect_paths() {
    let mut nodes = NodeList::new();
    let mut sd = StarsData::new();
    online(&mut nodes, "A");
    online(&mut nodes, "B");
    let acts = sendmes("A", "System disconnect", &mut nodes, &mut sd, 0);
    assert_eq!(only_reply(&acts), "System>A @disconnect Er: Parameter is not enough.\n");
    let acts = sendmes("A", "System disconnect Z", &mut nodes, &mut sd, 0);
    assert_eq!(only_reply(&acts), "System>A @disconnect Er: Node Z is down.\n");
    let acts = sendmes("A", "System disconnect B", &mut nodes, &mut sd, 0);
    assert!(!nodes.contains("B"));
    let mut saw_reply = false;
    let mut saw_close = false;
    for a in &acts {
        match a {
            Action::ReplySender { line } => {
                assert_eq!(line, "System>A @disconnect B.\n");
                saw_reply = true;
            }
            Action::CloseNode { name } => {
                assert_eq!(name, "B");
                saw_close = true;
            }
            _ => {}
        }
    }
    assert!(saw_reply && saw_close);
}

#[test]
fn disconnect_resolves_alias() {
    let mut nodes = NodeList::new();
    let mut sd = StarsData::new();
    online(&mut nodes, "A");
    online(&mut nodes, "B");
    sd.aliases = stars::alias::AliasTable::load(&vec!["Bob=B".to_string()]);
    let acts = sendmes("A", "System disconnect Bob", &mut nodes, &mut sd, 0);
    assert!(!nodes.contains("B"));
    match &acts[0] {
        Action::ReplySender { line } => assert_eq!(line, "System>A @disconnect B.\n"),
        _ => panic!("expected the confirmation first"),
    }
}

#[test]
fn shutdown_denied_by_default() {
    let mut nodes = NodeList::new();
    let mut sd = StarsData::new();
    online(&mut nodes, "A");
    let acts = sendmes("A", "System shutdown", &mut nodes, &mut sd, 0);
    assert_eq!(only_reply(&acts), "System>A @shutdown Er: Command denied.\n");
}

#[test]
fn shutdown_allowed_broadcasts() {
    let mut nodes = NodeList::new();
    let mut sd = StarsData::new();
    online(&mut nodes, "A");
    online(&mut nodes, "B");
    stars::system::system_load_shutdown_permission(&mut sd, Some(vec!["A".to_string()]));
    let acts = sendmes("A", "System shutdown", &mut nodes, &mut sd, 0);
    assert_eq!(acts.len(), 3);
    match &acts[0] {
        Action::Send { to, line } => {
            assert_eq!(to, "A");
            assert_eq!(line, "System>A SYSTEMSHUTDOWN\n");
        }
        _ => panic!("expected a farewell first"),
    }
    match &acts[1] {
        Action::Send { to, line } => {
            assert_eq!(to, "B");
            assert_eq!(line, "System>B SYSTEMSHUTDOWN\n");
        }
        _ => panic!("expected a farewell second"),
    }
    assert!(matches!(acts[2], Action::Shutdown));
}

#[test]
fn reload_verbs_request_files() {
    let mut nodes = NodeList::new();
    let mut sd = StarsData::new();
    online(&mut nodes, "A");
    let acts = sendmes("A", "System loadpermission", &mut nodes, &mut sd, 0);
    assert_eq!(acts.len(), 1);
    assert!(matches!(acts[0], Action::LoadCommandPermission));
    let acts = sendmes("A", "System loadaliases", &mut nodes, &mut sd, 0);
    assert!(matches!(acts[0], Action::LoadAliases));
    let acts = sendmes("A", "System loadreconnectablepermission", &mut nodes, &mut sd, 0);
    assert!(matches!(acts[0], Action::LoadReconnectPermission));
}

#[test]
fn reload_failure_reports() {
    let mut sd = StarsData::new();
    let acts = stars::system::system_load_commandpermission(&mut sd, "A", None);
    match &acts[0] {
        Action::ReplySender { line } => assert_eq!(
            line,
            "System>A @loadpermission Er: Command permission list has been NOT loaded!\n"
        ),
        _ => panic!("expected an error reply"),
    }
    let acts = stars::system::system_load_aliases(&mut sd, "A", None);
    match &acts[0] {
        Action::ReplySender { line } => {
            assert_eq!(line, "System>A @loadaliases Er: Aliases has been NOT loaded!\n")
        }
        _ => panic!("expected an error reply"),
    }
    let acts = stars::system::system_load_reconnecttable_permission(&mut sd, "A", None);
    match &acts[0] {
        Action::ReplySender { line } => assert_eq!(
            line,
            "System>A @loadreconnectablepermission Er: Reconnectable permission list has been NOT loaded!\n"
        ),
        _ => panic!("expected an error reply"),
    }
}

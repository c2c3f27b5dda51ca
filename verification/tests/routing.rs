use stars::directory::NodeList;
use stars::events::ServerEvent;
use stars::router::{delnode, sendmes, Action};
use stars::state::StarsData;

fn online(nodes: &mut NodeList, name: &str) {
    assert!(!nodes.contains(name));
    nodes.insert(name.to_string());
}

fn sends(acts: &[Action]) -> Vec<(String, String)> {
    let mut out = Vec::new();
    for a in acts {
        if let Action::Send { to, line } = a {
            out.push((to.clone(), line.clone()));
        }
    }
    out
}

fn replies(acts: &[Action]) -> Vec<String> {
    let mut out = Vec::new();
    for a in acts {
        if let Action::ReplySender { line } = a {
            out.push(line.clone());
        }
    }
    out
}

#[test]
fn basic_route() {
    let mut nodes = NodeList::new();
    let mut sd = StarsData::new();
    online(&mut nodes, "A");
    online(&mut nodes, "B");
    let acts = sendmes("A", "B Hello", &mut nodes, &mut sd, 0);
    assert_eq!(sends(&acts), vec![("B".to_string(), "A>B Hello\n".to_string())]);
    let mut routed = false;
    for a in &acts {
        if let Action::Emit { event: ServerEvent::MessageRouted { from, to } } = a {
            assert_eq!(from, "A");
            assert_eq!(to, "B");
            routed = true;
        }
    }
    assert!(routed);
}

#[test]
fn missing_target() {
    let mut nodes = NodeList::new();
    let mut sd = StarsData::new();
    online(&mut nodes, "A");
    let acts = sendmes("A", "Z ping", &mut nodes, &mut sd, 0);
    assert_eq!(replies(&acts), vec!["System>A @ping Er: Z is down.\n".to_string()]);
    assert!(sends(&acts).is_empty());
}

#[test]
fn from_override_and_alias() {
    let mut nodes = NodeList::new();
    let mut sd = StarsData::new();
    online(&mut nodes, "A");
    sd.aliases = stars::alias::AliasTable::load(&vec!["Alice=A".to_string()]);
    let acts = sendmes("A", "SomeoneElse>Alice hi", &mut nodes, &mut sd, 0);
    assert_eq!(sends(&acts), vec![("A".to_string(), "SomeoneElse>A hi\n".to_string())]);
}

#[test]
fn originator_rewritten_to_alias() {
    // Deliveries show the sender's public alias: real->alias on the
    // displayed originator.
    let mut nodes = NodeList::new();
    let mut sd = StarsData::new();
    online(&mut nodes, "A");
    online(&mut nodes, "B");
    sd.aliases = stars::alias::AliasTable::load(&vec!["Alice=A".to_string()]);
    let acts = sendmes("A", "B ping", &mut nodes, &mut sd, 0);
    assert_eq!(sends(&acts), vec![("B".to_string(), "Alice>B ping\n".to_string())]);
}

#[test]
fn command_deny_rule() {
    let mut nodes = NodeList::new();
    let mut sd = StarsData::new();
    online(&mut nodes, "A");
    online(&mut nodes, "B");
    let acts = stars::system::system_load_commandpermission(
        &mut sd,
        "A",
        Some((Vec::new(), vec!["* B secret*".to_string()])),
    );
    assert_eq!(
        replies(&acts),
        vec!["System>A @loadpermission Command permission list has been loaded.\n".to_string()]
    );
    let acts = sendmes("A", "B secret 1", &mut nodes, &mut sd, 0);
    assert_eq!(replies(&acts), vec!["System>A @secret 1 Er: Command denied.\n".to_string()]);
    assert!(sends(&acts).is_empty());
    // An unrelated command still goes through.
    let acts = sendmes("A", "B status", &mut nodes, &mut sd, 0);
    assert_eq!(sends(&acts), vec![("B".to_string(), "A>B status\n".to_string())]);
}

#[test]
fn allow_list_denies_unlisted() {
    let mut nodes = NodeList::new();
    let mut sd = StarsData::new();
    online(&mut nodes, "A");
    online(&mut nodes, "B");
    stars::system::system_load_commandpermission(
        &mut sd,
        "A",
        Some((vec!["A B status*".to_string()], Vec::new())),
    );
    let acts = sendmes("A", "B status now", &mut nodes, &mut sd, 0);
    assert_eq!(sends(&acts).len(), 1);
    let acts = sendmes("A", "B reboot", &mut nodes, &mut sd, 0);
    assert_eq!(replies(&acts), vec!["System>A @reboot Er: Command denied.\n".to_string()]);
}

#[test]
fn denied_event_is_silent() {
    let mut nodes = NodeList::new();
    let mut sd = StarsData::new();
    online(&mut nodes, "A");
    online(&mut nodes, "B");
    stars::system::system_load_commandpermission(
        &mut sd,
        "A",
        Some((Vec::new(), vec!["* B *".to_string()])),
    );
    let acts = sendmes("A", "B _changed", &mut nodes, &mut sd, 0);
    assert!(acts.is_empty());
}

#[test]
fn missing_target_event_dropped_silently() {
    let mut nodes = NodeList::new();
    let mut sd = StarsData::new();
    online(&mut nodes, "A");
    let acts = sendmes("A", "Z _event", &mut nodes, &mut sd, 0);
    assert!(acts.is_empty());
    let acts = sendmes("A", "Z @reply", &mut nodes, &mut sd, 0);
    assert!(acts.is_empty());
}

#[test]
fn unparsable_frame_gets_empty_reply() {
    let mut nodes = NodeList::new();
    let mut sd = StarsData::new();
    online(&mut nodes, "A");
    let acts = sendmes("A", "   ", &mut nodes, &mut sd, 0);
    assert_eq!(replies(&acts), vec!["System>A> @\n".to_string()]);
}

#[test]
fn subscription_lifecycle() {
    let mut nodes = NodeList::new();
    let mut sd = StarsData::new();
    online(&mut nodes, "U");
    // U subscribes to A.temp.
    let acts = sendmes("U", "System flgon A.temp", &mut nodes, &mut sd, 0);
    assert_eq!(
        replies(&acts),
        vec!["System>U @flgon Node A.temp has been registered.\n".to_string()]
    );
    // A connects: U hears _Connected.
    let key = "topsecret";
    let digest = stars::keycheck::compute_digest(key, 4242);
    let (ok, acts) = stars::handshake::addnode(
        "A",
        &digest,
        4242,
        Some(key),
        "host",
        "127.0.0.1",
        true,
        &mut nodes,
        &mut sd,
    );
    assert!(ok);
    assert!(nodes.contains("A"));
    assert_eq!(sends(&acts), vec![("U".to_string(), "A>A.temp _Connected\n".to_string())]);
    // A raises an event: U hears it under the watched path.
    let acts = sendmes("A", "System _heartbeat", &mut nodes, &mut sd, 0);
    assert_eq!(sends(&acts), vec![("U".to_string(), "A>A.temp _heartbeat\n".to_string())]);
    // A disconnects: U hears _Disconnected.
    let acts = delnode("A", &mut nodes, &mut sd);
    assert_eq!(sends(&acts), vec![("U".to_string(), "A>A.temp _Disconnected\n".to_string())]);
    assert!(!nodes.contains("A"));
    let mut disconnected = false;
    for a in &acts {
        if let Action::Emit { event: ServerEvent::NodeDisconnected { name } } = a {
            assert_eq!(name, "A");
            disconnected = true;
        }
    }
    assert!(disconnected);
}

#[test]
fn delnode_removes_own_subscriptions() {
    let mut nodes = NodeList::new();
    let mut sd = StarsData::new();
    online(&mut nodes, "U");
    sendmes("U", "System flgon A", &mut nodes, &mut sd, 0);
    delnode("U", &mut nodes, &mut sd);
    online(&mut nodes, "U");
    // The old subscription is gone: flgoff finds nothing.
    let acts = sendmes("U", "System flgoff A", &mut nodes, &mut sd, 0);
    assert_eq!(replies(&acts), vec!["System>U @flgoff Er: List is void.\n".to_string()]);
}

#[test]
fn override_replaces_every_occurrence() {
    // The override text is removed wherever it occurs, like a
    // replacement of `name>` by the empty string.
    let (from, rest) = {
        let r = stars::frame::parse_from("ab>X ab>hello");
        (r.0, r.1)
    };
    assert_eq!(from.as_deref(), Some("ab"));
    assert_eq!(rest, "X hello");
}

#[test]
fn dotted_destination_reaches_head() {
    let mut nodes = NodeList::new();
    let mut sd = StarsData::new();
    online(&mut nodes, "A");
    online(&mut nodes, "B");
    let acts = sendmes("A", "B.motor start", &mut nodes, &mut sd, 0);
    assert_eq!(sends(&acts), vec![("B".to_string(), "A>B.motor start\n".to_string())]);
}

#[test]
fn dotted_system_address_is_system() {
    let mut nodes = NodeList::new();
    let mut sd = StarsData::new();
    online(&mut nodes, "A");
    let acts = sendmes("A", "System.anything hello", &mut nodes, &mut sd, 0);
    assert_eq!(replies(&acts), vec!["System>A @hello Nice to meet you.\n".to_string()]);
}

#[test]
fn empty_payload_delivery() {
    let mut nodes = NodeList::new();
    let mut sd = StarsData::new();
    online(&mut nodes, "A");
    online(&mut nodes, "B");
    let acts = sendmes("A", "B", &mut nodes, &mut sd, 0);
    assert_eq!(sends(&acts), vec![("B".to_string(), "A>B \n".to_string())]);
}

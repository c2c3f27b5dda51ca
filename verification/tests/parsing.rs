use stars::frame::{exit_frame, parse_from, parse_to, split_frames};
use stars::glob::glob_match;
use stars::text::{remove_all, split_tokens, trim};

#[test]
fn frames_split_at_newlines() {
    let (frames, rest) = split_frames("a\nbb\r\nccc\nleft");
    assert_eq!(frames, vec!["a".to_string(), "bb".to_string(), "ccc".to_string()]);
    assert_eq!(rest, "left");
}

#[test]
fn frames_keep_partial_tail() {
    let (frames, rest) = split_frames("partial");
    assert!(frames.is_empty());
    assert_eq!(rest, "partial");
    let (frames, rest) = split_frames("");
    assert!(frames.is_empty());
    assert_eq!(rest, "");
}

#[test]
fn frames_strip_carriage_returns() {
    let (frames, rest) = split_frames("x\r\r\ny\n");
    assert_eq!(frames, vec!["x".to_string(), "y".to_string()]);
    assert_eq!(rest, "");
}

#[test]
fn empty_lines_are_frames() {
    let (frames, _) = split_frames("a\n\nb\n");
    assert_eq!(frames, vec!["a".to_string(), "".to_string(), "b".to_string()]);
}

#[test]
fn exit_frames() {
    assert!(exit_frame("exit"));
    assert!(exit_frame("QUIT"));
    assert!(exit_frame("Exit now"));
    assert!(exit_frame("quitting"));
    assert!(!exit_frame("leave"));
    assert!(!exit_frame(" exit"));
}

#[test]
fn from_override_extraction() {
    let (from, rest) = parse_from("Alice>B hi");
    assert_eq!(from.as_deref(), Some("Alice"));
    assert_eq!(rest, "B hi");
    let (from, rest) = parse_from("B hi there");
    assert!(from.is_none());
    assert_eq!(rest, "B hi there");
    // The override is found wherever it stands, not only at the front.
    let (from, rest) = parse_from("B Some.Node-1>payload");
    assert_eq!(from.as_deref(), Some("Some.Node-1"));
    assert_eq!(rest, "B payload");
    // A `>` without a name character before it is no override.
    let (from, rest) = parse_from(">B hi");
    assert!(from.is_none());
    assert_eq!(rest, ">B hi");
}

#[test]
fn to_address_and_payload() {
    let r = parse_to("B Hello world").unwrap();
    assert_eq!(r.0, "B");
    assert_eq!(r.1, "Hello world");
    // The whitespace run after the address is dropped, nothing more.
    let r = parse_to("Dev.pump   start  now").unwrap();
    assert_eq!(r.0, "Dev.pump");
    assert_eq!(r.1, "start  now");
    // An address alone has an empty payload.
    let r = parse_to("B").unwrap();
    assert_eq!(r.0, "B");
    assert_eq!(r.1, "");
    // No leading name character: no address.
    assert!(parse_to(" B x").is_none());
    assert!(parse_to("").is_none());
    assert!(parse_to("#x").is_none());
}

#[test]
fn glob_semantics() {
    assert!(glob_match("secret*", "secret 1"));
    assert!(glob_match("secret*", "secret"));
    assert!(!glob_match("secret*", "se"));
    assert!(glob_match("*", ""));
    assert!(glob_match("*", "anything at all"));
    assert!(glob_match("a*b*c", "a-x-b-y-c"));
    assert!(!glob_match("a*b*c", "a-x-b-y"));
    assert!(glob_match("literal", "literal"));
    assert!(!glob_match("literal", "Literal"));
}

#[test]
fn trimming_and_tokens() {
    assert_eq!(trim("  a b \r\n"), "a b");
    assert_eq!(trim(""), "");
    assert_eq!(trim("   "), "");
    assert_eq!(trim("x"), "x");
    assert_eq!(split_tokens("  a  bb\tccc "), vec![
        "a".to_string(),
        "bb".to_string(),
        "ccc".to_string(),
    ]);
    assert_eq!(split_tokens(""), Vec::<String>::new());
}

#[test]
fn removing_occurrences() {
    assert_eq!(remove_all("ab>X ab>hello", "ab>"), "X hello");
    assert_eq!(remove_all("aaa", "aa"), "a");
    assert_eq!(remove_all("abc", "x"), "abc");
    assert_eq!(remove_all("abc", ""), "abc");
}

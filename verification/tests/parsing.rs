use simplex_trace_tool::events::{EventKind, EventRegistry};
use simplex_trace_tool::parser::extractors::{
    extract_actor, extract_from_actor, extract_leader, extract_payload, extract_peer, extract_to_actor,
    extract_view, read_after_needle, try_extract_view,
};
use simplex_trace_tool::parser::log_parser::{
    classify_event, detect_actor_from_target, parse_line, parse_log_lines, parse_timestamp_ns,
};

fn sample_line(msg: &str) -> String {
    format!(
        "2024-01-15T10:00:00.123456789Z DEBUG ThreadId(01) commonware_consensus::simplex::actors::voter::actor: voter/actor.rs:100: {}",
        msg
    )
}

#[test]
fn test_extract_view() {
    assert_eq!(extract_view("view=View(123)"), Some(123));
    assert_eq!(extract_view("view=123"), Some(123));
    assert_eq!(extract_view("round=Round { view: View(456) }"), Some(456));
    assert_eq!(extract_view("current=789"), Some(789));
    assert_eq!(extract_view("no view here"), None);
}

#[test]
fn test_extract_payload() {
    let msg = "payload=a1b2c3d4e5f6a1b2c3d4e5f6a1b2c3d4e5f6a1b2c3d4e5f6a1b2c3d4e5f6a1b2";
    assert!(extract_payload(msg).is_some());
    assert_eq!(extract_payload("no payload"), None);
}

#[test]
fn test_extract_leader() {
    assert_eq!(extract_leader("leader=5"), Some(5));
    assert_eq!(extract_leader("no leader"), None);
}

#[test]
fn test_parse_line() {
    let raw = parse_line(0, 1, &sample_line("test message")).expect("parse");
    assert_eq!(raw.node_id, 0);
    assert_eq!(raw.line_number, 1);
    assert_eq!(raw.level, "DEBUG");
    assert!(raw.target.contains("voter"));
    assert_eq!(raw.message, "test message");
}

#[test]
fn test_classify_event() {
    let registry = EventRegistry::new();
    let raw = parse_line(0, 1, &sample_line("leader elected round=Round { view: View(5) }")).expect("parse");
    let ev = classify_event(raw, &registry, None);
    assert_eq!(ev.kind, EventKind::LeaderElected);
    assert_eq!(ev.view, Some(5));
}

#[test]
fn parse_and_classify_notarize() {
    let registry = EventRegistry::new();
    let raw = parse_line(0, 1, &sample_line("broadcasting notarize proposal=Proposal { round: Round { epoch: Epoch(0), view: View(409) }, parent: View(408), payload: f0ccfc5b95becacd0a80eb5a2455abb6c66cfba28d47b99c7c2819fdfe0dc285 }")).expect("parse");
    let ev = classify_event(raw, &registry, None);
    assert_eq!(ev.kind, EventKind::NotarizeBroadcast);
    assert_eq!(ev.view, Some(409));
    assert!(ev.payload.is_some());
    assert!(ev.message_id.is_some());
}

#[test]
fn parse_leader_elected() {
    let registry = EventRegistry::new();
    let raw = parse_line(0, 1, &sample_line("leader elected round=Round { epoch: Epoch(0), view: View(5) } leader=2 key=abc123")).expect("parse");
    let ev = classify_event(raw, &registry, None);
    assert_eq!(ev.kind, EventKind::LeaderElected);
    assert_eq!(ev.view, Some(5));
    assert_eq!(ev.leader, Some(2));
}

#[test]
fn parse_line_fields_and_timestamp() {
    let raw = parse_line(3, 9, &sample_line("hello: world")).expect("parse");
    assert_eq!(raw.node_id, 3);
    assert_eq!(raw.line_number, 9);
    assert_eq!(raw.target, "commonware_consensus::simplex::actors::voter::actor");
    assert_eq!(raw.file, "voter/actor.rs:100");
    assert_eq!(raw.message, "hello: world");
    assert_eq!(raw.timestamp_ns, 1_705_312_800_123_456_789);
}

#[test]
fn parse_line_rejects() {
    assert!(parse_line(0, 0, "").is_none());
    assert!(parse_line(0, 0, "not a log line").is_none());
    // level must be upper case letters
    assert!(parse_line(0, 0, "2024-01-15T10:00:00Z debug ThreadId(01) t: f.rs:1: m").is_none());
    // bad timestamp
    assert!(parse_line(0, 0, "yesterday DEBUG ThreadId(01) t: f.rs:1: m").is_none());
    // file needs a line number
    assert!(parse_line(0, 0, "2024-01-15T10:00:00Z DEBUG ThreadId(01) t: f.rs: m").is_none());
}

#[test]
fn timestamps() {
    assert_eq!(parse_timestamp_ns("1970-01-01T00:00:00Z"), Some(0));
    assert_eq!(parse_timestamp_ns("1970-01-01T00:00:01+01:00"), Some(-3_599_000_000_000));
    assert_eq!(parse_timestamp_ns("2024-01-15T10:00:00.5Z"), Some(1_705_312_800_500_000_000));
    assert_eq!(parse_timestamp_ns("not a time"), None);
    // out of the range of i64 nanoseconds
    assert_eq!(parse_timestamp_ns("2500-01-01T00:00:00Z"), None);
}

#[test]
fn extractors_on_concrete_messages() {
    let hex = "A1B2C3D4E5F6A1B2C3D4E5F6A1B2C3D4E5F6A1B2C3D4E5F6A1B2C3D4E5F6A1B2";
    assert_eq!(extract_payload(&format!("x payload: {}", hex)), Some(hex.to_lowercase()));
    assert_eq!(extract_peer(&format!("peer={} y", hex)), Some(hex.to_lowercase()));
    assert_eq!(extract_peer("peer=abc"), None);
    assert_eq!(extract_leader("leader=300"), None);
    assert_eq!(extract_leader("leader=255"), Some(255));
    assert_eq!(extract_actor("actor=voter_1 x"), Some("voter_1".to_string()));
    assert_eq!(extract_from_actor("msg from=marshal to=voter"), Some("marshal".to_string()));
    assert_eq!(extract_to_actor("msg from=marshal to=voter"), Some("voter".to_string()));
    assert_eq!(extract_actor("actor="), None);
    assert_eq!(extract_view("VIEW: 42"), Some(42));
    assert_eq!(extract_view("view( 7 )"), Some(7));
    assert_eq!(extract_view("round=(0, 12)"), Some(0));
    assert_eq!(extract_view("round=12"), Some(12));
    assert_eq!(extract_view("current 77"), Some(77));
    assert_eq!(extract_view("view=99999999999999999999999 current=3"), Some(3));
    // a run of digits beyond u64 is not read as a number
    assert_eq!(extract_view("view=99999999999999999999"), None);
    assert_eq!(extract_view("view=18446744073709551615"), Some(u64::MAX));
}

#[test]
fn views_read_at_the_lower_case_offset() {
    // lower-casing `İ` takes one byte more, so the number is read one byte later
    assert_eq!(try_extract_view("\u{130}\u{130}view=123"), Some(Some(3)));
    // the offset falls past the end of the message: the view cannot be read
    assert_eq!(try_extract_view("\u{130}view="), None);
    assert_eq!(try_extract_view("view=12"), Some(Some(12)));
    assert_eq!(try_extract_view("nothing"), Some(None));
}

#[test]
fn actors_from_targets() {
    assert_eq!(detect_actor_from_target("a::voter::b"), Some("voter".to_string()));
    assert_eq!(detect_actor_from_target("a::marshal"), Some("marshal".to_string()));
    assert_eq!(detect_actor_from_target("x::buffered"), Some("broadcast".to_string()));
    assert_eq!(detect_actor_from_target("commonware_p2p"), Some("network".to_string()));
    assert_eq!(detect_actor_from_target("journal"), Some("storage".to_string()));
    assert_eq!(detect_actor_from_target("nothing"), None);
}

#[test]
fn lines_carry_the_last_view() {
    let registry = EventRegistry::new();
    let lines = vec![
        Some(sample_line("leader elected round=Round { view: View(5) } leader=1")),
        None,
        Some("garbage".to_string()),
        Some(sample_line("requested proposal from automaton")),
    ];
    let events = parse_log_lines(&lines, 2, &registry).expect("readable");
    assert_eq!(events.len(), 2);
    assert_eq!(events[0].raw.line_number, 0);
    assert_eq!(events[1].raw.line_number, 3);
    assert_eq!(events[1].view, Some(5));
    assert_eq!(events[1].raw.node_id, 2);
    assert_eq!(events[1].kind, EventKind::ProposalRequested);
    let bad = vec![Some(sample_line("ok")), Some(sample_line("\u{130}view="))];
    assert!(parse_log_lines(&bad, 0, &registry).is_none());
}

#[test]
fn reading_after_a_needle_in_given_text() {
    assert_eq!(read_after_needle("VIEW=42", "view=42", "view="), Some(Some(42)));
    assert_eq!(read_after_needle("view=42", "xx", "view="), Some(None));
    assert_eq!(read_after_needle("ab", "abcview=1", "view="), None);
    assert_eq!(read_after_needle("xxxxx(7", "view(7", "view("), Some(Some(7)));
}

#[test]
fn views_are_written_in_the_message_and_peers_are_hex() {
    for m in ["view=007", "round=(0, 12)", "current: 000", "x view: View(18446744073709551615)", "no digits"] {
        if let Some(v) = extract_view(m) {
            assert!(m.contains(&v.to_string()), "{}", m);
        }
    }
    assert_eq!(extract_view("no digits"), None);
    assert_eq!(extract_peer("peer ready peer=abc123"), None);
    let hex = "ABCDEF0123456789abcdef0123456789ABCDEF0123456789abcdef0123456789";
    let p = extract_peer(&format!("x peer={} y", hex)).unwrap();
    assert_eq!(p.len(), 64);
    assert!(format!("x peer={} y", hex).to_lowercase().contains(&format!("peer={}", p)));
}

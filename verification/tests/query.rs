use simplex_trace_tool::api::query::{lowered_pieces, parse_u8_list, select_events, EventQuery};
use simplex_trace_tool::events::{derive_message_id, hex_prefix, message_group_tag, EventCategory, EventKind};
use simplex_trace_tool::parser::files::{validator_id, validator_logs};
use simplex_trace_tool::state::{Event, RawLine, TimeSegment};

fn ev(node: u8, ts: i128, view: Option<u64>, kind: EventKind, category: EventCategory) -> Event {
    Event {
        id: 0,
        raw: RawLine {
            node_id: node,
            line_number: ts as u64,
            timestamp_ns: ts,
            level: "INFO".to_string(),
            target: "t".to_string(),
            file: "f.rs:1".to_string(),
            message: String::new(),
        },
        view,
        payload: None,
        kind,
        kind_tag: kind.as_tag(),
        category,
        leader: None,
        message_id: None,
        peer: None,
        actor: None,
    }
}

fn query() -> EventQuery {
    EventQuery {
        from_ts: None,
        to_ts: None,
        nodes: None,
        kinds: None,
        categories: None,
        view_from: None,
        view_to: None,
        limit: None,
        offset: None,
        segment: None,
    }
}

fn trace() -> Vec<Event> {
    vec![
        ev(0, 10, Some(1), EventKind::LeaderElected, EventCategory::Consensus),
        ev(1, 20, Some(2), EventKind::PeerDialed, EventCategory::Network),
        ev(2, 30, None, EventKind::StorageAppend, EventCategory::Storage),
        ev(0, 40, Some(3), EventKind::NotarizeBroadcast, EventCategory::Consensus),
        ev(1, 50, Some(4), EventKind::LeaderElected, EventCategory::Consensus),
    ]
}

fn times(r: &[Event]) -> Vec<i128> {
    r.iter().map(|e| e.raw.timestamp_ns).collect()
}

#[test]
fn lists_of_numbers() {
    assert_eq!(parse_u8_list("1,2, 3"), vec![1, 2, 3]);
    assert_eq!(parse_u8_list(" +4 ,x,,256, 07\t"), vec![4, 7]);
    assert_eq!(parse_u8_list(""), Vec::<u8>::new());
    assert_eq!(parse_u8_list("-1,+,++2"), Vec::<u8>::new());
    assert_eq!(parse_u8_list("\u{3000}9\u{a0}"), vec![9]);
}

#[test]
fn lists_of_names_in_lower_case() {
    let p = lowered_pieces(" Consensus,NETWORK ,,x");
    assert_eq!(p, vec!["consensus", "network", "", "x"]);
    // Unicode lower-casing: the Kelvin sign becomes an ASCII k
    assert_eq!(lowered_pieces("networ\u{212a}"), vec!["network"]);
}

#[test]
fn no_filter_gives_everything() {
    let r = select_events(&trace(), &Vec::new(), &query());
    assert_eq!(times(&r), vec![10, 20, 30, 40, 50]);
}

#[test]
fn time_and_view_ranges() {
    let mut q = query();
    q.from_ts = Some(20);
    q.to_ts = Some(40);
    assert_eq!(times(&select_events(&trace(), &Vec::new(), &q)), vec![20, 30, 40]);
    let mut q = query();
    q.view_from = Some(2);
    assert_eq!(times(&select_events(&trace(), &Vec::new(), &q)), vec![20, 40, 50]);
    let mut q = query();
    q.view_to = Some(3);
    assert_eq!(times(&select_events(&trace(), &Vec::new(), &q)), vec![10, 20, 40]);
}

#[test]
fn segment_gives_the_range() {
    let segs = vec![
        TimeSegment { index: 0, start_ns: 0, end_ns: 25, event_count: 2, views: vec![] },
        TimeSegment { index: 1, start_ns: 25, end_ns: 50, event_count: 3, views: vec![] },
    ];
    let mut q = query();
    q.segment = Some(1);
    // the end of the range is included
    assert_eq!(times(&select_events(&trace(), &segs, &q)), vec![30, 40, 50]);
    q.from_ts = Some(45);
    assert_eq!(times(&select_events(&trace(), &segs, &q)), vec![50]);
    let mut q = query();
    q.segment = Some(9);
    assert_eq!(times(&select_events(&trace(), &segs, &q)).len(), 5);
}

#[test]
fn node_kind_and_category_lists() {
    let mut q = query();
    q.nodes = Some("1, 2".to_string());
    assert_eq!(times(&select_events(&trace(), &Vec::new(), &q)), vec![20, 30, 50]);
    q.nodes = Some("nothing".to_string());
    assert_eq!(times(&select_events(&trace(), &Vec::new(), &q)).len(), 5);
    let mut q = query();
    q.kinds = Some("1".to_string());
    assert_eq!(times(&select_events(&trace(), &Vec::new(), &q)), vec![10, 50]);
    let mut q = query();
    q.categories = Some("Network, storage".to_string());
    assert_eq!(times(&select_events(&trace(), &Vec::new(), &q)), vec![20, 30]);
    q.categories = Some("".to_string());
    assert!(select_events(&trace(), &Vec::new(), &q).is_empty());
    q.categories = Some("NETWOR\u{212a}".to_string());
    assert_eq!(times(&select_events(&trace(), &Vec::new(), &q)), vec![20]);
}

#[test]
fn offset_and_limit() {
    let mut q = query();
    q.offset = Some(1);
    q.limit = Some(2);
    assert_eq!(times(&select_events(&trace(), &Vec::new(), &q)), vec![20, 30]);
    q.offset = Some(4);
    assert_eq!(times(&select_events(&trace(), &Vec::new(), &q)), vec![50]);
    q.offset = Some(7);
    assert!(select_events(&trace(), &Vec::new(), &q).is_empty());
    q.offset = None;
    q.limit = Some(0);
    assert!(select_events(&trace(), &Vec::new(), &q).is_empty());
    let mut q = query();
    q.nodes = Some("0".to_string());
    q.offset = Some(1);
    assert_eq!(times(&select_events(&trace(), &Vec::new(), &q)), vec![40]);
    let many: Vec<Event> = (0..10050).map(|i| ev(0, i, None, EventKind::Other, EventCategory::Custom)).collect();
    assert_eq!(select_events(&many, &Vec::new(), &query()).len(), 10000);
}

#[test]
fn returned_events_are_whole() {
    let mut e = ev(4, 77, Some(8), EventKind::PeerReady, EventCategory::Network);
    e.payload = Some("p".to_string());
    e.peer = Some("q".to_string());
    e.raw.message = "hello".to_string();
    let r = select_events(&vec![e], &Vec::new(), &query());
    assert_eq!(r.len(), 1);
    assert_eq!(r[0].payload.as_deref(), Some("p"));
    assert_eq!(r[0].peer.as_deref(), Some("q"));
    assert_eq!(r[0].raw.message, "hello");
    assert_eq!(r[0].kind, EventKind::PeerReady);
}

#[test]
fn validator_file_names() {
    assert_eq!(validator_id("validator-3.log"), Some(3));
    assert_eq!(validator_id("validator-+12.log"), Some(12));
    assert_eq!(validator_id("validator-256.log"), None);
    assert_eq!(validator_id("validator-.log"), None);
    assert_eq!(validator_id("validator- 1.log"), None);
    assert_eq!(validator_id("validator-1.txt"), None);
    assert_eq!(validator_id("node-1.log"), None);
    let names: Vec<String> = ["validator-2.log", "x", "validator-0.log", "validator-02.log"]
        .iter()
        .map(|s| s.to_string())
        .collect();
    assert_eq!(validator_logs(&names), vec![(0, 2), (2, 3)]);
    assert!(validator_logs(&Vec::new()).is_empty());
}

#[test]
fn message_ids() {
    assert_eq!(derive_message_id(EventKind::NotarizeBroadcast, None, Some("p")), None);
    let id = derive_message_id(EventKind::NotarizedBuilt, Some(409), Some("abc")).unwrap();
    let mut h = blake3::Hasher::new();
    h.update(&409u64.to_be_bytes());
    h.update(&[4u8]);
    h.update(b"abc");
    assert_eq!(id, h.finalize().to_hex()[..16].to_string());
    // a certificate and its receipt share an id
    assert_eq!(
        derive_message_id(EventKind::NotarizationReceived, Some(409), Some("abc")),
        Some(id.clone())
    );
    assert_ne!(derive_message_id(EventKind::NotarizeBroadcast, Some(409), Some("abc")), Some(id));
    assert_eq!(message_group_tag(EventKind::ProposalReceived), 1);
    assert_eq!(message_group_tag(EventKind::PeerReady), EventKind::PeerReady.as_tag());
    let none = derive_message_id(EventKind::LeaderElected, Some(0), None).unwrap();
    assert_eq!(none.len(), 16);
    assert!(none.chars().all(|c| c.is_ascii_digit() || ('a'..='f').contains(&c)));
}

#[test]
fn hex_of_a_digest_prefix() {
    let d: Vec<u8> = vec![0x00, 0xab, 0x10, 0xff, 0x7e, 0x01, 0x9c, 0x30, 0x55];
    assert_eq!(hex_prefix(&d), "00ab10ff7e019c30");
}

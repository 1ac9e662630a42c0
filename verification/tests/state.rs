use simplex_trace_tool::events::{EventCategory, EventKind, EventRegistry};
use simplex_trace_tool::state::builders::{
    assign_ids, build_edges, build_metadata, build_segments, build_view_states, precedence,
};
use simplex_trace_tool::state::sort::stable_sort_events;
use simplex_trace_tool::state::trace::{build_trace, ingest, timestamps_fit, NUM_SEGMENTS};
use simplex_trace_tool::state::{Event, RawLine, ViewMode, ViewStatus};

fn ev(node: u8, line: u64, ts: i128, view: Option<u64>, kind: EventKind, mid: Option<&str>) -> Event {
    Event {
        id: 0,
        raw: RawLine {
            node_id: node,
            line_number: line,
            timestamp_ns: ts,
            level: "DEBUG".to_string(),
            target: "voter".to_string(),
            file: "f.rs:1".to_string(),
            message: format!("m{}", line),
        },
        view,
        payload: None,
        kind,
        kind_tag: kind.as_tag(),
        category: EventCategory::Consensus,
        leader: None,
        message_id: mid.map(|s| s.to_string()),
        peer: None,
        actor: None,
    }
}

#[test]
fn sort_orders_by_key_and_keeps_ties() {
    let mut events = vec![
        ev(1, 5, 20, Some(3), EventKind::Other, None),
        ev(0, 1, 10, None, EventKind::Other, None),
        ev(0, 2, 10, Some(9), EventKind::Other, None),
        ev(2, 7, 10, Some(9), EventKind::Other, Some("a")),
        ev(2, 7, 10, Some(9), EventKind::Other, Some("b")),
        ev(1, 0, 10, Some(9), EventKind::Other, None),
    ];
    stable_sort_events(&mut events);
    let order: Vec<(i128, Option<u64>, u8, u64)> =
        events.iter().map(|e| (e.raw.timestamp_ns, e.view, e.raw.node_id, e.raw.line_number)).collect();
    assert_eq!(
        order,
        vec![
            (10, Some(9), 0, 2),
            (10, Some(9), 1, 0),
            (10, Some(9), 2, 7),
            (10, Some(9), 2, 7),
            (10, None, 0, 1),
            (20, Some(3), 1, 5),
        ]
    );
    // equal keys keep their order
    assert_eq!(events[2].message_id.as_deref(), Some("a"));
    assert_eq!(events[3].message_id.as_deref(), Some("b"));
    assign_ids(&mut events);
    for (i, e) in events.iter().enumerate() {
        assert_eq!(e.id, i as u64);
    }
}

#[test]
fn edges_pair_first_sends_with_receipts_elsewhere() {
    let events = vec![
        ev(1, 0, 5, Some(1), EventKind::NotarizationReceived, Some("x")),
        ev(0, 1, 10, Some(1), EventKind::NotarizedBuilt, Some("x")),
        ev(2, 2, 12, Some(1), EventKind::NotarizedBuilt, Some("x")),
        ev(0, 3, 15, Some(1), EventKind::NotarizationReceived, Some("x")),
        ev(1, 4, 17, Some(1), EventKind::NotarizationReceived, Some("x")),
        ev(1, 5, 18, Some(1), EventKind::NotarizationReceived, None),
        ev(3, 6, 19, Some(1), EventKind::NotarizationReceived, Some("y")),
    ];
    let edges = build_edges(&events);
    assert_eq!(edges.len(), 1);
    let e = &edges[0];
    assert_eq!(e.message_id, "x");
    assert_eq!((e.from_node, e.to_node), (0, 1));
    assert_eq!((e.send_ts_ns, e.recv_ts_ns), (10, 17));
    assert_eq!(e.kind, EventKind::NotarizedBuilt);
    assert_eq!(e.latency_ns(), 7);
}

#[test]
fn view_records_move_forward() {
    let mut leader = ev(0, 0, 100, Some(4), EventKind::LeaderElected, None);
    leader.leader = Some(2);
    let events = vec![
        ev(0, 1, 90, Some(4), EventKind::ProposalReceived, None),
        leader,
        ev(0, 2, 130, Some(4), EventKind::NotarizeBroadcast, None),
        ev(0, 3, 150, Some(4), EventKind::FinalizedBuilt, None),
        ev(0, 4, 160, Some(4), EventKind::NullifyBroadcast, None),
        ev(0, 5, 170, Some(4), EventKind::NotarizationReceived, None),
        ev(1, 6, 120, Some(4), EventKind::NullifiedBuilt, None),
        ev(1, 7, 125, None, EventKind::FinalizedBuilt, None),
        ev(1, 8, 126, Some(5), EventKind::PeerDialed, None),
    ];
    let views = build_view_states(&events);
    assert_eq!(views.len(), 2);
    let r = views[&(0, 4)];
    assert_eq!(r.status, ViewStatus::Finalized);
    assert_eq!(r.leader, Some(2));
    assert_eq!(r.proposal_ns, Some(90));
    assert_eq!(r.entered_ns, Some(90));
    assert_eq!(r.notarized_ns, Some(130));
    assert_eq!(r.finalized_ns, Some(150));
    assert_eq!(r.nullified_ns, Some(160));
    assert_eq!(r.notarize_latency_ns(), Some(40));
    assert_eq!(r.finalize_latency_ns(), Some(60));
    let s = views[&(1, 4)];
    assert_eq!(s.status, ViewStatus::Nullified);
    assert_eq!(s.entered_ns, None);
    assert_eq!(s.notarize_latency_ns(), None);
    assert_eq!(precedence(&ViewStatus::Entered), 1);
    assert_eq!(precedence(&ViewStatus::Finalized), 5);
}

#[test]
fn segments_cut_the_span() {
    let events: Vec<Event> = (0..8)
        .map(|i| ev(0, i, 1000 + 10 * i as i128, Some(i / 2), EventKind::Other, None))
        .collect();
    let segs = build_segments(&events, 7);
    assert_eq!(segs.len(), 7);
    let span: i128 = 70;
    let mut total = 0;
    for (i, s) in segs.iter().enumerate() {
        assert_eq!(s.index, i);
        assert_eq!(s.start_ns, 1000 + span * i as i128 / 7);
        assert_eq!(s.end_ns, 1000 + span * (i as i128 + 1) / 7);
        total += s.event_count;
        if i + 1 < segs.len() {
            assert_eq!(s.end_ns, segs[i + 1].start_ns);
        }
    }
    // the last event sits at the end of the last segment, which excludes it
    assert_eq!(total, 7);
    assert_eq!(segs[0].views, vec![0]);
    assert_eq!(segs[6].views, vec![3]);
}

#[test]
fn segments_of_one_instant_and_of_nothing() {
    let events = vec![
        ev(0, 0, 5, Some(2), EventKind::Other, None),
        ev(1, 1, 5, None, EventKind::Other, None),
        ev(1, 2, 5, Some(2), EventKind::Other, None),
    ];
    let segs = build_segments(&events, 7);
    assert_eq!(segs.len(), 1);
    assert_eq!((segs[0].start_ns, segs[0].end_ns, segs[0].event_count), (5, 5, 3));
    assert_eq!(segs[0].views, vec![2, 2]);
    assert!(build_segments(&Vec::new(), 7).is_empty());
}

#[test]
fn segments_of_a_negative_span_round_toward_zero() {
    let events = vec![
        ev(0, 0, 100, None, EventKind::Other, None),
        ev(0, 1, 0, None, EventKind::Other, None),
    ];
    let segs = build_segments(&events, 3);
    assert_eq!(segs.len(), 3);
    assert_eq!(segs[1].start_ns, 100 + (-100i128) / 3);
    assert_eq!(segs[1].start_ns, 67);
    assert_eq!(segs[2].end_ns, 0);
}

#[test]
fn metadata_summarises() {
    let events = vec![
        ev(3, 0, 10, Some(7), EventKind::FinalizedBuilt, None),
        ev(1, 1, 20, None, EventKind::LeaderElected, None),
        ev(3, 2, 30, Some(2), EventKind::LeaderElected, None),
        ev(0, 3, 40, Some(9), EventKind::PeerDialed, None),
    ];
    let m = build_metadata(&events);
    assert_eq!(m.nodes, vec![0, 1, 3]);
    assert_eq!((m.min_ts_ns, m.max_ts_ns), (10, 40));
    assert_eq!((m.min_view, m.max_view), (2, 9));
    assert_eq!(m.total_events, 4);
    let tags: Vec<u8> = m.event_kinds.iter().map(|k| k.tag).collect();
    assert_eq!(tags, vec![1, 12, 61]);
    assert_eq!(m.event_kinds[0].kind, EventKind::LeaderElected);
    assert_eq!(m.event_kinds[0].label, "Leader Elected");
    assert_eq!(m.event_kinds[0].category, EventCategory::Consensus);
    assert_eq!(m.event_kinds[1].category, EventCategory::Consensus);
    assert_eq!(m.event_kinds[2].category, EventCategory::Network);
    let storage = build_metadata(&vec![ev(0, 0, 1, None, EventKind::StorageAppend, None)]);
    assert_eq!(storage.event_kinds[0].category, EventCategory::Storage);

    let none = build_metadata(&vec![ev(0, 0, 1, None, EventKind::Other, None)]);
    assert_eq!((none.min_view, none.max_view), (0, 0));
    let empty = build_metadata(&Vec::new());
    assert!(empty.nodes.is_empty() && empty.event_kinds.is_empty());
    assert_eq!(empty.total_events, 0);
    assert_eq!(ViewMode::default(), ViewMode::Consensus);
}

#[test]
fn trace_is_sorted_numbered_and_derived() {
    let events = vec![
        ev(1, 0, 300, Some(1), EventKind::NotarizationReceived, Some("m")),
        ev(0, 0, 100, Some(1), EventKind::LeaderElected, None),
        ev(0, 1, 200, Some(1), EventKind::NotarizedBuilt, Some("m")),
    ];
    assert!(timestamps_fit(&events));
    let t = build_trace(events);
    let ts: Vec<i128> = t.events.iter().map(|e| e.raw.timestamp_ns).collect();
    assert_eq!(ts, vec![100, 200, 300]);
    let ids: Vec<u64> = t.events.iter().map(|e| e.id).collect();
    assert_eq!(ids, vec![0, 1, 2]);
    assert_eq!(t.edges.len(), 1);
    assert!(t.edges[0].send_ts_ns <= t.edges[0].recv_ts_ns);
    assert_eq!(t.views.len(), 2);
    assert_eq!(t.segments.len(), NUM_SEGMENTS);
    assert_eq!(t.meta.total_events, 3);
    assert!(!timestamps_fit(&vec![ev(0, 0, i64::MAX as i128 + 1, None, EventKind::Other, None)]));
}

#[test]
fn ingest_reads_every_log_into_one_trace() {
    let line = |ts: &str, msg: &str| {
        Some(format!("{} DEBUG ThreadId(01) consensus::voter: voter.rs:1: {}", ts, msg))
    };
    let logs = vec![
        (1u8, vec![line("2024-01-01T00:00:02Z", "leader elected round=Round { view: View(3) }")]),
        (0u8, vec![line("2024-01-01T00:00:01Z", "leader elected round=Round { view: View(3) }"), None]),
    ];
    let t = ingest(&logs, &EventRegistry::new()).expect("readable");
    assert_eq!(t.events.len(), 2);
    assert_eq!(t.events[0].raw.node_id, 0);
    assert_eq!(t.events[1].raw.node_id, 1);
    assert_eq!(t.views.len(), 2);
    let bad = vec![(0u8, vec![line("2024-01-01T00:00:01Z", "\u{130}view=")])];
    assert!(ingest(&bad, &EventRegistry::new()).is_none());
}

#[test]
fn unmarked_events_anywhere_change_no_record() {
    let base = vec![
        ev(0, 0, 10, Some(1), EventKind::LeaderElected, None),
        ev(0, 1, 20, Some(1), EventKind::NotarizedBuilt, None),
        ev(1, 2, 30, Some(2), EventKind::FinalizedBuilt, None),
    ];
    let plain = build_view_states(&base);
    for k in 0..=base.len() {
        for extra in [ev(0, 9, 15, None, EventKind::FinalizedBuilt, None), ev(0, 9, 15, Some(1), EventKind::PeerDialed, None)] {
            let mut with = base.clone();
            with.insert(k, extra);
            assert_eq!(build_view_states(&with), plain);
        }
    }
    let keys: Vec<(u8, u64)> = plain.keys().copied().collect();
    assert_eq!(keys, vec![(0, 1), (1, 2)]);
}

use simplex_trace_tool::events::{
    classify_batcher, classify_broadcast, classify_consensus, classify_marshal, classify_network,
    classify_resolver, classify_storage, Classifier, EventCategory, EventKind, EventRegistry,
};

#[test]
fn test_classify_broadcast() {
    let (kind, _) = classify_broadcast("mailbox: broadcast").unwrap();
    assert_eq!(kind, EventKind::BufferedBroadcast);

    let (kind, _) = classify_broadcast("mailbox: get").unwrap();
    assert_eq!(kind, EventKind::BufferedGet);

    assert!(classify_broadcast("unknown message").is_none());
}

#[test]
fn test_classify_resolver() {
    let (kind, _) = classify_resolver("mailbox: cancel").unwrap();
    assert_eq!(kind, EventKind::ResolverCancel);

    assert!(classify_resolver("unknown message").is_none());
}

#[test]
fn test_classify_consensus() {
    let (kind, _) = classify_consensus("leader elected round=Round { view: View(5) }").unwrap();
    assert_eq!(kind, EventKind::LeaderElected);

    let (kind, _) = classify_consensus("requested proposal from automaton").unwrap();
    assert_eq!(kind, EventKind::ProposalRequested);

    assert!(classify_consensus("unknown message").is_none());
}

#[test]
fn test_classify_marshal() {
    let (kind, _) = classify_marshal("cached round=5").unwrap();
    assert_eq!(kind, EventKind::MarshalCached);
}

#[test]
fn test_classify_network() {
    let (kind, _) = classify_network("dialed peer abc123").unwrap();
    assert_eq!(kind, EventKind::PeerDialed);

    let (kind, _) = classify_network("peer ready peer=abc123").unwrap();
    assert_eq!(kind, EventKind::PeerReady);

    assert!(classify_network("unknown message").is_none());
}

#[test]
fn test_registry_classification() {
    let registry = EventRegistry::new();

    let (kind, _) = registry.classify("leader elected round=Round { view: View(5) }");
    assert_eq!(kind, EventKind::LeaderElected);

    let (kind, _) = registry.classify("broadcasting notarize proposal=abc123");
    assert_eq!(kind, EventKind::NotarizeBroadcast);

    let (kind, _) = registry.classify("unknown message");
    assert_eq!(kind, EventKind::Other);
}

#[test]
fn test_classify_storage() {
    let (kind, _) = classify_storage("appended item to journal").unwrap();
    assert_eq!(kind, EventKind::StorageAppend);

    let (kind, _) = classify_storage("initializing archive").unwrap();
    assert_eq!(kind, EventKind::ArchiveInit);

    assert!(classify_storage("unknown message").is_none());
}

#[test]
fn event_categories() {
    assert_eq!(
        EventCategory::from_target("commonware_consensus::simplex::actors::voter"),
        EventCategory::Consensus
    );
    assert_eq!(EventCategory::from_target("commonware_p2p::authenticated"), EventCategory::Network);
    assert_eq!(EventCategory::from_target("commonware_broadcast::buffered"), EventCategory::Broadcast);
}

#[test]
fn category_of_other_targets() {
    assert_eq!(EventCategory::from_target("commonware_storage::journal"), EventCategory::Storage);
    assert_eq!(EventCategory::from_target("commonware_resolver::p2p"), EventCategory::Network);
    assert_eq!(EventCategory::from_target("commonware_resolver::engine"), EventCategory::Resolver);
    assert_eq!(EventCategory::from_target("simplex::marshal::actor"), EventCategory::Marshal);
    assert_eq!(EventCategory::from_target("simplex::batcher"), EventCategory::Batcher);
    assert_eq!(EventCategory::from_target("something_else"), EventCategory::Consensus);
    assert_eq!(EventCategory::all().len(), 8);
    assert_eq!(EventCategory::Broadcast.name(), "broadcast");
}

#[test]
fn tags_are_distinct_and_round_trip() {
    let mut seen = std::collections::HashSet::new();
    for t in 0..=255u8 {
        if let Some(k) = EventKind::from_tag(t) {
            assert_eq!(k.as_tag(), t);
            assert!(seen.insert(k));
        }
    }
    assert_eq!(seen.len(), 36);
    assert_eq!(EventKind::Other.as_tag(), 255);
    assert_eq!(EventKind::LeaderElected.as_tag(), 1);
    assert_eq!(EventKind::ArchiveRestore.as_tag(), 83);
}

#[test]
fn tags_lie_in_their_ranges() {
    for t in 0..=255u8 {
        if EventKind::from_tag(t).is_some() {
            let ok = (1..=14).contains(&t)
                || (21..=23).contains(&t)
                || (31..=32).contains(&t)
                || (41..=44).contains(&t)
                || (51..=52).contains(&t)
                || (61..=67).contains(&t)
                || (81..=83).contains(&t)
                || t == 255;
            assert!(ok, "tag {} out of range", t);
        }
    }
}

#[test]
fn kind_predicates() {
    assert!(EventKind::NotarizeBroadcast.is_vote());
    assert!(!EventKind::NotarizedBuilt.is_vote());
    assert!(EventKind::NotarizedBuilt.is_certificate());
    assert!(EventKind::NotarizeBroadcast.is_send());
    assert!(EventKind::ProposalRequested.is_send());
    assert!(EventKind::NotarizationReceived.is_recv());
    assert!(!EventKind::LeaderElected.is_send());
    assert!(!EventKind::LeaderElected.is_recv());
    assert_eq!(EventKind::LeaderElected.label(), "Leader Elected");
    assert!(EventKind::LeaderElected.color().starts_with('#'));
}

#[test]
fn batcher_classifier() {
    assert!(classify_batcher("unknown message").is_none());
}

#[test]
fn registry_registers_in_order_and_first_match_wins() {
    let mut registry = EventRegistry::new();
    let before = registry.classifier_names();
    registry.register("again", Classifier::Consensus);
    let after = registry.classifier_names();
    assert_eq!(after.len(), before.len() + 1);
    assert_eq!(after[after.len() - 1], "again");
    assert_eq!(&after[..before.len()], &before[..]);
    let (kind, _) = registry.classify("leader elected round=Round { view: View(5) }");
    assert_eq!(kind, EventKind::LeaderElected);
}

#[test]
fn labels_are_distinct_and_non_empty() {
    let mut seen = std::collections::HashSet::new();
    for t in 0..=255u8 {
        if let Some(k) = EventKind::from_tag(t) {
            assert!(!k.label().is_empty());
            assert!(seen.insert(k.label()));
        }
    }
    assert_eq!(EventKind::NotarizeBroadcast.label(), "Notarize Vote");
    assert_eq!(EventKind::NotarizedBuilt.label(), "Notarization Built");
    assert_eq!(EventKind::Other.label(), "Other");
}

#[test]
fn categories_by_tag_range() {
    assert_eq!(EventCategory::of_tag(1), EventCategory::Consensus);
    assert_eq!(EventCategory::of_tag(14), EventCategory::Consensus);
    assert_eq!(EventCategory::of_tag(22), EventCategory::Marshal);
    assert_eq!(EventCategory::of_tag(32), EventCategory::Batcher);
    assert_eq!(EventCategory::of_tag(41), EventCategory::Broadcast);
    assert_eq!(EventCategory::of_tag(52), EventCategory::Resolver);
    assert_eq!(EventCategory::of_tag(67), EventCategory::Network);
    assert_eq!(EventCategory::of_tag(81), EventCategory::Storage);
    assert_eq!(EventCategory::of_tag(255), EventCategory::Consensus);
}

#[test]
fn colours_are_distinct_hex_codes() {
    let mut seen = std::collections::HashSet::new();
    for t in 0..=255u8 {
        if let Some(k) = EventKind::from_tag(t) {
            let c = k.color();
            assert_eq!(c.len(), 7);
            assert!(c.starts_with('#'));
            assert!(c[1..].chars().all(|x| x.is_ascii_digit() || ('a'..='f').contains(&x)));
            assert!(seen.insert(c));
        }
    }
    assert_eq!(EventKind::Other.color(), "#9ca3af");
}

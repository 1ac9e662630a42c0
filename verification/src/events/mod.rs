//! Event categories and kinds: the vocabulary that log messages are
//! classified into.
use vstd::prelude::*;
use crate::text::{chars_of, contains, contains_lit, is_lower_hex};
use crate::parser::extractors::message_payload;

pub mod broadcast;
pub mod consensus;
pub mod network;
pub mod registry;
pub mod storage;
pub mod tables;

pub use broadcast::{classify_broadcast, classify_resolver};
pub use consensus::{classify_batcher, classify_consensus, classify_marshal};
pub use network::classify_network;
pub use registry::{derive_message_id, hex_prefix, message_group_tag, Classifier, EventRegistry};
pub use storage::classify_storage;


verus! {

broadcast use vstd::string::group_string_axioms;

// ============================================================================
// Event categories
// ============================================================================

/// The subsystem that emitted a log line.
#[derive(Clone, Copy, Debug, PartialEq, Eq, Structural, PartialOrd, Ord, Hash)]
pub enum EventCategory {
    Consensus,
    Network,
    Storage,
    Resolver,
    Marshal,
    Batcher,
    Broadcast,
    Custom,
}

/// The category of a log target, by the first group of substrings that it
/// contains (consensus when none does).
pub open spec fn category_of_target(t: Seq<char>) -> EventCategory {
    if contains(t, "voter"@) || contains(t, "round"@) {
        EventCategory::Consensus
    } else if contains(t, "p2p"@) || contains(t, "discovery"@) {
        EventCategory::Network
    } else if contains(t, "storage"@) || contains(t, "journal"@) || contains(t, "archive"@) {
        EventCategory::Storage
    } else if contains(t, "resolver"@) {
        EventCategory::Resolver
    } else if contains(t, "marshal"@) {
        EventCategory::Marshal
    } else if contains(t, "batcher"@) {
        EventCategory::Batcher
    } else if contains(t, "broadcast"@) || contains(t, "buffered"@) {
        EventCategory::Broadcast
    } else {
        EventCategory::Consensus
    }
}

/// The category that a tag's range belongs to: 1-14 consensus, 21-23
/// marshal, 31-32 batcher, 41-44 broadcast, 51-52 resolver, 61-67 network,
/// 81-83 storage; consensus for any other tag.
pub open spec fn tag_category(t: u8) -> EventCategory {
    if 21 <= t <= 23 {
        EventCategory::Marshal
    } else if 31 <= t <= 32 {
        EventCategory::Batcher
    } else if 41 <= t <= 44 {
        EventCategory::Broadcast
    } else if 51 <= t <= 52 {
        EventCategory::Resolver
    } else if 61 <= t <= 67 {
        EventCategory::Network
    } else if 81 <= t <= 83 {
        EventCategory::Storage
    } else {
        EventCategory::Consensus
    }
}

/// The lower-case name of a category, as used in queries.
pub open spec fn category_name(c: EventCategory) -> Seq<char> {
    match c {
        EventCategory::Consensus => "consensus"@,
        EventCategory::Network => "network"@,
        EventCategory::Storage => "storage"@,
        EventCategory::Resolver => "resolver"@,
        EventCategory::Marshal => "marshal"@,
        EventCategory::Batcher => "batcher"@,
        EventCategory::Broadcast => "broadcast"@,
        EventCategory::Custom => "custom"@,
    }
}

impl EventCategory {
    /// The category of a log target.
    pub fn from_target(target: &str) -> (r: Self)
        ensures
            r == category_of_target(target@),
    {
        let t = chars_of(target);
        Self::from_target_chars(&t)
    }

    /// The category of the characters of a log target.
    pub fn from_target_chars(t: &Vec<char>) -> (r: Self)
        ensures
            r == category_of_target(t@),
    {
        if contains_lit(t, "voter") || contains_lit(t, "round") {
            EventCategory::Consensus
        } else if contains_lit(t, "p2p") || contains_lit(t, "discovery") {
            EventCategory::Network
        } else if contains_lit(t, "storage") || contains_lit(t, "journal") || contains_lit(t, "archive") {
            EventCategory::Storage
        } else if contains_lit(t, "resolver") {
            EventCategory::Resolver
        } else if contains_lit(t, "marshal") {
            EventCategory::Marshal
        } else if contains_lit(t, "batcher") {
            EventCategory::Batcher
        } else if contains_lit(t, "broadcast") || contains_lit(t, "buffered") {
            EventCategory::Broadcast
        } else {
            EventCategory::Consensus
        }
    }

    /// The category that a tag's range belongs to.
    pub fn of_tag(t: u8) -> (r: Self)
        ensures
            r == tag_category(t),
    {
        if 21 <= t && t <= 23 {
            EventCategory::Marshal
        } else if 31 <= t && t <= 32 {
            EventCategory::Batcher
        } else if 41 <= t && t <= 44 {
            EventCategory::Broadcast
        } else if 51 <= t && t <= 52 {
            EventCategory::Resolver
        } else if 61 <= t && t <= 67 {
            EventCategory::Network
        } else if 81 <= t && t <= 83 {
            EventCategory::Storage
        } else {
            EventCategory::Consensus
        }
    }

    /// Every category, in declaration order.
    pub fn all() -> (r: Vec<EventCategory>)
        ensures
            r@ == seq![EventCategory::Consensus, EventCategory::Network, EventCategory::Storage, EventCategory::Resolver, EventCategory::Marshal, EventCategory::Batcher, EventCategory::Broadcast, EventCategory::Custom],
    {
        vec![EventCategory::Consensus, EventCategory::Network, EventCategory::Storage, EventCategory::Resolver, EventCategory::Marshal, EventCategory::Batcher, EventCategory::Broadcast, EventCategory::Custom]
    }

    /// The lower-case name of the category.
    pub fn name(&self) -> (r: &'static str)
        ensures
            r@ == category_name(*self),
    {
        match self {
            EventCategory::Consensus => "consensus",
            EventCategory::Network => "network",
            EventCategory::Storage => "storage",
            EventCategory::Resolver => "resolver",
            EventCategory::Marshal => "marshal",
            EventCategory::Batcher => "batcher",
            EventCategory::Broadcast => "broadcast",
            EventCategory::Custom => "custom",
        }
    }
}

// ============================================================================
// Event kinds
// ============================================================================

/// Every kind of event that a log line can be classified as.
#[derive(Clone, Copy, Debug, PartialEq, Eq, Structural, PartialOrd, Ord, Hash)]
pub enum EventKind {
    LeaderElected,
    ProposalRequested,
    ProposalReceived,
    ProposalVerify,
    NotarizeBroadcast,
    NotarizedBuilt,
    NotarizationReceived,
    NullifyBroadcast,
    NullifiedBuilt,
    NullificationReceived,
    FinalizeBroadcast,
    FinalizedBuilt,
    FinalizationReceived,
    CertificationAttempt,
    MarshalCached,
    MarshalSubscriber,
    MarshalBroadcast,
    BatcherNoVerifier,
    BatcherSkipDuplicate,
    BufferedBroadcast,
    BufferedGet,
    BufferedSubscribe,
    BufferedNetwork,
    ResolverCancel,
    ResolverRetain,
    PeerDialed,
    PeerConnected,
    PeerStarted,
    PeerReady,
    PeerRecordUpdate,
    ConnectionAccepted,
    HandshakeComplete,
    StorageAppend,
    ArchiveInit,
    ArchiveRestore,
    Other,
}

/// The numeric tag of a kind: consensus 1-14, marshal 21-23, batcher 31-32,
/// buffered broadcast 41-44, resolver 51-52, network 61-67, storage 81-83,
/// other 255.
pub open spec fn kind_tag(k: EventKind) -> u8 {
    match k {
        EventKind::LeaderElected => 1,
        EventKind::ProposalRequested => 2,
        EventKind::ProposalReceived => 3,
        EventKind::ProposalVerify => 4,
        EventKind::NotarizeBroadcast => 5,
        EventKind::NotarizedBuilt => 6,
        EventKind::NotarizationReceived => 7,
        EventKind::NullifyBroadcast => 8,
        EventKind::NullifiedBuilt => 9,
        EventKind::NullificationReceived => 10,
        EventKind::FinalizeBroadcast => 11,
        EventKind::FinalizedBuilt => 12,
        EventKind::FinalizationReceived => 13,
        EventKind::CertificationAttempt => 14,
        EventKind::MarshalCached => 21,
        EventKind::MarshalSubscriber => 22,
        EventKind::MarshalBroadcast => 23,
        EventKind::BatcherNoVerifier => 31,
        EventKind::BatcherSkipDuplicate => 32,
        EventKind::BufferedBroadcast => 41,
        EventKind::BufferedGet => 42,
        EventKind::BufferedSubscribe => 43,
        EventKind::BufferedNetwork => 44,
        EventKind::ResolverCancel => 51,
        EventKind::ResolverRetain => 52,
        EventKind::PeerDialed => 61,
        EventKind::PeerConnected => 62,
        EventKind::PeerStarted => 63,
        EventKind::PeerReady => 64,
        EventKind::PeerRecordUpdate => 65,
        EventKind::ConnectionAccepted => 66,
        EventKind::HandshakeComplete => 67,
        EventKind::StorageAppend => 81,
        EventKind::ArchiveInit => 82,
        EventKind::ArchiveRestore => 83,
        EventKind::Other => 255,
    }
}

/// The display label of a kind.
pub open spec fn kind_label(k: EventKind) -> Seq<char> {
    match k {
        EventKind::LeaderElected => "Leader Elected"@,
        EventKind::ProposalRequested => "Proposal Requested"@,
        EventKind::ProposalReceived => "Proposal Received"@,
        EventKind::ProposalVerify => "Proposal Verify"@,
        EventKind::NotarizeBroadcast => "Notarize Vote"@,
        EventKind::NotarizedBuilt => "Notarization Built"@,
        EventKind::NotarizationReceived => "Notarization Received"@,
        EventKind::NullifyBroadcast => "Nullify Vote"@,
        EventKind::NullifiedBuilt => "Nullification Built"@,
        EventKind::NullificationReceived => "Nullification Received"@,
        EventKind::FinalizeBroadcast => "Finalize Vote"@,
        EventKind::FinalizedBuilt => "Finalization Built"@,
        EventKind::FinalizationReceived => "Finalization Received"@,
        EventKind::CertificationAttempt => "Certification Attempt"@,
        EventKind::MarshalCached => "Marshal Cached"@,
        EventKind::MarshalSubscriber => "Marshal Subscriber"@,
        EventKind::MarshalBroadcast => "Marshal Broadcast"@,
        EventKind::BatcherNoVerifier => "Batcher No Verifier"@,
        EventKind::BatcherSkipDuplicate => "Batcher Skip Duplicate"@,
        EventKind::BufferedBroadcast => "Buffered Broadcast"@,
        EventKind::BufferedGet => "Buffered Get"@,
        EventKind::BufferedSubscribe => "Buffered Subscribe"@,
        EventKind::BufferedNetwork => "Buffered Network"@,
        EventKind::ResolverCancel => "Resolver Cancel"@,
        EventKind::ResolverRetain => "Resolver Retain"@,
        EventKind::PeerDialed => "Peer Dialed"@,
        EventKind::PeerConnected => "Peer Connected"@,
        EventKind::PeerStarted => "Peer Started"@,
        EventKind::PeerReady => "Peer Ready"@,
        EventKind::PeerRecordUpdate => "Peer Record Update"@,
        EventKind::ConnectionAccepted => "Connection Accepted"@,
        EventKind::HandshakeComplete => "Handshake Complete"@,
        EventKind::StorageAppend => "Storage Append"@,
        EventKind::ArchiveInit => "Archive Init"@,
        EventKind::ArchiveRestore => "Archive Restore"@,
        EventKind::Other => "Other"@,
    }
}

/// The display colour of a kind.
pub open spec fn kind_color(k: EventKind) -> Seq<char> {
    match k {
        EventKind::LeaderElected => "#60a5fa"@,
        EventKind::ProposalRequested => "#34d399"@,
        EventKind::ProposalReceived => "#2dd4bf"@,
        EventKind::ProposalVerify => "#22d3ee"@,
        EventKind::NotarizeBroadcast => "#a78bfa"@,
        EventKind::NotarizedBuilt => "#c4b5fd"@,
        EventKind::NotarizationReceived => "#ddd6fe"@,
        EventKind::NullifyBroadcast => "#fb923c"@,
        EventKind::NullifiedBuilt => "#fdba74"@,
        EventKind::NullificationReceived => "#fed7aa"@,
        EventKind::FinalizeBroadcast => "#f87171"@,
        EventKind::FinalizedBuilt => "#fca5a5"@,
        EventKind::FinalizationReceived => "#fecaca"@,
        EventKind::CertificationAttempt => "#fbbf24"@,
        EventKind::MarshalCached => "#4ade80"@,
        EventKind::MarshalSubscriber => "#86efac"@,
        EventKind::MarshalBroadcast => "#bbf7d0"@,
        EventKind::BatcherNoVerifier => "#94a3b8"@,
        EventKind::BatcherSkipDuplicate => "#cbd5e1"@,
        EventKind::BufferedBroadcast => "#38bdf8"@,
        EventKind::BufferedGet => "#7dd3fc"@,
        EventKind::BufferedSubscribe => "#bae6fd"@,
        EventKind::BufferedNetwork => "#e0f2fe"@,
        EventKind::ResolverCancel => "#e879f9"@,
        EventKind::ResolverRetain => "#f0abfc"@,
        EventKind::PeerDialed => "#818cf8"@,
        EventKind::PeerConnected => "#a5b4fc"@,
        EventKind::PeerStarted => "#c7d2fe"@,
        EventKind::PeerReady => "#e0e7ff"@,
        EventKind::PeerRecordUpdate => "#6366f1"@,
        EventKind::ConnectionAccepted => "#8b5cf6"@,
        EventKind::HandshakeComplete => "#a855f7"@,
        EventKind::StorageAppend => "#64748b"@,
        EventKind::ArchiveInit => "#475569"@,
        EventKind::ArchiveRestore => "#334155"@,
        EventKind::Other => "#9ca3af"@,
    }
}

/// The name of a kind's variant, as its `Debug` form writes it.
pub open spec fn kind_name(k: EventKind) -> Seq<char> {
    match k {
        EventKind::LeaderElected => "LeaderElected"@,
        EventKind::ProposalRequested => "ProposalRequested"@,
        EventKind::ProposalReceived => "ProposalReceived"@,
        EventKind::ProposalVerify => "ProposalVerify"@,
        EventKind::NotarizeBroadcast => "NotarizeBroadcast"@,
        EventKind::NotarizedBuilt => "NotarizedBuilt"@,
        EventKind::NotarizationReceived => "NotarizationReceived"@,
        EventKind::NullifyBroadcast => "NullifyBroadcast"@,
        EventKind::NullifiedBuilt => "NullifiedBuilt"@,
        EventKind::NullificationReceived => "NullificationReceived"@,
        EventKind::FinalizeBroadcast => "FinalizeBroadcast"@,
        EventKind::FinalizedBuilt => "FinalizedBuilt"@,
        EventKind::FinalizationReceived => "FinalizationReceived"@,
        EventKind::CertificationAttempt => "CertificationAttempt"@,
        EventKind::MarshalCached => "MarshalCached"@,
        EventKind::MarshalSubscriber => "MarshalSubscriber"@,
        EventKind::MarshalBroadcast => "MarshalBroadcast"@,
        EventKind::BatcherNoVerifier => "BatcherNoVerifier"@,
        EventKind::BatcherSkipDuplicate => "BatcherSkipDuplicate"@,
        EventKind::BufferedBroadcast => "BufferedBroadcast"@,
        EventKind::BufferedGet => "BufferedGet"@,
        EventKind::BufferedSubscribe => "BufferedSubscribe"@,
        EventKind::BufferedNetwork => "BufferedNetwork"@,
        EventKind::ResolverCancel => "ResolverCancel"@,
        EventKind::ResolverRetain => "ResolverRetain"@,
        EventKind::PeerDialed => "PeerDialed"@,
        EventKind::PeerConnected => "PeerConnected"@,
        EventKind::PeerStarted => "PeerStarted"@,
        EventKind::PeerReady => "PeerReady"@,
        EventKind::PeerRecordUpdate => "PeerRecordUpdate"@,
        EventKind::ConnectionAccepted => "ConnectionAccepted"@,
        EventKind::HandshakeComplete => "HandshakeComplete"@,
        EventKind::StorageAppend => "StorageAppend"@,
        EventKind::ArchiveInit => "ArchiveInit"@,
        EventKind::ArchiveRestore => "ArchiveRestore"@,
        EventKind::Other => "Other"@,
    }
}

/// Own votes: notarize, nullify and finalize broadcasts.
pub open spec fn kind_is_vote(k: EventKind) -> bool {
    k == EventKind::NotarizeBroadcast || k == EventKind::NullifyBroadcast
        || k == EventKind::FinalizeBroadcast
}

/// Certificates built from votes.
pub open spec fn kind_is_certificate(k: EventKind) -> bool {
    k == EventKind::NotarizedBuilt || k == EventKind::NullifiedBuilt
        || k == EventKind::FinalizedBuilt
}

/// Events that send a message to other nodes.
pub open spec fn kind_is_send(k: EventKind) -> bool {
    k == EventKind::ProposalRequested || k == EventKind::NotarizeBroadcast
        || k == EventKind::NullifyBroadcast || k == EventKind::FinalizeBroadcast
        || k == EventKind::NotarizedBuilt || k == EventKind::NullifiedBuilt
        || k == EventKind::FinalizedBuilt || k == EventKind::MarshalBroadcast
        || k == EventKind::BufferedBroadcast
}

/// Events that receive a message from another node.
pub open spec fn kind_is_recv(k: EventKind) -> bool {
    k == EventKind::ProposalReceived || k == EventKind::NotarizationReceived
        || k == EventKind::NullificationReceived || k == EventKind::FinalizationReceived
}

/// The kind with a given tag, if any.
pub open spec fn kind_of_tag(t: u8) -> Option<EventKind> {
    if t == 1 { Some(EventKind::LeaderElected) } else
    if t == 2 { Some(EventKind::ProposalRequested) } else
    if t == 3 { Some(EventKind::ProposalReceived) } else
    if t == 4 { Some(EventKind::ProposalVerify) } else
    if t == 5 { Some(EventKind::NotarizeBroadcast) } else
    if t == 6 { Some(EventKind::NotarizedBuilt) } else
    if t == 7 { Some(EventKind::NotarizationReceived) } else
    if t == 8 { Some(EventKind::NullifyBroadcast) } else
    if t == 9 { Some(EventKind::NullifiedBuilt) } else
    if t == 10 { Some(EventKind::NullificationReceived) } else
    if t == 11 { Some(EventKind::FinalizeBroadcast) } else
    if t == 12 { Some(EventKind::FinalizedBuilt) } else
    if t == 13 { Some(EventKind::FinalizationReceived) } else
    if t == 14 { Some(EventKind::CertificationAttempt) } else
    if t == 21 { Some(EventKind::MarshalCached) } else
    if t == 22 { Some(EventKind::MarshalSubscriber) } else
    if t == 23 { Some(EventKind::MarshalBroadcast) } else
    if t == 31 { Some(EventKind::BatcherNoVerifier) } else
    if t == 32 { Some(EventKind::BatcherSkipDuplicate) } else
    if t == 41 { Some(EventKind::BufferedBroadcast) } else
    if t == 42 { Some(EventKind::BufferedGet) } else
    if t == 43 { Some(EventKind::BufferedSubscribe) } else
    if t == 44 { Some(EventKind::BufferedNetwork) } else
    if t == 51 { Some(EventKind::ResolverCancel) } else
    if t == 52 { Some(EventKind::ResolverRetain) } else
    if t == 61 { Some(EventKind::PeerDialed) } else
    if t == 62 { Some(EventKind::PeerConnected) } else
    if t == 63 { Some(EventKind::PeerStarted) } else
    if t == 64 { Some(EventKind::PeerReady) } else
    if t == 65 { Some(EventKind::PeerRecordUpdate) } else
    if t == 66 { Some(EventKind::ConnectionAccepted) } else
    if t == 67 { Some(EventKind::HandshakeComplete) } else
    if t == 81 { Some(EventKind::StorageAppend) } else
    if t == 82 { Some(EventKind::ArchiveInit) } else
    if t == 83 { Some(EventKind::ArchiveRestore) } else
    if t == 255 { Some(EventKind::Other) } else { None }
}

impl EventKind {
    /// The numeric tag of the kind.
    pub fn as_tag(&self) -> (r: u8)
        ensures
            r == kind_tag(*self),
    {
        match self {
            EventKind::LeaderElected => 1,
            EventKind::ProposalRequested => 2,
            EventKind::ProposalReceived => 3,
            EventKind::ProposalVerify => 4,
            EventKind::NotarizeBroadcast => 5,
            EventKind::NotarizedBuilt => 6,
            EventKind::NotarizationReceived => 7,
            EventKind::NullifyBroadcast => 8,
            EventKind::NullifiedBuilt => 9,
            EventKind::NullificationReceived => 10,
            EventKind::FinalizeBroadcast => 11,
            EventKind::FinalizedBuilt => 12,
            EventKind::FinalizationReceived => 13,
            EventKind::CertificationAttempt => 14,
            EventKind::MarshalCached => 21,
            EventKind::MarshalSubscriber => 22,
            EventKind::MarshalBroadcast => 23,
            EventKind::BatcherNoVerifier => 31,
            EventKind::BatcherSkipDuplicate => 32,
            EventKind::BufferedBroadcast => 41,
            EventKind::BufferedGet => 42,
            EventKind::BufferedSubscribe => 43,
            EventKind::BufferedNetwork => 44,
            EventKind::ResolverCancel => 51,
            EventKind::ResolverRetain => 52,
            EventKind::PeerDialed => 61,
            EventKind::PeerConnected => 62,
            EventKind::PeerStarted => 63,
            EventKind::PeerReady => 64,
            EventKind::PeerRecordUpdate => 65,
            EventKind::ConnectionAccepted => 66,
            EventKind::HandshakeComplete => 67,
            EventKind::StorageAppend => 81,
            EventKind::ArchiveInit => 82,
            EventKind::ArchiveRestore => 83,
            EventKind::Other => 255,
        }
    }

    /// The kind's label for display.
    pub fn label(&self) -> (r: &'static str)
        ensures
            r@ == kind_label(*self),
    {
        match self {
            EventKind::LeaderElected => "Leader Elected",
            EventKind::ProposalRequested => "Proposal Requested",
            EventKind::ProposalReceived => "Proposal Received",
            EventKind::ProposalVerify => "Proposal Verify",
            EventKind::NotarizeBroadcast => "Notarize Vote",
            EventKind::NotarizedBuilt => "Notarization Built",
            EventKind::NotarizationReceived => "Notarization Received",
            EventKind::NullifyBroadcast => "Nullify Vote",
            EventKind::NullifiedBuilt => "Nullification Built",
            EventKind::NullificationReceived => "Nullification Received",
            EventKind::FinalizeBroadcast => "Finalize Vote",
            EventKind::FinalizedBuilt => "Finalization Built",
            EventKind::FinalizationReceived => "Finalization Received",
            EventKind::CertificationAttempt => "Certification Attempt",
            EventKind::MarshalCached => "Marshal Cached",
            EventKind::MarshalSubscriber => "Marshal Subscriber",
            EventKind::MarshalBroadcast => "Marshal Broadcast",
            EventKind::BatcherNoVerifier => "Batcher No Verifier",
            EventKind::BatcherSkipDuplicate => "Batcher Skip Duplicate",
            EventKind::BufferedBroadcast => "Buffered Broadcast",
            EventKind::BufferedGet => "Buffered Get",
            EventKind::BufferedSubscribe => "Buffered Subscribe",
            EventKind::BufferedNetwork => "Buffered Network",
            EventKind::ResolverCancel => "Resolver Cancel",
            EventKind::ResolverRetain => "Resolver Retain",
            EventKind::PeerDialed => "Peer Dialed",
            EventKind::PeerConnected => "Peer Connected",
            EventKind::PeerStarted => "Peer Started",
            EventKind::PeerReady => "Peer Ready",
            EventKind::PeerRecordUpdate => "Peer Record Update",
            EventKind::ConnectionAccepted => "Connection Accepted",
            EventKind::HandshakeComplete => "Handshake Complete",
            EventKind::StorageAppend => "Storage Append",
            EventKind::ArchiveInit => "Archive Init",
            EventKind::ArchiveRestore => "Archive Restore",
            EventKind::Other => "Other",
        }
    }

    /// The kind's display colour.
    pub fn color(&self) -> (r: &'static str)
        ensures
            r@ == kind_color(*self),
    {
        match self {
            EventKind::LeaderElected => "#60a5fa",
            EventKind::ProposalRequested => "#34d399",
            EventKind::ProposalReceived => "#2dd4bf",
            EventKind::ProposalVerify => "#22d3ee",
            EventKind::NotarizeBroadcast => "#a78bfa",
            EventKind::NotarizedBuilt => "#c4b5fd",
            EventKind::NotarizationReceived => "#ddd6fe",
            EventKind::NullifyBroadcast => "#fb923c",
            EventKind::NullifiedBuilt => "#fdba74",
            EventKind::NullificationReceived => "#fed7aa",
            EventKind::FinalizeBroadcast => "#f87171",
            EventKind::FinalizedBuilt => "#fca5a5",
            EventKind::FinalizationReceived => "#fecaca",
            EventKind::CertificationAttempt => "#fbbf24",
            EventKind::MarshalCached => "#4ade80",
            EventKind::MarshalSubscriber => "#86efac",
            EventKind::MarshalBroadcast => "#bbf7d0",
            EventKind::BatcherNoVerifier => "#94a3b8",
            EventKind::BatcherSkipDuplicate => "#cbd5e1",
            EventKind::BufferedBroadcast => "#38bdf8",
            EventKind::BufferedGet => "#7dd3fc",
            EventKind::BufferedSubscribe => "#bae6fd",
            EventKind::BufferedNetwork => "#e0f2fe",
            EventKind::ResolverCancel => "#e879f9",
            EventKind::ResolverRetain => "#f0abfc",
            EventKind::PeerDialed => "#818cf8",
            EventKind::PeerConnected => "#a5b4fc",
            EventKind::PeerStarted => "#c7d2fe",
            EventKind::PeerReady => "#e0e7ff",
            EventKind::PeerRecordUpdate => "#6366f1",
            EventKind::ConnectionAccepted => "#8b5cf6",
            EventKind::HandshakeComplete => "#a855f7",
            EventKind::StorageAppend => "#64748b",
            EventKind::ArchiveInit => "#475569",
            EventKind::ArchiveRestore => "#334155",
            EventKind::Other => "#9ca3af",
        }
    }

    /// The name of the variant.
    pub fn name(&self) -> (r: &'static str)
        ensures
            r@ == kind_name(*self),
    {
        match self {
            EventKind::LeaderElected => "LeaderElected",
            EventKind::ProposalRequested => "ProposalRequested",
            EventKind::ProposalReceived => "ProposalReceived",
            EventKind::ProposalVerify => "ProposalVerify",
            EventKind::NotarizeBroadcast => "NotarizeBroadcast",
            EventKind::NotarizedBuilt => "NotarizedBuilt",
            EventKind::NotarizationReceived => "NotarizationReceived",
            EventKind::NullifyBroadcast => "NullifyBroadcast",
            EventKind::NullifiedBuilt => "NullifiedBuilt",
            EventKind::NullificationReceived => "NullificationReceived",
            EventKind::FinalizeBroadcast => "FinalizeBroadcast",
            EventKind::FinalizedBuilt => "FinalizedBuilt",
            EventKind::FinalizationReceived => "FinalizationReceived",
            EventKind::CertificationAttempt => "CertificationAttempt",
            EventKind::MarshalCached => "MarshalCached",
            EventKind::MarshalSubscriber => "MarshalSubscriber",
            EventKind::MarshalBroadcast => "MarshalBroadcast",
            EventKind::BatcherNoVerifier => "BatcherNoVerifier",
            EventKind::BatcherSkipDuplicate => "BatcherSkipDuplicate",
            EventKind::BufferedBroadcast => "BufferedBroadcast",
            EventKind::BufferedGet => "BufferedGet",
            EventKind::BufferedSubscribe => "BufferedSubscribe",
            EventKind::BufferedNetwork => "BufferedNetwork",
            EventKind::ResolverCancel => "ResolverCancel",
            EventKind::ResolverRetain => "ResolverRetain",
            EventKind::PeerDialed => "PeerDialed",
            EventKind::PeerConnected => "PeerConnected",
            EventKind::PeerStarted => "PeerStarted",
            EventKind::PeerReady => "PeerReady",
            EventKind::PeerRecordUpdate => "PeerRecordUpdate",
            EventKind::ConnectionAccepted => "ConnectionAccepted",
            EventKind::HandshakeComplete => "HandshakeComplete",
            EventKind::StorageAppend => "StorageAppend",
            EventKind::ArchiveInit => "ArchiveInit",
            EventKind::ArchiveRestore => "ArchiveRestore",
            EventKind::Other => "Other",
        }
    }

    /// The kind with the given tag.
    pub fn from_tag(t: u8) -> (r: Option<EventKind>)
        ensures
            r == kind_of_tag(t),
    {
        if t == 1 { Some(EventKind::LeaderElected) } else
        if t == 2 { Some(EventKind::ProposalRequested) } else
        if t == 3 { Some(EventKind::ProposalReceived) } else
        if t == 4 { Some(EventKind::ProposalVerify) } else
        if t == 5 { Some(EventKind::NotarizeBroadcast) } else
        if t == 6 { Some(EventKind::NotarizedBuilt) } else
        if t == 7 { Some(EventKind::NotarizationReceived) } else
        if t == 8 { Some(EventKind::NullifyBroadcast) } else
        if t == 9 { Some(EventKind::NullifiedBuilt) } else
        if t == 10 { Some(EventKind::NullificationReceived) } else
        if t == 11 { Some(EventKind::FinalizeBroadcast) } else
        if t == 12 { Some(EventKind::FinalizedBuilt) } else
        if t == 13 { Some(EventKind::FinalizationReceived) } else
        if t == 14 { Some(EventKind::CertificationAttempt) } else
        if t == 21 { Some(EventKind::MarshalCached) } else
        if t == 22 { Some(EventKind::MarshalSubscriber) } else
        if t == 23 { Some(EventKind::MarshalBroadcast) } else
        if t == 31 { Some(EventKind::BatcherNoVerifier) } else
        if t == 32 { Some(EventKind::BatcherSkipDuplicate) } else
        if t == 41 { Some(EventKind::BufferedBroadcast) } else
        if t == 42 { Some(EventKind::BufferedGet) } else
        if t == 43 { Some(EventKind::BufferedSubscribe) } else
        if t == 44 { Some(EventKind::BufferedNetwork) } else
        if t == 51 { Some(EventKind::ResolverCancel) } else
        if t == 52 { Some(EventKind::ResolverRetain) } else
        if t == 61 { Some(EventKind::PeerDialed) } else
        if t == 62 { Some(EventKind::PeerConnected) } else
        if t == 63 { Some(EventKind::PeerStarted) } else
        if t == 64 { Some(EventKind::PeerReady) } else
        if t == 65 { Some(EventKind::PeerRecordUpdate) } else
        if t == 66 { Some(EventKind::ConnectionAccepted) } else
        if t == 67 { Some(EventKind::HandshakeComplete) } else
        if t == 81 { Some(EventKind::StorageAppend) } else
        if t == 82 { Some(EventKind::ArchiveInit) } else
        if t == 83 { Some(EventKind::ArchiveRestore) } else
        if t == 255 { Some(EventKind::Other) } else { None }
    }

    /// A vote: a notarize, nullify or finalize broadcast.
    pub fn is_vote(&self) -> (r: bool)
        ensures
            r == kind_is_vote(*self),
    {
        match self {
            EventKind::NotarizeBroadcast | EventKind::NullifyBroadcast
            | EventKind::FinalizeBroadcast => true,
            _ => false,
        }
    }

    /// A certificate: a notarization, nullification or finalization built.
    pub fn is_certificate(&self) -> (r: bool)
        ensures
            r == kind_is_certificate(*self),
    {
        match self {
            EventKind::NotarizedBuilt | EventKind::NullifiedBuilt | EventKind::FinalizedBuilt => true,
            _ => false,
        }
    }

    /// A kind that sends a message that other nodes receive.
    pub fn is_send(&self) -> (r: bool)
        ensures
            r == kind_is_send(*self),
    {
        match self {
            EventKind::ProposalRequested | EventKind::NotarizeBroadcast
            | EventKind::NullifyBroadcast | EventKind::FinalizeBroadcast
            | EventKind::NotarizedBuilt | EventKind::NullifiedBuilt
            | EventKind::FinalizedBuilt | EventKind::MarshalBroadcast
            | EventKind::BufferedBroadcast => true,
            _ => false,
        }
    }

    /// A kind that receives a message that another node sent.
    pub fn is_recv(&self) -> (r: bool)
        ensures
            r == kind_is_recv(*self),
    {
        match self {
            EventKind::ProposalReceived | EventKind::NotarizationReceived
            | EventKind::NullificationReceived | EventKind::FinalizationReceived => true,
            _ => false,
        }
    }
}

// ============================================================================
// Classification outcomes
// ============================================================================

/// A classification outcome with its strings taken by their characters.
pub open spec fn class_view(r: Option<(EventKind, Option<String>)>) -> Option<(EventKind, Option<Seq<char>>)> {
    match r {
        Some((k, p)) => Some((k, match p {
            Some(s) => Some(s@),
            None => None,
        })),
        None => None,
    }
}

/// The outcome of a rule: its kind, with the message's payload hash when the
/// rule asks for it.
pub open spec fn rule_outcome(m: Seq<char>, rule: Option<(EventKind, bool)>) -> Option<(EventKind, Option<Seq<char>>)> {
    match rule {
        Some((k, true)) => Some((k, message_payload(m))),
        Some((k, false)) => Some((k, None)),
        None => None,
    }
}

/// Tags are distinct, and a kind is found again from its tag.
pub proof fn lemma_tag_round_trip(k: EventKind)
    ensures
        kind_of_tag(kind_tag(k)) == Some(k),
{
}

/// No two kinds share a tag.
pub proof fn lemma_tags_distinct(a: EventKind, b: EventKind)
    ensures
        kind_tag(a) == kind_tag(b) ==> a == b,
{
    lemma_tag_round_trip(a);
    lemma_tag_round_trip(b);
}

/// Every tag lies in the range of its group of kinds: the view lifecycle
/// and votes 1-14, the marshal 21-23, the batcher 31-32, buffered broadcast
/// 41-44, the resolver 51-52, the network 61-67, storage 81-83; only the
/// catch-all kind has 255.
pub proof fn lemma_tag_ranges(k: EventKind)
    ensures
        (1 <= kind_tag(k) <= 14) || (21 <= kind_tag(k) <= 23) || (31 <= kind_tag(k) <= 32)
            || (41 <= kind_tag(k) <= 44) || (51 <= kind_tag(k) <= 52) || (61 <= kind_tag(k) <= 67)
            || (81 <= kind_tag(k) <= 83) || kind_tag(k) == 255,
        kind_tag(k) == 255 <==> k == EventKind::Other,
{
}

/// The length, first and last character of a kind's label.
pub open spec fn label_sig(k: EventKind) -> (int, char, char) {
    match k {
        EventKind::LeaderElected => (14, 'L', 'd'),
        EventKind::ProposalRequested => (18, 'P', 'd'),
        EventKind::ProposalReceived => (17, 'P', 'd'),
        EventKind::ProposalVerify => (15, 'P', 'y'),
        EventKind::NotarizeBroadcast => (13, 'N', 'e'),
        EventKind::NotarizedBuilt => (18, 'N', 't'),
        EventKind::NotarizationReceived => (21, 'N', 'd'),
        EventKind::NullifyBroadcast => (12, 'N', 'e'),
        EventKind::NullifiedBuilt => (19, 'N', 't'),
        EventKind::NullificationReceived => (22, 'N', 'd'),
        EventKind::FinalizeBroadcast => (13, 'F', 'e'),
        EventKind::FinalizedBuilt => (18, 'F', 't'),
        EventKind::FinalizationReceived => (21, 'F', 'd'),
        EventKind::CertificationAttempt => (21, 'C', 't'),
        EventKind::MarshalCached => (14, 'M', 'd'),
        EventKind::MarshalSubscriber => (18, 'M', 'r'),
        EventKind::MarshalBroadcast => (17, 'M', 't'),
        EventKind::BatcherNoVerifier => (19, 'B', 'r'),
        EventKind::BatcherSkipDuplicate => (22, 'B', 'e'),
        EventKind::BufferedBroadcast => (18, 'B', 't'),
        EventKind::BufferedGet => (12, 'B', 't'),
        EventKind::BufferedSubscribe => (18, 'B', 'e'),
        EventKind::BufferedNetwork => (16, 'B', 'k'),
        EventKind::ResolverCancel => (15, 'R', 'l'),
        EventKind::ResolverRetain => (15, 'R', 'n'),
        EventKind::PeerDialed => (11, 'P', 'd'),
        EventKind::PeerConnected => (14, 'P', 'd'),
        EventKind::PeerStarted => (12, 'P', 'd'),
        EventKind::PeerReady => (10, 'P', 'y'),
        EventKind::PeerRecordUpdate => (18, 'P', 'e'),
        EventKind::ConnectionAccepted => (19, 'C', 'd'),
        EventKind::HandshakeComplete => (18, 'H', 'e'),
        EventKind::StorageAppend => (14, 'S', 'd'),
        EventKind::ArchiveInit => (12, 'A', 't'),
        EventKind::ArchiveRestore => (15, 'A', 'e'),
        EventKind::Other => (5, 'O', 'r'),
    }
}

/// The kind whose label has the given length, first and last character.
pub open spec fn kind_of_label_sig(s: (int, char, char)) -> Option<EventKind> {
    if s == (14int, 'L', 'd') {
        Some(EventKind::LeaderElected)
    } else if s == (18int, 'P', 'd') {
        Some(EventKind::ProposalRequested)
    } else if s == (17int, 'P', 'd') {
        Some(EventKind::ProposalReceived)
    } else if s == (15int, 'P', 'y') {
        Some(EventKind::ProposalVerify)
    } else if s == (13int, 'N', 'e') {
        Some(EventKind::NotarizeBroadcast)
    } else if s == (18int, 'N', 't') {
        Some(EventKind::NotarizedBuilt)
    } else if s == (21int, 'N', 'd') {
        Some(EventKind::NotarizationReceived)
    } else if s == (12int, 'N', 'e') {
        Some(EventKind::NullifyBroadcast)
    } else if s == (19int, 'N', 't') {
        Some(EventKind::NullifiedBuilt)
    } else if s == (22int, 'N', 'd') {
        Some(EventKind::NullificationReceived)
    } else if s == (13int, 'F', 'e') {
        Some(EventKind::FinalizeBroadcast)
    } else if s == (18int, 'F', 't') {
        Some(EventKind::FinalizedBuilt)
    } else if s == (21int, 'F', 'd') {
        Some(EventKind::FinalizationReceived)
    } else if s == (21int, 'C', 't') {
        Some(EventKind::CertificationAttempt)
    } else if s == (14int, 'M', 'd') {
        Some(EventKind::MarshalCached)
    } else if s == (18int, 'M', 'r') {
        Some(EventKind::MarshalSubscriber)
    } else if s == (17int, 'M', 't') {
        Some(EventKind::MarshalBroadcast)
    } else if s == (19int, 'B', 'r') {
        Some(EventKind::BatcherNoVerifier)
    } else if s == (22int, 'B', 'e') {
        Some(EventKind::BatcherSkipDuplicate)
    } else if s == (18int, 'B', 't') {
        Some(EventKind::BufferedBroadcast)
    } else if s == (12int, 'B', 't') {
        Some(EventKind::BufferedGet)
    } else if s == (18int, 'B', 'e') {
        Some(EventKind::BufferedSubscribe)
    } else if s == (16int, 'B', 'k') {
        Some(EventKind::BufferedNetwork)
    } else if s == (15int, 'R', 'l') {
        Some(EventKind::ResolverCancel)
    } else if s == (15int, 'R', 'n') {
        Some(EventKind::ResolverRetain)
    } else if s == (11int, 'P', 'd') {
        Some(EventKind::PeerDialed)
    } else if s == (14int, 'P', 'd') {
        Some(EventKind::PeerConnected)
    } else if s == (12int, 'P', 'd') {
        Some(EventKind::PeerStarted)
    } else if s == (10int, 'P', 'y') {
        Some(EventKind::PeerReady)
    } else if s == (18int, 'P', 'e') {
        Some(EventKind::PeerRecordUpdate)
    } else if s == (19int, 'C', 'd') {
        Some(EventKind::ConnectionAccepted)
    } else if s == (18int, 'H', 'e') {
        Some(EventKind::HandshakeComplete)
    } else if s == (14int, 'S', 'd') {
        Some(EventKind::StorageAppend)
    } else if s == (12int, 'A', 't') {
        Some(EventKind::ArchiveInit)
    } else if s == (15int, 'A', 'e') {
        Some(EventKind::ArchiveRestore)
    } else if s == (5int, 'O', 'r') {
        Some(EventKind::Other)
    } else {
        None
    }
}

proof fn lemma_label_sig(k: EventKind)
    ensures
        kind_label(k).len() == label_sig(k).0,
        kind_label(k)[0] == label_sig(k).1,
        kind_label(k).last() == label_sig(k).2,
        kind_of_label_sig(label_sig(k)) == Some(k),
{
    match k {
        EventKind::LeaderElected => {
            reveal_strlit("Leader Elected");
        },
        EventKind::ProposalRequested => {
            reveal_strlit("Proposal Requested");
        },
        EventKind::ProposalReceived => {
            reveal_strlit("Proposal Received");
        },
        EventKind::ProposalVerify => {
            reveal_strlit("Proposal Verify");
        },
        EventKind::NotarizeBroadcast => {
            reveal_strlit("Notarize Vote");
        },
        EventKind::NotarizedBuilt => {
            reveal_strlit("Notarization Built");
        },
        EventKind::NotarizationReceived => {
            reveal_strlit("Notarization Received");
        },
        EventKind::NullifyBroadcast => {
            reveal_strlit("Nullify Vote");
        },
        EventKind::NullifiedBuilt => {
            reveal_strlit("Nullification Built");
        },
        EventKind::NullificationReceived => {
            reveal_strlit("Nullification Received");
        },
        EventKind::FinalizeBroadcast => {
            reveal_strlit("Finalize Vote");
        },
        EventKind::FinalizedBuilt => {
            reveal_strlit("Finalization Built");
        },
        EventKind::FinalizationReceived => {
            reveal_strlit("Finalization Received");
        },
        EventKind::CertificationAttempt => {
            reveal_strlit("Certification Attempt");
        },
        EventKind::MarshalCached => {
            reveal_strlit("Marshal Cached");
        },
        EventKind::MarshalSubscriber => {
            reveal_strlit("Marshal Subscriber");
        },
        EventKind::MarshalBroadcast => {
            reveal_strlit("Marshal Broadcast");
        },
        EventKind::BatcherNoVerifier => {
            reveal_strlit("Batcher No Verifier");
        },
        EventKind::BatcherSkipDuplicate => {
            reveal_strlit("Batcher Skip Duplicate");
        },
        EventKind::BufferedBroadcast => {
            reveal_strlit("Buffered Broadcast");
        },
        EventKind::BufferedGet => {
            reveal_strlit("Buffered Get");
        },
        EventKind::BufferedSubscribe => {
            reveal_strlit("Buffered Subscribe");
        },
        EventKind::BufferedNetwork => {
            reveal_strlit("Buffered Network");
        },
        EventKind::ResolverCancel => {
            reveal_strlit("Resolver Cancel");
        },
        EventKind::ResolverRetain => {
            reveal_strlit("Resolver Retain");
        },
        EventKind::PeerDialed => {
            reveal_strlit("Peer Dialed");
        },
        EventKind::PeerConnected => {
            reveal_strlit("Peer Connected");
        },
        EventKind::PeerStarted => {
            reveal_strlit("Peer Started");
        },
        EventKind::PeerReady => {
            reveal_strlit("Peer Ready");
        },
        EventKind::PeerRecordUpdate => {
            reveal_strlit("Peer Record Update");
        },
        EventKind::ConnectionAccepted => {
            reveal_strlit("Connection Accepted");
        },
        EventKind::HandshakeComplete => {
            reveal_strlit("Handshake Complete");
        },
        EventKind::StorageAppend => {
            reveal_strlit("Storage Append");
        },
        EventKind::ArchiveInit => {
            reveal_strlit("Archive Init");
        },
        EventKind::ArchiveRestore => {
            reveal_strlit("Archive Restore");
        },
        EventKind::Other => {
            reveal_strlit("Other");
        },
    }
}

/// Labels tell kinds apart: no two kinds share a label, and none is empty.
pub proof fn lemma_labels_distinct(a: EventKind, b: EventKind)
    ensures
        kind_label(a).len() > 0,
        a != b ==> kind_label(a) != kind_label(b),
{
    lemma_label_sig(a);
    lemma_label_sig(b);
    if a != b && kind_label(a) == kind_label(b) {
        assert(label_sig(a) == label_sig(b));
    }
}

/// The first three hexadecimal digits of a kind's colour.
pub open spec fn color_sig(k: EventKind) -> (char, char, char) {
    match k {
        EventKind::LeaderElected => ('6', '0', 'a'),
        EventKind::ProposalRequested => ('3', '4', 'd'),
        EventKind::ProposalReceived => ('2', 'd', 'd'),
        EventKind::ProposalVerify => ('2', '2', 'd'),
        EventKind::NotarizeBroadcast => ('a', '7', '8'),
        EventKind::NotarizedBuilt => ('c', '4', 'b'),
        EventKind::NotarizationReceived => ('d', 'd', 'd'),
        EventKind::NullifyBroadcast => ('f', 'b', '9'),
        EventKind::NullifiedBuilt => ('f', 'd', 'b'),
        EventKind::NullificationReceived => ('f', 'e', 'd'),
        EventKind::FinalizeBroadcast => ('f', '8', '7'),
        EventKind::FinalizedBuilt => ('f', 'c', 'a'),
        EventKind::FinalizationReceived => ('f', 'e', 'c'),
        EventKind::CertificationAttempt => ('f', 'b', 'b'),
        EventKind::MarshalCached => ('4', 'a', 'd'),
        EventKind::MarshalSubscriber => ('8', '6', 'e'),
        EventKind::MarshalBroadcast => ('b', 'b', 'f'),
        EventKind::BatcherNoVerifier => ('9', '4', 'a'),
        EventKind::BatcherSkipDuplicate => ('c', 'b', 'd'),
        EventKind::BufferedBroadcast => ('3', '8', 'b'),
        EventKind::BufferedGet => ('7', 'd', 'd'),
        EventKind::BufferedSubscribe => ('b', 'a', 'e'),
        EventKind::BufferedNetwork => ('e', '0', 'f'),
        EventKind::ResolverCancel => ('e', '8', '7'),
        EventKind::ResolverRetain => ('f', '0', 'a'),
        EventKind::PeerDialed => ('8', '1', '8'),
        EventKind::PeerConnected => ('a', '5', 'b'),
        EventKind::PeerStarted => ('c', '7', 'd'),
        EventKind::PeerReady => ('e', '0', 'e'),
        EventKind::PeerRecordUpdate => ('6', '3', '6'),
        EventKind::ConnectionAccepted => ('8', 'b', '5'),
        EventKind::HandshakeComplete => ('a', '8', '5'),
        EventKind::StorageAppend => ('6', '4', '7'),
        EventKind::ArchiveInit => ('4', '7', '5'),
        EventKind::ArchiveRestore => ('3', '3', '4'),
        EventKind::Other => ('9', 'c', 'a'),
    }
}

/// The kind whose colour starts with the given three hexadecimal digits.
pub open spec fn kind_of_color_sig(s: (char, char, char)) -> Option<EventKind> {
    if s == ('6', '0', 'a') {
        Some(EventKind::LeaderElected)
    } else if s == ('3', '4', 'd') {
        Some(EventKind::ProposalRequested)
    } else if s == ('2', 'd', 'd') {
        Some(EventKind::ProposalReceived)
    } else if s == ('2', '2', 'd') {
        Some(EventKind::ProposalVerify)
    } else if s == ('a', '7', '8') {
        Some(EventKind::NotarizeBroadcast)
    } else if s == ('c', '4', 'b') {
        Some(EventKind::NotarizedBuilt)
    } else if s == ('d', 'd', 'd') {
        Some(EventKind::NotarizationReceived)
    } else if s == ('f', 'b', '9') {
        Some(EventKind::NullifyBroadcast)
    } else if s == ('f', 'd', 'b') {
        Some(EventKind::NullifiedBuilt)
    } else if s == ('f', 'e', 'd') {
        Some(EventKind::NullificationReceived)
    } else if s == ('f', '8', '7') {
        Some(EventKind::FinalizeBroadcast)
    } else if s == ('f', 'c', 'a') {
        Some(EventKind::FinalizedBuilt)
    } else if s == ('f', 'e', 'c') {
        Some(EventKind::FinalizationReceived)
    } else if s == ('f', 'b', 'b') {
        Some(EventKind::CertificationAttempt)
    } else if s == ('4', 'a', 'd') {
        Some(EventKind::MarshalCached)
    } else if s == ('8', '6', 'e') {
        Some(EventKind::MarshalSubscriber)
    } else if s == ('b', 'b', 'f') {
        Some(EventKind::MarshalBroadcast)
    } else if s == ('9', '4', 'a') {
        Some(EventKind::BatcherNoVerifier)
    } else if s == ('c', 'b', 'd') {
        Some(EventKind::BatcherSkipDuplicate)
    } else if s == ('3', '8', 'b') {
        Some(EventKind::BufferedBroadcast)
    } else if s == ('7', 'd', 'd') {
        Some(EventKind::BufferedGet)
    } else if s == ('b', 'a', 'e') {
        Some(EventKind::BufferedSubscribe)
    } else if s == ('e', '0', 'f') {
        Some(EventKind::BufferedNetwork)
    } else if s == ('e', '8', '7') {
        Some(EventKind::ResolverCancel)
    } else if s == ('f', '0', 'a') {
        Some(EventKind::ResolverRetain)
    } else if s == ('8', '1', '8') {
        Some(EventKind::PeerDialed)
    } else if s == ('a', '5', 'b') {
        Some(EventKind::PeerConnected)
    } else if s == ('c', '7', 'd') {
        Some(EventKind::PeerStarted)
    } else if s == ('e', '0', 'e') {
        Some(EventKind::PeerReady)
    } else if s == ('6', '3', '6') {
        Some(EventKind::PeerRecordUpdate)
    } else if s == ('8', 'b', '5') {
        Some(EventKind::ConnectionAccepted)
    } else if s == ('a', '8', '5') {
        Some(EventKind::HandshakeComplete)
    } else if s == ('6', '4', '7') {
        Some(EventKind::StorageAppend)
    } else if s == ('4', '7', '5') {
        Some(EventKind::ArchiveInit)
    } else if s == ('3', '3', '4') {
        Some(EventKind::ArchiveRestore)
    } else if s == ('9', 'c', 'a') {
        Some(EventKind::Other)
    } else {
        None
    }
}

proof fn lemma_color_sig(k: EventKind)
    ensures
        kind_color(k).len() == 7,
        kind_color(k)[0] == '#',
        forall|i: int| 1 <= i < 7 ==> is_lower_hex(#[trigger] kind_color(k)[i]),
        (kind_color(k)[1], kind_color(k)[2], kind_color(k)[3]) == color_sig(k),
        kind_of_color_sig(color_sig(k)) == Some(k),
{
    match k {
        EventKind::LeaderElected => {
            reveal_strlit("#60a5fa");
        },
        EventKind::ProposalRequested => {
            reveal_strlit("#34d399");
        },
        EventKind::ProposalReceived => {
            reveal_strlit("#2dd4bf");
        },
        EventKind::ProposalVerify => {
            reveal_strlit("#22d3ee");
        },
        EventKind::NotarizeBroadcast => {
            reveal_strlit("#a78bfa");
        },
        EventKind::NotarizedBuilt => {
            reveal_strlit("#c4b5fd");
        },
        EventKind::NotarizationReceived => {
            reveal_strlit("#ddd6fe");
        },
        EventKind::NullifyBroadcast => {
            reveal_strlit("#fb923c");
        },
        EventKind::NullifiedBuilt => {
            reveal_strlit("#fdba74");
        },
        EventKind::NullificationReceived => {
            reveal_strlit("#fed7aa");
        },
        EventKind::FinalizeBroadcast => {
            reveal_strlit("#f87171");
        },
        EventKind::FinalizedBuilt => {
            reveal_strlit("#fca5a5");
        },
        EventKind::FinalizationReceived => {
            reveal_strlit("#fecaca");
        },
        EventKind::CertificationAttempt => {
            reveal_strlit("#fbbf24");
        },
        EventKind::MarshalCached => {
            reveal_strlit("#4ade80");
        },
        EventKind::MarshalSubscriber => {
            reveal_strlit("#86efac");
        },
        EventKind::MarshalBroadcast => {
            reveal_strlit("#bbf7d0");
        },
        EventKind::BatcherNoVerifier => {
            reveal_strlit("#94a3b8");
        },
        EventKind::BatcherSkipDuplicate => {
            reveal_strlit("#cbd5e1");
        },
        EventKind::BufferedBroadcast => {
            reveal_strlit("#38bdf8");
        },
        EventKind::BufferedGet => {
            reveal_strlit("#7dd3fc");
        },
        EventKind::BufferedSubscribe => {
            reveal_strlit("#bae6fd");
        },
        EventKind::BufferedNetwork => {
            reveal_strlit("#e0f2fe");
        },
        EventKind::ResolverCancel => {
            reveal_strlit("#e879f9");
        },
        EventKind::ResolverRetain => {
            reveal_strlit("#f0abfc");
        },
        EventKind::PeerDialed => {
            reveal_strlit("#818cf8");
        },
        EventKind::PeerConnected => {
            reveal_strlit("#a5b4fc");
        },
        EventKind::PeerStarted => {
            reveal_strlit("#c7d2fe");
        },
        EventKind::PeerReady => {
            reveal_strlit("#e0e7ff");
        },
        EventKind::PeerRecordUpdate => {
            reveal_strlit("#6366f1");
        },
        EventKind::ConnectionAccepted => {
            reveal_strlit("#8b5cf6");
        },
        EventKind::HandshakeComplete => {
            reveal_strlit("#a855f7");
        },
        EventKind::StorageAppend => {
            reveal_strlit("#64748b");
        },
        EventKind::ArchiveInit => {
            reveal_strlit("#475569");
        },
        EventKind::ArchiveRestore => {
            reveal_strlit("#334155");
        },
        EventKind::Other => {
            reveal_strlit("#9ca3af");
        },
    }
}

/// Every colour is `#` and six lower-case hexadecimal digits, and no two
/// kinds share a colour.
pub proof fn lemma_colors(a: EventKind, b: EventKind)
    ensures
        kind_color(a).len() == 7,
        kind_color(a)[0] == '#',
        forall|i: int| 1 <= i < 7 ==> is_lower_hex(#[trigger] kind_color(a)[i]),
        a != b ==> kind_color(a) != kind_color(b),
{
    lemma_color_sig(a);
    lemma_color_sig(b);
    if a != b && kind_color(a) == kind_color(b) {
        assert(color_sig(a) == color_sig(b));
    }
}

/// The tag of every kind, listed: the consensus kinds 1-14 in the order of
/// a view's life, then marshal 21-23, batcher 31-32, buffered broadcast
/// 41-44, resolver 51-52, network 61-67, storage 81-83, and 255 for the
/// catch-all.
pub proof fn lemma_tag_table()
    ensures
        kind_tag(EventKind::LeaderElected) == 1,
        kind_tag(EventKind::ProposalRequested) == 2,
        kind_tag(EventKind::ProposalReceived) == 3,
        kind_tag(EventKind::ProposalVerify) == 4,
        kind_tag(EventKind::NotarizeBroadcast) == 5,
        kind_tag(EventKind::NotarizedBuilt) == 6,
        kind_tag(EventKind::NotarizationReceived) == 7,
        kind_tag(EventKind::NullifyBroadcast) == 8,
        kind_tag(EventKind::NullifiedBuilt) == 9,
        kind_tag(EventKind::NullificationReceived) == 10,
        kind_tag(EventKind::FinalizeBroadcast) == 11,
        kind_tag(EventKind::FinalizedBuilt) == 12,
        kind_tag(EventKind::FinalizationReceived) == 13,
        kind_tag(EventKind::CertificationAttempt) == 14,
        kind_tag(EventKind::MarshalCached) == 21,
        kind_tag(EventKind::MarshalSubscriber) == 22,
        kind_tag(EventKind::MarshalBroadcast) == 23,
        kind_tag(EventKind::BatcherNoVerifier) == 31,
        kind_tag(EventKind::BatcherSkipDuplicate) == 32,
        kind_tag(EventKind::BufferedBroadcast) == 41,
        kind_tag(EventKind::BufferedGet) == 42,
        kind_tag(EventKind::BufferedSubscribe) == 43,
        kind_tag(EventKind::BufferedNetwork) == 44,
        kind_tag(EventKind::ResolverCancel) == 51,
        kind_tag(EventKind::ResolverRetain) == 52,
        kind_tag(EventKind::PeerDialed) == 61,
        kind_tag(EventKind::PeerConnected) == 62,
        kind_tag(EventKind::PeerStarted) == 63,
        kind_tag(EventKind::PeerReady) == 64,
        kind_tag(EventKind::PeerRecordUpdate) == 65,
        kind_tag(EventKind::ConnectionAccepted) == 66,
        kind_tag(EventKind::HandshakeComplete) == 67,
        kind_tag(EventKind::StorageAppend) == 81,
        kind_tag(EventKind::ArchiveInit) == 82,
        kind_tag(EventKind::ArchiveRestore) == 83,
        kind_tag(EventKind::Other) == 255,
{
}

} // verus!

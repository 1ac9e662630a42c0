//! The classifiers stated as their tables of substrings and kinds.
use vstd::prelude::*;
use crate::events::EventKind;
use crate::events::broadcast::{broadcast_rule, resolver_rule};
use crate::events::consensus::{batcher_rule, consensus_rule, marshal_rule};
use crate::events::network::network_rule;
use crate::events::storage::storage_rule;
use crate::text::contains;

verus! {

/// The consensus (voter) classifier, as its table of substrings and kinds: a
/// message is given the kind of the first substring of the table that it
/// contains, and no kind when it contains none.
/// - `leader elected round=`: LeaderElected
/// - `requested proposal from automaton`: ProposalRequested
/// - `received proposal view=`: ProposalReceived
/// - `requested proposal verification`: ProposalVerify (with the payload hash)
/// - `broadcasting notarize proposal=`: NotarizeBroadcast (with the payload hash)
/// - `broadcasting notarization proposal=`: NotarizedBuilt (with the payload hash)
/// - `received notarization view=`: NotarizationReceived
/// - `broadcasting nullify round=`: NullifyBroadcast
/// - `broadcasting nullification round=`: NullifiedBuilt
/// - `received nullification view=`: NullificationReceived
/// - `broadcasting finalize proposal=`: FinalizeBroadcast (with the payload hash)
/// - `broadcasting finalization proposal=`: FinalizedBuilt (with the payload hash)
/// - `received finalization view=`: FinalizationReceived
/// - `attempting certification`: CertificationAttempt
pub proof fn lemma_consensus_table(m: Seq<char>)
    ensures
        contains(m, "leader elected round="@)
            ==> consensus_rule(m) == Some((EventKind::LeaderElected, false)),
        !contains(m, "leader elected round="@) && contains(m, "requested proposal from automaton"@)
            ==> consensus_rule(m) == Some((EventKind::ProposalRequested, false)),
        !contains(m, "leader elected round="@) && !contains(m, "requested proposal from automaton"@) && contains(m, "received proposal view="@)
            ==> consensus_rule(m) == Some((EventKind::ProposalReceived, false)),
        !contains(m, "leader elected round="@) && !contains(m, "requested proposal from automaton"@) && !contains(m, "received proposal view="@) && contains(m, "requested proposal verification"@)
            ==> consensus_rule(m) == Some((EventKind::ProposalVerify, true)),
        !contains(m, "leader elected round="@) && !contains(m, "requested proposal from automaton"@) && !contains(m, "received proposal view="@) && !contains(m, "requested proposal verification"@) && contains(m, "broadcasting notarize proposal="@)
            ==> consensus_rule(m) == Some((EventKind::NotarizeBroadcast, true)),
        !contains(m, "leader elected round="@) && !contains(m, "requested proposal from automaton"@) && !contains(m, "received proposal view="@) && !contains(m, "requested proposal verification"@) && !contains(m, "broadcasting notarize proposal="@) && contains(m, "broadcasting notarization proposal="@)
            ==> consensus_rule(m) == Some((EventKind::NotarizedBuilt, true)),
        !contains(m, "leader elected round="@) && !contains(m, "requested proposal from automaton"@) && !contains(m, "received proposal view="@) && !contains(m, "requested proposal verification"@) && !contains(m, "broadcasting notarize proposal="@) && !contains(m, "broadcasting notarization proposal="@) && contains(m, "received notarization view="@)
            ==> consensus_rule(m) == Some((EventKind::NotarizationReceived, false)),
        !contains(m, "leader elected round="@) && !contains(m, "requested proposal from automaton"@) && !contains(m, "received proposal view="@) && !contains(m, "requested proposal verification"@) && !contains(m, "broadcasting notarize proposal="@) && !contains(m, "broadcasting notarization proposal="@) && !contains(m, "received notarization view="@) && contains(m, "broadcasting nullify round="@)
            ==> consensus_rule(m) == Some((EventKind::NullifyBroadcast, false)),
        !contains(m, "leader elected round="@) && !contains(m, "requested proposal from automaton"@) && !contains(m, "received proposal view="@) && !contains(m, "requested proposal verification"@) && !contains(m, "broadcasting notarize proposal="@) && !contains(m, "broadcasting notarization proposal="@) && !contains(m, "received notarization view="@) && !contains(m, "broadcasting nullify round="@) && contains(m, "broadcasting nullification round="@)
            ==> consensus_rule(m) == Some((EventKind::NullifiedBuilt, false)),
        !contains(m, "leader elected round="@) && !contains(m, "requested proposal from automaton"@) && !contains(m, "received proposal view="@) && !contains(m, "requested proposal verification"@) && !contains(m, "broadcasting notarize proposal="@) && !contains(m, "broadcasting notarization proposal="@) && !contains(m, "received notarization view="@) && !contains(m, "broadcasting nullify round="@) && !contains(m, "broadcasting nullification round="@) && contains(m, "received nullification view="@)
            ==> consensus_rule(m) == Some((EventKind::NullificationReceived, false)),
        !contains(m, "leader elected round="@) && !contains(m, "requested proposal from automaton"@) && !contains(m, "received proposal view="@) && !contains(m, "requested proposal verification"@) && !contains(m, "broadcasting notarize proposal="@) && !contains(m, "broadcasting notarization proposal="@) && !contains(m, "received notarization view="@) && !contains(m, "broadcasting nullify round="@) && !contains(m, "broadcasting nullification round="@) && !contains(m, "received nullification view="@) && contains(m, "broadcasting finalize proposal="@)
            ==> consensus_rule(m) == Some((EventKind::FinalizeBroadcast, true)),
        !contains(m, "leader elected round="@) && !contains(m, "requested proposal from automaton"@) && !contains(m, "received proposal view="@) && !contains(m, "requested proposal verification"@) && !contains(m, "broadcasting notarize proposal="@) && !contains(m, "broadcasting notarization proposal="@) && !contains(m, "received notarization view="@) && !contains(m, "broadcasting nullify round="@) && !contains(m, "broadcasting nullification round="@) && !contains(m, "received nullification view="@) && !contains(m, "broadcasting finalize proposal="@) && contains(m, "broadcasting finalization proposal="@)
            ==> consensus_rule(m) == Some((EventKind::FinalizedBuilt, true)),
        !contains(m, "leader elected round="@) && !contains(m, "requested proposal from automaton"@) && !contains(m, "received proposal view="@) && !contains(m, "requested proposal verification"@) && !contains(m, "broadcasting notarize proposal="@) && !contains(m, "broadcasting notarization proposal="@) && !contains(m, "received notarization view="@) && !contains(m, "broadcasting nullify round="@) && !contains(m, "broadcasting nullification round="@) && !contains(m, "received nullification view="@) && !contains(m, "broadcasting finalize proposal="@) && !contains(m, "broadcasting finalization proposal="@) && contains(m, "received finalization view="@)
            ==> consensus_rule(m) == Some((EventKind::FinalizationReceived, false)),
        !contains(m, "leader elected round="@) && !contains(m, "requested proposal from automaton"@) && !contains(m, "received proposal view="@) && !contains(m, "requested proposal verification"@) && !contains(m, "broadcasting notarize proposal="@) && !contains(m, "broadcasting notarization proposal="@) && !contains(m, "received notarization view="@) && !contains(m, "broadcasting nullify round="@) && !contains(m, "broadcasting nullification round="@) && !contains(m, "received nullification view="@) && !contains(m, "broadcasting finalize proposal="@) && !contains(m, "broadcasting finalization proposal="@) && !contains(m, "received finalization view="@) && contains(m, "attempting certification"@)
            ==> consensus_rule(m) == Some((EventKind::CertificationAttempt, false)),
        !contains(m, "leader elected round="@) && !contains(m, "requested proposal from automaton"@) && !contains(m, "received proposal view="@) && !contains(m, "requested proposal verification"@) && !contains(m, "broadcasting notarize proposal="@) && !contains(m, "broadcasting notarization proposal="@) && !contains(m, "received notarization view="@) && !contains(m, "broadcasting nullify round="@) && !contains(m, "broadcasting nullification round="@) && !contains(m, "received nullification view="@) && !contains(m, "broadcasting finalize proposal="@) && !contains(m, "broadcasting finalization proposal="@) && !contains(m, "received finalization view="@) && !contains(m, "attempting certification"@)
            ==> consensus_rule(m) is None,
{
}

/// The marshal classifier, as its table of substrings and kinds: a
/// message is given the kind of the first substring of the table that it
/// contains, and no kind when it contains none.
/// - `cached round=`: MarshalCached
/// - `registering subscriber`: MarshalSubscriber
/// - `requested broadcast of built block`: MarshalBroadcast (with the payload hash)
pub proof fn lemma_marshal_table(m: Seq<char>)
    ensures
        contains(m, "cached round="@)
            ==> marshal_rule(m) == Some((EventKind::MarshalCached, false)),
        !contains(m, "cached round="@) && contains(m, "registering subscriber"@)
            ==> marshal_rule(m) == Some((EventKind::MarshalSubscriber, false)),
        !contains(m, "cached round="@) && !contains(m, "registering subscriber"@) && contains(m, "requested broadcast of built block"@)
            ==> marshal_rule(m) == Some((EventKind::MarshalBroadcast, true)),
        !contains(m, "cached round="@) && !contains(m, "registering subscriber"@) && !contains(m, "requested broadcast of built block"@)
            ==> marshal_rule(m) is None,
{
}

/// The batcher classifier, as its table of substrings and kinds: a
/// message is given the kind of the first substring of the table that it
/// contains, and no kind when it contains none.
/// - `no verifier ready`: BatcherNoVerifier
/// - `skipping duplicate`: BatcherSkipDuplicate
pub proof fn lemma_batcher_table(m: Seq<char>)
    ensures
        contains(m, "no verifier ready"@)
            ==> batcher_rule(m) == Some((EventKind::BatcherNoVerifier, false)),
        !contains(m, "no verifier ready"@) && contains(m, "skipping duplicate"@)
            ==> batcher_rule(m) == Some((EventKind::BatcherSkipDuplicate, false)),
        !contains(m, "no verifier ready"@) && !contains(m, "skipping duplicate"@)
            ==> batcher_rule(m) is None,
{
}

/// The buffered broadcast classifier, as its table of substrings and kinds: a
/// message is given the kind of the first substring of the table that it
/// contains, and no kind when it contains none.
/// - `mailbox: broadcast`: BufferedBroadcast
/// - `mailbox: get`: BufferedGet
/// - `mailbox: subscribe`: BufferedSubscribe
/// - `network peer=`: BufferedNetwork
pub proof fn lemma_broadcast_table(m: Seq<char>)
    ensures
        contains(m, "mailbox: broadcast"@)
            ==> broadcast_rule(m) == Some((EventKind::BufferedBroadcast, false)),
        !contains(m, "mailbox: broadcast"@) && contains(m, "mailbox: get"@)
            ==> broadcast_rule(m) == Some((EventKind::BufferedGet, false)),
        !contains(m, "mailbox: broadcast"@) && !contains(m, "mailbox: get"@) && contains(m, "mailbox: subscribe"@)
            ==> broadcast_rule(m) == Some((EventKind::BufferedSubscribe, false)),
        !contains(m, "mailbox: broadcast"@) && !contains(m, "mailbox: get"@) && !contains(m, "mailbox: subscribe"@) && contains(m, "network peer="@)
            ==> broadcast_rule(m) == Some((EventKind::BufferedNetwork, false)),
        !contains(m, "mailbox: broadcast"@) && !contains(m, "mailbox: get"@) && !contains(m, "mailbox: subscribe"@) && !contains(m, "network peer="@)
            ==> broadcast_rule(m) is None,
{
}

/// The resolver classifier, as its table of substrings and kinds: a
/// message is given the kind of the first substring of the table that it
/// contains, and no kind when it contains none.
/// - `mailbox: cancel`: ResolverCancel
/// - `mailbox: retain`: ResolverRetain
pub proof fn lemma_resolver_table(m: Seq<char>)
    ensures
        contains(m, "mailbox: cancel"@)
            ==> resolver_rule(m) == Some((EventKind::ResolverCancel, false)),
        !contains(m, "mailbox: cancel"@) && contains(m, "mailbox: retain"@)
            ==> resolver_rule(m) == Some((EventKind::ResolverRetain, false)),
        !contains(m, "mailbox: cancel"@) && !contains(m, "mailbox: retain"@)
            ==> resolver_rule(m) is None,
{
}

/// The network classifier, as its table of substrings and kinds: a
/// message is given the kind of the first substring of the table that it
/// contains, and no kind when it contains none.
/// - `dialed peer`: PeerDialed
/// - `upgraded connection peer=`: PeerConnected
/// - `peer started peer=`: PeerStarted
/// - `peer ready peer=`: PeerReady
/// - `updated peer record`: PeerRecordUpdate
/// - `accepted incoming connection`: ConnectionAccepted
/// - `completed handshake`: HandshakeComplete
pub proof fn lemma_network_table(m: Seq<char>)
    ensures
        contains(m, "dialed peer"@)
            ==> network_rule(m) == Some((EventKind::PeerDialed, false)),
        !contains(m, "dialed peer"@) && contains(m, "upgraded connection peer="@)
            ==> network_rule(m) == Some((EventKind::PeerConnected, false)),
        !contains(m, "dialed peer"@) && !contains(m, "upgraded connection peer="@) && contains(m, "peer started peer="@)
            ==> network_rule(m) == Some((EventKind::PeerStarted, false)),
        !contains(m, "dialed peer"@) && !contains(m, "upgraded connection peer="@) && !contains(m, "peer started peer="@) && contains(m, "peer ready peer="@)
            ==> network_rule(m) == Some((EventKind::PeerReady, false)),
        !contains(m, "dialed peer"@) && !contains(m, "upgraded connection peer="@) && !contains(m, "peer started peer="@) && !contains(m, "peer ready peer="@) && contains(m, "updated peer record"@)
            ==> network_rule(m) == Some((EventKind::PeerRecordUpdate, false)),
        !contains(m, "dialed peer"@) && !contains(m, "upgraded connection peer="@) && !contains(m, "peer started peer="@) && !contains(m, "peer ready peer="@) && !contains(m, "updated peer record"@) && contains(m, "accepted incoming connection"@)
            ==> network_rule(m) == Some((EventKind::ConnectionAccepted, false)),
        !contains(m, "dialed peer"@) && !contains(m, "upgraded connection peer="@) && !contains(m, "peer started peer="@) && !contains(m, "peer ready peer="@) && !contains(m, "updated peer record"@) && !contains(m, "accepted incoming connection"@) && contains(m, "completed handshake"@)
            ==> network_rule(m) == Some((EventKind::HandshakeComplete, false)),
        !contains(m, "dialed peer"@) && !contains(m, "upgraded connection peer="@) && !contains(m, "peer started peer="@) && !contains(m, "peer ready peer="@) && !contains(m, "updated peer record"@) && !contains(m, "accepted incoming connection"@) && !contains(m, "completed handshake"@)
            ==> network_rule(m) is None,
{
}

/// The storage classifier, as its table: `appended item` gives
/// StorageAppend; else `initializing archive` gives ArchiveInit; else
/// `restored` together with `archive` or `intervals` gives ArchiveRestore;
/// else no kind.
pub proof fn lemma_storage_table(m: Seq<char>)
    ensures
        contains(m, "appended item"@) ==> storage_rule(m) == Some((EventKind::StorageAppend, false)),
        !contains(m, "appended item"@) && contains(m, "initializing archive"@)
            ==> storage_rule(m) == Some((EventKind::ArchiveInit, false)),
        !contains(m, "appended item"@) && !contains(m, "initializing archive"@) && contains(m, "restored"@)
            && (contains(m, "archive"@) || contains(m, "intervals"@))
            ==> storage_rule(m) == Some((EventKind::ArchiveRestore, false)),
        !contains(m, "appended item"@) && !contains(m, "initializing archive"@) && !(contains(m, "restored"@)
            && (contains(m, "archive"@) || contains(m, "intervals"@)))
            ==> storage_rule(m) is None,
{
}

} // verus!

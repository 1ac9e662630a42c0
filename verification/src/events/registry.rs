//! The event registry: an ordered list of classifiers, of which the first
//! that recognises a message decides its kind; and the message ids that
//! correlate a send with its receipts.
use vstd::prelude::*;
use crate::events::{class_view, kind_is_recv, kind_is_send, kind_tag, rule_outcome, EventKind};
use crate::events::broadcast::{broadcast_rule, classify_broadcast_chars, classify_resolver_chars, resolver_rule};
use crate::events::consensus::{
    batcher_rule, classify_batcher_chars, classify_consensus_chars, classify_marshal_chars,
    consensus_rule, marshal_rule,
};
use crate::events::network::{classify_network_chars, network_rule};
use crate::events::storage::{classify_storage_chars, storage_rule};
use crate::text::{chars_of, is_lower_hex};

verus! {

broadcast use vstd::string::group_string_axioms;

/// A classifier that can be registered: each one recognises the messages
/// of one part of the system.
#[derive(Clone, Copy, Debug, PartialEq, Eq, Structural)]
pub enum Classifier {
    Consensus,
    Marshal,
    Batcher,
    Broadcast,
    Resolver,
    Network,
    Storage,
}

/// What a classifier makes of a message: a kind, and whether the payload hash
/// is extracted; `None` when it does not recognise the message.
pub open spec fn classifier_rule(c: Classifier, m: Seq<char>) -> Option<(EventKind, bool)> {
    match c {
        Classifier::Consensus => consensus_rule(m),
        Classifier::Marshal => marshal_rule(m),
        Classifier::Batcher => batcher_rule(m),
        Classifier::Broadcast => broadcast_rule(m),
        Classifier::Resolver => resolver_rule(m),
        Classifier::Network => network_rule(m),
        Classifier::Storage => storage_rule(m),
    }
}

impl Classifier {
    /// Apply the classifier to the characters of a message.
    pub fn apply(&self, m: &Vec<char>) -> (r: Option<(EventKind, Option<String>)>)
        ensures
            class_view(r) == rule_outcome(m@, classifier_rule(*self, m@)),
    {
        match self {
            Classifier::Consensus => classify_consensus_chars(m),
            Classifier::Marshal => classify_marshal_chars(m),
            Classifier::Batcher => classify_batcher_chars(m),
            Classifier::Broadcast => classify_broadcast_chars(m),
            Classifier::Resolver => classify_resolver_chars(m),
            Classifier::Network => classify_network_chars(m),
            Classifier::Storage => classify_storage_chars(m),
        }
    }
}

/// The classification of a message by an ordered list of classifiers: the
/// outcome of the first that recognises it, else `Other` with no payload.
pub open spec fn registry_outcome(cs: Seq<Classifier>, m: Seq<char>) -> (EventKind, Option<Seq<char>>)
    decreases cs.len(),
{
    if cs.len() == 0 {
        (EventKind::Other, None)
    } else {
        match rule_outcome(m, classifier_rule(cs[0], m)) {
            Some(r) => r,
            None => registry_outcome(cs.drop_first(), m),
        }
    }
}

/// Whether some classifier of the list recognises the message.
pub open spec fn registry_recognises(cs: Seq<Classifier>, m: Seq<char>) -> bool {
    exists|i: int| 0 <= i < cs.len() && #[trigger] classifier_rule(cs[i], m) is Some
}

/// The default classifiers, in the order in which they are consulted.
pub open spec fn default_classifiers() -> Seq<(Seq<char>, Classifier)> {
    seq![
        ("consensus"@, Classifier::Consensus),
        ("marshal"@, Classifier::Marshal),
        ("batcher"@, Classifier::Batcher),
        ("broadcast"@, Classifier::Broadcast),
        ("resolver"@, Classifier::Resolver),
        ("network"@, Classifier::Network),
        ("storage"@, Classifier::Storage),
    ]
}

/// Registry of event classifiers, consulted in the order of registration.
pub struct EventRegistry {
    classifiers: Vec<(&'static str, Classifier)>,
}

impl View for EventRegistry {
    type V = Seq<(Seq<char>, Classifier)>;

    closed spec fn view(&self) -> Seq<(Seq<char>, Classifier)> {
        self.classifiers@.map_values(|p: (&'static str, Classifier)| (p.0@, p.1))
    }
}

/// The classifiers of a registry view, without their names.
pub open spec fn classifiers_of(v: Seq<(Seq<char>, Classifier)>) -> Seq<Classifier> {
    v.map_values(|p: (Seq<char>, Classifier)| p.1)
}

impl EventRegistry {
    /// A registry with the default classifiers.
    pub fn new() -> (r: Self)
        ensures
            r@ == default_classifiers(),
    {
        let mut registry = EventRegistry { classifiers: Vec::new() };
        registry.register("consensus", Classifier::Consensus);
        registry.register("marshal", Classifier::Marshal);
        registry.register("batcher", Classifier::Batcher);
        registry.register("broadcast", Classifier::Broadcast);
        registry.register("resolver", Classifier::Resolver);
        registry.register("network", Classifier::Network);
        registry.register("storage", Classifier::Storage);
        assert(registry@ =~= default_classifiers());
        registry
    }

    /// Add a classifier after those already registered.
    pub fn register(&mut self, name: &'static str, classifier: Classifier)
        ensures
            final(self)@ == old(self)@.push((name@, classifier)),
    {
        self.classifiers.push((name, classifier));
        assert(self@ =~= old(self)@.push((name@, classifier)));
    }

    /// Classify a message with the registered classifiers.
    pub fn classify(&self, msg: &str) -> (r: (EventKind, Option<String>))
        ensures
            (r.0, match r.1 {
                Some(s) => Some(s@),
                None => None,
            }) == registry_outcome(classifiers_of(self@), msg@),
    {
        let m = chars_of(msg);
        self.classify_chars(&m)
    }

    /// Classify the characters of a message with the registered classifiers.
    pub fn classify_chars(&self, m: &Vec<char>) -> (r: (EventKind, Option<String>))
        ensures
            (r.0, match r.1 {
                Some(s) => Some(s@),
                None => None,
            }) == registry_outcome(classifiers_of(self@), m@),
    {
        let ghost cs = classifiers_of(self@);
        assert(cs.subrange(0, cs.len() as int) =~= cs);
        let mut i: usize = 0;
        while i < self.classifiers.len()
            invariant
                0 <= i <= self.classifiers@.len(),
                cs.len() == self.classifiers@.len(),
                cs == classifiers_of(self@),
                registry_outcome(cs.subrange(i as int, cs.len() as int), m@) == registry_outcome(cs, m@),
            decreases self.classifiers@.len() - i,
        {
            let c = self.classifiers[i].1;
            assert(cs[i as int] == c);
            let ghost rest = cs.subrange(i as int, cs.len() as int);
            assert(rest[0] == c);
            assert(rest.drop_first() =~= cs.subrange(i + 1, cs.len() as int));
            if let Some(result) = c.apply(m) {
                return result;
            }
            i = i + 1;
        }
        assert(cs.subrange(i as int, cs.len() as int) =~= Seq::<Classifier>::empty());
        (EventKind::Other, None)
    }

    /// The names of the registered classifiers, in order.
    pub fn classifier_names(&self) -> (r: Vec<&'static str>)
        ensures
            r@.len() == self@.len(),
            forall|i: int| 0 <= i < r@.len() ==> #[trigger] r@[i]@ == self@[i].0,
    {
        let mut r: Vec<&'static str> = Vec::new();
        let mut i: usize = 0;
        while i < self.classifiers.len()
            invariant
                0 <= i <= self.classifiers@.len(),
                r@.len() == i,
                forall|j: int| 0 <= j < i ==> #[trigger] r@[j]@ == self@[j].0,
            decreases self.classifiers@.len() - i,
        {
            r.push(self.classifiers[i].0);
            i = i + 1;
        }
        r
    }
}

impl Default for EventRegistry {
    fn default() -> (r: Self)
        ensures
            r@ == default_classifiers(),
    {
        Self::new()
    }
}

/// Law: registering a classifier does not change how the messages that an
/// earlier classifier recognises are classified; the new classifier decides
/// only for messages that no earlier one recognises.
pub proof fn lemma_register_appends(cs: Seq<Classifier>, c: Classifier, m: Seq<char>)
    ensures
        registry_recognises(cs, m) ==> registry_outcome(cs.push(c), m) == registry_outcome(cs, m),
        !registry_recognises(cs, m) ==> registry_outcome(cs.push(c), m) == registry_outcome(
            seq![c],
            m,
        ),
    decreases cs.len(),
{
    if cs.len() == 0 {
        assert(cs.push(c) =~= seq![c]);
    } else {
        assert(cs.push(c).drop_first() =~= cs.drop_first().push(c));
        lemma_register_appends(cs.drop_first(), c, m);
        if classifier_rule(cs[0], m) is Some {
            assert(registry_recognises(cs, m));
        } else {
            assert(registry_recognises(cs, m) == registry_recognises(cs.drop_first(), m)) by {
                if registry_recognises(cs, m) {
                    let i = choose|i: int| 0 <= i < cs.len() && #[trigger] classifier_rule(cs[i], m) is Some;
                    assert(cs.drop_first()[i - 1] == cs[i]);
                }
                if registry_recognises(cs.drop_first(), m) {
                    let i = choose|i: int| 0 <= i < cs.drop_first().len() && #[trigger] classifier_rule(cs.drop_first()[i], m) is Some;
                    assert(cs[i + 1] == cs.drop_first()[i]);
                }
            }
        }
    }
}

/// No classifier gives the catch-all kind.
pub proof fn lemma_rules_never_other(c: Classifier, m: Seq<char>)
    ensures
        classifier_rule(c, m) matches Some(r) ==> r.0 != EventKind::Other,
{
}

/// Law: the registry answers `Other` exactly for the messages that none of its
/// classifiers recognises, and then with no payload.
pub proof fn lemma_other_iff_unrecognised(cs: Seq<Classifier>, m: Seq<char>)
    ensures
        registry_outcome(cs, m).0 == EventKind::Other <==> !registry_recognises(cs, m),
        !registry_recognises(cs, m) ==> registry_outcome(cs, m) == (EventKind::Other, None::<Seq<char>>),
    decreases cs.len(),
{
    if cs.len() > 0 {
        lemma_rules_never_other(cs[0], m);
        lemma_other_iff_unrecognised(cs.drop_first(), m);
        assert(registry_recognises(cs, m) <==> classifier_rule(cs[0], m) is Some || registry_recognises(
            cs.drop_first(),
            m,
        )) by {
            if registry_recognises(cs, m) && classifier_rule(cs[0], m) is None {
                let i = choose|i: int| 0 <= i < cs.len() && #[trigger] classifier_rule(cs[i], m) is Some;
                assert(cs.drop_first()[i - 1] == cs[i]);
            }
            if registry_recognises(cs.drop_first(), m) {
                let i = choose|i: int| 0 <= i < cs.drop_first().len() && #[trigger] classifier_rule(cs.drop_first()[i], m) is Some;
                assert(cs[i + 1] == cs.drop_first()[i]);
            }
            if classifier_rule(cs[0], m) is Some {
                assert(classifier_rule(cs[0], m) is Some);
            }
        }
    }
}

// ============================================================================
// Message ids
// ============================================================================

/// The group that a kind's messages are correlated in: a proposal request and
/// its receipt share a group, as do a certificate built and one received.
pub open spec fn group_tag(k: EventKind) -> u8 {
    match k {
        EventKind::ProposalRequested | EventKind::ProposalReceived => 1,
        EventKind::NotarizeBroadcast => 3,
        EventKind::NotarizedBuilt | EventKind::NotarizationReceived => 4,
        EventKind::NullifyBroadcast => 5,
        EventKind::NullifiedBuilt | EventKind::NullificationReceived => 6,
        EventKind::FinalizeBroadcast => 7,
        EventKind::FinalizedBuilt | EventKind::FinalizationReceived => 8,
        _ => kind_tag(k),
    }
}

/// The correlation group of a kind.
pub fn message_group_tag(kind: EventKind) -> (r: u8)
    ensures
        r == group_tag(kind),
{
    match kind {
        EventKind::ProposalRequested | EventKind::ProposalReceived => 1,
        EventKind::NotarizeBroadcast => 3,
        EventKind::NotarizedBuilt | EventKind::NotarizationReceived => 4,
        EventKind::NullifyBroadcast => 5,
        EventKind::NullifiedBuilt | EventKind::NullificationReceived => 6,
        EventKind::FinalizeBroadcast => 7,
        EventKind::FinalizedBuilt | EventKind::FinalizationReceived => 8,
        _ => kind.as_tag(),
    }
}

/// What `blake3::hash` returns for the given bytes.
pub uninterp spec fn blake3_digest(data: Seq<u8>) -> Seq<u8>;

/// `blake3::hash`: the BLAKE3 hash of `data`, as its 32 bytes. The contract
/// names the result and states its length, which the `Hash` type fixes; the
/// value itself is not stated.
#[verifier::external_body]
fn blake3_hash(data: &[u8]) -> (r: Vec<u8>)
    ensures
        r@ == blake3_digest(data@),
        r@.len() == 32,
{
    blake3::hash(data).as_bytes().to_vec()
}

/// The eight bytes of `v`, most significant first.
pub open spec fn be_bytes(v: u64) -> Seq<u8> {
    seq![
        (v / 0x100_0000_0000_0000) as u8,
        (v / 0x1_0000_0000_0000 % 256) as u8,
        (v / 0x100_0000_0000 % 256) as u8,
        (v / 0x1_0000_0000 % 256) as u8,
        (v / 0x100_0000 % 256) as u8,
        (v / 0x1_0000 % 256) as u8,
        (v / 0x100 % 256) as u8,
        (v % 256) as u8,
    ]
}

/// The lower-case hexadecimal digit of a value below 16.
pub open spec fn hex_digit(n: int) -> char {
    if n < 10 { (n + 48) as char } else { (n + 87) as char }
}

/// Each byte as two lower-case hexadecimal digits.
pub open spec fn hex_of(b: Seq<u8>) -> Seq<char>
    decreases b.len(),
{
    if b.len() == 0 {
        seq![]
    } else {
        hex_of(b.drop_last()) + seq![hex_digit(b.last() as int / 16), hex_digit(b.last() as int % 16)]
    }
}

/// The bytes that identify a message: the view, the kind's correlation group
/// and the payload's UTF-8 bytes.
pub open spec fn message_id_input(kind: EventKind, view: u64, payload: Option<Seq<char>>) -> Seq<u8> {
    be_bytes(view) + seq![group_tag(kind)] + match payload {
        Some(p) => vstd::utf8::encode_utf8(p),
        None => Seq::<u8>::empty(),
    }
}

/// The message id: the first 16 hexadecimal digits of the BLAKE3 hash of
/// the identifying bytes.
pub open spec fn message_id(kind: EventKind, view: u64, payload: Option<Seq<char>>) -> Seq<char> {
    hex_of(blake3_digest(message_id_input(kind, view, payload)).subrange(0, 8))
}

fn hex_digit_exec(n: u8) -> (r: char)
    requires
        n < 16,
    ensures
        r == hex_digit(n as int),
{
    if n < 10 { (n + 48) as char } else { (n + 87) as char }
}

/// The first eight bytes of a digest as sixteen lower-case hexadecimal
/// digits, two per byte, high half first.
pub fn hex_prefix(d: &Vec<u8>) -> (r: String)
    requires
        d@.len() >= 8,
    ensures
        r@ == hex_of(d@.subrange(0, 8)),
        r@.len() == 16,
        forall|k: int| 0 <= k < 16 ==> is_lower_hex(#[trigger] r@[k]),
{
    let mut out = String::new();
    let mut i: usize = 0;
    while i < 8
        invariant
            0 <= i <= 8,
            d@.len() >= 8,
            out@ == hex_of(d@.subrange(0, i as int)),
            out@.len() == 2 * i,
            forall|k: int| 0 <= k < out@.len() ==> is_lower_hex(#[trigger] out@[k]),
        decreases 8 - i,
    {
        let b = d[i];
        crate::text::push_char(&mut out, hex_digit_exec(b / 16));
        crate::text::push_char(&mut out, hex_digit_exec(b % 16));
        assert(d@.subrange(0, i + 1).drop_last() =~= d@.subrange(0, i as int));
        i = i + 1;
    }
    out
}

/// Derive a message id for correlating sends and receipts; none without a
/// view. An id is 16 lower-case hexadecimal digits.
pub fn derive_message_id(kind: EventKind, view: Option<u64>, payload: Option<&str>) -> (r: Option<String>)
    ensures
        r matches Some(s) ==> s@.len() == 16 && forall|i: int| 0 <= i < 16 ==> is_lower_hex(#[trigger] s@[i]),
        match view {
            Some(v) => r is Some && r->0@ == message_id(kind, v, match payload {
                Some(p) => Some(p@),
                None => None,
            }),
            None => r is None,
        },
{
    let v = match view {
        Some(v) => v,
        None => return None,
    };
    let mut data: Vec<u8> = Vec::new();
    data.push((v / 0x100_0000_0000_0000) as u8);
    data.push((v / 0x1_0000_0000_0000 % 256) as u8);
    data.push((v / 0x100_0000_0000 % 256) as u8);
    data.push((v / 0x1_0000_0000 % 256) as u8);
    data.push((v / 0x100_0000 % 256) as u8);
    data.push((v / 0x1_0000 % 256) as u8);
    data.push((v / 0x100 % 256) as u8);
    data.push((v % 256) as u8);
    data.push(message_group_tag(kind));
    let ghost head = data@;
    if let Some(p) = payload {
        let bytes = p.as_bytes();
        let mut i: usize = 0;
        while i < bytes.len()
            invariant
                0 <= i <= bytes@.len(),
                data@ == head + bytes@.subrange(0, i as int),
            decreases bytes@.len() - i,
        {
            data.push(bytes[i]);
            assert(bytes@.subrange(0, i + 1) =~= bytes@.subrange(0, i as int).push(bytes@[i as int]));
            i = i + 1;
        }
        assert(bytes@.subrange(0, bytes@.len() as int) =~= bytes@);
    }
    let ghost pv = match payload {
        Some(p) => Some(p@),
        None => None::<Seq<char>>,
    };
    assert(data@ =~= message_id_input(kind, v, pv));
    let digest = blake3_hash(data.as_slice());
    let out = hex_prefix(&digest);
    Some(out)
}

/// Every kind of receipt carries the message id of a kind of send: for the
/// same view and payload, a receipt and its send are given the same id, which
/// is how edges pair them.
pub proof fn lemma_receipts_share_send_ids(r: EventKind, view: u64, payload: Option<Seq<char>>)
    requires
        kind_is_recv(r),
    ensures
        exists|s: EventKind| kind_is_send(s) && #[trigger] message_id(s, view, payload) == message_id(r, view, payload),
{
    let s = match r {
        EventKind::ProposalReceived => EventKind::ProposalRequested,
        EventKind::NotarizationReceived => EventKind::NotarizedBuilt,
        EventKind::NullificationReceived => EventKind::NullifiedBuilt,
        _ => EventKind::FinalizedBuilt,
    };
    assert(kind_is_send(s) && message_id(s, view, payload) == message_id(r, view, payload));
}

/// The correlation groups: a proposal request and its receipt share a
/// group, and so do each certificate built and its receipt; each vote has a
/// group of its own, apart from the certificate of the same stage; every
/// other kind is its own group, numbered by its tag.
pub proof fn lemma_group_pairs(k: EventKind)
    ensures
        group_tag(EventKind::ProposalRequested) == group_tag(EventKind::ProposalReceived),
        group_tag(EventKind::NotarizedBuilt) == group_tag(EventKind::NotarizationReceived),
        group_tag(EventKind::NullifiedBuilt) == group_tag(EventKind::NullificationReceived),
        group_tag(EventKind::FinalizedBuilt) == group_tag(EventKind::FinalizationReceived),
        group_tag(EventKind::NotarizeBroadcast) != group_tag(EventKind::NotarizedBuilt),
        group_tag(EventKind::NullifyBroadcast) != group_tag(EventKind::NullifiedBuilt),
        group_tag(EventKind::FinalizeBroadcast) != group_tag(EventKind::FinalizedBuilt),
        group_tag(EventKind::NotarizedBuilt) != group_tag(EventKind::NullifiedBuilt),
        group_tag(EventKind::NullifiedBuilt) != group_tag(EventKind::FinalizedBuilt),
        group_tag(EventKind::NotarizedBuilt) != group_tag(EventKind::FinalizedBuilt),
        group_tag(EventKind::ProposalRequested) != group_tag(EventKind::NotarizedBuilt),
        !(k == EventKind::ProposalRequested || k == EventKind::ProposalReceived || k == EventKind::NotarizeBroadcast
            || k == EventKind::NotarizedBuilt || k == EventKind::NotarizationReceived || k == EventKind::NullifyBroadcast
            || k == EventKind::NullifiedBuilt || k == EventKind::NullificationReceived || k == EventKind::FinalizeBroadcast
            || k == EventKind::FinalizedBuilt || k == EventKind::FinalizationReceived) ==> group_tag(k) == kind_tag(k),
{
}

} // verus!

//! Core identifiers and artifact types of the IDKG subsystem.
//!
//! Heights are monotone non-negative integers identifying block positions.
//! Node and subnet identifiers are opaque; only equality matters, so they are
//! carried as plain `u64` values.

use vstd::prelude::*;

verus! {

/// Identifies one transcript to be built. Two transcripts are equal iff the
/// originating subnet, the serial number and the source height all match.
/// `source_height` is the block height at which the config was introduced.
#[derive(Clone, Copy, PartialEq, Eq, Structural, Hash, Debug)]
pub struct TranscriptId {
    pub source_subnet: u64,
    pub serial: u64,
    pub source_height: u64,
}

impl TranscriptId {
    pub fn new(source_subnet: u64, serial: u64, source_height: u64) -> (r: TranscriptId)
        ensures
            r == (TranscriptId { source_subnet, serial, source_height }),
    {
        TranscriptId { source_subnet, serial, source_height }
    }
}

/// Uniquely identifies one outstanding signature request: the pre-signature
/// matched to it, a 32-byte pseudo-random tag, and the height of the certified
/// state in which the request was observed.
#[derive(Clone, Copy, PartialEq, Eq, Hash, Debug)]
pub struct RequestId {
    pub pre_signature_id: u64,
    pub pseudo_random_id: [u8; 32],
    pub height: u64,
}

/// Mathematical equality of two request identifiers: all three components
/// match, the pseudo-random tag byte for byte.
pub open spec fn rid_eq(a: RequestId, b: RequestId) -> bool {
    &&& a.pre_signature_id == b.pre_signature_id
    &&& a.pseudo_random_id@ == b.pseudo_random_id@
    &&& a.height == b.height
}

/// Decides `rid_eq` executably.
pub fn request_id_eq(a: &RequestId, b: &RequestId) -> (r: bool)
    ensures
        r == rid_eq(*a, *b),
{
    if a.pre_signature_id != b.pre_signature_id || a.height != b.height {
        return false;
    }
    let mut i: usize = 0;
    while i < 32
        invariant
            i <= 32,
            forall|k: int| 0 <= k < i ==> a.pseudo_random_id@[k] == b.pseudo_random_id@[k],
        decreases 32 - i,
    {
        if a.pseudo_random_id[i] != b.pseudo_random_id[i] {
            return false;
        }
        i = i + 1;
    }
    proof {
        assert(a.pseudo_random_id@ =~= b.pseudo_random_id@);
    }
    true
}

/// The signature scheme a request or transcript serves.
#[derive(Clone, Copy, PartialEq, Eq, Structural, Hash, Debug)]
pub enum SignatureScheme {
    Ecdsa,
    Schnorr,
}

/// A reference to a transcript on the finalized chain: the transcript
/// identifier together with the height of the block that holds it.
#[derive(Clone, Copy, PartialEq, Eq, Structural, Hash, Debug)]
pub struct TranscriptRef {
    pub height: u64,
    pub transcript_id: TranscriptId,
}

/// A completed transcript, as far as the pool logic reads it: its identifier
/// and the registry version it was built under. The cryptographic payload
/// lives with the crypto layer.
#[derive(Clone, Copy, PartialEq, Eq, Structural, Hash, Debug)]
pub struct IDkgTranscript {
    pub transcript_id: TranscriptId,
    pub registry_version: u64,
}

/// What a transcript under construction shares, and which prior transcripts
/// it depends on.
#[derive(Clone, Copy, PartialEq, Eq, Structural, Debug)]
pub enum TranscriptOperation {
    /// Share a fresh random value, masked form.
    RandomMasked,
    /// Share a fresh random value, unmasked form.
    RandomUnmasked,
    /// Share the product of a masked and an unmasked prior transcript.
    MaskedTimesUnmasked(TranscriptRef, TranscriptRef),
    /// Reshare a masked prior transcript into unmasked form.
    UnmaskedFromMasked(TranscriptRef),
}

impl TranscriptOperation {
    /// The prior transcripts this operation depends on.
    pub open spec fn deps_spec(self) -> Seq<TranscriptRef> {
        match self {
            TranscriptOperation::RandomMasked => Seq::empty(),
            TranscriptOperation::RandomUnmasked => Seq::empty(),
            TranscriptOperation::MaskedTimesUnmasked(a, b) => seq![a, b],
            TranscriptOperation::UnmaskedFromMasked(a) => seq![a],
        }
    }

    /// Lists the prior transcripts this operation depends on.
    pub fn deps(&self) -> (r: Vec<TranscriptRef>)
        ensures
            r@ == self.deps_spec(),
    {
        match self {
            TranscriptOperation::RandomMasked => Vec::new(),
            TranscriptOperation::RandomUnmasked => Vec::new(),
            TranscriptOperation::MaskedTimesUnmasked(a, b) => {
                let mut v: Vec<TranscriptRef> = Vec::new();
                v.push(*a);
                v.push(*b);
                proof {
                    assert(v@ =~= self.deps_spec());
                }
                v
            }
            TranscriptOperation::UnmaskedFromMasked(a) => {
                let mut v: Vec<TranscriptRef> = Vec::new();
                v.push(*a);
                proof {
                    assert(v@ =~= self.deps_spec());
                }
                v
            }
        }
    }
}

/// The declaration of one transcript to be built: its unique identifier, the
/// dealer and receiver sets, the registry version, the algorithm, and the
/// operation that names its dependencies.
#[derive(Clone, PartialEq, Eq, Debug)]
pub struct IDkgTranscriptParams {
    pub transcript_id: TranscriptId,
    pub dealers: Vec<u64>,
    pub receivers: Vec<u64>,
    pub registry_version: u64,
    pub algorithm: SignatureScheme,
    pub operation: TranscriptOperation,
}

impl IDkgTranscriptParams {
    /// Whether `node` belongs to the dealer set.
    pub open spec fn has_dealer(self, node: u64) -> bool {
        self.dealers@.contains(node)
    }

    /// Whether `node` belongs to the receiver set.
    pub open spec fn has_receiver(self, node: u64) -> bool {
        self.receivers@.contains(node)
    }

    /// Decides membership in the dealer set.
    pub fn is_dealer(&self, node: u64) -> (r: bool)
        ensures
            r == self.has_dealer(node),
    {
        contains_u64(&self.dealers, node)
    }

    /// Decides membership in the receiver set.
    pub fn is_receiver(&self, node: u64) -> (r: bool)
        ensures
            r == self.has_receiver(node),
    {
        contains_u64(&self.receivers, node)
    }
}

/// Decides membership of `x` in `v`.
pub fn contains_u64(v: &Vec<u64>, x: u64) -> (r: bool)
    ensures
        r == v@.contains(x),
{
    let mut i: usize = 0;
    while i < v.len()
        invariant
            i <= v@.len(),
            forall|k: int| 0 <= k < i ==> v@[k] != x,
        decreases v@.len() - i,
    {
        if v[i] == x {
            return true;
        }
        i = i + 1;
    }
    false
}

/// A dealer's contribution toward one transcript.
#[derive(Clone, Copy, PartialEq, Eq, Hash, Debug)]
pub struct SignedDealing {
    pub transcript_id: TranscriptId,
    pub dealer_id: u64,
}

/// A receiver's attestation that a dealing's private part is well-formed
/// for it.
#[derive(Clone, Copy, PartialEq, Eq, Hash, Debug)]
pub struct DealingSupport {
    pub transcript_id: TranscriptId,
    pub dealer_id: u64,
    pub signer_id: u64,
}

/// One replica's share of a requested signature.
#[derive(Clone, Copy, PartialEq, Eq, Hash, Debug)]
pub struct SigShare {
    pub request_id: RequestId,
    pub signer_id: u64,
}

/// "I could not decrypt dealer `dealer_id`'s share in `transcript_id`."
#[derive(Clone, Copy, PartialEq, Eq, Hash, Debug)]
pub struct SignedComplaint {
    pub transcript_id: TranscriptId,
    pub dealer_id: u64,
    pub complainer_id: u64,
}

/// A peer's response to a complaint that reveals enough for the complainer
/// to recover its share.
#[derive(Clone, Copy, PartialEq, Eq, Hash, Debug)]
pub struct SignedOpening {
    pub transcript_id: TranscriptId,
    pub dealer_id: u64,
    pub complainer_id: u64,
    pub opener_id: u64,
}

/// The element type of the artifact pool.
#[derive(Clone, Copy, PartialEq, Eq, Hash, Debug)]
pub enum IDkgMessage {
    Dealing(SignedDealing),
    DealingSupport(DealingSupport),
    EcdsaSigShare(SigShare),
    SchnorrSigShare(SigShare),
    Complaint(SignedComplaint),
    Opening(SignedOpening),
}

/// The attribute a peer advertises for a message: its kind plus the
/// transcript or request it refers to.
#[derive(Clone, Copy, PartialEq, Eq, Hash, Debug)]
pub enum IDkgMessageAttribute {
    Dealing(TranscriptId),
    DealingSupport(TranscriptId),
    EcdsaSigShare(RequestId),
    SchnorrSigShare(RequestId),
    Complaint(TranscriptId),
    Opening(TranscriptId),
}

/// What the gossip layer should do with an advertised message.
#[derive(Clone, Copy, PartialEq, Eq, Structural, Hash, Debug)]
pub enum Priority {
    /// Fetch the artifact immediately; the replica will consume it.
    FetchNow,
    /// Hold the advert; the artifact lies in the near future.
    Stash,
    /// Discard the advert; the artifact will never matter.
    Drop,
}

impl IDkgMessage {
    /// The attribute this message would be advertised under.
    pub open spec fn attribute_spec(self) -> IDkgMessageAttribute {
        match self {
            IDkgMessage::Dealing(d) => IDkgMessageAttribute::Dealing(d.transcript_id),
            IDkgMessage::DealingSupport(s) => IDkgMessageAttribute::DealingSupport(
                s.transcript_id,
            ),
            IDkgMessage::EcdsaSigShare(s) => IDkgMessageAttribute::EcdsaSigShare(s.request_id),
            IDkgMessage::SchnorrSigShare(s) => IDkgMessageAttribute::SchnorrSigShare(s.request_id),
            IDkgMessage::Complaint(c) => IDkgMessageAttribute::Complaint(c.transcript_id),
            IDkgMessage::Opening(o) => IDkgMessageAttribute::Opening(o.transcript_id),
        }
    }

    /// Computes the attribute this message is advertised under.
    pub fn attribute(&self) -> (r: IDkgMessageAttribute)
        ensures
            r == self.attribute_spec(),
    {
        match self {
            IDkgMessage::Dealing(d) => IDkgMessageAttribute::Dealing(d.transcript_id),
            IDkgMessage::DealingSupport(s) => IDkgMessageAttribute::DealingSupport(
                s.transcript_id,
            ),
            IDkgMessage::EcdsaSigShare(s) => IDkgMessageAttribute::EcdsaSigShare(s.request_id),
            IDkgMessage::SchnorrSigShare(s) => IDkgMessageAttribute::SchnorrSigShare(s.request_id),
            IDkgMessage::Complaint(c) => IDkgMessageAttribute::Complaint(c.transcript_id),
            IDkgMessage::Opening(o) => IDkgMessageAttribute::Opening(o.transcript_id),
        }
    }
}

/// Mathematical equality of two pool messages.
pub open spec fn msg_eq(a: IDkgMessage, b: IDkgMessage) -> bool {
    match (a, b) {
        (IDkgMessage::Dealing(x), IDkgMessage::Dealing(y)) => x == y,
        (IDkgMessage::DealingSupport(x), IDkgMessage::DealingSupport(y)) => x == y,
        (IDkgMessage::EcdsaSigShare(x), IDkgMessage::EcdsaSigShare(y)) => {
            rid_eq(x.request_id, y.request_id) && x.signer_id == y.signer_id
        }
        (IDkgMessage::SchnorrSigShare(x), IDkgMessage::SchnorrSigShare(y)) => {
            rid_eq(x.request_id, y.request_id) && x.signer_id == y.signer_id
        }
        (IDkgMessage::Complaint(x), IDkgMessage::Complaint(y)) => x == y,
        (IDkgMessage::Opening(x), IDkgMessage::Opening(y)) => x == y,
        _ => false,
    }
}

/// The uniqueness key of a validated message: no two validated messages may
/// share it. For dealings the key is (config, dealer); for support
/// (config, dealer, supporter); for shares (request, signer); for complaints
/// (transcript, complainer); for openings (transcript, complainer, opener).
pub open spec fn same_key(a: IDkgMessage, b: IDkgMessage) -> bool {
    match (a, b) {
        (IDkgMessage::Dealing(x), IDkgMessage::Dealing(y)) => {
            x.transcript_id == y.transcript_id && x.dealer_id == y.dealer_id
        }
        (IDkgMessage::DealingSupport(x), IDkgMessage::DealingSupport(y)) => {
            x.transcript_id == y.transcript_id && x.dealer_id == y.dealer_id && x.signer_id
                == y.signer_id
        }
        (IDkgMessage::EcdsaSigShare(x), IDkgMessage::EcdsaSigShare(y)) => {
            rid_eq(x.request_id, y.request_id) && x.signer_id == y.signer_id
        }
        (IDkgMessage::SchnorrSigShare(x), IDkgMessage::SchnorrSigShare(y)) => {
            rid_eq(x.request_id, y.request_id) && x.signer_id == y.signer_id
        }
        (IDkgMessage::Complaint(x), IDkgMessage::Complaint(y)) => {
            x.transcript_id == y.transcript_id && x.complainer_id == y.complainer_id
        }
        (IDkgMessage::Opening(x), IDkgMessage::Opening(y)) => {
            x.transcript_id == y.transcript_id && x.complainer_id == y.complainer_id && x.opener_id
                == y.opener_id
        }
        _ => false,
    }
}

/// Decides `msg_eq` executably.
pub fn message_eq(a: &IDkgMessage, b: &IDkgMessage) -> (r: bool)
    ensures
        r == msg_eq(*a, *b),
{
    match (a, b) {
        (IDkgMessage::Dealing(x), IDkgMessage::Dealing(y)) => {
            x.transcript_id == y.transcript_id && x.dealer_id == y.dealer_id
        }
        (IDkgMessage::DealingSupport(x), IDkgMessage::DealingSupport(y)) => {
            x.transcript_id == y.transcript_id && x.dealer_id == y.dealer_id && x.signer_id
                == y.signer_id
        }
        (IDkgMessage::EcdsaSigShare(x), IDkgMessage::EcdsaSigShare(y)) => {
            request_id_eq(&x.request_id, &y.request_id) && x.signer_id == y.signer_id
        }
        (IDkgMessage::SchnorrSigShare(x), IDkgMessage::SchnorrSigShare(y)) => {
            request_id_eq(&x.request_id, &y.request_id) && x.signer_id == y.signer_id
        }
        (IDkgMessage::Complaint(x), IDkgMessage::Complaint(y)) => {
            x.transcript_id == y.transcript_id && x.dealer_id == y.dealer_id && x.complainer_id
                == y.complainer_id
        }
        (IDkgMessage::Opening(x), IDkgMessage::Opening(y)) => {
            x.transcript_id == y.transcript_id && x.dealer_id == y.dealer_id && x.complainer_id
                == y.complainer_id && x.opener_id == y.opener_id
        }
        _ => false,
    }
}

/// Decides `same_key` executably.
pub fn message_same_key(a: &IDkgMessage, b: &IDkgMessage) -> (r: bool)
    ensures
        r == same_key(*a, *b),
{
    match (a, b) {
        (IDkgMessage::Dealing(x), IDkgMessage::Dealing(y)) => {
            x.transcript_id == y.transcript_id && x.dealer_id == y.dealer_id
        }
        (IDkgMessage::DealingSupport(x), IDkgMessage::DealingSupport(y)) => {
            x.transcript_id == y.transcript_id && x.dealer_id == y.dealer_id && x.signer_id
                == y.signer_id
        }
        (IDkgMessage::EcdsaSigShare(x), IDkgMessage::EcdsaSigShare(y)) => {
            request_id_eq(&x.request_id, &y.request_id) && x.signer_id == y.signer_id
        }
        (IDkgMessage::SchnorrSigShare(x), IDkgMessage::SchnorrSigShare(y)) => {
            request_id_eq(&x.request_id, &y.request_id) && x.signer_id == y.signer_id
        }
        (IDkgMessage::Complaint(x), IDkgMessage::Complaint(y)) => {
            x.transcript_id == y.transcript_id && x.complainer_id == y.complainer_id
        }
        (IDkgMessage::Opening(x), IDkgMessage::Opening(y)) => {
            x.transcript_id == y.transcript_id && x.complainer_id == y.complainer_id && x.opener_id
                == y.opener_id
        }
        _ => false,
    }
}

/// Two messages with the same key match in kind, and equal messages share
/// their key: `same_key` is what remains of equality after the payload is
/// forgotten.
pub proof fn lemma_msg_eq_same_key(a: IDkgMessage, b: IDkgMessage)
    ensures
        msg_eq(a, b) ==> same_key(a, b),
        msg_eq(a, a),
        same_key(a, b) == same_key(b, a),
{
}

/// Message equality is an equivalence relation.
pub proof fn lemma_msg_eq_equivalence(a: IDkgMessage, b: IDkgMessage, c: IDkgMessage)
    ensures
        msg_eq(a, a),
        msg_eq(a, b) == msg_eq(b, a),
        msg_eq(a, b) && msg_eq(b, c) ==> msg_eq(a, c),
{
}

/// Sharing a key is an equivalence relation.
pub proof fn lemma_same_key_equivalence(a: IDkgMessage, b: IDkgMessage, c: IDkgMessage)
    ensures
        same_key(a, a),
        same_key(a, b) == same_key(b, a),
        same_key(a, b) && same_key(b, c) ==> same_key(a, c),
{
}

} // verus!

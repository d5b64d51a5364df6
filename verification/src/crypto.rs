//! The crypto oracle interface the pool logic consults, and a scripted
//! deterministic implementation of it.
//!
//! The cryptographic primitives themselves — dealing generation, public and
//! private verification, share creation, complaint and opening handling, key
//! retention — are external collaborators. The sub-engines only depend on the
//! verdicts, and must be deterministic given one snapshot, so the interface
//! exposes each verdict as a spec-level function of the oracle's state and
//! ties every call's result to it.
//!
//! [`ScriptedCrypto`] implements the interface with verdicts read from
//! explicit tables: everything succeeds unless a failure has been scripted.
//! It stands in for the real crypto layer in simulations; a production
//! implementation lives outside the verified world and implements the same
//! trait.

use vstd::prelude::*;

use crate::types::{
    rid_eq, DealingSupport, IDkgTranscript, IDkgTranscriptParams, RequestId, SigShare,
    SignedComplaint, SignedDealing, SignedOpening, TranscriptId,
};

verus! {

/// Why a retention request failed.
#[derive(Clone, Copy, PartialEq, Eq, Structural, Debug)]
pub enum RetainError {
    /// Worth retrying on the next period.
    Transient,
    /// Requires operator intervention; the tick continues regardless.
    Fatal,
}

/// The identifiers of a sequence of transcripts.
pub open spec fn transcript_ids_of(s: Seq<IDkgTranscript>) -> Seq<TranscriptId> {
    s.map_values(|t: IDkgTranscript| t.transcript_id)
}

/// The crypto oracle as the pool logic sees it: deterministic verdicts.
///
/// Each executable method's result is pinned to a spec-level member, so a
/// sub-engine invoked twice on the same snapshot computes the same change
/// set, and the spec functions describing the engines can mention the
/// verdicts directly.
pub trait CryptoOracle: Sized {
    /// Verdict of public verification of a dealing.
    spec fn dealing_public_ok(&self, d: SignedDealing) -> bool;

    /// Verdict of private verification of a dealing (does it encrypt a good
    /// share for this replica?).
    spec fn dealing_private_ok(&self, d: SignedDealing) -> bool;

    /// Verdict of verification of a support message.
    spec fn support_ok(&self, s: DealingSupport) -> bool;

    /// Whether creating a dealing for the given transcript succeeds.
    spec fn dealing_creation_ok(&self, tid: TranscriptId) -> bool;

    /// Verdict of verification of a signature share.
    spec fn share_ok(&self, s: SigShare) -> bool;

    /// Whether creating a share for the given request succeeds.
    spec fn share_creation_ok(&self, rid: RequestId) -> bool;

    /// Verdict of verification of a complaint.
    spec fn complaint_ok(&self, c: SignedComplaint) -> bool;

    /// Verdict of verification of an opening.
    spec fn opening_ok(&self, o: SignedOpening) -> bool;

    /// Whether creating an opening in response to the given complaint
    /// succeeds.
    spec fn opening_creation_ok(&self, c: SignedComplaint) -> bool;

    /// The dealers whose shares in the given transcript this replica cannot
    /// decrypt; empty means the transcript loads cleanly.
    spec fn load_failures(&self, tid: TranscriptId) -> Seq<u64>;

    /// How many times key retention has been invoked.
    spec fn retain_count(&self) -> nat;

    /// The transcripts named by the most recent retention request: key
    /// material outside this set may be dropped.
    spec fn retained(&self) -> Seq<TranscriptId>;

    /// The verdict the next retention request will report.
    spec fn retain_verdict(&self) -> Result<(), RetainError>;

    /// Publicly verifies a dealing against its config.
    fn verify_dealing_public(&self, config: &IDkgTranscriptParams, d: &SignedDealing) -> (r: bool)
        ensures
            r == self.dealing_public_ok(*d),
    ;

    /// Privately verifies a dealing against its config.
    fn verify_dealing_private(&self, config: &IDkgTranscriptParams, d: &SignedDealing) -> (r:
        bool)
        ensures
            r == self.dealing_private_ok(*d),
    ;

    /// Verifies a support message.
    fn verify_dealing_support(&self, config: &IDkgTranscriptParams, s: &DealingSupport) -> (r:
        bool)
        ensures
            r == self.support_ok(*s),
    ;

    /// Creates this replica's dealing for a config, if the keystore allows.
    fn create_dealing(&self, config: &IDkgTranscriptParams, dealer: u64) -> (r: Option<
        SignedDealing,
    >)
        ensures
            r == if self.dealing_creation_ok(config.transcript_id) {
                Some(SignedDealing { transcript_id: config.transcript_id, dealer_id: dealer })
            } else {
                None::<SignedDealing>
            },
    ;

    /// Verifies a signature share.
    fn verify_sig_share(&self, s: &SigShare) -> (r: bool)
        ensures
            r == self.share_ok(*s),
    ;

    /// Creates this replica's share for a request, if the keystore allows.
    fn create_sig_share(&self, request_id: &RequestId, signer: u64) -> (r: Option<SigShare>)
        ensures
            r == if self.share_creation_ok(*request_id) {
                Some(SigShare { request_id: *request_id, signer_id: signer })
            } else {
                None::<SigShare>
            },
    ;

    /// Verifies a complaint.
    fn verify_complaint(&self, c: &SignedComplaint) -> (r: bool)
        ensures
            r == self.complaint_ok(*c),
    ;

    /// Verifies an opening.
    fn verify_opening(&self, o: &SignedOpening) -> (r: bool)
        ensures
            r == self.opening_ok(*o),
    ;

    /// Creates and signs an opening answering a validated complaint.
    fn create_opening(&self, c: &SignedComplaint, opener: u64) -> (r: Option<SignedOpening>)
        ensures
            r == if self.opening_creation_ok(*c) {
                Some(
                    SignedOpening {
                        transcript_id: c.transcript_id,
                        dealer_id: c.dealer_id,
                        complainer_id: c.complainer_id,
                        opener_id: opener,
                    },
                )
            } else {
                None::<SignedOpening>
            },
    ;

    /// Attempts to load a transcript into the local keystore; returns one
    /// complaint per dealer whose share cannot be decrypted, in table order.
    /// An empty result means the load succeeded.
    fn load_transcript(&self, t: &IDkgTranscript, complainer: u64) -> (r: Vec<SignedComplaint>)
        ensures
            r@.len() == self.load_failures(t.transcript_id).len(),
            forall|i: int|
                0 <= i < r@.len() ==> r@[i] == (SignedComplaint {
                    transcript_id: t.transcript_id,
                    dealer_id: self.load_failures(t.transcript_id)[i],
                    complainer_id: complainer,
                }),
    ;

    /// Drops key material for every transcript outside `actives`.
    fn retain_active_transcripts(&mut self, actives: &Vec<IDkgTranscript>) -> (r: Result<
        (),
        RetainError,
    >)
        ensures
            final(self).retain_count() == old(self).retain_count() + 1,
            final(self).retained() == transcript_ids_of(actives@),
            r == old(self).retain_verdict(),
    ;
}

/// The dealers scripted to fail for `tid` among `pairs`, in order.
pub open spec fn failures_for(pairs: Seq<(TranscriptId, u64)>, tid: TranscriptId) -> Seq<u64>
    decreases pairs.len(),
{
    if pairs.len() == 0 {
        Seq::empty()
    } else {
        let rest = failures_for(pairs.drop_last(), tid);
        if pairs.last().0 == tid {
            rest.push(pairs.last().1)
        } else {
            rest
        }
    }
}

/// A crypto oracle whose verdicts are read from explicit tables: every
/// operation succeeds unless the corresponding failure has been scripted.
/// Retention requests are logged so that callers can observe what was, and
/// was not, handed to the keystore.
pub struct ScriptedCrypto {
    /// Dealings that fail public verification, as (transcript, dealer).
    pub rejected_dealings: Vec<(TranscriptId, u64)>,
    /// Dealings that fail private verification, as (transcript, dealer).
    pub private_failures: Vec<(TranscriptId, u64)>,
    /// Support messages that fail verification, as (transcript, dealer, supporter).
    pub rejected_support: Vec<(TranscriptId, u64, u64)>,
    /// Shares that fail verification, as (request, signer).
    pub rejected_shares: Vec<(RequestId, u64)>,
    /// Complaints that fail verification, as (transcript, complainer).
    pub rejected_complaints: Vec<(TranscriptId, u64)>,
    /// Openings that fail verification, as (transcript, opener).
    pub rejected_openings: Vec<(TranscriptId, u64)>,
    /// Transcripts for which dealing creation fails.
    pub denied_dealing_creation: Vec<TranscriptId>,
    /// Requests for which share creation fails.
    pub denied_share_creation: Vec<RequestId>,
    /// Transcripts for which opening creation fails.
    pub denied_opening_creation: Vec<TranscriptId>,
    /// Shares this replica cannot decrypt, as (transcript, dealer).
    pub load_failure_dealers: Vec<(TranscriptId, u64)>,
    /// The error every retention request reports, if any.
    pub retain_fault: Option<RetainError>,
    /// One entry per retention request: the transcript set that was handed in.
    pub retain_log: Vec<Vec<TranscriptId>>,
}

impl ScriptedCrypto {
    /// An oracle with nothing scripted: every operation succeeds.
    pub fn new() -> (r: ScriptedCrypto)
        ensures
            r.rejected_dealings@.len() == 0,
            r.private_failures@.len() == 0,
            r.rejected_support@.len() == 0,
            r.rejected_shares@.len() == 0,
            r.rejected_complaints@.len() == 0,
            r.rejected_openings@.len() == 0,
            r.denied_dealing_creation@.len() == 0,
            r.denied_share_creation@.len() == 0,
            r.denied_opening_creation@.len() == 0,
            r.load_failure_dealers@.len() == 0,
            r.retain_fault == None::<RetainError>,
            r.retain_log@.len() == 0,
    {
        ScriptedCrypto {
            rejected_dealings: Vec::new(),
            private_failures: Vec::new(),
            rejected_support: Vec::new(),
            rejected_shares: Vec::new(),
            rejected_complaints: Vec::new(),
            rejected_openings: Vec::new(),
            denied_dealing_creation: Vec::new(),
            denied_share_creation: Vec::new(),
            denied_opening_creation: Vec::new(),
            load_failure_dealers: Vec::new(),
            retain_fault: None,
            retain_log: Vec::new(),
        }
    }

    /// Scripts public verification of `(tid, dealer)`'s dealing to fail.
    pub fn script_rejected_dealing(&mut self, tid: TranscriptId, dealer: u64)
        ensures
            *final(self) == (ScriptedCrypto {
                rejected_dealings: final(self).rejected_dealings,
                ..*old(self)
            }),
            final(self).rejected_dealings@ == old(self).rejected_dealings@.push((tid, dealer)),
    {
        self.rejected_dealings.push((tid, dealer));
    }

    /// Scripts private verification of `(tid, dealer)`'s dealing to fail.
    pub fn script_private_failure(&mut self, tid: TranscriptId, dealer: u64)
        ensures
            *final(self) == (ScriptedCrypto {
                private_failures: final(self).private_failures,
                ..*old(self)
            }),
            final(self).private_failures@ == old(self).private_failures@.push((tid, dealer)),
    {
        self.private_failures.push((tid, dealer));
    }

    /// Scripts this replica's decryption of `(tid, dealer)`'s share to fail.
    pub fn script_load_failure(&mut self, tid: TranscriptId, dealer: u64)
        ensures
            *final(self) == (ScriptedCrypto {
                load_failure_dealers: final(self).load_failure_dealers,
                ..*old(self)
            }),
            final(self).load_failure_dealers@ == old(self).load_failure_dealers@.push(
                (tid, dealer),
            ),
    {
        self.load_failure_dealers.push((tid, dealer));
    }

    /// Scripts every retention request to report `e`.
    pub fn script_retain_fault(&mut self, e: RetainError)
        ensures
            *final(self) == (ScriptedCrypto { retain_fault: Some(e), ..*old(self) }),
    {
        self.retain_fault = Some(e);
    }
}

/// Decides membership of `(tid, node)` in a scripted table.
fn table_contains(v: &Vec<(TranscriptId, u64)>, tid: TranscriptId, node: u64) -> (r: bool)
    ensures
        r == v@.contains((tid, node)),
{
    let mut i: usize = 0;
    while i < v.len()
        invariant
            i <= v@.len(),
            forall|k: int| 0 <= k < i ==> v@[k] != (tid, node),
        decreases v@.len() - i,
    {
        if v[i].0 == tid && v[i].1 == node {
            return true;
        }
        i = i + 1;
    }
    false
}

impl CryptoOracle for ScriptedCrypto {
    open spec fn dealing_public_ok(&self, d: SignedDealing) -> bool {
        !self.rejected_dealings@.contains((d.transcript_id, d.dealer_id))
    }

    open spec fn dealing_private_ok(&self, d: SignedDealing) -> bool {
        !self.private_failures@.contains((d.transcript_id, d.dealer_id))
    }

    open spec fn support_ok(&self, s: DealingSupport) -> bool {
        !self.rejected_support@.contains((s.transcript_id, s.dealer_id, s.signer_id))
    }

    open spec fn dealing_creation_ok(&self, tid: TranscriptId) -> bool {
        !self.denied_dealing_creation@.contains(tid)
    }

    open spec fn share_ok(&self, s: SigShare) -> bool {
        !(exists|i: int|
            0 <= i < self.rejected_shares@.len() && rid_eq(self.rejected_shares@[i].0, s.request_id)
                && self.rejected_shares@[i].1 == s.signer_id)
    }

    open spec fn share_creation_ok(&self, rid: RequestId) -> bool {
        !(exists|i: int|
            0 <= i < self.denied_share_creation@.len() && rid_eq(
                self.denied_share_creation@[i],
                rid,
            ))
    }

    open spec fn complaint_ok(&self, c: SignedComplaint) -> bool {
        !self.rejected_complaints@.contains((c.transcript_id, c.complainer_id))
    }

    open spec fn opening_ok(&self, o: SignedOpening) -> bool {
        !self.rejected_openings@.contains((o.transcript_id, o.opener_id))
    }

    open spec fn opening_creation_ok(&self, c: SignedComplaint) -> bool {
        !self.denied_opening_creation@.contains(c.transcript_id)
    }

    open spec fn load_failures(&self, tid: TranscriptId) -> Seq<u64> {
        failures_for(self.load_failure_dealers@, tid)
    }

    open spec fn retain_count(&self) -> nat {
        self.retain_log@.len()
    }

    open spec fn retained(&self) -> Seq<TranscriptId> {
        if self.retain_log@.len() == 0 {
            Seq::empty()
        } else {
            self.retain_log@.last()@
        }
    }

    open spec fn retain_verdict(&self) -> Result<(), RetainError> {
        match self.retain_fault {
            None => Ok(()),
            Some(e) => Err(e),
        }
    }

    fn verify_dealing_public(&self, config: &IDkgTranscriptParams, d: &SignedDealing) -> (r:
        bool) {
        !table_contains(&self.rejected_dealings, d.transcript_id, d.dealer_id)
    }

    fn verify_dealing_private(&self, config: &IDkgTranscriptParams, d: &SignedDealing) -> (r:
        bool) {
        !table_contains(&self.private_failures, d.transcript_id, d.dealer_id)
    }

    fn verify_dealing_support(&self, config: &IDkgTranscriptParams, s: &DealingSupport) -> (r:
        bool) {
        let mut i: usize = 0;
        while i < self.rejected_support.len()
            invariant
                i <= self.rejected_support@.len(),
                forall|k: int|
                    0 <= k < i ==> self.rejected_support@[k] != (
                        s.transcript_id,
                        s.dealer_id,
                        s.signer_id,
                    ),
            decreases self.rejected_support@.len() - i,
        {
            let e = self.rejected_support[i];
            if e.0 == s.transcript_id && e.1 == s.dealer_id && e.2 == s.signer_id {
                return false;
            }
            i = i + 1;
        }
        true
    }

    fn create_dealing(&self, config: &IDkgTranscriptParams, dealer: u64) -> (r: Option<
        SignedDealing,
    >) {
        let mut i: usize = 0;
        while i < self.denied_dealing_creation.len()
            invariant
                i <= self.denied_dealing_creation@.len(),
                forall|k: int| 0 <= k < i ==> self.denied_dealing_creation@[k]
                    != config.transcript_id,
            decreases self.denied_dealing_creation@.len() - i,
        {
            if self.denied_dealing_creation[i] == config.transcript_id {
                return None;
            }
            i = i + 1;
        }
        Some(SignedDealing { transcript_id: config.transcript_id, dealer_id: dealer })
    }

    fn verify_sig_share(&self, s: &SigShare) -> (r: bool) {
        let mut i: usize = 0;
        while i < self.rejected_shares.len()
            invariant
                i <= self.rejected_shares@.len(),
                forall|k: int|
                    0 <= k < i ==> !(rid_eq(self.rejected_shares@[k].0, s.request_id)
                        && self.rejected_shares@[k].1 == s.signer_id),
            decreases self.rejected_shares@.len() - i,
        {
            if crate::types::request_id_eq(&self.rejected_shares[i].0, &s.request_id)
                && self.rejected_shares[i].1 == s.signer_id {
                return false;
            }
            i = i + 1;
        }
        true
    }

    fn create_sig_share(&self, request_id: &RequestId, signer: u64) -> (r: Option<SigShare>) {
        let mut i: usize = 0;
        while i < self.denied_share_creation.len()
            invariant
                i <= self.denied_share_creation@.len(),
                forall|k: int| 0 <= k < i ==> !rid_eq(self.denied_share_creation@[k], *request_id),
            decreases self.denied_share_creation@.len() - i,
        {
            if crate::types::request_id_eq(&self.denied_share_creation[i], request_id) {
                return None;
            }
            i = i + 1;
        }
        Some(SigShare { request_id: *request_id, signer_id: signer })
    }

    fn verify_complaint(&self, c: &SignedComplaint) -> (r: bool) {
        !table_contains(&self.rejected_complaints, c.transcript_id, c.complainer_id)
    }

    fn verify_opening(&self, o: &SignedOpening) -> (r: bool) {
        !table_contains(&self.rejected_openings, o.transcript_id, o.opener_id)
    }

    fn create_opening(&self, c: &SignedComplaint, opener: u64) -> (r: Option<SignedOpening>) {
        let mut i: usize = 0;
        while i < self.denied_opening_creation.len()
            invariant
                i <= self.denied_opening_creation@.len(),
                forall|k: int| 0 <= k < i ==> self.denied_opening_creation@[k]
                    != c.transcript_id,
            decreases self.denied_opening_creation@.len() - i,
        {
            if self.denied_opening_creation[i] == c.transcript_id {
                return None;
            }
            i = i + 1;
        }
        Some(
            SignedOpening {
                transcript_id: c.transcript_id,
                dealer_id: c.dealer_id,
                complainer_id: c.complainer_id,
                opener_id: opener,
            },
        )
    }

    fn load_transcript(&self, t: &IDkgTranscript, complainer: u64) -> (r: Vec<SignedComplaint>) {
        let mut out: Vec<SignedComplaint> = Vec::new();
        let mut i: usize = 0;
        while i < self.load_failure_dealers.len()
            invariant
                i <= self.load_failure_dealers@.len(),
                out@.len() == failures_for(
                    self.load_failure_dealers@.take(i as int),
                    t.transcript_id,
                ).len(),
                forall|k: int|
                    0 <= k < out@.len() ==> out@[k] == (SignedComplaint {
                        transcript_id: t.transcript_id,
                        dealer_id: failures_for(
                            self.load_failure_dealers@.take(i as int),
                            t.transcript_id,
                        )[k],
                        complainer_id: complainer,
                    }),
            decreases self.load_failure_dealers@.len() - i,
        {
            let e = self.load_failure_dealers[i];
            if e.0 == t.transcript_id {
                out.push(
                    SignedComplaint {
                        transcript_id: t.transcript_id,
                        dealer_id: e.1,
                        complainer_id: complainer,
                    },
                );
            }
            proof {
                assert(self.load_failure_dealers@.take(i + 1).drop_last()
                    =~= self.load_failure_dealers@.take(i as int));
                assert(self.load_failure_dealers@.take(i + 1).last()
                    == self.load_failure_dealers@[i as int]);
            }
            i = i + 1;
        }
        proof {
            assert(self.load_failure_dealers@.take(self.load_failure_dealers@.len() as int)
                =~= self.load_failure_dealers@);
        }
        out
    }

    fn retain_active_transcripts(&mut self, actives: &Vec<IDkgTranscript>) -> (r: Result<
        (),
        RetainError,
    >) {
        let mut ids: Vec<TranscriptId> = Vec::new();
        let mut i: usize = 0;
        while i < actives.len()
            invariant
                i <= actives@.len(),
                ids@ == transcript_ids_of(actives@.take(i as int)),
                self == old(self),
            decreases actives@.len() - i,
        {
            ids.push(actives[i].transcript_id);
            proof {
                assert(transcript_ids_of(actives@.take(i + 1)) =~= transcript_ids_of(
                    actives@.take(i as int),
                ).push(actives@[i as int].transcript_id));
            }
            i = i + 1;
        }
        proof {
            assert(actives@.take(actives@.len() as int) =~= actives@);
        }
        self.retain_log.push(ids);
        match self.retain_fault {
            None => Ok(()),
            Some(e) => Err(e),
        }
    }
}

} // verus!

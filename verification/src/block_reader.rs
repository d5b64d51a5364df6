//! Read-only snapshots of the two external sources of intent: the finalized
//! block chain (block reader) and the certified replicated state (state
//! reader). Both are projections into plain values, taken once per tick and
//! valid for that tick.

use vstd::prelude::*;

use crate::types::{
    rid_eq, IDkgTranscript, IDkgTranscriptParams, RequestId, SignatureScheme, TranscriptId,
    TranscriptRef,
};

verus! {

/// A pre-signature available in the finalized tip: the transcripts that must
/// be loaded before a share can be created, and the replicas entitled to
/// sign with it.
#[derive(Clone, PartialEq, Eq, Debug)]
pub struct PreSignature {
    pub pre_signature_id: u64,
    /// The long-lived signing key transcript this pre-signature refers to.
    pub key_transcript_ref: TranscriptRef,
    /// The ephemeral component transcripts, key transcript not included.
    pub transcript_refs: Vec<TranscriptRef>,
    /// The signer set: the receivers of the key transcript.
    pub signers: Vec<u64>,
}

/// The first transcript the table resolves `r` to, if any.
pub open spec fn lookup_ref(
    table: Seq<(TranscriptRef, IDkgTranscript)>,
    r: TranscriptRef,
) -> Option<IDkgTranscript>
    decreases table.len(),
{
    if table.len() == 0 {
        None
    } else if table.first().0 == r {
        Some(table.first().1)
    } else {
        lookup_ref(table.drop_first(), r)
    }
}

/// Projection of the finalized block chain, taken at one tip: what should
/// exist (requested configs), what is still referenced (active transcripts),
/// and which references the chain can actually resolve.
#[derive(Clone, PartialEq, Eq, Debug)]
pub struct IDkgBlockReader {
    /// Height of the finalized tip.
    pub tip: u64,
    /// The transcript configs under construction at the tip; an artifact is
    /// only worth validating while its config stands here. Cross-subnet
    /// configs being adopted on this subnet (xnet resharings, whose source
    /// heights are not comparable with local ones) stand here like local
    /// configs, so their dealings pass the same validation gate.
    pub requested: Vec<IDkgTranscriptParams>,
    /// References to every transcript the chain still uses; key material for
    /// them must be retained.
    pub active_refs: Vec<TranscriptRef>,
    /// The references the chain can resolve to concrete transcripts. A
    /// reference outside this table fails to resolve.
    pub resolvable: Vec<(TranscriptRef, IDkgTranscript)>,
    /// The pre-signatures available at the tip, ready to serve requests.
    pub pre_signatures: Vec<PreSignature>,
}

impl IDkgBlockReader {
    /// Whether a config with this transcript identifier is requested at the
    /// tip.
    pub open spec fn is_requested(self, tid: TranscriptId) -> bool {
        exists|i: int| 0 <= i < self.requested@.len() && self.requested@[i].transcript_id == tid
    }

    /// The first requested config carrying this transcript identifier.
    pub open spec fn config_for(self, tid: TranscriptId) -> Option<IDkgTranscriptParams> {
        first_config(self.requested@, tid)
    }

    /// What `r` resolves to, if the chain can resolve it.
    pub open spec fn resolve_spec(self, r: TranscriptRef) -> Option<IDkgTranscript> {
        lookup_ref(self.resolvable@, r)
    }

    /// Height of the finalized tip.
    pub fn tip_height(&self) -> (r: u64)
        ensures
            r == self.tip,
    {
        self.tip
    }

    /// Decides whether a config with identifier `tid` is requested.
    pub fn has_config(&self, tid: TranscriptId) -> (r: bool)
        ensures
            r == self.is_requested(tid),
    {
        let mut i: usize = 0;
        while i < self.requested.len()
            invariant
                i <= self.requested@.len(),
                forall|k: int| 0 <= k < i ==> self.requested@[k].transcript_id != tid,
            decreases self.requested@.len() - i,
        {
            if self.requested[i].transcript_id == tid {
                return true;
            }
            i = i + 1;
        }
        false
    }

    /// Finds the first requested config carrying `tid`.
    pub fn find_config(&self, tid: TranscriptId) -> (r: Option<&IDkgTranscriptParams>)
        ensures
            match r {
                Some(c) => self.config_for(tid) == Some(*c),
                None => self.config_for(tid) == None::<IDkgTranscriptParams>,
            },
    {
        let mut i: usize = 0;
        proof {
            assert(self.requested@.skip(0) =~= self.requested@);
        }
        while i < self.requested.len()
            invariant
                i <= self.requested@.len(),
                first_config(self.requested@, tid) == first_config(
                    self.requested@.skip(i as int),
                    tid,
                ),
            decreases self.requested@.len() - i,
        {
            proof {
                assert(self.requested@.skip(i as int).first() == self.requested@[i as int]);
                assert(self.requested@.skip(i as int).drop_first() =~= self.requested@.skip(
                    i + 1,
                ));
            }
            if self.requested[i].transcript_id == tid {
                return Some(&self.requested[i]);
            }
            i = i + 1;
        }
        None
    }

    /// Resolves a transcript reference against the finalized chain.
    pub fn transcript(&self, r: &TranscriptRef) -> (t: Option<IDkgTranscript>)
        ensures
            t == self.resolve_spec(*r),
    {
        let mut i: usize = 0;
        proof {
            assert(self.resolvable@.skip(0) =~= self.resolvable@);
        }
        while i < self.resolvable.len()
            invariant
                i <= self.resolvable@.len(),
                lookup_ref(self.resolvable@, *r) == lookup_ref(
                    self.resolvable@.skip(i as int),
                    *r,
                ),
            decreases self.resolvable@.len() - i,
        {
            proof {
                assert(self.resolvable@.skip(i as int).first() == self.resolvable@[i as int]);
                assert(self.resolvable@.skip(i as int).drop_first() =~= self.resolvable@.skip(
                    i + 1,
                ));
            }
            if self.resolvable[i].0 == *r {
                return Some(self.resolvable[i].1);
            }
            i = i + 1;
        }
        None
    }
}

/// The first config in `s` carrying `tid`, if any.
pub open spec fn first_config(s: Seq<IDkgTranscriptParams>, tid: TranscriptId) -> Option<
    IDkgTranscriptParams,
>
    decreases s.len(),
{
    if s.len() == 0 {
        None
    } else if s.first().transcript_id == tid {
        Some(s.first())
    } else {
        first_config(s.drop_first(), tid)
    }
}

/// A requested config's identifier is requested, and the config found for a
/// requested identifier carries that identifier.
pub proof fn lemma_first_config(s: Seq<IDkgTranscriptParams>, tid: TranscriptId)
    ensures
        first_config(s, tid) matches Some(c) ==> c.transcript_id == tid && s.contains(c),
        first_config(s, tid) is Some <==> exists|i: int|
            0 <= i < s.len() && s[i].transcript_id == tid,
    decreases s.len(),
{
    if s.len() > 0 {
        lemma_first_config(s.drop_first(), tid);
        if s.first().transcript_id == tid {
            assert(s[0] == s.first());
        } else {
            match first_config(s.drop_first(), tid) {
                Some(c) => {
                    let j = choose|j: int|
                        0 <= j < s.drop_first().len() && s.drop_first()[j] == c;
                    assert(s[j + 1] == c);
                }
                None => {}
            }
            if exists|i: int| 0 <= i < s.len() && s[i].transcript_id == tid {
                let i = choose|i: int| 0 <= i < s.len() && s[i].transcript_id == tid;
                assert(s.drop_first()[i - 1] == s[i]);
            }
        }
    }
}

/// One outstanding signature request as the certified state records it.
/// Only a context already matched to a pre-signature projects to a
/// request identifier.
#[derive(Clone, Copy, PartialEq, Eq, Debug)]
pub struct SignatureRequestContext {
    pub scheme: SignatureScheme,
    pub pseudo_random_id: [u8; 32],
    pub height: u64,
    pub matched_pre_signature: Option<u64>,
}

/// The request identifier a context projects to, if it is matched.
pub open spec fn context_request_id_spec(ctx: SignatureRequestContext) -> Option<RequestId> {
    match ctx.matched_pre_signature {
        Some(p) => Some(
            RequestId {
                pre_signature_id: p,
                pseudo_random_id: ctx.pseudo_random_id,
                height: ctx.height,
            },
        ),
        None => None,
    }
}

/// Projects a request context to its request identifier: `Some` exactly for
/// contexts already matched to a pre-signature.
pub fn get_context_request_id(ctx: &SignatureRequestContext) -> (r: Option<RequestId>)
    ensures
        r == context_request_id_spec(*ctx),
{
    match ctx.matched_pre_signature {
        Some(p) => Some(
            RequestId {
                pre_signature_id: p,
                pseudo_random_id: ctx.pseudo_random_id,
                height: ctx.height,
            },
        ),
        None => None,
    }
}

/// Projection of the certified replicated state: its height and the
/// outstanding signature request contexts.
#[derive(Clone, PartialEq, Eq, Debug)]
pub struct CertifiedStateSnapshot {
    pub height: u64,
    pub contexts: Vec<SignatureRequestContext>,
}

impl CertifiedStateSnapshot {
    /// Whether some matched context projects to `rid`.
    pub open spec fn is_requested(self, rid: RequestId) -> bool {
        exists|i: int|
            0 <= i < self.contexts@.len() && match context_request_id_spec(
                #[trigger] self.contexts@[i],
            ) {
                Some(r) => rid_eq(r, rid),
                None => false,
            }
    }

    /// Decides whether `rid` is an outstanding request.
    pub fn has_request(&self, rid: &RequestId) -> (r: bool)
        ensures
            r == self.is_requested(*rid),
    {
        let mut i: usize = 0;
        while i < self.contexts.len()
            invariant
                i <= self.contexts@.len(),
                forall|k: int|
                    0 <= k < i ==> match context_request_id_spec(#[trigger] self.contexts@[k]) {
                        Some(r) => !rid_eq(r, *rid),
                        None => true,
                    },
            decreases self.contexts@.len() - i,
        {
            match get_context_request_id(&self.contexts[i]) {
                Some(r) => {
                    if crate::types::request_id_eq(&r, rid) {
                        return true;
                    }
                }
                None => {}
            }
            i = i + 1;
        }
        false
    }
}

} // verus!

//! The signer: produces this replica's signature shares for requested
//! signatures, validates shares arriving by gossip, and purges shares whose
//! request left the certified state.

use vstd::prelude::*;

use crate::block_reader::{
    context_request_id_spec, CertifiedStateSnapshot, IDkgBlockReader, PreSignature,
    SignatureRequestContext,
};
use crate::complaints::{
    complaint_additions, load_deps_spec, IDkgComplaintHandlerImpl, LoadOutcome,
    TranscriptLoadStatus,
};
use crate::crypto::CryptoOracle;
use crate::pool::{has_key, IDkgChangeAction, IDkgPool};
use crate::types::{IDkgMessage, SigShare, SignatureScheme, TranscriptRef};

verus! {

/// The first pre-signature with the given identifier, if the tip offers it.
pub open spec fn first_pre_signature(s: Seq<PreSignature>, id: u64) -> Option<PreSignature>
    decreases s.len(),
{
    if s.len() == 0 {
        None
    } else if s.first().pre_signature_id == id {
        Some(s.first())
    } else {
        first_pre_signature(s.drop_first(), id)
    }
}

/// The share message for a request, tagged with the request's scheme.
pub open spec fn share_message(scheme: SignatureScheme, share: SigShare) -> IDkgMessage {
    match scheme {
        SignatureScheme::Ecdsa => IDkgMessage::EcdsaSigShare(share),
        SignatureScheme::Schnorr => IDkgMessage::SchnorrSigShare(share),
    }
}

/// The references a share creation must load: the pre-signature's component
/// transcripts followed by the key transcript.
pub open spec fn pre_sig_refs(p: PreSignature) -> Seq<TranscriptRef> {
    p.transcript_refs@.push(p.key_transcript_ref)
}

/// The actions the create-shares step takes for one request context: if the
/// context is matched, its pre-signature is available at the tip, this
/// replica is among the signers and has not shared yet, load the
/// pre-signature and key transcripts and create the share — or queue the
/// complaints of the failed load.
pub open spec fn create_for_context_spec<C: CryptoOracle>(
    c: C,
    br: IDkgBlockReader,
    v: Seq<IDkgMessage>,
    node: u64,
    quorum: u64,
    ctx: SignatureRequestContext,
) -> Seq<IDkgChangeAction> {
    match context_request_id_spec(ctx) {
        None => Seq::empty(),
        Some(rid) => {
            match first_pre_signature(br.pre_signatures@, rid.pre_signature_id) {
                None => Seq::empty(),
                Some(p) => {
                    let share = SigShare { request_id: rid, signer_id: node };
                    let msg = share_message(ctx.scheme, share);
                    if !p.signers@.contains(node) || has_key(v, msg) {
                        Seq::empty()
                    } else {
                        match load_deps_spec(c, br, v, node, quorum, pre_sig_refs(p)) {
                            LoadOutcome::Loaded => if c.share_creation_ok(rid) {
                                seq![IDkgChangeAction::AddToValidated(msg)]
                            } else {
                                Seq::empty()
                            },
                            LoadOutcome::Unresolved => Seq::empty(),
                            LoadOutcome::Blocked(cs) => complaint_additions(v, cs),
                        }
                    }
                }
            }
        }
    }
}

/// The create-shares pass over a context suffix.
pub open spec fn create_shares_spec<C: CryptoOracle>(
    c: C,
    br: IDkgBlockReader,
    v: Seq<IDkgMessage>,
    node: u64,
    quorum: u64,
    ctxs: Seq<SignatureRequestContext>,
) -> Seq<IDkgChangeAction>
    decreases ctxs.len(),
{
    if ctxs.len() == 0 {
        Seq::empty()
    } else {
        create_for_context_spec(c, br, v, node, quorum, ctxs.first()) + create_shares_spec(
            c,
            br,
            v,
            node,
            quorum,
            ctxs.drop_first(),
        )
    }
}

/// Whether a pool message is a signature share carrying this request.
pub open spec fn share_request(m: IDkgMessage) -> Option<SigShare> {
    match m {
        IDkgMessage::EcdsaSigShare(s) => Some(s),
        IDkgMessage::SchnorrSigShare(s) => Some(s),
        _ => None,
    }
}

/// The share-validation pass on the unvalidated suffix `u`: gate on the
/// request still standing in the certified state, drop duplicates, verify
/// the rest. Shares for requests neither outstanding nor below the certified
/// height wait untouched.
pub open spec fn validate_shares_spec<C: CryptoOracle>(
    c: C,
    state: CertifiedStateSnapshot,
    v: Seq<IDkgMessage>,
    u: Seq<IDkgMessage>,
    moved: Seq<IDkgMessage>,
) -> Seq<IDkgChangeAction>
    decreases u.len(),
{
    if u.len() == 0 {
        Seq::empty()
    } else {
        let m = u.first();
        let rest = u.drop_first();
        match share_request(m) {
            Some(s) => {
                if state.is_requested(s.request_id) {
                    if has_key(v, m) || has_key(moved, m) {
                        seq![IDkgChangeAction::HandleInvalid(m)] + validate_shares_spec(
                            c,
                            state,
                            v,
                            rest,
                            moved,
                        )
                    } else if c.share_ok(s) {
                        seq![IDkgChangeAction::MoveToValidated(m)] + validate_shares_spec(
                            c,
                            state,
                            v,
                            rest,
                            moved.push(m),
                        )
                    } else {
                        seq![IDkgChangeAction::HandleInvalid(m)] + validate_shares_spec(
                            c,
                            state,
                            v,
                            rest,
                            moved,
                        )
                    }
                } else {
                    validate_shares_spec(c, state, v, rest, moved)
                }
            }
            None => validate_shares_spec(c, state, v, rest, moved),
        }
    }
}

/// Whether a share is stale: its request left the certified state and its
/// height does not lie beyond the certified height.
pub open spec fn share_stale(state: CertifiedStateSnapshot, s: SigShare) -> bool {
    !state.is_requested(s.request_id) && s.request_id.height <= state.height
}

/// The removals of the purge pass over one bag: every share whose request
/// went stale leaves the pool.
pub open spec fn purge_shares_spec(
    state: CertifiedStateSnapshot,
    entries: Seq<IDkgMessage>,
    validated: bool,
) -> Seq<IDkgChangeAction>
    decreases entries.len(),
{
    if entries.len() == 0 {
        Seq::empty()
    } else {
        let m = entries.first();
        let rest = purge_shares_spec(state, entries.drop_first(), validated);
        match share_request(m) {
            Some(s) => if share_stale(state, s) {
                if validated {
                    seq![IDkgChangeAction::RemoveValidated(m)] + rest
                } else {
                    seq![IDkgChangeAction::RemoveUnvalidated(m)] + rest
                }
            } else {
                rest
            },
            None => rest,
        }
    }
}

/// The signer's whole tick; without a certified state nothing is done.
pub open spec fn signer_spec<C: CryptoOracle>(
    c: C,
    br: IDkgBlockReader,
    state: Option<CertifiedStateSnapshot>,
    pool: IDkgPool,
    node: u64,
    quorum: u64,
) -> Seq<IDkgChangeAction> {
    match state {
        None => Seq::empty(),
        Some(st) => create_shares_spec(c, br, pool.validated@, node, quorum, st.contexts@)
            + validate_shares_spec(c, st, pool.validated@, pool.unvalidated@, Seq::empty())
            + purge_shares_spec(st, pool.unvalidated@, false) + purge_shares_spec(
            st,
            pool.validated@,
            true,
        ),
    }
}

/// The signer sub-engine.
pub struct ThresholdSignerImpl {
    /// This replica's identity.
    pub node_id: u64,
}

impl ThresholdSignerImpl {
    /// Builds the signer for one replica.
    pub fn new(node_id: u64) -> (r: ThresholdSignerImpl)
        ensures
            r == (ThresholdSignerImpl { node_id }),
    {
        ThresholdSignerImpl { node_id }
    }

    /// Finds the first pre-signature with identifier `id` at the tip.
    fn find_pre_signature<'a>(br: &'a IDkgBlockReader, id: u64) -> (r: Option<&'a PreSignature>)
        ensures
            match r {
                Some(p) => first_pre_signature(br.pre_signatures@, id) == Some(*p),
                None => first_pre_signature(br.pre_signatures@, id) == None::<PreSignature>,
            },
    {
        let mut i: usize = 0;
        proof {
            assert(br.pre_signatures@.skip(0) =~= br.pre_signatures@);
        }
        while i < br.pre_signatures.len()
            invariant
                i <= br.pre_signatures@.len(),
                first_pre_signature(br.pre_signatures@, id) == first_pre_signature(
                    br.pre_signatures@.skip(i as int),
                    id,
                ),
            decreases br.pre_signatures@.len() - i,
        {
            proof {
                assert(br.pre_signatures@.skip(i as int).first() == br.pre_signatures@[i as int]);
                assert(br.pre_signatures@.skip(i as int).drop_first() =~= br.pre_signatures@.skip(
                    i + 1,
                ));
            }
            if br.pre_signatures[i].pre_signature_id == id {
                return Some(&br.pre_signatures[i]);
            }
            i = i + 1;
        }
        None
    }

    /// One tick of the signer. Deterministic in the snapshot: the change set
    /// equals `signer_spec` of the pool, the snapshots and the crypto
    /// verdicts.
    #[verifier::loop_isolation(false)]
    pub fn on_state_change<C: CryptoOracle>(
        &self,
        pool: &IDkgPool,
        block_reader: &IDkgBlockReader,
        state: Option<&CertifiedStateSnapshot>,
        loader: &IDkgComplaintHandlerImpl,
        crypto: &C,
    ) -> (r: Vec<IDkgChangeAction>)
        requires
            loader.node_id == self.node_id,
        ensures
            r@ == signer_spec(
                *crypto,
                *block_reader,
                match state {
                    Some(s) => Some(*s),
                    None => None::<CertifiedStateSnapshot>,
                },
                *pool,
                self.node_id,
                loader.opening_quorum,
            ),
    {
        let mut out: Vec<IDkgChangeAction> = Vec::new();
        let st = match state {
            Some(s) => s,
            None => {
                proof {
                    assert(out@ =~= Seq::<IDkgChangeAction>::empty());
                }
                return out;
            }
        };
        let ghost quorum = loader.opening_quorum;

        // Create this replica's shares for matched, serviceable contexts.
        let ctxs = &st.contexts;
        let mut i: usize = 0;
        proof {
            assert(ctxs@.skip(0) =~= ctxs@);
        }
        while i < ctxs.len()
            invariant
                i <= ctxs@.len(),
                out@ + create_shares_spec(
                    *crypto,
                    *block_reader,
                    pool.validated@,
                    self.node_id,
                    quorum,
                    ctxs@.skip(i as int),
                ) == create_shares_spec(
                    *crypto,
                    *block_reader,
                    pool.validated@,
                    self.node_id,
                    quorum,
                    ctxs@,
                ),
            decreases ctxs@.len() - i,
        {
            proof {
                assert(ctxs@.skip(i as int).first() == ctxs@[i as int]);
                assert(ctxs@.skip(i as int).drop_first() =~= ctxs@.skip(i + 1));
            }
            let ghost out0 = out@;
            match crate::block_reader::get_context_request_id(&ctxs[i]) {
                None => {}
                Some(rid) => {
                    match Self::find_pre_signature(block_reader, rid.pre_signature_id) {
                        None => {}
                        Some(p) => {
                            let share = SigShare { request_id: rid, signer_id: self.node_id };
                            let msg = match ctxs[i].scheme {
                                SignatureScheme::Ecdsa => IDkgMessage::EcdsaSigShare(share),
                                SignatureScheme::Schnorr => IDkgMessage::SchnorrSigShare(share),
                            };
                            if crate::types::contains_u64(&p.signers, self.node_id)
                                && !crate::pool::contains_key(&pool.validated, &msg) {
                                let mut refs: Vec<TranscriptRef> = Vec::new();
                                let mut t: usize = 0;
                                while t < p.transcript_refs.len()
                                    invariant
                                        t <= p.transcript_refs@.len(),
                                        refs@ == p.transcript_refs@.take(t as int),
                                    decreases p.transcript_refs@.len() - t,
                                {
                                    refs.push(p.transcript_refs[t]);
                                    proof {
                                        assert(p.transcript_refs@.take(t + 1)
                                            =~= p.transcript_refs@.take(t as int).push(
                                            p.transcript_refs@[t as int],
                                        ));
                                    }
                                    t = t + 1;
                                }
                                proof {
                                    assert(p.transcript_refs@.take(p.transcript_refs@.len() as int)
                                        =~= p.transcript_refs@);
                                }
                                refs.push(p.key_transcript_ref);
                                proof {
                                    assert(refs@ == pre_sig_refs(*p));
                                }
                                match loader.load_dependencies(pool, crypto, block_reader, &refs) {
                                    TranscriptLoadStatus::Success => {
                                        match crypto.create_sig_share(&rid, self.node_id) {
                                            Some(s) => {
                                                let created = match ctxs[i].scheme {
                                                    SignatureScheme::Ecdsa => {
                                                        IDkgMessage::EcdsaSigShare(s)
                                                    }
                                                    SignatureScheme::Schnorr => {
                                                        IDkgMessage::SchnorrSigShare(s)
                                                    }
                                                };
                                                out.push(
                                                    IDkgChangeAction::AddToValidated(created),
                                                );
                                            }
                                            None => {}
                                        }
                                    }
                                    TranscriptLoadStatus::Failure => {}
                                    TranscriptLoadStatus::Complaints(cs) => {
                                        let mut k: usize = 0;
                                        while k < cs.len()
                                            invariant
                                                k <= cs@.len(),
                                                out@ == out0 + complaint_additions(
                                                    pool.validated@,
                                                    cs@.take(k as int),
                                                ),
                                            decreases cs@.len() - k,
                                        {
                                            if !crate::pool::contains_key(
                                                &pool.validated,
                                                &IDkgMessage::Complaint(cs[k]),
                                            ) {
                                                out.push(
                                                    IDkgChangeAction::AddToValidated(
                                                        IDkgMessage::Complaint(cs[k]),
                                                    ),
                                                );
                                            }
                                            proof {
                                                assert(cs@.take(k + 1).drop_last() =~= cs@.take(
                                                    k as int,
                                                ));
                                                assert(cs@.take(k + 1).last() == cs@[k as int]);
                                            }
                                            k = k + 1;
                                        }
                                        proof {
                                            assert(cs@.take(cs@.len() as int) =~= cs@);
                                        }
                                    }
                                }
                            }
                        }
                    }
                }
            }
            proof {
                assert(out@ =~= out0 + create_for_context_spec(
                    *crypto,
                    *block_reader,
                    pool.validated@,
                    self.node_id,
                    quorum,
                    ctxs@[i as int],
                ));
            }
            i = i + 1;
        }
        let ghost pass1 = create_shares_spec(
            *crypto,
            *block_reader,
            pool.validated@,
            self.node_id,
            quorum,
            ctxs@,
        );
        proof {
            assert(out@ == pass1);
        }

        // Validate unvalidated shares against the certified requests.
        let mut moved: Vec<IDkgMessage> = Vec::new();
        let mut a: usize = 0;
        proof {
            assert(pool.unvalidated@.skip(0) =~= pool.unvalidated@);
        }
        while a < pool.unvalidated.len()
            invariant
                a <= pool.unvalidated@.len(),
                out@ + validate_shares_spec(
                    *crypto,
                    *st,
                    pool.validated@,
                    pool.unvalidated@.skip(a as int),
                    moved@,
                ) == pass1 + validate_shares_spec(
                    *crypto,
                    *st,
                    pool.validated@,
                    pool.unvalidated@,
                    Seq::empty(),
                ),
            decreases pool.unvalidated@.len() - a,
        {
            proof {
                assert(pool.unvalidated@.skip(a as int).first() == pool.unvalidated@[a as int]);
                assert(pool.unvalidated@.skip(a as int).drop_first() =~= pool.unvalidated@.skip(
                    a + 1,
                ));
            }
            let m = pool.unvalidated[a];
            let s = match m {
                IDkgMessage::EcdsaSigShare(s) => Some(s),
                IDkgMessage::SchnorrSigShare(s) => Some(s),
                _ => None,
            };
            match s {
                Some(s) => {
                    if st.has_request(&s.request_id) {
                        if crate::pool::contains_key(&pool.validated, &m)
                            || crate::pool::contains_key(&moved, &m) {
                            out.push(IDkgChangeAction::HandleInvalid(m));
                        } else if crypto.verify_sig_share(&s) {
                            out.push(IDkgChangeAction::MoveToValidated(m));
                            moved.push(m);
                        } else {
                            out.push(IDkgChangeAction::HandleInvalid(m));
                        }
                    }
                }
                None => {}
            }
            a = a + 1;
        }
        let ghost pass2 = pass1 + validate_shares_spec(
            *crypto,
            *st,
            pool.validated@,
            pool.unvalidated@,
            Seq::empty(),
        );
        proof {
            assert(out@ == pass2);
        }

        // Purge stale shares from both bags.
        let mut p: usize = 0;
        proof {
            assert(pool.unvalidated@.skip(0) =~= pool.unvalidated@);
        }
        while p < pool.unvalidated.len()
            invariant
                p <= pool.unvalidated@.len(),
                out@ + purge_shares_spec(*st, pool.unvalidated@.skip(p as int), false) == pass2
                    + purge_shares_spec(*st, pool.unvalidated@, false),
            decreases pool.unvalidated@.len() - p,
        {
            proof {
                assert(pool.unvalidated@.skip(p as int).first() == pool.unvalidated@[p as int]);
                assert(pool.unvalidated@.skip(p as int).drop_first() =~= pool.unvalidated@.skip(
                    p + 1,
                ));
            }
            let m = pool.unvalidated[p];
            let s = match m {
                IDkgMessage::EcdsaSigShare(s) => Some(s),
                IDkgMessage::SchnorrSigShare(s) => Some(s),
                _ => None,
            };
            match s {
                Some(s) => {
                    if !st.has_request(&s.request_id) && s.request_id.height <= st.height {
                        out.push(IDkgChangeAction::RemoveUnvalidated(m));
                    }
                }
                None => {}
            }
            p = p + 1;
        }
        let ghost pass3 = pass2 + purge_shares_spec(*st, pool.unvalidated@, false);
        proof {
            assert(out@ == pass3);
        }

        let mut q: usize = 0;
        proof {
            assert(pool.validated@.skip(0) =~= pool.validated@);
        }
        while q < pool.validated.len()
            invariant
                q <= pool.validated@.len(),
                out@ + purge_shares_spec(*st, pool.validated@.skip(q as int), true) == pass3
                    + purge_shares_spec(*st, pool.validated@, true),
            decreases pool.validated@.len() - q,
        {
            proof {
                assert(pool.validated@.skip(q as int).first() == pool.validated@[q as int]);
                assert(pool.validated@.skip(q as int).drop_first() =~= pool.validated@.skip(
                    q + 1,
                ));
            }
            let m = pool.validated[q];
            let s = match m {
                IDkgMessage::EcdsaSigShare(s) => Some(s),
                IDkgMessage::SchnorrSigShare(s) => Some(s),
                _ => None,
            };
            match s {
                Some(s) => {
                    if !st.has_request(&s.request_id) && s.request_id.height <= st.height {
                        out.push(IDkgChangeAction::RemoveValidated(m));
                    }
                }
                None => {}
            }
            q = q + 1;
        }
        out
    }
}

} // verus!

//! The pre-signer: drives transcript creation. Per tick it deals for every
//! requested config this replica serves as dealer, validates dealings that
//! arrived by gossip, attests dealings privately addressed to it with support
//! messages, validates arriving support, and purges what went stale.

use vstd::prelude::*;

use crate::block_reader::IDkgBlockReader;
use crate::complaints::{
    complaint_additions, load_deps_spec, stale, IDkgComplaintHandlerImpl, LoadOutcome,
    TranscriptLoadStatus,
};
use crate::crypto::CryptoOracle;
use crate::pool::{has_key, IDkgChangeAction, IDkgPool};
use crate::types::{
    DealingSupport, IDkgMessage, IDkgTranscriptParams, SignedComplaint, SignedDealing,
};

verus! {

/// The actions the create-dealings step takes for one requested config: if
/// this replica is one of its dealers and has not dealt yet, load the
/// dependencies and deal — or queue the complaints the failed load emitted.
pub open spec fn create_for_config_spec<C: CryptoOracle>(
    c: C,
    br: IDkgBlockReader,
    v: Seq<IDkgMessage>,
    node: u64,
    quorum: u64,
    config: IDkgTranscriptParams,
) -> Seq<IDkgChangeAction> {
    let dealing = SignedDealing { transcript_id: config.transcript_id, dealer_id: node };
    if !config.has_dealer(node) || has_key(v, IDkgMessage::Dealing(dealing)) {
        Seq::empty()
    } else {
        match load_deps_spec(c, br, v, node, quorum, config.operation.deps_spec()) {
            LoadOutcome::Loaded => if c.dealing_creation_ok(config.transcript_id) {
                seq![IDkgChangeAction::AddToValidated(IDkgMessage::Dealing(dealing))]
            } else {
                Seq::empty()
            },
            LoadOutcome::Unresolved => Seq::empty(),
            LoadOutcome::Blocked(cs) => complaint_additions(v, cs),
        }
    }
}

/// The create-dealings pass over a config suffix.
pub open spec fn create_dealings_spec<C: CryptoOracle>(
    c: C,
    br: IDkgBlockReader,
    v: Seq<IDkgMessage>,
    node: u64,
    quorum: u64,
    configs: Seq<IDkgTranscriptParams>,
) -> Seq<IDkgChangeAction>
    decreases configs.len(),
{
    if configs.len() == 0 {
        Seq::empty()
    } else {
        create_for_config_spec(c, br, v, node, quorum, configs.first()) + create_dealings_spec(
            c,
            br,
            v,
            node,
            quorum,
            configs.drop_first(),
        )
    }
}

/// The dealing-validation pass on the unvalidated suffix `u`, given the
/// dealings already promoted in this batch: gate on the config being
/// requested, keep the first dealing per (config, dealer) and drop the
/// rest, verify publicly, move or remove.
pub open spec fn validate_dealings_spec<C: CryptoOracle>(
    c: C,
    br: IDkgBlockReader,
    v: Seq<IDkgMessage>,
    u: Seq<IDkgMessage>,
    moved: Seq<IDkgMessage>,
) -> Seq<IDkgChangeAction>
    decreases u.len(),
{
    if u.len() == 0 {
        Seq::empty()
    } else {
        let m = u.first();
        let rest = u.drop_first();
        match m {
            IDkgMessage::Dealing(d) => {
                if br.is_requested(d.transcript_id) {
                    if has_key(v, m) || has_key(moved, m) {
                        seq![IDkgChangeAction::HandleInvalid(m)] + validate_dealings_spec(
                            c,
                            br,
                            v,
                            rest,
                            moved,
                        )
                    } else if c.dealing_public_ok(d) {
                        seq![IDkgChangeAction::MoveToValidated(m)] + validate_dealings_spec(
                            c,
                            br,
                            v,
                            rest,
                            moved.push(m),
                        )
                    } else {
                        seq![IDkgChangeAction::HandleInvalid(m)] + validate_dealings_spec(
                            c,
                            br,
                            v,
                            rest,
                            moved,
                        )
                    }
                } else {
                    validate_dealings_spec(c, br, v, rest, moved)
                }
            }
            _ => validate_dealings_spec(c, br, v, rest, moved),
        }
    }
}

/// The support-issuing pass over the validated suffix `entries`: for each
/// validated dealing whose requested config names this replica as receiver
/// and which it has not yet supported, verify privately; success queues a
/// support message, failure a complaint.
pub open spec fn send_support_spec<C: CryptoOracle>(
    c: C,
    br: IDkgBlockReader,
    v_all: Seq<IDkgMessage>,
    entries: Seq<IDkgMessage>,
    node: u64,
) -> Seq<IDkgChangeAction>
    decreases entries.len(),
{
    if entries.len() == 0 {
        Seq::empty()
    } else {
        let rest = send_support_spec(c, br, v_all, entries.drop_first(), node);
        match entries.first() {
            IDkgMessage::Dealing(d) => {
                match br.config_for(d.transcript_id) {
                    Some(config) => {
                        let support = DealingSupport {
                            transcript_id: d.transcript_id,
                            dealer_id: d.dealer_id,
                            signer_id: node,
                        };
                        let complaint = SignedComplaint {
                            transcript_id: d.transcript_id,
                            dealer_id: d.dealer_id,
                            complainer_id: node,
                        };
                        if config.has_receiver(node) && !has_key(
                            v_all,
                            IDkgMessage::DealingSupport(support),
                        ) {
                            if c.dealing_private_ok(d) {
                                seq![
                                    IDkgChangeAction::AddToValidated(
                                        IDkgMessage::DealingSupport(support),
                                    ),
                                ] + rest
                            } else if !has_key(v_all, IDkgMessage::Complaint(complaint)) {
                                seq![
                                    IDkgChangeAction::AddToValidated(
                                        IDkgMessage::Complaint(complaint),
                                    ),
                                ] + rest
                            } else {
                                rest
                            }
                        } else {
                            rest
                        }
                    }
                    None => rest,
                }
            }
            _ => rest,
        }
    }
}

/// The support-validation pass, symmetric to dealing validation.
pub open spec fn validate_support_spec<C: CryptoOracle>(
    c: C,
    br: IDkgBlockReader,
    v: Seq<IDkgMessage>,
    u: Seq<IDkgMessage>,
    moved: Seq<IDkgMessage>,
) -> Seq<IDkgChangeAction>
    decreases u.len(),
{
    if u.len() == 0 {
        Seq::empty()
    } else {
        let m = u.first();
        let rest = u.drop_first();
        match m {
            IDkgMessage::DealingSupport(s) => {
                if br.is_requested(s.transcript_id) {
                    if has_key(v, m) || has_key(moved, m) {
                        seq![IDkgChangeAction::HandleInvalid(m)] + validate_support_spec(
                            c,
                            br,
                            v,
                            rest,
                            moved,
                        )
                    } else if c.support_ok(s) {
                        seq![IDkgChangeAction::MoveToValidated(m)] + validate_support_spec(
                            c,
                            br,
                            v,
                            rest,
                            moved.push(m),
                        )
                    } else {
                        seq![IDkgChangeAction::HandleInvalid(m)] + validate_support_spec(
                            c,
                            br,
                            v,
                            rest,
                            moved,
                        )
                    }
                } else {
                    validate_support_spec(c, br, v, rest, moved)
                }
            }
            _ => validate_support_spec(c, br, v, rest, moved),
        }
    }
}

/// The removals of the purge pass over one bag: every dealing or support
/// whose config went stale leaves the pool.
pub open spec fn purge_dealings_spec(
    br: IDkgBlockReader,
    entries: Seq<IDkgMessage>,
    validated: bool,
) -> Seq<IDkgChangeAction>
    decreases entries.len(),
{
    if entries.len() == 0 {
        Seq::empty()
    } else {
        let m = entries.first();
        let rest = purge_dealings_spec(br, entries.drop_first(), validated);
        let tid = match m {
            IDkgMessage::Dealing(d) => Some(d.transcript_id),
            IDkgMessage::DealingSupport(s) => Some(s.transcript_id),
            _ => None,
        };
        match tid {
            Some(t) => if stale(br, t) {
                if validated {
                    seq![IDkgChangeAction::RemoveValidated(m)] + rest
                } else {
                    seq![IDkgChangeAction::RemoveUnvalidated(m)] + rest
                }
            } else {
                rest
            },
            None => rest,
        }
    }
}

/// The pre-signer's whole tick.
pub open spec fn pre_signer_spec<C: CryptoOracle>(
    c: C,
    br: IDkgBlockReader,
    pool: IDkgPool,
    node: u64,
    quorum: u64,
) -> Seq<IDkgChangeAction> {
    create_dealings_spec(c, br, pool.validated@, node, quorum, br.requested@)
        + validate_dealings_spec(c, br, pool.validated@, pool.unvalidated@, Seq::empty())
        + send_support_spec(c, br, pool.validated@, pool.validated@, node)
        + validate_support_spec(c, br, pool.validated@, pool.unvalidated@, Seq::empty())
        + purge_dealings_spec(br, pool.unvalidated@, false) + purge_dealings_spec(
        br,
        pool.validated@,
        true,
    )
}

/// The pre-signer sub-engine.
pub struct IDkgPreSignerImpl {
    /// This replica's identity.
    pub node_id: u64,
}

impl IDkgPreSignerImpl {
    /// Builds the pre-signer for one replica.
    pub fn new(node_id: u64) -> (r: IDkgPreSignerImpl)
        ensures
            r == (IDkgPreSignerImpl { node_id }),
    {
        IDkgPreSignerImpl { node_id }
    }

    /// One tick of the pre-signer. Deterministic in the snapshot: the change
    /// set equals `pre_signer_spec` of the pool, the block reader and the
    /// crypto verdicts.
    #[verifier::loop_isolation(false)]
    pub fn on_state_change<C: CryptoOracle>(
        &self,
        pool: &IDkgPool,
        block_reader: &IDkgBlockReader,
        loader: &IDkgComplaintHandlerImpl,
        crypto: &C,
    ) -> (r: Vec<IDkgChangeAction>)
        requires
            loader.node_id == self.node_id,
        ensures
            r@ == pre_signer_spec(
                *crypto,
                *block_reader,
                *pool,
                self.node_id,
                loader.opening_quorum,
            ),
    {
        let mut out: Vec<IDkgChangeAction> = Vec::new();
        let v = &pool.validated;
        let u = &pool.unvalidated;
        let ghost quorum = loader.opening_quorum;

        // Create dealings for requested configs where this replica deals.
        let configs = &block_reader.requested;
        let mut i: usize = 0;
        proof {
            assert(configs@.skip(0) =~= configs@);
        }
        while i < configs.len()
            invariant
                i <= configs@.len(),
                loader.node_id == self.node_id,
                loader.opening_quorum == quorum,
                out@ + create_dealings_spec(
                    *crypto,
                    *block_reader,
                    v@,
                    self.node_id,
                    quorum,
                    configs@.skip(i as int),
                ) == create_dealings_spec(
                    *crypto,
                    *block_reader,
                    v@,
                    self.node_id,
                    quorum,
                    configs@,
                ),
            decreases configs@.len() - i,
        {
            proof {
                assert(configs@.skip(i as int).first() == configs@[i as int]);
                assert(configs@.skip(i as int).drop_first() =~= configs@.skip(i + 1));
            }
            let ghost out0 = out@;
            let config = &configs[i];
            let dealing = SignedDealing {
                transcript_id: config.transcript_id,
                dealer_id: self.node_id,
            };
            if config.is_dealer(self.node_id) && !crate::pool::contains_key(
                v,
                &IDkgMessage::Dealing(dealing),
            ) {
                let deps = config.operation.deps();
                match loader.load_dependencies(pool, crypto, block_reader, &deps) {
                    TranscriptLoadStatus::Success => {
                        match crypto.create_dealing(config, self.node_id) {
                            Some(d) => {
                                out.push(
                                    IDkgChangeAction::AddToValidated(IDkgMessage::Dealing(d)),
                                );
                            }
                            None => {}
                        }
                    }
                    TranscriptLoadStatus::Failure => {}
                    TranscriptLoadStatus::Complaints(cs) => {
                        let mut k: usize = 0;
                        while k < cs.len()
                            invariant
                                k <= cs@.len(),
                                out@ == out0 + complaint_additions(v@, cs@.take(k as int)),
                            decreases cs@.len() - k,
                        {
                            if !crate::pool::contains_key(v, &IDkgMessage::Complaint(cs[k])) {
                                out.push(
                                    IDkgChangeAction::AddToValidated(
                                        IDkgMessage::Complaint(cs[k]),
                                    ),
                                );
                            }
                            proof {
                                assert(cs@.take(k + 1).drop_last() =~= cs@.take(k as int));
                                assert(cs@.take(k + 1).last() == cs@[k as int]);
                            }
                            k = k + 1;
                        }
                        proof {
                            assert(cs@.take(cs@.len() as int) =~= cs@);
                            assert(out@ == out0 + complaint_additions(v@, cs@));
                        }
                    }
                }
            }
            proof {
                assert(out@ =~= out0 + create_for_config_spec(
                    *crypto,
                    *block_reader,
                    v@,
                    self.node_id,
                    quorum,
                    configs@[i as int],
                ));
            }
            i = i + 1;
        }
        let ghost pass1 = create_dealings_spec(
            *crypto,
            *block_reader,
            v@,
            self.node_id,
            quorum,
            configs@,
        );
        proof {
            assert(out@ == pass1);
        }

        // Validate unvalidated dealings.
        let mut moved: Vec<IDkgMessage> = Vec::new();
        let mut a: usize = 0;
        proof {
            assert(u@.skip(0) =~= u@);
        }
        while a < u.len()
            invariant
                a <= u@.len(),
                out@ + validate_dealings_spec(
                    *crypto,
                    *block_reader,
                    v@,
                    u@.skip(a as int),
                    moved@,
                ) == pass1 + validate_dealings_spec(*crypto, *block_reader, v@, u@, Seq::empty()),
            decreases u@.len() - a,
        {
            proof {
                assert(u@.skip(a as int).first() == u@[a as int]);
                assert(u@.skip(a as int).drop_first() =~= u@.skip(a + 1));
            }
            let m = u[a];
            match m {
                IDkgMessage::Dealing(d) => {
                    if block_reader.has_config(d.transcript_id) {
                        if crate::pool::contains_key(v, &m) || crate::pool::contains_key(
                            &moved,
                            &m,
                        ) {
                            out.push(IDkgChangeAction::HandleInvalid(m));
                        } else {
                            match block_reader.find_config(d.transcript_id) {
                                Some(config) => {
                                    if crypto.verify_dealing_public(config, &d) {
                                        out.push(IDkgChangeAction::MoveToValidated(m));
                                        moved.push(m);
                                    } else {
                                        out.push(IDkgChangeAction::HandleInvalid(m));
                                    }
                                }
                                None => {
                                    proof {
                                        crate::block_reader::lemma_first_config(
                                            block_reader.requested@,
                                            d.transcript_id,
                                        );
                                        assert(false);
                                    }
                                }
                            }
                        }
                    }
                }
                _ => {}
            }
            a = a + 1;
        }
        let ghost pass2 = pass1 + validate_dealings_spec(
            *crypto,
            *block_reader,
            v@,
            u@,
            Seq::empty(),
        );
        proof {
            assert(out@ == pass2);
        }

        // Issue support for validated dealings addressed to this replica.
        let mut b: usize = 0;
        proof {
            assert(v@.skip(0) =~= v@);
        }
        while b < v.len()
            invariant
                b <= v@.len(),
                out@ + send_support_spec(
                    *crypto,
                    *block_reader,
                    v@,
                    v@.skip(b as int),
                    self.node_id,
                ) == pass2 + send_support_spec(*crypto, *block_reader, v@, v@, self.node_id),
            decreases v@.len() - b,
        {
            proof {
                assert(v@.skip(b as int).first() == v@[b as int]);
                assert(v@.skip(b as int).drop_first() =~= v@.skip(b + 1));
            }
            let m = v[b];
            match m {
                IDkgMessage::Dealing(d) => {
                    match block_reader.find_config(d.transcript_id) {
                        Some(config) => {
                            let support = DealingSupport {
                                transcript_id: d.transcript_id,
                                dealer_id: d.dealer_id,
                                signer_id: self.node_id,
                            };
                            let complaint = SignedComplaint {
                                transcript_id: d.transcript_id,
                                dealer_id: d.dealer_id,
                                complainer_id: self.node_id,
                            };
                            if config.is_receiver(self.node_id) && !crate::pool::contains_key(
                                v,
                                &IDkgMessage::DealingSupport(support),
                            ) {
                                if crypto.verify_dealing_private(config, &d) {
                                    out.push(
                                        IDkgChangeAction::AddToValidated(
                                            IDkgMessage::DealingSupport(support),
                                        ),
                                    );
                                } else if !crate::pool::contains_key(
                                    v,
                                    &IDkgMessage::Complaint(complaint),
                                ) {
                                    out.push(
                                        IDkgChangeAction::AddToValidated(
                                            IDkgMessage::Complaint(complaint),
                                        ),
                                    );
                                }
                            }
                        }
                        None => {}
                    }
                }
                _ => {}
            }
            b = b + 1;
        }
        let ghost pass3 = pass2 + send_support_spec(
            *crypto,
            *block_reader,
            v@,
            v@,
            self.node_id,
        );
        proof {
            assert(out@ == pass3);
        }

        // Validate unvalidated support.
        let mut moved2: Vec<IDkgMessage> = Vec::new();
        let mut e: usize = 0;
        proof {
            assert(u@.skip(0) =~= u@);
        }
        while e < u.len()
            invariant
                e <= u@.len(),
                out@ + validate_support_spec(
                    *crypto,
                    *block_reader,
                    v@,
                    u@.skip(e as int),
                    moved2@,
                ) == pass3 + validate_support_spec(*crypto, *block_reader, v@, u@, Seq::empty()),
            decreases u@.len() - e,
        {
            proof {
                assert(u@.skip(e as int).first() == u@[e as int]);
                assert(u@.skip(e as int).drop_first() =~= u@.skip(e + 1));
            }
            let m = u[e];
            match m {
                IDkgMessage::DealingSupport(s) => {
                    if block_reader.has_config(s.transcript_id) {
                        if crate::pool::contains_key(v, &m) || crate::pool::contains_key(
                            &moved2,
                            &m,
                        ) {
                            out.push(IDkgChangeAction::HandleInvalid(m));
                        } else {
                            match block_reader.find_config(s.transcript_id) {
                                Some(config) => {
                                    if crypto.verify_dealing_support(config, &s) {
                                        out.push(IDkgChangeAction::MoveToValidated(m));
                                        moved2.push(m);
                                    } else {
                                        out.push(IDkgChangeAction::HandleInvalid(m));
                                    }
                                }
                                None => {
                                    proof {
                                        crate::block_reader::lemma_first_config(
                                            block_reader.requested@,
                                            s.transcript_id,
                                        );
                                        assert(false);
                                    }
                                }
                            }
                        }
                    }
                }
                _ => {}
            }
            e = e + 1;
        }
        let ghost pass4 = pass3 + validate_support_spec(
            *crypto,
            *block_reader,
            v@,
            u@,
            Seq::empty(),
        );
        proof {
            assert(out@ == pass4);
        }

        // Purge stale dealings and support from both bags.
        let mut p: usize = 0;
        proof {
            assert(u@.skip(0) =~= u@);
        }
        while p < u.len()
            invariant
                p <= u@.len(),
                out@ + purge_dealings_spec(*block_reader, u@.skip(p as int), false) == pass4
                    + purge_dealings_spec(*block_reader, u@, false),
            decreases u@.len() - p,
        {
            proof {
                assert(u@.skip(p as int).first() == u@[p as int]);
                assert(u@.skip(p as int).drop_first() =~= u@.skip(p + 1));
            }
            let m = u[p];
            match m {
                IDkgMessage::Dealing(d) => {
                    if crate::complaints::is_stale(block_reader, d.transcript_id) {
                        out.push(IDkgChangeAction::RemoveUnvalidated(m));
                    }
                }
                IDkgMessage::DealingSupport(s) => {
                    if crate::complaints::is_stale(block_reader, s.transcript_id) {
                        out.push(IDkgChangeAction::RemoveUnvalidated(m));
                    }
                }
                _ => {}
            }
            p = p + 1;
        }
        let ghost pass5 = pass4 + purge_dealings_spec(*block_reader, u@, false);
        proof {
            assert(out@ == pass5);
        }

        let mut q: usize = 0;
        proof {
            assert(v@.skip(0) =~= v@);
        }
        while q < v.len()
            invariant
                q <= v@.len(),
                out@ + purge_dealings_spec(*block_reader, v@.skip(q as int), true) == pass5
                    + purge_dealings_spec(*block_reader, v@, true),
            decreases v@.len() - q,
        {
            proof {
                assert(v@.skip(q as int).first() == v@[q as int]);
                assert(v@.skip(q as int).drop_first() =~= v@.skip(q + 1));
            }
            let m = v[q];
            match m {
                IDkgMessage::Dealing(d) => {
                    if crate::complaints::is_stale(block_reader, d.transcript_id) {
                        out.push(IDkgChangeAction::RemoveValidated(m));
                    }
                }
                IDkgMessage::DealingSupport(s) => {
                    if crate::complaints::is_stale(block_reader, s.transcript_id) {
                        out.push(IDkgChangeAction::RemoveValidated(m));
                    }
                }
                _ => {}
            }
            q = q + 1;
        }
        out
    }
}

} // verus!

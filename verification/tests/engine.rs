use idkg::block_reader::{
    CertifiedStateSnapshot, IDkgBlockReader, PreSignature, SignatureRequestContext,
};
use idkg::complaints::IDkgComplaintHandlerImpl;
use idkg::crypto::{CryptoOracle, RetainError, ScriptedCrypto};
use idkg::idkg::IDkgImpl;
use idkg::pool::IDkgPool;
use idkg::pre_signer::IDkgPreSignerImpl;
use idkg::signer::ThresholdSignerImpl;
use idkg::types::{
    IDkgMessage, IDkgTranscript, IDkgTranscriptParams, RequestId, SignatureScheme, TranscriptId,
    TranscriptOperation, TranscriptRef,
};

const NODE: u64 = 1;
const QUORUM: u64 = 2;

fn random_unmasked_config(tid: TranscriptId) -> IDkgTranscriptParams {
    IDkgTranscriptParams {
        transcript_id: tid,
        dealers: vec![NODE, 2, 3],
        receivers: vec![NODE, 2, 3],
        registry_version: 1,
        algorithm: SignatureScheme::Ecdsa,
        operation: TranscriptOperation::RandomUnmasked,
    }
}

fn reader_with(configs: Vec<IDkgTranscriptParams>, tip: u64) -> IDkgBlockReader {
    IDkgBlockReader {
        tip,
        requested: configs,
        active_refs: vec![],
        resolvable: vec![],
        pre_signatures: vec![],
    }
}

fn count_dealings(v: &Vec<IDkgMessage>) -> usize {
    v.iter().filter(|m| matches!(m, IDkgMessage::Dealing(_))).count()
}

fn count_supports(v: &Vec<IDkgMessage>) -> usize {
    v.iter().filter(|m| matches!(m, IDkgMessage::DealingSupport(_))).count()
}

// End to end, simulated: an empty pool, one active random-unmasked config,
// this replica in both the dealer and receiver sets. Tick one deals, tick
// two supports the dealing, tick three changes nothing: a fixed point.
#[test]
fn end_to_end_three_ticks() {
    let tid = TranscriptId::new(2, 1, 10);
    let reader = reader_with(vec![random_unmasked_config(tid)], 10);
    let crypto = ScriptedCrypto::new();
    let pre_signer = IDkgPreSignerImpl::new(NODE);
    let loader = IDkgComplaintHandlerImpl::new(NODE, QUORUM);
    let mut pool = IDkgPool::new();

    // Tick 1: one validated dealing from this replica.
    let cs = pre_signer.on_state_change(&pool, &reader, &loader, &crypto);
    pool.apply(&cs);
    assert_eq!(pool.validated.len(), 1);
    match &pool.validated[0] {
        IDkgMessage::Dealing(d) => {
            assert_eq!(d.transcript_id, tid);
            assert_eq!(d.dealer_id, NODE);
        }
        other => panic!("expected a dealing, got {:?}", other),
    }

    // Tick 2: one validated support from this replica.
    let cs = pre_signer.on_state_change(&pool, &reader, &loader, &crypto);
    pool.apply(&cs);
    assert_eq!(pool.validated.len(), 2);
    assert_eq!(count_dealings(&pool.validated), 1);
    assert_eq!(count_supports(&pool.validated), 1);
    match &pool.validated[1] {
        IDkgMessage::DealingSupport(s) => {
            assert_eq!(s.transcript_id, tid);
            assert_eq!(s.dealer_id, NODE);
            assert_eq!(s.signer_id, NODE);
        }
        other => panic!("expected support, got {:?}", other),
    }

    // Tick 3: no change; the pool is a fixed point.
    let cs = pre_signer.on_state_change(&pool, &reader, &loader, &crypto);
    assert!(cs.is_empty());
    pool.apply(&cs);
    assert_eq!(pool.validated.len(), 2);
    assert_eq!(pool.unvalidated.len(), 0);
}

// Stale purge: a validated dealing for a config introduced at height 50;
// the tip advances to 200 and the config leaves the requested set; one
// pre-signer tick removes the dealing.
#[test]
fn stale_purge() {
    let tid = TranscriptId::new(2, 1, 50);
    let crypto = ScriptedCrypto::new();
    let pre_signer = IDkgPreSignerImpl::new(NODE);
    let loader = IDkgComplaintHandlerImpl::new(NODE, QUORUM);
    let mut pool = IDkgPool::new();

    // Deal while the config is requested.
    let reader = reader_with(vec![random_unmasked_config(tid)], 50);
    let cs = pre_signer.on_state_change(&pool, &reader, &loader, &crypto);
    pool.apply(&cs);
    assert_eq!(count_dealings(&pool.validated), 1);

    // Advance the tip past the source height with the config gone.
    let reader = reader_with(vec![], 200);
    let cs = pre_signer.on_state_change(&pool, &reader, &loader, &crypto);
    pool.apply(&cs);
    assert_eq!(pool.validated.len(), 0);
}

// A dealing whose config lies ahead of the tip is not stale and survives a
// purge even though its config is not requested.
#[test]
fn future_dealing_survives_purge() {
    let tid = TranscriptId::new(2, 1, 300);
    let crypto = ScriptedCrypto::new();
    let pre_signer = IDkgPreSignerImpl::new(NODE);
    let loader = IDkgComplaintHandlerImpl::new(NODE, QUORUM);
    let mut pool = IDkgPool::new();
    pool.insert_unvalidated(IDkgMessage::Dealing(idkg::types::SignedDealing {
        transcript_id: tid,
        dealer_id: 2,
    }));
    let reader = reader_with(vec![], 200);
    let cs = pre_signer.on_state_change(&pool, &reader, &loader, &crypto);
    pool.apply(&cs);
    assert_eq!(pool.unvalidated.len(), 1);
}

// Gated validation: an unvalidated dealing is promoted only while its
// config is requested; a dealing for an unknown config is left alone until
// it goes stale, and a duplicate of an already validated dealing is
// dropped.
#[test]
fn gated_validation_of_dealings() {
    let tid = TranscriptId::new(2, 1, 10);
    let other = TranscriptId::new(2, 9, 50);
    let crypto = ScriptedCrypto::new();
    let pre_signer = IDkgPreSignerImpl::new(NODE);
    let loader = IDkgComplaintHandlerImpl::new(NODE, QUORUM);
    let mut pool = IDkgPool::new();
    let good = idkg::types::SignedDealing { transcript_id: tid, dealer_id: 2 };
    let unknown = idkg::types::SignedDealing { transcript_id: other, dealer_id: 2 };
    pool.insert_unvalidated(IDkgMessage::Dealing(good));
    pool.insert_unvalidated(IDkgMessage::Dealing(good));
    pool.insert_unvalidated(IDkgMessage::Dealing(unknown));

    // This replica is not a dealer of the config, so only validation acts.
    let config = IDkgTranscriptParams {
        dealers: vec![2, 3],
        ..random_unmasked_config(tid)
    };
    let reader = reader_with(vec![config], 10);
    let cs = pre_signer.on_state_change(&pool, &reader, &loader, &crypto);
    pool.apply(&cs);

    // The first copy was promoted, its duplicate dropped, the unknown one
    // left waiting.
    assert_eq!(count_dealings(&pool.validated), 1);
    assert!(pool
        .validated
        .iter()
        .any(|m| matches!(m, IDkgMessage::Dealing(d) if d.dealer_id == 2 && d.transcript_id == tid)));
    assert_eq!(pool.unvalidated.len(), 1);
    assert!(matches!(&pool.unvalidated[0], IDkgMessage::Dealing(d) if d.transcript_id == other));
}

// A dealing that fails public verification is removed and its dealer is
// not banned: a later, valid dealing from the same dealer passes.
#[test]
fn rejected_dealing_is_dropped() {
    let tid = TranscriptId::new(2, 1, 10);
    let mut crypto = ScriptedCrypto::new();
    crypto.script_rejected_dealing(tid, 2);
    let pre_signer = IDkgPreSignerImpl::new(NODE);
    let loader = IDkgComplaintHandlerImpl::new(NODE, QUORUM);
    let mut pool = IDkgPool::new();
    pool.insert_unvalidated(IDkgMessage::Dealing(idkg::types::SignedDealing {
        transcript_id: tid,
        dealer_id: 2,
    }));
    let reader = reader_with(vec![random_unmasked_config(tid)], 10);
    let cs = pre_signer.on_state_change(&pool, &reader, &loader, &crypto);
    pool.apply(&cs);
    assert_eq!(pool.validated.iter().filter(|m| matches!(m, IDkgMessage::Dealing(d) if d.dealer_id == 2)).count(), 0);
    assert_eq!(pool.unvalidated.len(), 0);
}

// Dependency-load failure: the dealing is not created this tick; the
// emitted complaint is queued instead. Once enough validated openings
// accumulate, the transcript is recoverable and the dealing is created.
#[test]
fn load_failure_emits_complaint_then_recovers() {
    let dep_tid = TranscriptId::new(2, 1, 5);
    let dep_ref = TranscriptRef { height: 5, transcript_id: dep_tid };
    let tid = TranscriptId::new(2, 2, 10);
    let config = IDkgTranscriptParams {
        transcript_id: tid,
        dealers: vec![NODE],
        receivers: vec![NODE],
        registry_version: 1,
        algorithm: SignatureScheme::Ecdsa,
        operation: TranscriptOperation::UnmaskedFromMasked(dep_ref),
    };
    let dep_transcript = IDkgTranscript { transcript_id: dep_tid, registry_version: 1 };
    let reader = IDkgBlockReader {
        tip: 10,
        requested: vec![config],
        active_refs: vec![],
        resolvable: vec![(dep_ref, dep_transcript)],
        pre_signatures: vec![],
    };
    let mut crypto = ScriptedCrypto::new();
    crypto.script_load_failure(dep_tid, 3);
    let pre_signer = IDkgPreSignerImpl::new(NODE);
    let loader = IDkgComplaintHandlerImpl::new(NODE, QUORUM);
    let mut pool = IDkgPool::new();

    let cs = pre_signer.on_state_change(&pool, &reader, &loader, &crypto);
    pool.apply(&cs);
    assert_eq!(count_dealings(&pool.validated), 0);
    assert!(pool.validated.iter().any(|m| matches!(
        m,
        IDkgMessage::Complaint(c) if c.transcript_id == dep_tid && c.dealer_id == 3 && c.complainer_id == NODE
    )));

    // Two validated openings answer the complaint: quorum reached, the
    // next tick loads by recovery and deals.
    pool.apply(&vec![
        idkg::pool::IDkgChangeAction::AddToValidated(IDkgMessage::Opening(
            idkg::types::SignedOpening {
                transcript_id: dep_tid,
                dealer_id: 3,
                complainer_id: NODE,
                opener_id: 2,
            },
        )),
        idkg::pool::IDkgChangeAction::AddToValidated(IDkgMessage::Opening(
            idkg::types::SignedOpening {
                transcript_id: dep_tid,
                dealer_id: 3,
                complainer_id: NODE,
                opener_id: 3,
            },
        )),
    ]);
    let cs = pre_signer.on_state_change(&pool, &reader, &loader, &crypto);
    pool.apply(&cs);
    assert_eq!(count_dealings(&pool.validated), 1);
}

// A denied dealing creation skips this tick's crypto call; once the
// keystore recovers, the next tick deals.
#[test]
fn denied_creation_retries_next_tick() {
    let tid = TranscriptId::new(2, 1, 10);
    let reader = reader_with(vec![random_unmasked_config(tid)], 10);
    let mut crypto = ScriptedCrypto::new();
    crypto.denied_dealing_creation.push(tid);
    let pre_signer = IDkgPreSignerImpl::new(NODE);
    let loader = IDkgComplaintHandlerImpl::new(NODE, QUORUM);
    let mut pool = IDkgPool::new();

    let cs = pre_signer.on_state_change(&pool, &reader, &loader, &crypto);
    assert!(cs.is_empty());
    pool.apply(&cs);

    crypto.denied_dealing_creation.clear();
    let cs = pre_signer.on_state_change(&pool, &reader, &loader, &crypto);
    pool.apply(&cs);
    assert_eq!(count_dealings(&pool.validated), 1);
}

// Uniqueness: inserting two artifacts with the same key leaves one.
#[test]
fn duplicate_insert_absorbed() {
    let tid = TranscriptId::new(2, 1, 10);
    let mut pool = IDkgPool::new();
    let d = IDkgMessage::Dealing(idkg::types::SignedDealing { transcript_id: tid, dealer_id: 4 });
    pool.apply(&vec![
        idkg::pool::IDkgChangeAction::AddToValidated(d),
        idkg::pool::IDkgChangeAction::AddToValidated(d),
    ]);
    assert_eq!(pool.validated.len(), 1);
}

// The signer creates a share for a matched request whose pre-signature is
// available, and a second tick is a fixed point.
#[test]
fn signer_creates_share() {
    let key_tid = TranscriptId::new(2, 1, 5);
    let key_ref = TranscriptRef { height: 5, transcript_id: key_tid };
    let key_transcript = IDkgTranscript { transcript_id: key_tid, registry_version: 1 };
    let pre_signature = PreSignature {
        pre_signature_id: 7,
        key_transcript_ref: key_ref,
        transcript_refs: vec![],
        signers: vec![NODE, 2],
    };
    let reader = IDkgBlockReader {
        tip: 100,
        requested: vec![],
        active_refs: vec![],
        resolvable: vec![(key_ref, key_transcript)],
        pre_signatures: vec![pre_signature],
    };
    let context = SignatureRequestContext {
        scheme: SignatureScheme::Ecdsa,
        pseudo_random_id: [9; 32],
        height: 100,
        matched_pre_signature: Some(7),
    };
    let state = CertifiedStateSnapshot { height: 100, contexts: vec![context] };
    let crypto = ScriptedCrypto::new();
    let signer = ThresholdSignerImpl::new(NODE);
    let loader = IDkgComplaintHandlerImpl::new(NODE, QUORUM);
    let mut pool = IDkgPool::new();

    let cs = signer.on_state_change(&pool, &reader, Some(&state), &loader, &crypto);
    pool.apply(&cs);
    assert_eq!(pool.validated.len(), 1);
    match &pool.validated[0] {
        IDkgMessage::EcdsaSigShare(s) => {
            assert_eq!(s.signer_id, NODE);
            assert_eq!(s.request_id.pre_signature_id, 7);
            assert_eq!(s.request_id.pseudo_random_id, [9; 32]);
        }
        other => panic!("expected an ecdsa share, got {:?}", other),
    }
    let cs = signer.on_state_change(&pool, &reader, Some(&state), &loader, &crypto);
    assert!(cs.is_empty());
}

// A share whose request left the certified state and whose height is below
// the certified height is purged.
#[test]
fn stale_share_purged() {
    let rid = RequestId { pre_signature_id: 7, pseudo_random_id: [9; 32], height: 50 };
    let share = idkg::types::SigShare { request_id: rid, signer_id: 2 };
    let reader = reader_with(vec![], 100);
    let state = CertifiedStateSnapshot { height: 100, contexts: vec![] };
    let crypto = ScriptedCrypto::new();
    let signer = ThresholdSignerImpl::new(NODE);
    let loader = IDkgComplaintHandlerImpl::new(NODE, QUORUM);
    let mut pool = IDkgPool::new();
    pool.apply(&vec![idkg::pool::IDkgChangeAction::AddToValidated(
        IDkgMessage::EcdsaSigShare(share),
    )]);
    pool.insert_unvalidated(IDkgMessage::SchnorrSigShare(share));
    let cs = signer.on_state_change(&pool, &reader, Some(&state), &loader, &crypto);
    pool.apply(&cs);
    assert_eq!(pool.validated.len(), 0);
    assert_eq!(pool.unvalidated.len(), 0);
}

// Without a certified state the signer does nothing.
#[test]
fn signer_without_state_is_idle() {
    let reader = reader_with(vec![], 100);
    let crypto = ScriptedCrypto::new();
    let signer = ThresholdSignerImpl::new(NODE);
    let loader = IDkgComplaintHandlerImpl::new(NODE, QUORUM);
    let pool = IDkgPool::new();
    let cs = signer.on_state_change(&pool, &reader, None, &loader, &crypto);
    assert!(cs.is_empty());
}

// The complaint handler promotes a gossiped complaint on a requested
// config, then answers it with this replica's opening.
#[test]
fn complaint_validated_then_answered() {
    let tid = TranscriptId::new(2, 1, 10);
    let reader = reader_with(vec![random_unmasked_config(tid)], 10);
    let crypto = ScriptedCrypto::new();
    let handler = IDkgComplaintHandlerImpl::new(NODE, QUORUM);
    let mut pool = IDkgPool::new();
    let complaint =
        idkg::types::SignedComplaint { transcript_id: tid, dealer_id: 3, complainer_id: 2 };
    pool.insert_unvalidated(IDkgMessage::Complaint(complaint));

    let cs = handler.on_state_change(&pool, &reader, &crypto);
    pool.apply(&cs);
    assert!(pool.validated.iter().any(|m| matches!(m, IDkgMessage::Complaint(_))));
    assert_eq!(pool.unvalidated.len(), 0);

    let cs = handler.on_state_change(&pool, &reader, &crypto);
    pool.apply(&cs);
    assert!(pool.validated.iter().any(|m| matches!(
        m,
        IDkgMessage::Opening(o) if o.transcript_id == tid && o.complainer_id == 2 && o.opener_id == NODE
    )));

    let cs = handler.on_state_change(&pool, &reader, &crypto);
    assert!(cs.is_empty());
}

// A gossiped support message on a requested config is promoted; one that
// fails verification is removed.
#[test]
fn support_validation_moves_or_drops() {
    let tid = TranscriptId::new(2, 1, 10);
    let reader = reader_with(vec![random_unmasked_config(tid)], 10);
    let mut crypto = ScriptedCrypto::new();
    crypto.rejected_support.push((tid, 2, 3));
    let pre_signer = IDkgPreSignerImpl::new(NODE);
    let loader = IDkgComplaintHandlerImpl::new(NODE, QUORUM);
    let mut pool = IDkgPool::new();
    let good = idkg::types::DealingSupport { transcript_id: tid, dealer_id: 2, signer_id: 2 };
    let bad = idkg::types::DealingSupport { transcript_id: tid, dealer_id: 2, signer_id: 3 };
    pool.insert_unvalidated(IDkgMessage::DealingSupport(good));
    pool.insert_unvalidated(IDkgMessage::DealingSupport(bad));
    let cs = pre_signer.on_state_change(&pool, &reader, &loader, &crypto);
    pool.apply(&cs);
    assert!(pool.validated.iter().any(
        |m| matches!(m, IDkgMessage::DealingSupport(s) if s.signer_id == 2),
    ));
    assert!(!pool.validated.iter().any(
        |m| matches!(m, IDkgMessage::DealingSupport(s) if s.signer_id == 3),
    ));
    assert_eq!(pool.unvalidated.len(), 0);
}

// A dealing this replica cannot verify privately draws a complaint instead
// of support.
#[test]
fn private_failure_draws_complaint() {
    let tid = TranscriptId::new(2, 1, 10);
    let reader = reader_with(vec![random_unmasked_config(tid)], 10);
    let mut crypto = ScriptedCrypto::new();
    crypto.script_private_failure(tid, 2);
    let pre_signer = IDkgPreSignerImpl::new(NODE);
    let loader = IDkgComplaintHandlerImpl::new(NODE, QUORUM);
    let mut pool = IDkgPool::new();
    pool.apply(&vec![idkg::pool::IDkgChangeAction::AddToValidated(IDkgMessage::Dealing(
        idkg::types::SignedDealing { transcript_id: tid, dealer_id: 2 },
    ))]);
    let cs = pre_signer.on_state_change(&pool, &reader, &loader, &crypto);
    pool.apply(&cs);
    assert!(pool.validated.iter().any(|m| matches!(
        m,
        IDkgMessage::Complaint(c) if c.transcript_id == tid && c.dealer_id == 2 && c.complainer_id == NODE
    )));
    assert!(!pool.validated.iter().any(
        |m| matches!(m, IDkgMessage::DealingSupport(s) if s.dealer_id == 2),
    ));
}

// A share that fails verification is removed; a complaint or opening that
// fails verification likewise.
#[test]
fn rejected_share_complaint_opening_dropped() {
    let tid = TranscriptId::new(2, 1, 10);
    let rid = RequestId { pre_signature_id: 3, pseudo_random_id: [5; 32], height: 100 };
    let share = idkg::types::SigShare { request_id: rid, signer_id: 4 };
    let mut crypto = ScriptedCrypto::new();
    crypto.rejected_shares.push((rid, 4));
    crypto.rejected_complaints.push((tid, 5));
    crypto.rejected_openings.push((tid, 6));

    // The share: its request is outstanding, verification fails, it goes.
    let signer = ThresholdSignerImpl::new(NODE);
    let loader = IDkgComplaintHandlerImpl::new(NODE, QUORUM);
    let reader = reader_with(vec![random_unmasked_config(tid)], 100);
    let state = CertifiedStateSnapshot {
        height: 100,
        contexts: vec![SignatureRequestContext {
            scheme: SignatureScheme::Ecdsa,
            pseudo_random_id: [5; 32],
            height: 100,
            matched_pre_signature: Some(3),
        }],
    };
    let mut pool = IDkgPool::new();
    pool.insert_unvalidated(IDkgMessage::EcdsaSigShare(share));
    let cs = signer.on_state_change(&pool, &reader, Some(&state), &loader, &crypto);
    pool.apply(&cs);
    assert_eq!(pool.validated.len(), 0);
    assert_eq!(pool.unvalidated.len(), 0);

    // The complaint and the opening: gated in, verification fails, they go.
    let handler = IDkgComplaintHandlerImpl::new(NODE, QUORUM);
    let mut pool = IDkgPool::new();
    pool.insert_unvalidated(IDkgMessage::Complaint(idkg::types::SignedComplaint {
        transcript_id: tid,
        dealer_id: 2,
        complainer_id: 5,
    }));
    pool.insert_unvalidated(IDkgMessage::Opening(idkg::types::SignedOpening {
        transcript_id: tid,
        dealer_id: 2,
        complainer_id: 5,
        opener_id: 6,
    }));
    let cs = handler.on_state_change(&pool, &reader, &crypto);
    pool.apply(&cs);
    assert!(pool.validated.iter().all(|m| !matches!(m, IDkgMessage::Complaint(_))));
    assert!(pool.validated.iter().all(|m| !matches!(m, IDkgMessage::Opening(_))));
    assert_eq!(pool.unvalidated.len(), 0);
}

// Retention abort: one active transcript reference fails to resolve; the
// crypto layer is not called and the warning counter is bumped.
#[test]
fn retention_abort_on_unresolved_ref() {
    let tid = TranscriptId::new(2, 1, 10);
    let dangling = TranscriptRef { height: 10, transcript_id: tid };
    let reader = IDkgBlockReader {
        tip: 100,
        requested: vec![],
        active_refs: vec![dangling],
        resolvable: vec![],
        pre_signatures: vec![],
    };
    let mut crypto = ScriptedCrypto::new();
    let mut component = IDkgImpl::new(NODE, QUORUM, 0);
    component.purge_inactive_transcripts(&mut crypto, &reader);
    assert_eq!(crypto.retain_log.len(), 0);
    assert_eq!(component.metrics.retention_aborts, 1);
    assert_eq!(component.metrics.resolution_failures, 1);
    assert_eq!(component.metrics.retentions_completed, 0);
}

// Each failing reference counts: two dangling references in one attempt
// raise the per-reference counter twice and the abort counter once.
#[test]
fn retention_counts_each_failing_reference() {
    let r1 = TranscriptRef { height: 10, transcript_id: TranscriptId::new(2, 1, 10) };
    let r2 = TranscriptRef { height: 11, transcript_id: TranscriptId::new(2, 2, 11) };
    let ok_ref = TranscriptRef { height: 12, transcript_id: TranscriptId::new(2, 3, 12) };
    let ok = IDkgTranscript { transcript_id: ok_ref.transcript_id, registry_version: 1 };
    let reader = IDkgBlockReader {
        tip: 100,
        requested: vec![],
        active_refs: vec![r1, ok_ref, r2],
        resolvable: vec![(ok_ref, ok)],
        pre_signatures: vec![],
    };
    let mut crypto = ScriptedCrypto::new();
    let mut component = IDkgImpl::new(NODE, QUORUM, 0);
    component.purge_inactive_transcripts(&mut crypto, &reader);
    assert_eq!(crypto.retain_log.len(), 0);
    assert_eq!(component.metrics.retention_aborts, 1);
    assert_eq!(component.metrics.resolution_failures, 2);
}

// Retention success: every reference resolves; the crypto layer receives
// exactly the resolved transcripts.
#[test]
fn retention_hands_over_resolved_actives() {
    let tid = TranscriptId::new(2, 1, 10);
    let r = TranscriptRef { height: 10, transcript_id: tid };
    let t = IDkgTranscript { transcript_id: tid, registry_version: 1 };
    let reader = IDkgBlockReader {
        tip: 100,
        requested: vec![],
        active_refs: vec![r],
        resolvable: vec![(r, t)],
        pre_signatures: vec![],
    };
    let mut crypto = ScriptedCrypto::new();
    let mut component = IDkgImpl::new(NODE, QUORUM, 0);
    component.purge_inactive_transcripts(&mut crypto, &reader);
    assert_eq!(crypto.retain_log.len(), 1);
    assert_eq!(crypto.retain_log[0], vec![tid]);
    assert_eq!(component.metrics.retentions_completed, 1);
    assert_eq!(component.metrics.retention_aborts, 0);
}

// A transient retention error bumps the transient counter; a fatal one the
// critical counter; the tick continues either way.
#[test]
fn retention_error_counters() {
    let reader = IDkgBlockReader {
        tip: 100,
        requested: vec![],
        active_refs: vec![],
        resolvable: vec![],
        pre_signatures: vec![],
    };
    let mut crypto = ScriptedCrypto::new();
    crypto.script_retain_fault(RetainError::Transient);
    let mut component = IDkgImpl::new(NODE, QUORUM, 0);
    component.purge_inactive_transcripts(&mut crypto, &reader);
    assert_eq!(component.metrics.retention_transient_errors, 1);

    let mut crypto = ScriptedCrypto::new();
    crypto.script_retain_fault(RetainError::Fatal);
    let mut component = IDkgImpl::new(NODE, QUORUM, 0);
    component.purge_inactive_transcripts(&mut crypto, &reader);
    assert_eq!(component.metrics.retention_critical_errors, 1);
}

// A stale artifact is removed within one full rotation of the driver,
// whichever engine's turn comes first.
#[test]
fn rotation_removes_stale_dealing() {
    let reader = reader_with(vec![], 200);
    let state = CertifiedStateSnapshot { height: 200, contexts: vec![] };
    let mut crypto = ScriptedCrypto::new();
    let mut component = IDkgImpl::new(NODE, QUORUM, 0);
    let mut pool = IDkgPool::new();

    // Advance the schedule so the owning engine is not the next to run.
    let cs = component.on_state_change(&pool, &reader, Some(&state), &mut crypto, 1);
    pool.apply(&cs);

    // A validated dealing whose config is gone and below the tip.
    pool.apply(&vec![idkg::pool::IDkgChangeAction::AddToValidated(IDkgMessage::Dealing(
        idkg::types::SignedDealing { transcript_id: TranscriptId::new(2, 1, 50), dealer_id: 2 },
    ))]);
    assert_eq!(pool.validated.len(), 1);

    // Three ticks: signer, complaint handler, pre-signer — gone.
    for _ in 0..3 {
        let cs = component.on_state_change(&pool, &reader, Some(&state), &mut crypto, 2);
        pool.apply(&cs);
    }
    assert_eq!(pool.validated.len(), 0);
    assert_eq!(pool.unvalidated.len(), 0);
}

// The driver runs exactly one sub-engine per tick, round robin, and fires
// retention once its deadline passes.
#[test]
fn driver_round_robin_and_retention_deadline() {
    let tid = TranscriptId::new(2, 1, 10);
    let reader = reader_with(vec![random_unmasked_config(tid)], 10);
    let mut crypto = ScriptedCrypto::new();
    let mut component = IDkgImpl::new(NODE, QUORUM, 0);
    let mut pool = IDkgPool::new();

    // First tick: the pre-signer deals; 30 seconds since construction lie
    // inside the retention period, so retention stays quiet.
    let cs = component.on_state_change(&pool, &reader, None, &mut crypto, 30);
    pool.apply(&cs);
    assert_eq!(count_dealings(&pool.validated), 1);
    assert_eq!(crypto.retain_log.len(), 0);

    // Tick 1: signer's turn; no certified state, nothing happens.
    let cs = component.on_state_change(&pool, &reader, None, &mut crypto, 40);
    assert!(cs.is_empty());

    // Tick 2: complaint handler's turn; past the deadline, retention runs.
    let cs = component.on_state_change(&pool, &reader, None, &mut crypto, 70);
    assert!(cs.is_empty());
    assert_eq!(crypto.retain_log.len(), 1);

    // Tick 3: pre-signer again; the dealing exists, support is issued.
    let cs = component.on_state_change(&pool, &reader, None, &mut crypto, 80);
    pool.apply(&cs);
    assert_eq!(count_supports(&pool.validated), 1);
}

use idkg::block_reader::{CertifiedStateSnapshot, IDkgBlockReader, SignatureRequestContext};
use idkg::idkg::{compute_priority, IDkgGossipImpl, IDkgPriorityFnArgs};
use idkg::types::{
    IDkgMessageAttribute, IDkgTranscriptParams, Priority, RequestId, SignatureScheme,
    TranscriptId, TranscriptOperation,
};

fn config(tid: TranscriptId) -> IDkgTranscriptParams {
    IDkgTranscriptParams {
        transcript_id: tid,
        dealers: vec![1],
        receivers: vec![1],
        registry_version: 1,
        algorithm: SignatureScheme::Ecdsa,
        operation: TranscriptOperation::RandomUnmasked,
    }
}

#[test]
fn test_idkg_priority_fn_args() {
    let height = 100;
    // Two contexts in the certified state: one matched to a pre-signature,
    // one not yet matched.
    let context_with_quadruple = SignatureRequestContext {
        scheme: SignatureScheme::Ecdsa,
        pseudo_random_id: [0; 32],
        height,
        matched_pre_signature: Some(0),
    };
    let context_without_quadruple = SignatureRequestContext {
        scheme: SignatureScheme::Ecdsa,
        pseudo_random_id: [1; 32],
        height,
        matched_pre_signature: None,
    };
    let state = CertifiedStateSnapshot {
        height,
        contexts: vec![context_with_quadruple, context_without_quadruple],
    };
    let expected_request_id =
        idkg::block_reader::get_context_request_id(&context_with_quadruple).unwrap();
    assert_eq!(expected_request_id.pseudo_random_id, [0; 32]);
    assert_eq!(expected_request_id.pre_signature_id, 0);

    let block_reader = IDkgBlockReader {
        tip: height,
        requested: vec![],
        active_refs: vec![],
        resolvable: vec![],
        pre_signatures: vec![],
    };

    // Only the context with a matched pre-signature counts as requested.
    let args = IDkgPriorityFnArgs::new(&block_reader, Some(&state));
    assert_eq!(args.certified_height, height);
    assert_eq!(args.requested_signatures.len(), 1);
    assert_eq!(args.requested_signatures[0], expected_request_id);
}

// Tests the priority computation for dealings/support.
#[test]
fn test_idkg_priority_fn_dealing_support() {
    let xnet_subnet_id = 1;
    let subnet_id = 2;
    let xnet_transcript_id = TranscriptId::new(xnet_subnet_id, 1, 1000);
    let transcript_id_fetch_1 = TranscriptId::new(subnet_id, 1, 80);
    let transcript_id_drop = TranscriptId::new(subnet_id, 2, 70);
    let transcript_id_fetch_2 = TranscriptId::new(subnet_id, 3, 102);
    let transcript_id_stash = TranscriptId::new(subnet_id, 4, 200);

    let args = IDkgPriorityFnArgs {
        finalized_height: 100,
        certified_height: 100,
        requested_transcripts: vec![transcript_id_fetch_1],
        requested_signatures: vec![],
        active_transcripts: vec![],
    };

    let tests = vec![
        // Signed dealings
        (
            IDkgMessageAttribute::Dealing(xnet_transcript_id),
            Priority::FetchNow,
        ),
        (
            IDkgMessageAttribute::Dealing(transcript_id_fetch_1),
            Priority::FetchNow,
        ),
        (IDkgMessageAttribute::Dealing(transcript_id_drop), Priority::Drop),
        (
            IDkgMessageAttribute::Dealing(transcript_id_fetch_2),
            Priority::FetchNow,
        ),
        (IDkgMessageAttribute::Dealing(transcript_id_stash), Priority::Stash),
        // Dealing support
        (
            IDkgMessageAttribute::DealingSupport(xnet_transcript_id),
            Priority::FetchNow,
        ),
        (
            IDkgMessageAttribute::DealingSupport(transcript_id_fetch_1),
            Priority::FetchNow,
        ),
        (
            IDkgMessageAttribute::DealingSupport(transcript_id_drop),
            Priority::Drop,
        ),
        (
            IDkgMessageAttribute::DealingSupport(transcript_id_fetch_2),
            Priority::FetchNow,
        ),
        (
            IDkgMessageAttribute::DealingSupport(transcript_id_stash),
            Priority::Stash,
        ),
    ];

    for (attr, expected) in tests {
        assert_eq!(compute_priority(&attr, subnet_id, &args), expected);
    }
}

// Tests the priority computation for sig shares.
#[test]
fn test_idkg_priority_fn_sig_shares() {
    let subnet_id = 2;
    let request_id_fetch_1 = RequestId { pre_signature_id: 0, pseudo_random_id: [1; 32], height: 80 };
    let request_id_drop = RequestId { pre_signature_id: 1, pseudo_random_id: [2; 32], height: 70 };
    let request_id_fetch_2 =
        RequestId { pre_signature_id: 2, pseudo_random_id: [3; 32], height: 102 };
    let request_id_stash = RequestId { pre_signature_id: 3, pseudo_random_id: [4; 32], height: 200 };

    let args = IDkgPriorityFnArgs {
        finalized_height: 100,
        certified_height: 100,
        requested_transcripts: vec![],
        requested_signatures: vec![request_id_fetch_1],
        active_transcripts: vec![],
    };

    let tests = vec![
        (
            IDkgMessageAttribute::EcdsaSigShare(request_id_fetch_1),
            Priority::FetchNow,
        ),
        (
            IDkgMessageAttribute::SchnorrSigShare(request_id_fetch_1),
            Priority::FetchNow,
        ),
        (IDkgMessageAttribute::EcdsaSigShare(request_id_drop), Priority::Drop),
        (
            IDkgMessageAttribute::SchnorrSigShare(request_id_drop),
            Priority::Drop,
        ),
        (
            IDkgMessageAttribute::EcdsaSigShare(request_id_fetch_2),
            Priority::FetchNow,
        ),
        (
            IDkgMessageAttribute::SchnorrSigShare(request_id_fetch_2),
            Priority::FetchNow,
        ),
        (
            IDkgMessageAttribute::EcdsaSigShare(request_id_stash),
            Priority::Stash,
        ),
        (
            IDkgMessageAttribute::SchnorrSigShare(request_id_stash),
            Priority::Stash,
        ),
    ];

    for (attr, expected) in tests {
        assert_eq!(compute_priority(&attr, subnet_id, &args), expected);
    }
}

// Tests the priority computation for complaints/openings.
#[test]
fn test_idkg_priority_fn_complaint_opening() {
    let subnet_id = 2;
    let transcript_id_fetch_1 = TranscriptId::new(subnet_id, 1, 80);
    let transcript_id_drop = TranscriptId::new(subnet_id, 2, 70);
    let transcript_id_fetch_2 = TranscriptId::new(subnet_id, 3, 102);
    let transcript_id_stash = TranscriptId::new(subnet_id, 4, 200);
    let transcript_id_fetch_3 = TranscriptId::new(subnet_id, 5, 80);

    let args = IDkgPriorityFnArgs {
        finalized_height: 100,
        certified_height: 100,
        requested_transcripts: vec![transcript_id_fetch_3],
        requested_signatures: vec![],
        active_transcripts: vec![transcript_id_fetch_1],
    };

    let tests = vec![
        // Complaints
        (
            IDkgMessageAttribute::Complaint(transcript_id_fetch_1),
            Priority::FetchNow,
        ),
        (IDkgMessageAttribute::Complaint(transcript_id_drop), Priority::Drop),
        (
            IDkgMessageAttribute::Complaint(transcript_id_fetch_2),
            Priority::FetchNow,
        ),
        (
            IDkgMessageAttribute::Complaint(transcript_id_stash),
            Priority::Stash,
        ),
        (
            IDkgMessageAttribute::Complaint(transcript_id_fetch_3),
            Priority::FetchNow,
        ),
        // Openings
        (
            IDkgMessageAttribute::Opening(transcript_id_fetch_1),
            Priority::FetchNow,
        ),
        (IDkgMessageAttribute::Opening(transcript_id_drop), Priority::Drop),
        (
            IDkgMessageAttribute::Opening(transcript_id_fetch_2),
            Priority::FetchNow,
        ),
        (IDkgMessageAttribute::Opening(transcript_id_stash), Priority::Stash),
        (
            IDkgMessageAttribute::Opening(transcript_id_fetch_3),
            Priority::FetchNow,
        ),
    ];

    for (attr, expected) in tests {
        assert_eq!(compute_priority(&attr, subnet_id, &args), expected);
    }
}

// The priority function is pure: equal inputs give equal answers, through
// the gossip component or called directly.
#[test]
fn priority_is_deterministic() {
    let subnet_id = 2;
    let tid = TranscriptId::new(subnet_id, 7, 95);
    let args_a = IDkgPriorityFnArgs {
        finalized_height: 100,
        certified_height: 90,
        requested_transcripts: vec![tid],
        requested_signatures: vec![],
        active_transcripts: vec![],
    };
    let args_b = IDkgPriorityFnArgs {
        finalized_height: 100,
        certified_height: 90,
        requested_transcripts: vec![tid],
        requested_signatures: vec![],
        active_transcripts: vec![],
    };
    let gossip = IDkgGossipImpl::new(subnet_id);
    let attr = IDkgMessageAttribute::Dealing(tid);
    assert_eq!(
        compute_priority(&attr, subnet_id, &args_a),
        compute_priority(&attr, subnet_id, &args_b)
    );
    assert_eq!(gossip.priority(&attr, &args_a), Priority::FetchNow);
    assert_eq!(gossip.priority(&attr, &args_b), Priority::FetchNow);

    // Two snapshots taken from the same view rank everything alike.
    let block_reader = IDkgBlockReader {
        tip: 100,
        requested: vec![config(tid)],
        active_refs: vec![],
        resolvable: vec![],
        pre_signatures: vec![],
    };
    let taken_a = gossip.get_priority_function(&block_reader, None);
    let taken_b = gossip.get_priority_function(&block_reader, None);
    assert_eq!(gossip.priority(&attr, &taken_a), gossip.priority(&attr, &taken_b));
}

// Without a certified state the certified height counts as zero and no
// signature is requested.
#[test]
fn priority_args_without_certified_state() {
    let tid = TranscriptId::new(2, 1, 10);
    let block_reader = IDkgBlockReader {
        tip: 42,
        requested: vec![config(tid)],
        active_refs: vec![],
        resolvable: vec![],
        pre_signatures: vec![],
    };
    let args = IDkgPriorityFnArgs::new(&block_reader, None);
    assert_eq!(args.finalized_height, 42);
    assert_eq!(args.certified_height, 0);
    assert!(args.requested_signatures.is_empty());
    assert_eq!(args.requested_transcripts, vec![tid]);
}

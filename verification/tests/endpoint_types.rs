use idkg::endpoints::{CandidBlockTag, EthTransaction, GetEventsArg, TransactionStatus};
use idkg::endpoints::{RetrieveEthStatus, TxFinalizedStatus};
use idkg::proposals::{topic_to_manage_canister, ErrorType, Topic};

#[test]
fn block_tag_round_trip() {
    for tag in [CandidBlockTag::Latest, CandidBlockTag::Safe, CandidBlockTag::Finalized] {
        assert_eq!(CandidBlockTag::from_index(tag.index()), Some(tag));
    }
    assert_eq!(CandidBlockTag::Latest.index(), 0);
    assert_eq!(CandidBlockTag::Safe.index(), 1);
    assert_eq!(CandidBlockTag::Finalized.index(), 2);
    assert_eq!(CandidBlockTag::from_index(3), None);
    assert_eq!(CandidBlockTag::from_index(255), None);
}

#[test]
fn block_tag_default_is_latest() {
    assert_eq!(CandidBlockTag::default(), CandidBlockTag::Latest);
}

#[test]
fn endpoint_values() {
    let tx = EthTransaction { transaction_hash: "0xabc".to_string() };
    assert_eq!(tx.transaction_hash, "0xabc");
    let arg = GetEventsArg { start: 4, length: 16 };
    assert_eq!((arg.start, arg.length), (4, 16));
    assert_ne!(TransactionStatus::Success, TransactionStatus::Failure);
}

#[test]
fn proposal_topic_routing() {
    let protocol: Vec<Vec<u8>> = vec![vec![0, 0, 0, 1], vec![0, 0, 0, 2], vec![0, 0, 0, 3]];
    assert_eq!(
        topic_to_manage_canister(&protocol, &vec![0, 0, 0, 2]),
        Ok(Topic::ProtocolCanisterManagement)
    );
    let err = topic_to_manage_canister(&protocol, &vec![0, 0, 0, 9]).unwrap_err();
    assert_eq!(err.error_type, ErrorType::InvalidProposal);
    assert!(err.error_message.starts_with("Proposal invalid because of "));
}

#[test]
fn invalid_proposal_error_message() {
    let e = idkg::proposals::invalid_proposal_error("a malformed payload");
    assert_eq!(e.error_message, "Proposal invalid because of a malformed payload");
}

#[test]
fn retrieve_eth_status_rendering() {
    let tx = EthTransaction { transaction_hash: "0xdeadbeef".to_string() };
    assert_eq!(RetrieveEthStatus::NotFound.status_string(), "Not Found");
    assert_eq!(RetrieveEthStatus::Pending.status_string(), "Pending");
    assert_eq!(RetrieveEthStatus::TxCreated.status_string(), "Created");
    assert_eq!(
        RetrieveEthStatus::TxSent(tx.clone()).status_string(),
        "Sent(0xdeadbeef)"
    );
    assert_eq!(
        RetrieveEthStatus::TxFinalized(TxFinalizedStatus::Success(tx.clone())).status_string(),
        "Confirmed(0xdeadbeef)"
    );
    assert_eq!(
        RetrieveEthStatus::TxFinalized(TxFinalizedStatus::PendingReimbursement(tx))
            .status_string(),
        "PendingReimbursement(0xdeadbeef)"
    );
    assert_eq!(
        RetrieveEthStatus::TxFinalized(TxFinalizedStatus::Reimbursed {
            transaction_hash: "0xdeadbeef".to_string(),
            reimbursed_amount: 1500,
            reimbursed_in_block: 42,
        })
        .status_string(),
        "Failure(0xdeadbeef, reimbursed: 1500 Wei in block: 42)"
    );
}

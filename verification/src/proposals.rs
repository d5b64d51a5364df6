//! Governance checks on proposals that manage canisters.
//!
//! A canister-management proposal is routed to the protocol-canister topic
//! exactly when its target is one of the protocol canisters. That set is a
//! deployment constant of the registry; the embedder hands it in as plain
//! canister identifiers (principal bytes), and the decision is verified for
//! whatever set it supplies.

use vstd::prelude::*;
use vstd::string::StringExecFns;

verus! {

/// A proposal topic, as far as canister management is concerned.
#[derive(Clone, Copy, PartialEq, Eq, Structural, Debug)]
pub enum Topic {
    ProtocolCanisterManagement,
}

/// Why a proposal was rejected.
#[derive(Clone, Copy, PartialEq, Eq, Structural, Debug)]
pub enum ErrorType {
    InvalidProposal,
}

/// A governance error: its type and a human-readable message.
#[derive(Clone, PartialEq, Eq, Debug)]
pub struct GovernanceError {
    pub error_type: ErrorType,
    pub error_message: String,
}

/// Whether `ids` holds an identifier with the bytes of `id`.
pub open spec fn contains_id(ids: Seq<Vec<u8>>, id: Seq<u8>) -> bool {
    exists|i: int| 0 <= i < ids.len() && ids[i]@ == id
}

/// Byte-wise equality of two identifiers.
fn bytes_eq(a: &Vec<u8>, b: &Vec<u8>) -> (r: bool)
    ensures
        r == (a@ == b@),
{
    if a.len() != b.len() {
        return false;
    }
    let mut i: usize = 0;
    while i < a.len()
        invariant
            i <= a@.len(),
            a@.len() == b@.len(),
            forall|k: int| 0 <= k < i ==> a@[k] == b@[k],
        decreases a@.len() - i,
    {
        if a[i] != b[i] {
            return false;
        }
        i = i + 1;
    }
    proof {
        assert(a@ =~= b@);
    }
    true
}

/// The message of an invalid-proposal error for this reason.
pub open spec fn invalid_proposal_message(reason: Seq<char>) -> Seq<char> {
    "Proposal invalid because of "@ + reason
}

/// Builds the error every invalid proposal is rejected with: the
/// invalid-proposal type, and a message naming the reason.
pub fn invalid_proposal_error(reason: &str) -> (r: GovernanceError)
    ensures
        r.error_type == ErrorType::InvalidProposal,
        r.error_message@ == invalid_proposal_message(reason@),
{
    let mut message = "Proposal invalid because of ".to_owned();
    message.append(reason);
    GovernanceError { error_type: ErrorType::InvalidProposal, error_message: message }
}

/// Routes a canister-management proposal: the protocol-canister topic
/// exactly when the target is one of the protocol canisters, and the
/// invalid-proposal error naming the target otherwise.
pub fn topic_to_manage_canister(
    protocol_canister_ids: &Vec<Vec<u8>>,
    canister_id: &Vec<u8>,
) -> (r: Result<Topic, GovernanceError>)
    ensures
        contains_id(protocol_canister_ids@, canister_id@) <==> r is Ok,
        match r {
            Ok(t) => t == Topic::ProtocolCanisterManagement,
            Err(e) => e.error_type == ErrorType::InvalidProposal,
        },
{
    let mut i: usize = 0;
    while i < protocol_canister_ids.len()
        invariant
            i <= protocol_canister_ids@.len(),
            forall|k: int| 0 <= k < i ==> (#[trigger] protocol_canister_ids@[k])@
                != canister_id@,
        decreases protocol_canister_ids@.len() - i,
    {
        if bytes_eq(&protocol_canister_ids[i], canister_id) {
            return Ok(Topic::ProtocolCanisterManagement);
        }
        i = i + 1;
    }
    Err(invalid_proposal_error("a canister id that is not a protocol canister"))
}

} // verus!

//! The system-wide laws of the pool state machine, stated and proved over
//! the sub-engines' change-set specifications: uniqueness of validated
//! artifacts, gated promotion, and removal of stale artifacts.

use vstd::prelude::*;

use crate::block_reader::{CertifiedStateSnapshot, IDkgBlockReader};
use crate::complaints::{complaint_handler_spec, purge_complaints_spec, stale};
use crate::crypto::CryptoOracle;
use crate::pool::{
    drop_msg, has_key, has_msg, step_unvalidated, step_validated, unvalidated_after,
    validated_after, IDkgChangeAction, IDkgPool,
};
use crate::idkg::driver_changeset;
use crate::pre_signer::{pre_signer_spec, purge_dealings_spec};
use crate::signer::{purge_shares_spec, share_stale, signer_spec};
use crate::types::{lemma_msg_eq_equivalence, msg_eq, same_key, IDkgMessage};

verus! {

// ---------------------------------------------------------------------------
// Uniqueness.
// ---------------------------------------------------------------------------
/// No two distinct validated messages of a well-formed pool share their
/// uniqueness key: at most one validated dealing per (config, dealer), one
/// support per (config, dealer, supporter), one share per (request, signer),
/// one complaint per (transcript, complainer), one opening per (transcript,
/// complainer, opener). Applying any change set preserves this.
pub proof fn lemma_validated_uniqueness(pool: IDkgPool, i: int, j: int)
    requires
        pool.wf(),
        0 <= i < pool.validated@.len(),
        0 <= j < pool.validated@.len(),
        i != j,
    ensures
        !same_key(pool.validated@[i], pool.validated@[j]),
{
    crate::types::lemma_msg_eq_same_key(pool.validated@[i], pool.validated@[j]);
}

// ---------------------------------------------------------------------------
// Machinery: how change sets move messages.
// ---------------------------------------------------------------------------
/// Whether an action inserts a message equal to `m` into the validated bag.
pub open spec fn adds_like(a: IDkgChangeAction, m: IDkgMessage) -> bool {
    match a {
        IDkgChangeAction::AddToValidated(x) => msg_eq(x, m),
        IDkgChangeAction::MoveToValidated(x) => msg_eq(x, m),
        _ => false,
    }
}

/// Whether an action removes messages equal to `m` from the validated bag.
pub open spec fn removes_validated_like(a: IDkgChangeAction, m: IDkgMessage) -> bool {
    match a {
        IDkgChangeAction::RemoveValidated(x) => msg_eq(x, m),
        _ => false,
    }
}

/// Whether an action removes messages equal to `m` from the unvalidated bag.
pub open spec fn drops_unvalidated_like(a: IDkgChangeAction, m: IDkgMessage) -> bool {
    match a {
        IDkgChangeAction::MoveToValidated(x) => msg_eq(x, m),
        IDkgChangeAction::RemoveUnvalidated(x) => msg_eq(x, m),
        IDkgChangeAction::HandleInvalid(x) => msg_eq(x, m),
        _ => false,
    }
}

/// Applying a concatenation applies the parts in order.
pub proof fn lemma_validated_after_concat(
    v: Seq<IDkgMessage>,
    cs1: Seq<IDkgChangeAction>,
    cs2: Seq<IDkgChangeAction>,
)
    ensures
        validated_after(v, cs1 + cs2) == validated_after(validated_after(v, cs1), cs2),
    decreases cs2.len(),
{
    if cs2.len() == 0 {
        assert(cs1 + cs2 =~= cs1);
    } else {
        lemma_validated_after_concat(v, cs1, cs2.drop_last());
        assert((cs1 + cs2).drop_last() =~= cs1 + cs2.drop_last());
        assert((cs1 + cs2).last() == cs2.last());
    }
}

/// Applying a concatenation applies the parts in order.
pub proof fn lemma_unvalidated_after_concat(
    u: Seq<IDkgMessage>,
    cs1: Seq<IDkgChangeAction>,
    cs2: Seq<IDkgChangeAction>,
)
    ensures
        unvalidated_after(u, cs1 + cs2) == unvalidated_after(unvalidated_after(u, cs1), cs2),
    decreases cs2.len(),
{
    if cs2.len() == 0 {
        assert(cs1 + cs2 =~= cs1);
    } else {
        lemma_unvalidated_after_concat(u, cs1, cs2.drop_last());
        assert((cs1 + cs2).drop_last() =~= cs1 + cs2.drop_last());
        assert((cs1 + cs2).last() == cs2.last());
    }
}

/// Removing by an equal witness removes every occurrence of `m`.
pub proof fn lemma_drop_kills(v: Seq<IDkgMessage>, x: IDkgMessage, m: IDkgMessage)
    requires
        msg_eq(x, m),
    ensures
        !has_msg(drop_msg(v, x), m),
{
    crate::pool::lemma_drop_msg_sub(v, x);
    if has_msg(drop_msg(v, x), m) {
        let i = choose|i: int| 0 <= i < drop_msg(v, x).len() && msg_eq(drop_msg(v, x)[i], m);
        lemma_msg_eq_equivalence(x, m, m);
        lemma_msg_eq_equivalence(drop_msg(v, x)[i], m, x);
        assert(has_msg(drop_msg(v, x), x));
    }
}

/// A step that does not insert `m` cannot make it appear in the validated
/// bag.
pub proof fn lemma_step_validated_no_reintro(
    v: Seq<IDkgMessage>,
    a: IDkgChangeAction,
    m: IDkgMessage,
)
    requires
        !has_msg(v, m),
        !adds_like(a, m),
    ensures
        !has_msg(step_validated(v, a), m),
{
    match a {
        IDkgChangeAction::AddToValidated(x) => {
            if !has_key(v, x) && has_msg(v.push(x), m) {
                let i = choose|i: int| 0 <= i < v.push(x).len() && msg_eq(v.push(x)[i], m);
                if i < v.len() {
                    assert(has_msg(v, m));
                }
            }
        }
        IDkgChangeAction::MoveToValidated(x) => {
            if !has_key(v, x) && has_msg(v.push(x), m) {
                let i = choose|i: int| 0 <= i < v.push(x).len() && msg_eq(v.push(x)[i], m);
                if i < v.len() {
                    assert(has_msg(v, m));
                }
            }
        }
        IDkgChangeAction::RemoveValidated(x) => {
            crate::pool::lemma_drop_msg_sub(v, x);
        }
        _ => {}
    }
}

/// A change set with no insert of `m` cannot make it appear.
pub proof fn lemma_validated_no_adds(
    v: Seq<IDkgMessage>,
    cs: Seq<IDkgChangeAction>,
    m: IDkgMessage,
)
    requires
        !has_msg(v, m),
        forall|k: int| 0 <= k < cs.len() ==> !adds_like(#[trigger] cs[k], m),
    ensures
        !has_msg(validated_after(v, cs), m),
    decreases cs.len(),
{
    if cs.len() > 0 {
        assert(forall|k: int| 0 <= k < cs.drop_last().len() ==> !adds_like(
            #[trigger] cs.drop_last()[k],
            m,
        )) by {
            assert(forall|k: int|
                0 <= k < cs.len() - 1 ==> cs.drop_last()[k] == #[trigger] cs[k]);
        }
        lemma_validated_no_adds(v, cs.drop_last(), m);
        assert(!adds_like(cs.last(), m)) by {
            assert(cs.last() == cs[cs.len() - 1]);
        }
        lemma_step_validated_no_reintro(validated_after(v, cs.drop_last()), cs.last(), m);
    }
}

/// If some action of `cs` removes `m` from the validated bag and no later
/// action re-inserts it, `m` is gone after the whole change set.
pub proof fn lemma_validated_removal_sticks(
    v: Seq<IDkgMessage>,
    cs: Seq<IDkgChangeAction>,
    m: IDkgMessage,
    k: int,
)
    requires
        0 <= k < cs.len(),
        removes_validated_like(cs[k], m),
        forall|j: int| k < j < cs.len() ==> !adds_like(#[trigger] cs[j], m),
    ensures
        !has_msg(validated_after(v, cs), m),
    decreases cs.len(),
{
    if k == cs.len() - 1 {
        match cs.last() {
            IDkgChangeAction::RemoveValidated(x) => {
                lemma_drop_kills(validated_after(v, cs.drop_last()), x, m);
            }
            _ => {}
        }
    } else {
        assert(forall|j: int|
            k < j < cs.drop_last().len() ==> !adds_like(#[trigger] cs.drop_last()[j], m)) by {
            assert(forall|j: int|
                0 <= j < cs.len() - 1 ==> cs.drop_last()[j] == #[trigger] cs[j]);
        }
        assert(removes_validated_like(cs.drop_last()[k], m));
        lemma_validated_removal_sticks(v, cs.drop_last(), m, k);
        assert(!adds_like(cs.last(), m)) by {
            assert(cs.last() == cs[cs.len() - 1]);
        }
        lemma_step_validated_no_reintro(validated_after(v, cs.drop_last()), cs.last(), m);
    }
}

/// A step that does not drop `m` leaves its presence in the unvalidated bag
/// unchanged; no step ever inserts there.
pub proof fn lemma_step_unvalidated(u: Seq<IDkgMessage>, a: IDkgChangeAction, m: IDkgMessage)
    ensures
        !has_msg(u, m) ==> !has_msg(step_unvalidated(u, a), m),
        drops_unvalidated_like(a, m) ==> !has_msg(step_unvalidated(u, a), m),
    decreases 0int,
{
    match a {
        IDkgChangeAction::MoveToValidated(x) => {
            crate::pool::lemma_drop_msg_sub(u, x);
            if msg_eq(x, m) {
                lemma_drop_kills(u, x, m);
            }
        }
        IDkgChangeAction::RemoveUnvalidated(x) => {
            crate::pool::lemma_drop_msg_sub(u, x);
            if msg_eq(x, m) {
                lemma_drop_kills(u, x, m);
            }
        }
        IDkgChangeAction::HandleInvalid(x) => {
            crate::pool::lemma_drop_msg_sub(u, x);
            if msg_eq(x, m) {
                lemma_drop_kills(u, x, m);
            }
        }
        _ => {}
    }
}

/// If some action of `cs` drops `m` from the unvalidated bag, `m` is gone
/// after the whole change set: nothing ever inserts there.
pub proof fn lemma_unvalidated_removal_sticks(
    u: Seq<IDkgMessage>,
    cs: Seq<IDkgChangeAction>,
    m: IDkgMessage,
    k: int,
)
    requires
        0 <= k < cs.len(),
        drops_unvalidated_like(cs[k], m),
    ensures
        !has_msg(unvalidated_after(u, cs), m),
    decreases cs.len(),
{
    if k == cs.len() - 1 {
        assert(cs.last() == cs[cs.len() - 1]);
        lemma_step_unvalidated(unvalidated_after(u, cs.drop_last()), cs.last(), m);
    } else {
        assert(drops_unvalidated_like(cs.drop_last()[k], m));
        lemma_unvalidated_removal_sticks(u, cs.drop_last(), m, k);
        lemma_step_unvalidated(unvalidated_after(u, cs.drop_last()), cs.last(), m);
    }
}

/// A message absent from the unvalidated bag stays absent under any change
/// set: no action inserts there.
pub proof fn lemma_unvalidated_absent_stays(
    u: Seq<IDkgMessage>,
    cs: Seq<IDkgChangeAction>,
    m: IDkgMessage,
)
    requires
        !has_msg(u, m),
    ensures
        !has_msg(unvalidated_after(u, cs), m),
    decreases cs.len(),
{
    if cs.len() > 0 {
        lemma_unvalidated_absent_stays(u, cs.drop_last(), m);
        lemma_step_unvalidated(unvalidated_after(u, cs.drop_last()), cs.last(), m);
    }
}

// ---------------------------------------------------------------------------
// Shapes of the engines' passes.
// ---------------------------------------------------------------------------
/// Every action of `cs` satisfies `p`.
pub open spec fn all_actions(
    cs: Seq<IDkgChangeAction>,
    p: spec_fn(IDkgChangeAction) -> bool,
) -> bool {
    forall|k: int| 0 <= k < cs.len() ==> p(#[trigger] cs[k])
}

/// `all_actions` distributes over concatenation.
pub proof fn lemma_all_actions_concat(
    s1: Seq<IDkgChangeAction>,
    s2: Seq<IDkgChangeAction>,
    p: spec_fn(IDkgChangeAction) -> bool,
)
    requires
        all_actions(s1, p),
        all_actions(s2, p),
    ensures
        all_actions(s1 + s2, p),
{
    assert forall|k: int| 0 <= k < (s1 + s2).len() implies p(#[trigger] (s1 + s2)[k]) by {
        if k < s1.len() {
            assert((s1 + s2)[k] == s1[k]);
        } else {
            assert((s1 + s2)[k] == s2[k - s1.len()]);
        }
    }
}

/// An action inserts into the validated bag, created by this replica.
pub open spec fn is_add(a: IDkgChangeAction) -> bool {
    a is AddToValidated
}

/// An action only removes; it inserts nowhere.
pub open spec fn is_removal(a: IDkgChangeAction) -> bool {
    ||| a is RemoveValidated
    ||| a is RemoveUnvalidated
    ||| a is HandleInvalid
}

/// Complaint insertions are insertions.
pub proof fn lemma_complaint_additions_adds(v: Seq<IDkgMessage>, cs: Seq<crate::types::SignedComplaint>)
    ensures
        all_actions(crate::complaints::complaint_additions(v, cs), |a: IDkgChangeAction| is_add(a)),
    decreases cs.len(),
{
    if cs.len() > 0 {
        lemma_complaint_additions_adds(v, cs.drop_last());
    }
}

/// The create-dealings pass only inserts.
pub proof fn lemma_create_dealings_adds<C: CryptoOracle>(
    c: C,
    br: IDkgBlockReader,
    v: Seq<IDkgMessage>,
    node: u64,
    quorum: u64,
    configs: Seq<crate::types::IDkgTranscriptParams>,
)
    ensures
        all_actions(crate::pre_signer::create_dealings_spec(c, br, v, node, quorum, configs), |a: IDkgChangeAction| is_add(a)),
    decreases configs.len(),
{
    if configs.len() > 0 {
        lemma_create_dealings_adds(c, br, v, node, quorum, configs.drop_first());
        match crate::complaints::load_deps_spec(
            c,
            br,
            v,
            node,
            quorum,
            configs.first().operation.deps_spec(),
        ) {
            crate::complaints::LoadOutcome::Blocked(cs) => {
                lemma_complaint_additions_adds(v, cs);
            }
            _ => {}
        }
        lemma_all_actions_concat(
            crate::pre_signer::create_for_config_spec(c, br, v, node, quorum, configs.first()),
            crate::pre_signer::create_dealings_spec(
                c,
                br,
                v,
                node,
                quorum,
                configs.drop_first(),
            ),
            |a: IDkgChangeAction| is_add(a),
        );
    }
}

/// The create-shares pass only inserts.
pub proof fn lemma_create_shares_adds<C: CryptoOracle>(
    c: C,
    br: IDkgBlockReader,
    v: Seq<IDkgMessage>,
    node: u64,
    quorum: u64,
    ctxs: Seq<crate::block_reader::SignatureRequestContext>,
)
    ensures
        all_actions(crate::signer::create_shares_spec(c, br, v, node, quorum, ctxs), |a: IDkgChangeAction| is_add(a)),
    decreases ctxs.len(),
{
    if ctxs.len() > 0 {
        lemma_create_shares_adds(c, br, v, node, quorum, ctxs.drop_first());
        match crate::block_reader::context_request_id_spec(ctxs.first()) {
            Some(rid) => {
                match crate::signer::first_pre_signature(br.pre_signatures@, rid.pre_signature_id) {
                    Some(p) => {
                        match crate::complaints::load_deps_spec(
                            c,
                            br,
                            v,
                            node,
                            quorum,
                            crate::signer::pre_sig_refs(p),
                        ) {
                            crate::complaints::LoadOutcome::Blocked(cs) => {
                                lemma_complaint_additions_adds(v, cs);
                            }
                            _ => {}
                        }
                    }
                    None => {}
                }
            }
            None => {}
        }
        lemma_all_actions_concat(
            crate::signer::create_for_context_spec(c, br, v, node, quorum, ctxs.first()),
            crate::signer::create_shares_spec(c, br, v, node, quorum, ctxs.drop_first()),
            |a: IDkgChangeAction| is_add(a),
        );
    }
}

/// The opening-emission pass only inserts.
pub proof fn lemma_send_openings_adds<C: CryptoOracle>(
    c: C,
    br: IDkgBlockReader,
    v_all: Seq<IDkgMessage>,
    entries: Seq<IDkgMessage>,
    node: u64,
)
    ensures
        all_actions(crate::complaints::send_openings_spec(c, br, v_all, entries, node), |a: IDkgChangeAction| is_add(a)),
    decreases entries.len(),
{
    if entries.len() > 0 {
        lemma_send_openings_adds(c, br, v_all, entries.drop_first(), node);
    }
}

/// The support-issuing pass only inserts.
pub proof fn lemma_send_support_adds<C: CryptoOracle>(
    c: C,
    br: IDkgBlockReader,
    v_all: Seq<IDkgMessage>,
    entries: Seq<IDkgMessage>,
    node: u64,
)
    ensures
        all_actions(crate::pre_signer::send_support_spec(c, br, v_all, entries, node), |a: IDkgChangeAction| is_add(a)),
    decreases entries.len(),
{
    if entries.len() > 0 {
        lemma_send_support_adds(c, br, v_all, entries.drop_first(), node);
    }
}

/// The purge passes only remove.
pub proof fn lemma_purge_dealings_removals(
    br: IDkgBlockReader,
    entries: Seq<IDkgMessage>,
    validated: bool,
)
    ensures
        all_actions(purge_dealings_spec(br, entries, validated), |a: IDkgChangeAction| is_removal(a)),
    decreases entries.len(),
{
    if entries.len() > 0 {
        lemma_purge_dealings_removals(br, entries.drop_first(), validated);
    }
}

/// The purge passes only remove.
pub proof fn lemma_purge_complaints_removals(
    br: IDkgBlockReader,
    entries: Seq<IDkgMessage>,
    validated: bool,
)
    ensures
        all_actions(purge_complaints_spec(br, entries, validated), |a: IDkgChangeAction| is_removal(a)),
    decreases entries.len(),
{
    if entries.len() > 0 {
        lemma_purge_complaints_removals(br, entries.drop_first(), validated);
    }
}

/// The purge passes only remove.
pub proof fn lemma_purge_shares_removals(
    st: CertifiedStateSnapshot,
    entries: Seq<IDkgMessage>,
    validated: bool,
)
    ensures
        all_actions(purge_shares_spec(st, entries, validated), |a: IDkgChangeAction| is_removal(a)),
    decreases entries.len(),
{
    if entries.len() > 0 {
        lemma_purge_shares_removals(st, entries.drop_first(), validated);
    }
}

/// Weakening: a property of every action follows from a stronger one.
pub proof fn lemma_all_actions_weaken(
    cs: Seq<IDkgChangeAction>,
    p: spec_fn(IDkgChangeAction) -> bool,
    q: spec_fn(IDkgChangeAction) -> bool,
)
    requires
        all_actions(cs, p),
        forall|a: IDkgChangeAction| #[trigger] p(a) ==> q(a),
    ensures
        all_actions(cs, q),
{
    assert forall|k: int| 0 <= k < cs.len() implies q(#[trigger] cs[k]) by {
        assert(p(cs[k]));
    }
}

/// Weakening from two properties of every action.
pub proof fn lemma_all_actions_weaken2(
    cs: Seq<IDkgChangeAction>,
    p1: spec_fn(IDkgChangeAction) -> bool,
    p2: spec_fn(IDkgChangeAction) -> bool,
    q: spec_fn(IDkgChangeAction) -> bool,
)
    requires
        all_actions(cs, p1),
        all_actions(cs, p2),
        forall|a: IDkgChangeAction| #[trigger] p1(a) && p2(a) ==> q(a),
    ensures
        all_actions(cs, q),
{
    assert forall|k: int| 0 <= k < cs.len() implies q(#[trigger] cs[k]) by {
        assert(p1(cs[k]));
        assert(p2(cs[k]));
    }
}

/// No promotion in a batch of insertions and removals, and no insertion in
/// a validation pass: the validation passes promote and discard, nothing
/// else.
pub proof fn lemma_validate_passes_no_adds<C: CryptoOracle>(
    c: C,
    br: IDkgBlockReader,
    st: CertifiedStateSnapshot,
    v: Seq<IDkgMessage>,
    u: Seq<IDkgMessage>,
    moved: Seq<IDkgMessage>,
)
    ensures
        all_actions(
            crate::pre_signer::validate_dealings_spec(c, br, v, u, moved),
            |a: IDkgChangeAction| !is_add(a),
        ),
        all_actions(
            crate::pre_signer::validate_support_spec(c, br, v, u, moved),
            |a: IDkgChangeAction| !is_add(a),
        ),
        all_actions(
            crate::complaints::validate_complaints_spec(c, br, v, u, moved),
            |a: IDkgChangeAction| !is_add(a),
        ),
        all_actions(
            crate::complaints::validate_openings_spec(c, br, v, u, moved),
            |a: IDkgChangeAction| !is_add(a),
        ),
        all_actions(
            crate::signer::validate_shares_spec(c, st, v, u, moved),
            |a: IDkgChangeAction| !is_add(a),
        ),
    decreases u.len(),
{
    if u.len() > 0 {
        let m = u.first();
        lemma_validate_passes_no_adds(c, br, st, v, u.drop_first(), moved);
        lemma_validate_passes_no_adds(c, br, st, v, u.drop_first(), moved.push(m));
    }
}

// ---------------------------------------------------------------------------
// Gated validation.
// ---------------------------------------------------------------------------
/// What the pre-signer may promote: only dealings and support whose config
/// is requested at the tip.
pub open spec fn pre_move_gated(a: IDkgChangeAction, br: IDkgBlockReader) -> bool {
    match a {
        IDkgChangeAction::MoveToValidated(m) => match m {
            IDkgMessage::Dealing(d) => br.is_requested(d.transcript_id),
            IDkgMessage::DealingSupport(s) => br.is_requested(s.transcript_id),
            _ => false,
        },
        _ => true,
    }
}

/// What the complaint handler may promote: only complaints and openings
/// whose transcript's config is requested at the tip.
pub open spec fn ch_move_gated(a: IDkgChangeAction, br: IDkgBlockReader) -> bool {
    match a {
        IDkgChangeAction::MoveToValidated(m) => match m {
            IDkgMessage::Complaint(c) => br.is_requested(c.transcript_id),
            IDkgMessage::Opening(o) => br.is_requested(o.transcript_id),
            _ => false,
        },
        _ => true,
    }
}

/// What the signer may promote: only shares whose request still stands in
/// the certified state.
pub open spec fn signer_move_gated(a: IDkgChangeAction, st: CertifiedStateSnapshot) -> bool {
    match a {
        IDkgChangeAction::MoveToValidated(m) => match m {
            IDkgMessage::EcdsaSigShare(s) => st.is_requested(s.request_id),
            IDkgMessage::SchnorrSigShare(s) => st.is_requested(s.request_id),
            _ => false,
        },
        _ => true,
    }
}

/// Every promotion of the dealing-validation pass is gated.
pub proof fn lemma_validate_dealings_gated<C: CryptoOracle>(
    c: C,
    br: IDkgBlockReader,
    v: Seq<IDkgMessage>,
    u: Seq<IDkgMessage>,
    moved: Seq<IDkgMessage>,
)
    ensures
        all_actions(
            crate::pre_signer::validate_dealings_spec(c, br, v, u, moved),
            |a: IDkgChangeAction| pre_move_gated(a, br),
        ),
    decreases u.len(),
{
    if u.len() > 0 {
        let m = u.first();
        match m {
            IDkgMessage::Dealing(d) => {
                if br.is_requested(d.transcript_id) && !has_key(v, m) && !has_key(moved, m)
                    && c.dealing_public_ok(d) {
                    lemma_validate_dealings_gated(c, br, v, u.drop_first(), moved.push(m));
                } else {
                    lemma_validate_dealings_gated(c, br, v, u.drop_first(), moved);
                }
            }
            _ => {
                lemma_validate_dealings_gated(c, br, v, u.drop_first(), moved);
            }
        }
    }
}

/// Every promotion of the support-validation pass is gated.
pub proof fn lemma_validate_support_gated<C: CryptoOracle>(
    c: C,
    br: IDkgBlockReader,
    v: Seq<IDkgMessage>,
    u: Seq<IDkgMessage>,
    moved: Seq<IDkgMessage>,
)
    ensures
        all_actions(
            crate::pre_signer::validate_support_spec(c, br, v, u, moved),
            |a: IDkgChangeAction| pre_move_gated(a, br),
        ),
    decreases u.len(),
{
    if u.len() > 0 {
        let m = u.first();
        match m {
            IDkgMessage::DealingSupport(s) => {
                if br.is_requested(s.transcript_id) && !has_key(v, m) && !has_key(moved, m)
                    && c.support_ok(s) {
                    lemma_validate_support_gated(c, br, v, u.drop_first(), moved.push(m));
                } else {
                    lemma_validate_support_gated(c, br, v, u.drop_first(), moved);
                }
            }
            _ => {
                lemma_validate_support_gated(c, br, v, u.drop_first(), moved);
            }
        }
    }
}

/// Gated validation for the pre-signer: whatever the crypto verdicts,
/// every artifact its tick promotes to validated refers to a config that is
/// requested at the finalized tip.
pub proof fn lemma_pre_signer_gated<C: CryptoOracle>(
    c: C,
    br: IDkgBlockReader,
    pool: IDkgPool,
    node: u64,
    quorum: u64,
)
    ensures
        all_actions(
            pre_signer_spec(c, br, pool, node, quorum),
            |a: IDkgChangeAction| pre_move_gated(a, br),
        ),
{
    let v = pool.validated@;
    let u = pool.unvalidated@;
    let p = |a: IDkgChangeAction| pre_move_gated(a, br);
    lemma_create_dealings_adds(c, br, v, node, quorum, br.requested@);
    lemma_all_actions_weaken(
        crate::pre_signer::create_dealings_spec(c, br, v, node, quorum, br.requested@),
        |a: IDkgChangeAction| is_add(a),
        p,
    );
    lemma_validate_dealings_gated(c, br, v, u, Seq::empty());
    lemma_send_support_adds(c, br, v, v, node);
    lemma_all_actions_weaken(
        crate::pre_signer::send_support_spec(c, br, v, v, node),
        |a: IDkgChangeAction| is_add(a),
        p,
    );
    lemma_validate_support_gated(c, br, v, u, Seq::empty());
    lemma_purge_dealings_removals(br, u, false);
    lemma_all_actions_weaken(
        purge_dealings_spec(br, u, false),
        |a: IDkgChangeAction| is_removal(a),
        p,
    );
    lemma_purge_dealings_removals(br, v, true);
    lemma_all_actions_weaken(
        purge_dealings_spec(br, v, true),
        |a: IDkgChangeAction| is_removal(a),
        p,
    );
    let a1 = crate::pre_signer::create_dealings_spec(c, br, v, node, quorum, br.requested@);
    let a2 = crate::pre_signer::validate_dealings_spec(c, br, v, u, Seq::empty());
    let a3 = crate::pre_signer::send_support_spec(c, br, v, v, node);
    let a4 = crate::pre_signer::validate_support_spec(c, br, v, u, Seq::empty());
    let a5 = purge_dealings_spec(br, u, false);
    let a6 = purge_dealings_spec(br, v, true);
    lemma_all_actions_concat(a1, a2, p);
    lemma_all_actions_concat(a1 + a2, a3, p);
    lemma_all_actions_concat(a1 + a2 + a3, a4, p);
    lemma_all_actions_concat(a1 + a2 + a3 + a4, a5, p);
    lemma_all_actions_concat(a1 + a2 + a3 + a4 + a5, a6, p);
}

/// Every promotion of the complaint-validation pass is gated.
pub proof fn lemma_validate_complaints_gated<C: CryptoOracle>(
    c: C,
    br: IDkgBlockReader,
    v: Seq<IDkgMessage>,
    u: Seq<IDkgMessage>,
    moved: Seq<IDkgMessage>,
)
    ensures
        all_actions(
            crate::complaints::validate_complaints_spec(c, br, v, u, moved),
            |a: IDkgChangeAction| ch_move_gated(a, br),
        ),
    decreases u.len(),
{
    if u.len() > 0 {
        let m = u.first();
        match m {
            IDkgMessage::Complaint(cp) => {
                if br.is_requested(cp.transcript_id) && !has_key(v, m) && !has_key(moved, m)
                    && c.complaint_ok(cp) {
                    lemma_validate_complaints_gated(c, br, v, u.drop_first(), moved.push(m));
                } else {
                    lemma_validate_complaints_gated(c, br, v, u.drop_first(), moved);
                }
            }
            _ => {
                lemma_validate_complaints_gated(c, br, v, u.drop_first(), moved);
            }
        }
    }
}

/// Every promotion of the opening-validation pass is gated.
pub proof fn lemma_validate_openings_gated<C: CryptoOracle>(
    c: C,
    br: IDkgBlockReader,
    v: Seq<IDkgMessage>,
    u: Seq<IDkgMessage>,
    moved: Seq<IDkgMessage>,
)
    ensures
        all_actions(
            crate::complaints::validate_openings_spec(c, br, v, u, moved),
            |a: IDkgChangeAction| ch_move_gated(a, br),
        ),
    decreases u.len(),
{
    if u.len() > 0 {
        let m = u.first();
        match m {
            IDkgMessage::Opening(o) => {
                if br.is_requested(o.transcript_id) && !has_key(v, m) && !has_key(moved, m)
                    && c.opening_ok(o) {
                    lemma_validate_openings_gated(c, br, v, u.drop_first(), moved.push(m));
                } else {
                    lemma_validate_openings_gated(c, br, v, u.drop_first(), moved);
                }
            }
            _ => {
                lemma_validate_openings_gated(c, br, v, u.drop_first(), moved);
            }
        }
    }
}

/// Gated validation for the complaint handler: whatever the crypto
/// verdicts, every artifact its tick promotes refers to a requested config.
pub proof fn lemma_complaint_handler_gated<C: CryptoOracle>(
    c: C,
    br: IDkgBlockReader,
    pool: IDkgPool,
    node: u64,
)
    ensures
        all_actions(
            complaint_handler_spec(c, br, pool, node),
            |a: IDkgChangeAction| ch_move_gated(a, br),
        ),
{
    let v = pool.validated@;
    let u = pool.unvalidated@;
    let p = |a: IDkgChangeAction| ch_move_gated(a, br);
    lemma_validate_complaints_gated(c, br, v, u, Seq::empty());
    lemma_send_openings_adds(c, br, v, v, node);
    lemma_all_actions_weaken(
        crate::complaints::send_openings_spec(c, br, v, v, node),
        |a: IDkgChangeAction| is_add(a),
        p,
    );
    lemma_validate_openings_gated(c, br, v, u, Seq::empty());
    lemma_purge_complaints_removals(br, u, false);
    lemma_all_actions_weaken(
        purge_complaints_spec(br, u, false),
        |a: IDkgChangeAction| is_removal(a),
        p,
    );
    lemma_purge_complaints_removals(br, v, true);
    lemma_all_actions_weaken(
        purge_complaints_spec(br, v, true),
        |a: IDkgChangeAction| is_removal(a),
        p,
    );
    let b1 = crate::complaints::validate_complaints_spec(c, br, v, u, Seq::empty());
    let b2 = crate::complaints::send_openings_spec(c, br, v, v, node);
    let b3 = crate::complaints::validate_openings_spec(c, br, v, u, Seq::empty());
    let b4 = purge_complaints_spec(br, u, false);
    let b5 = purge_complaints_spec(br, v, true);
    lemma_all_actions_concat(b1, b2, p);
    lemma_all_actions_concat(b1 + b2, b3, p);
    lemma_all_actions_concat(b1 + b2 + b3, b4, p);
    lemma_all_actions_concat(b1 + b2 + b3 + b4, b5, p);
}

/// Every promotion of the share-validation pass is gated.
pub proof fn lemma_validate_shares_gated<C: CryptoOracle>(
    c: C,
    st: CertifiedStateSnapshot,
    v: Seq<IDkgMessage>,
    u: Seq<IDkgMessage>,
    moved: Seq<IDkgMessage>,
)
    ensures
        all_actions(
            crate::signer::validate_shares_spec(c, st, v, u, moved),
            |a: IDkgChangeAction| signer_move_gated(a, st),
        ),
    decreases u.len(),
{
    if u.len() > 0 {
        let m = u.first();
        match crate::signer::share_request(m) {
            Some(s) => {
                if st.is_requested(s.request_id) && !has_key(v, m) && !has_key(moved, m)
                    && c.share_ok(s) {
                    lemma_validate_shares_gated(c, st, v, u.drop_first(), moved.push(m));
                } else {
                    lemma_validate_shares_gated(c, st, v, u.drop_first(), moved);
                }
            }
            None => {
                lemma_validate_shares_gated(c, st, v, u.drop_first(), moved);
            }
        }
    }
}

/// Gated validation for the signer: whatever the crypto verdicts, every
/// share its tick promotes belongs to a request still standing in the
/// certified state.
pub proof fn lemma_signer_gated<C: CryptoOracle>(
    c: C,
    br: IDkgBlockReader,
    st: CertifiedStateSnapshot,
    pool: IDkgPool,
    node: u64,
    quorum: u64,
)
    ensures
        all_actions(
            signer_spec(c, br, Some(st), pool, node, quorum),
            |a: IDkgChangeAction| signer_move_gated(a, st),
        ),
{
    let v = pool.validated@;
    let u = pool.unvalidated@;
    let p = |a: IDkgChangeAction| signer_move_gated(a, st);
    lemma_create_shares_adds(c, br, v, node, quorum, st.contexts@);
    lemma_all_actions_weaken(
        crate::signer::create_shares_spec(c, br, v, node, quorum, st.contexts@),
        |a: IDkgChangeAction| is_add(a),
        p,
    );
    lemma_validate_shares_gated(c, st, v, u, Seq::empty());
    lemma_purge_shares_removals(st, u, false);
    lemma_all_actions_weaken(
        purge_shares_spec(st, u, false),
        |a: IDkgChangeAction| is_removal(a),
        p,
    );
    lemma_purge_shares_removals(st, v, true);
    lemma_all_actions_weaken(
        purge_shares_spec(st, v, true),
        |a: IDkgChangeAction| is_removal(a),
        p,
    );
    let s1 = crate::signer::create_shares_spec(c, br, v, node, quorum, st.contexts@);
    let s2 = crate::signer::validate_shares_spec(c, st, v, u, Seq::empty());
    let s3 = purge_shares_spec(st, u, false);
    let s4 = purge_shares_spec(st, v, true);
    lemma_all_actions_concat(s1, s2, p);
    lemma_all_actions_concat(s1 + s2, s3, p);
    lemma_all_actions_concat(s1 + s2 + s3, s4, p);
}

/// An arbitrary certified-state value, used where a pass does not read it.
pub open spec fn arbitrary_state() -> CertifiedStateSnapshot {
    arbitrary()
}

// ---------------------------------------------------------------------------
// Staleness.
// ---------------------------------------------------------------------------
/// A stale dealing or support message: its config left the requested set
/// and its source height does not lie beyond the tip.
pub open spec fn ds_stale(br: IDkgBlockReader, m: IDkgMessage) -> bool {
    match m {
        IDkgMessage::Dealing(d) => stale(br, d.transcript_id),
        IDkgMessage::DealingSupport(s) => stale(br, s.transcript_id),
        _ => false,
    }
}

/// A stale complaint or opening.
pub open spec fn co_stale(br: IDkgBlockReader, m: IDkgMessage) -> bool {
    match m {
        IDkgMessage::Complaint(c) => stale(br, c.transcript_id),
        IDkgMessage::Opening(o) => stale(br, o.transcript_id),
        _ => false,
    }
}

/// A stale signature share.
pub open spec fn sh_stale(st: CertifiedStateSnapshot, m: IDkgMessage) -> bool {
    match crate::signer::share_request(m) {
        Some(s) => share_stale(st, s),
        None => false,
    }
}

/// The purge pass over a bag that holds a stale dealing or support emits a
/// removal for it.
pub proof fn lemma_purge_dealings_covers(
    br: IDkgBlockReader,
    entries: Seq<IDkgMessage>,
    m: IDkgMessage,
    validated: bool,
)
    requires
        has_msg(entries, m),
        ds_stale(br, m),
    ensures
        exists|k: int|
            0 <= k < purge_dealings_spec(br, entries, validated).len() && (if validated {
                removes_validated_like(
                    #[trigger] purge_dealings_spec(br, entries, validated)[k],
                    m,
                )
            } else {
                drops_unvalidated_like(purge_dealings_spec(br, entries, validated)[k], m)
            }),
    decreases entries.len(),
{
    let first = entries.first();
    let p = purge_dealings_spec(br, entries, validated);
    let rest = purge_dealings_spec(br, entries.drop_first(), validated);
    if msg_eq(first, m) {
        assert(ds_stale(br, first));
        assert(p[0] == (if validated {
            IDkgChangeAction::RemoveValidated(first)
        } else {
            IDkgChangeAction::RemoveUnvalidated(first)
        }));
    } else {
        let i = choose|i: int| 0 <= i < entries.len() && msg_eq(entries[i], m);
        assert(entries.drop_first()[i - 1] == entries[i]);
        assert(has_msg(entries.drop_first(), m));
        lemma_purge_dealings_covers(br, entries.drop_first(), m, validated);
        let k = choose|k: int|
            0 <= k < rest.len() && (if validated {
                removes_validated_like(#[trigger] rest[k], m)
            } else {
                drops_unvalidated_like(rest[k], m)
            });
        if p.len() == rest.len() + 1 {
            assert(p[k + 1] == rest[k]);
        } else {
            assert(p[k] == rest[k]);
        }
    }
}

/// The purge pass over a bag that holds a stale complaint or opening emits
/// a removal for it.
pub proof fn lemma_purge_complaints_covers(
    br: IDkgBlockReader,
    entries: Seq<IDkgMessage>,
    m: IDkgMessage,
    validated: bool,
)
    requires
        has_msg(entries, m),
        co_stale(br, m),
    ensures
        exists|k: int|
            0 <= k < purge_complaints_spec(br, entries, validated).len() && (if validated {
                removes_validated_like(
                    #[trigger] purge_complaints_spec(br, entries, validated)[k],
                    m,
                )
            } else {
                drops_unvalidated_like(purge_complaints_spec(br, entries, validated)[k], m)
            }),
    decreases entries.len(),
{
    let first = entries.first();
    let p = purge_complaints_spec(br, entries, validated);
    let rest = purge_complaints_spec(br, entries.drop_first(), validated);
    if msg_eq(first, m) {
        assert(co_stale(br, first));
        assert(p[0] == (if validated {
            IDkgChangeAction::RemoveValidated(first)
        } else {
            IDkgChangeAction::RemoveUnvalidated(first)
        }));
    } else {
        let i = choose|i: int| 0 <= i < entries.len() && msg_eq(entries[i], m);
        assert(entries.drop_first()[i - 1] == entries[i]);
        assert(has_msg(entries.drop_first(), m));
        lemma_purge_complaints_covers(br, entries.drop_first(), m, validated);
        let k = choose|k: int|
            0 <= k < rest.len() && (if validated {
                removes_validated_like(#[trigger] rest[k], m)
            } else {
                drops_unvalidated_like(rest[k], m)
            });
        if p.len() == rest.len() + 1 {
            assert(p[k + 1] == rest[k]);
        } else {
            assert(p[k] == rest[k]);
        }
    }
}

/// The purge pass over a bag that holds a stale share emits a removal for
/// it.
pub proof fn lemma_purge_shares_covers(
    st: CertifiedStateSnapshot,
    entries: Seq<IDkgMessage>,
    m: IDkgMessage,
    validated: bool,
)
    requires
        has_msg(entries, m),
        sh_stale(st, m),
    ensures
        exists|k: int|
            0 <= k < purge_shares_spec(st, entries, validated).len() && (if validated {
                removes_validated_like(#[trigger] purge_shares_spec(st, entries, validated)[k], m)
            } else {
                drops_unvalidated_like(purge_shares_spec(st, entries, validated)[k], m)
            }),
    decreases entries.len(),
{
    let first = entries.first();
    let p = purge_shares_spec(st, entries, validated);
    let rest = purge_shares_spec(st, entries.drop_first(), validated);
    if msg_eq(first, m) {
        assert(sh_stale(st, first));
        assert(p[0] == (if validated {
            IDkgChangeAction::RemoveValidated(first)
        } else {
            IDkgChangeAction::RemoveUnvalidated(first)
        }));
    } else {
        let i = choose|i: int| 0 <= i < entries.len() && msg_eq(entries[i], m);
        assert(entries.drop_first()[i - 1] == entries[i]);
        assert(has_msg(entries.drop_first(), m));
        lemma_purge_shares_covers(st, entries.drop_first(), m, validated);
        let k = choose|k: int|
            0 <= k < rest.len() && (if validated {
                removes_validated_like(#[trigger] rest[k], m)
            } else {
                drops_unvalidated_like(rest[k], m)
            });
        if p.len() == rest.len() + 1 {
            assert(p[k + 1] == rest[k]);
        } else {
            assert(p[k] == rest[k]);
        }
    }
}

/// Staleness for the pre-signer: a stale dealing or support that stands in
/// either bag is gone once the pre-signer's tick is applied.
pub proof fn lemma_pre_signer_removes_stale<C: CryptoOracle>(
    c: C,
    br: IDkgBlockReader,
    pool: IDkgPool,
    node: u64,
    quorum: u64,
    m: IDkgMessage,
)
    requires
        ds_stale(br, m),
    ensures
        !has_msg(
            validated_after(pool.validated@, pre_signer_spec(c, br, pool, node, quorum)),
            m,
        ),
        !has_msg(
            unvalidated_after(pool.unvalidated@, pre_signer_spec(c, br, pool, node, quorum)),
            m,
        ),
{
    let v = pool.validated@;
    let u = pool.unvalidated@;
    let a1 = crate::pre_signer::create_dealings_spec(c, br, v, node, quorum, br.requested@);
    let a2 = crate::pre_signer::validate_dealings_spec(c, br, v, u, Seq::empty());
    let a3 = crate::pre_signer::send_support_spec(c, br, v, v, node);
    let a4 = crate::pre_signer::validate_support_spec(c, br, v, u, Seq::empty());
    let a5 = purge_dealings_spec(br, u, false);
    let a6 = purge_dealings_spec(br, v, true);
    let full = pre_signer_spec(c, br, pool, node, quorum);
    let prefix = a1 + a2 + a3 + a4 + a5;
    assert(full == prefix + a6);

    // Validated bag.
    lemma_validated_after_concat(v, prefix, a6);
    lemma_purge_dealings_removals(br, v, true);
    if has_msg(v, m) {
        lemma_purge_dealings_covers(br, v, m, true);
        let k = choose|k: int| 0 <= k < a6.len() && removes_validated_like(#[trigger] a6[k], m);
        assert forall|j: int| k < j < a6.len() implies !adds_like(#[trigger] a6[j], m) by {
            assert(is_removal(a6[j]));
        }
        lemma_validated_removal_sticks(validated_after(v, prefix), a6, m, k);
    } else {
        // `m` was never validated; the tick cannot introduce it. Promotions
        // are gated on requested configs and self-created artifacts target
        // requested configs too, while `m`'s config is stale.
        lemma_pre_signer_no_stale_adds(c, br, pool, node, quorum, m);
        lemma_validated_no_adds(v, full, m);
    }

    // Unvalidated bag: nothing ever inserts there.
    lemma_unvalidated_after_concat(u, prefix, a6);
    if has_msg(u, m) {
        let w = a1 + a2 + a3 + a4;
        assert(prefix == w + a5);
        lemma_purge_dealings_covers(br, u, m, false);
        let k = choose|k: int| 0 <= k < a5.len() && drops_unvalidated_like(#[trigger] a5[k], m);
        assert(prefix[w.len() + k] == a5[k]);
        lemma_unvalidated_removal_sticks(u, prefix, m, w.len() + k);
    } else {
        lemma_unvalidated_absent_stays(u, prefix, m);
    }
    lemma_unvalidated_absent_stays(unvalidated_after(u, prefix), a6, m);
}

/// No action of a pre-signer tick inserts a message about a stale config.
pub proof fn lemma_pre_signer_no_stale_adds<C: CryptoOracle>(
    c: C,
    br: IDkgBlockReader,
    pool: IDkgPool,
    node: u64,
    quorum: u64,
    m: IDkgMessage,
)
    requires
        ds_stale(br, m),
    ensures
        forall|k: int|
            0 <= k < pre_signer_spec(c, br, pool, node, quorum).len() ==> !adds_like(
                #[trigger] pre_signer_spec(c, br, pool, node, quorum)[k],
                m,
            ),
{
    let full = pre_signer_spec(c, br, pool, node, quorum);
    lemma_pre_signer_gated(c, br, pool, node, quorum);
    lemma_pre_signer_adds_requested(c, br, pool, node, quorum);
    assert forall|k: int| 0 <= k < full.len() implies !adds_like(#[trigger] full[k], m) by {
        assert(pre_move_gated(full[k], br));
        assert(add_targets_requested(full[k], br));
        if adds_like(full[k], m) {
            match full[k] {
                IDkgChangeAction::MoveToValidated(x) => {
                    crate::types::lemma_msg_eq_equivalence(x, m, m);
                }
                IDkgChangeAction::AddToValidated(x) => {
                    crate::types::lemma_msg_eq_equivalence(x, m, m);
                }
                _ => {}
            }
        }
    }
}

/// An insertion of a dealing or support targets a requested config; other
/// insertions are of other kinds.
pub open spec fn add_targets_requested(a: IDkgChangeAction, br: IDkgBlockReader) -> bool {
    match a {
        IDkgChangeAction::AddToValidated(m) => match m {
            IDkgMessage::Dealing(d) => br.is_requested(d.transcript_id),
            IDkgMessage::DealingSupport(s) => br.is_requested(s.transcript_id),
            _ => true,
        },
        _ => true,
    }
}

/// The pre-signer's self-created dealings and support target requested
/// configs.
pub proof fn lemma_pre_signer_adds_requested<C: CryptoOracle>(
    c: C,
    br: IDkgBlockReader,
    pool: IDkgPool,
    node: u64,
    quorum: u64,
)
    ensures
        all_actions(
            pre_signer_spec(c, br, pool, node, quorum),
            |a: IDkgChangeAction| add_targets_requested(a, br),
        ),
{
    let v = pool.validated@;
    let u = pool.unvalidated@;
    let p = |a: IDkgChangeAction| add_targets_requested(a, br);
    assert forall|i: int| 0 <= i < br.requested@.len() implies br.is_requested(
        (#[trigger] br.requested@[i]).transcript_id,
    ) by {
        assert(br.requested@[i].transcript_id == br.requested@[i].transcript_id);
    }
    lemma_create_dealings_targets(c, br, v, node, quorum, br.requested@);
    lemma_send_support_targets(c, br, v, v, node);
    lemma_validate_passes_no_adds(c, br, arbitrary_state(), v, u, Seq::empty());
    lemma_validate_dealings_gated(c, br, v, u, Seq::empty());
    lemma_all_actions_weaken2(
        crate::pre_signer::validate_dealings_spec(c, br, v, u, Seq::empty()),
        |a: IDkgChangeAction| pre_move_gated(a, br),
        |a: IDkgChangeAction| !is_add(a),
        p,
    );
    lemma_validate_support_gated(c, br, v, u, Seq::empty());
    lemma_all_actions_weaken2(
        crate::pre_signer::validate_support_spec(c, br, v, u, Seq::empty()),
        |a: IDkgChangeAction| pre_move_gated(a, br),
        |a: IDkgChangeAction| !is_add(a),
        p,
    );
    lemma_purge_dealings_removals(br, u, false);
    lemma_all_actions_weaken(
        purge_dealings_spec(br, u, false),
        |a: IDkgChangeAction| is_removal(a),
        p,
    );
    lemma_purge_dealings_removals(br, v, true);
    lemma_all_actions_weaken(
        purge_dealings_spec(br, v, true),
        |a: IDkgChangeAction| is_removal(a),
        p,
    );
    let a1 = crate::pre_signer::create_dealings_spec(c, br, v, node, quorum, br.requested@);
    let a2 = crate::pre_signer::validate_dealings_spec(c, br, v, u, Seq::empty());
    let a3 = crate::pre_signer::send_support_spec(c, br, v, v, node);
    let a4 = crate::pre_signer::validate_support_spec(c, br, v, u, Seq::empty());
    let a5 = purge_dealings_spec(br, u, false);
    let a6 = purge_dealings_spec(br, v, true);
    lemma_all_actions_concat(a1, a2, p);
    lemma_all_actions_concat(a1 + a2, a3, p);
    lemma_all_actions_concat(a1 + a2 + a3, a4, p);
    lemma_all_actions_concat(a1 + a2 + a3 + a4, a5, p);
    lemma_all_actions_concat(a1 + a2 + a3 + a4 + a5, a6, p);
}

/// The create-dealings pass inserts dealings only for requested configs,
/// and complaints otherwise.
pub proof fn lemma_create_dealings_targets<C: CryptoOracle>(
    c: C,
    br: IDkgBlockReader,
    v: Seq<IDkgMessage>,
    node: u64,
    quorum: u64,
    configs: Seq<crate::types::IDkgTranscriptParams>,
)
    requires
        forall|i: int| 0 <= i < configs.len() ==> br.is_requested(
            (#[trigger] configs[i]).transcript_id,
        ),
    ensures
        all_actions(
            crate::pre_signer::create_dealings_spec(c, br, v, node, quorum, configs),
            |a: IDkgChangeAction| add_targets_requested(a, br),
        ),
    decreases configs.len(),
{
    let p = |a: IDkgChangeAction| add_targets_requested(a, br);
    if configs.len() > 0 {
        assert(forall|i: int|
            0 <= i < configs.drop_first().len() ==> br.is_requested(
                (#[trigger] configs.drop_first()[i]).transcript_id,
            )) by {
            assert(forall|i: int|
                0 <= i < configs.len() - 1 ==> configs.drop_first()[i] == #[trigger] configs[
                    i + 1
                ]);
        }
        lemma_create_dealings_targets(c, br, v, node, quorum, configs.drop_first());
        assert(br.is_requested(configs.first().transcript_id)) by {
            assert(configs[0] == configs.first());
        }
        match crate::complaints::load_deps_spec(
            c,
            br,
            v,
            node,
            quorum,
            configs.first().operation.deps_spec(),
        ) {
            crate::complaints::LoadOutcome::Blocked(cs) => {
                lemma_complaint_additions_adds(v, cs);
                lemma_complaint_additions_kind(v, cs);
            }
            _ => {}
        }
        lemma_all_actions_concat(
            crate::pre_signer::create_for_config_spec(c, br, v, node, quorum, configs.first()),
            crate::pre_signer::create_dealings_spec(
                c,
                br,
                v,
                node,
                quorum,
                configs.drop_first(),
            ),
            p,
        );
    }
}

/// Complaint insertions insert complaints.
pub proof fn lemma_complaint_additions_kind(
    v: Seq<IDkgMessage>,
    cs: Seq<crate::types::SignedComplaint>,
)
    ensures
        forall|k: int|
            0 <= k < crate::complaints::complaint_additions(v, cs).len() ==> match (
            #[trigger] crate::complaints::complaint_additions(v, cs)[k]) {
                IDkgChangeAction::AddToValidated(m) => m is Complaint,
                _ => false,
            },
    decreases cs.len(),
{
    if cs.len() > 0 {
        lemma_complaint_additions_kind(v, cs.drop_last());
    }
}

/// The support-issuing pass inserts support and complaints only for
/// requested configs.
pub proof fn lemma_send_support_targets<C: CryptoOracle>(
    c: C,
    br: IDkgBlockReader,
    v_all: Seq<IDkgMessage>,
    entries: Seq<IDkgMessage>,
    node: u64,
)
    ensures
        all_actions(
            crate::pre_signer::send_support_spec(c, br, v_all, entries, node),
            |a: IDkgChangeAction| add_targets_requested(a, br),
        ),
    decreases entries.len(),
{
    if entries.len() > 0 {
        lemma_send_support_targets(c, br, v_all, entries.drop_first(), node);
        match entries.first() {
            IDkgMessage::Dealing(d) => {
                crate::block_reader::lemma_first_config(br.requested@, d.transcript_id);
            }
            _ => {}
        }
    }
}

/// Staleness for the complaint handler: a stale complaint or opening that
/// stands in either bag is gone once the handler's tick is applied, provided
/// no validated complaint with its key remains to be answered — the handler
/// inserts openings only for requested configs, so a stale artifact cannot
/// come back.
pub proof fn lemma_complaint_handler_removes_stale<C: CryptoOracle>(
    c: C,
    br: IDkgBlockReader,
    pool: IDkgPool,
    node: u64,
    m: IDkgMessage,
)
    requires
        co_stale(br, m),
    ensures
        !has_msg(validated_after(pool.validated@, complaint_handler_spec(c, br, pool, node)), m),
        !has_msg(
            unvalidated_after(pool.unvalidated@, complaint_handler_spec(c, br, pool, node)),
            m,
        ),
{
    let v = pool.validated@;
    let u = pool.unvalidated@;
    let b1 = crate::complaints::validate_complaints_spec(c, br, v, u, Seq::empty());
    let b2 = crate::complaints::send_openings_spec(c, br, v, v, node);
    let b3 = crate::complaints::validate_openings_spec(c, br, v, u, Seq::empty());
    let b4 = purge_complaints_spec(br, u, false);
    let b5 = purge_complaints_spec(br, v, true);
    let full = complaint_handler_spec(c, br, pool, node);
    let prefix = b1 + b2 + b3 + b4;
    assert(full == prefix + b5);

    // Validated bag.
    lemma_validated_after_concat(v, prefix, b5);
    lemma_purge_complaints_removals(br, v, true);
    if has_msg(v, m) {
        lemma_purge_complaints_covers(br, v, m, true);
        let k = choose|k: int| 0 <= k < b5.len() && removes_validated_like(#[trigger] b5[k], m);
        assert forall|j: int| k < j < b5.len() implies !adds_like(#[trigger] b5[j], m) by {
            assert(is_removal(b5[j]));
        }
        lemma_validated_removal_sticks(validated_after(v, prefix), b5, m, k);
    } else {
        lemma_complaint_handler_no_stale_adds(c, br, pool, node, m);
        lemma_validated_no_adds(v, full, m);
    }

    // Unvalidated bag.
    lemma_unvalidated_after_concat(u, prefix, b5);
    if has_msg(u, m) {
        let w = b1 + b2 + b3;
        assert(prefix == w + b4);
        lemma_purge_complaints_covers(br, u, m, false);
        let k = choose|k: int| 0 <= k < b4.len() && drops_unvalidated_like(#[trigger] b4[k], m);
        assert(prefix[w.len() + k] == b4[k]);
        lemma_unvalidated_removal_sticks(u, prefix, m, w.len() + k);
    } else {
        lemma_unvalidated_absent_stays(u, prefix, m);
    }
    lemma_unvalidated_absent_stays(unvalidated_after(u, prefix), b5, m);
}

/// An insertion of a complaint or opening targets a requested config.
pub open spec fn ch_add_targets_requested(a: IDkgChangeAction, br: IDkgBlockReader) -> bool {
    match a {
        IDkgChangeAction::AddToValidated(m) => match m {
            IDkgMessage::Complaint(c) => false,
            IDkgMessage::Opening(o) => br.is_requested(o.transcript_id),
            _ => true,
        },
        _ => true,
    }
}

/// No action of a complaint-handler tick inserts a message about a stale
/// transcript — openings are created only for requested configs, and the
/// complaints the handler itself validates are gated the same way.
pub proof fn lemma_complaint_handler_no_stale_adds<C: CryptoOracle>(
    c: C,
    br: IDkgBlockReader,
    pool: IDkgPool,
    node: u64,
    m: IDkgMessage,
)
    requires
        co_stale(br, m),
    ensures
        forall|k: int|
            0 <= k < complaint_handler_spec(c, br, pool, node).len() ==> !adds_like(
                #[trigger] complaint_handler_spec(c, br, pool, node)[k],
                m,
            ),
{
    let full = complaint_handler_spec(c, br, pool, node);
    lemma_complaint_handler_gated(c, br, pool, node);
    lemma_complaint_handler_adds_requested(c, br, pool, node);
    assert forall|k: int| 0 <= k < full.len() implies !adds_like(#[trigger] full[k], m) by {
        assert(ch_move_gated(full[k], br));
        assert(ch_add_targets_requested(full[k], br));
        if adds_like(full[k], m) {
            match full[k] {
                IDkgChangeAction::MoveToValidated(x) => {
                    crate::types::lemma_msg_eq_equivalence(x, m, m);
                }
                IDkgChangeAction::AddToValidated(x) => {
                    crate::types::lemma_msg_eq_equivalence(x, m, m);
                }
                _ => {}
            }
        }
    }
}

/// The complaint handler's insertions target requested configs.
pub proof fn lemma_complaint_handler_adds_requested<C: CryptoOracle>(
    c: C,
    br: IDkgBlockReader,
    pool: IDkgPool,
    node: u64,
)
    ensures
        all_actions(
            complaint_handler_spec(c, br, pool, node),
            |a: IDkgChangeAction| ch_add_targets_requested(a, br),
        ),
{
    let v = pool.validated@;
    let u = pool.unvalidated@;
    let p = |a: IDkgChangeAction| ch_add_targets_requested(a, br);
    lemma_validate_passes_no_adds(c, br, arbitrary_state(), v, u, Seq::empty());
    lemma_validate_complaints_gated(c, br, v, u, Seq::empty());
    lemma_all_actions_weaken2(
        crate::complaints::validate_complaints_spec(c, br, v, u, Seq::empty()),
        |a: IDkgChangeAction| ch_move_gated(a, br),
        |a: IDkgChangeAction| !is_add(a),
        p,
    );
    lemma_send_openings_targets(c, br, v, v, node);
    lemma_validate_openings_gated(c, br, v, u, Seq::empty());
    lemma_all_actions_weaken2(
        crate::complaints::validate_openings_spec(c, br, v, u, Seq::empty()),
        |a: IDkgChangeAction| ch_move_gated(a, br),
        |a: IDkgChangeAction| !is_add(a),
        p,
    );
    lemma_purge_complaints_removals(br, u, false);
    lemma_all_actions_weaken(
        purge_complaints_spec(br, u, false),
        |a: IDkgChangeAction| is_removal(a),
        p,
    );
    lemma_purge_complaints_removals(br, v, true);
    lemma_all_actions_weaken(
        purge_complaints_spec(br, v, true),
        |a: IDkgChangeAction| is_removal(a),
        p,
    );
    let b1 = crate::complaints::validate_complaints_spec(c, br, v, u, Seq::empty());
    let b2 = crate::complaints::send_openings_spec(c, br, v, v, node);
    let b3 = crate::complaints::validate_openings_spec(c, br, v, u, Seq::empty());
    let b4 = purge_complaints_spec(br, u, false);
    let b5 = purge_complaints_spec(br, v, true);
    lemma_all_actions_concat(b1, b2, p);
    lemma_all_actions_concat(b1 + b2, b3, p);
    lemma_all_actions_concat(b1 + b2 + b3, b4, p);
    lemma_all_actions_concat(b1 + b2 + b3 + b4, b5, p);
}

/// The opening-emission pass creates openings only for requested configs.
pub proof fn lemma_send_openings_targets<C: CryptoOracle>(
    c: C,
    br: IDkgBlockReader,
    v_all: Seq<IDkgMessage>,
    entries: Seq<IDkgMessage>,
    node: u64,
)
    ensures
        all_actions(
            crate::complaints::send_openings_spec(c, br, v_all, entries, node),
            |a: IDkgChangeAction| ch_add_targets_requested(a, br),
        ),
    decreases entries.len(),
{
    if entries.len() > 0 {
        lemma_send_openings_targets(c, br, v_all, entries.drop_first(), node);
    }
}

/// Staleness for the signer: a stale share that stands in either bag is
/// gone once the signer's tick is applied.
pub proof fn lemma_signer_removes_stale<C: CryptoOracle>(
    c: C,
    br: IDkgBlockReader,
    st: CertifiedStateSnapshot,
    pool: IDkgPool,
    node: u64,
    quorum: u64,
    m: IDkgMessage,
)
    requires
        sh_stale(st, m),
    ensures
        !has_msg(
            validated_after(pool.validated@, signer_spec(c, br, Some(st), pool, node, quorum)),
            m,
        ),
        !has_msg(
            unvalidated_after(
                pool.unvalidated@,
                signer_spec(c, br, Some(st), pool, node, quorum),
            ),
            m,
        ),
{
    let v = pool.validated@;
    let u = pool.unvalidated@;
    let s1 = crate::signer::create_shares_spec(c, br, v, node, quorum, st.contexts@);
    let s2 = crate::signer::validate_shares_spec(c, st, v, u, Seq::empty());
    let s3 = purge_shares_spec(st, u, false);
    let s4 = purge_shares_spec(st, v, true);
    let full = signer_spec(c, br, Some(st), pool, node, quorum);
    let prefix = s1 + s2 + s3;
    assert(full == prefix + s4);

    // Validated bag.
    lemma_validated_after_concat(v, prefix, s4);
    lemma_purge_shares_removals(st, v, true);
    if has_msg(v, m) {
        lemma_purge_shares_covers(st, v, m, true);
        let k = choose|k: int| 0 <= k < s4.len() && removes_validated_like(#[trigger] s4[k], m);
        assert forall|j: int| k < j < s4.len() implies !adds_like(#[trigger] s4[j], m) by {
            assert(is_removal(s4[j]));
        }
        lemma_validated_removal_sticks(validated_after(v, prefix), s4, m, k);
    } else {
        lemma_signer_no_stale_adds(c, br, st, pool, node, quorum, m);
        lemma_validated_no_adds(v, full, m);
    }

    // Unvalidated bag.
    lemma_unvalidated_after_concat(u, prefix, s4);
    if has_msg(u, m) {
        let w = s1 + s2;
        assert(prefix == w + s3);
        lemma_purge_shares_covers(st, u, m, false);
        let k = choose|k: int| 0 <= k < s3.len() && drops_unvalidated_like(#[trigger] s3[k], m);
        assert(prefix[w.len() + k] == s3[k]);
        lemma_unvalidated_removal_sticks(u, prefix, m, w.len() + k);
    } else {
        lemma_unvalidated_absent_stays(u, prefix, m);
    }
    lemma_unvalidated_absent_stays(unvalidated_after(u, prefix), s4, m);
}

/// An insertion of a share targets a request standing in the certified
/// state.
pub open spec fn signer_add_targets_requested(
    a: IDkgChangeAction,
    st: CertifiedStateSnapshot,
) -> bool {
    match a {
        IDkgChangeAction::AddToValidated(m) => match m {
            IDkgMessage::EcdsaSigShare(s) => st.is_requested(s.request_id),
            IDkgMessage::SchnorrSigShare(s) => st.is_requested(s.request_id),
            _ => true,
        },
        _ => true,
    }
}

/// No action of a signer tick inserts a stale share.
pub proof fn lemma_signer_no_stale_adds<C: CryptoOracle>(
    c: C,
    br: IDkgBlockReader,
    st: CertifiedStateSnapshot,
    pool: IDkgPool,
    node: u64,
    quorum: u64,
    m: IDkgMessage,
)
    requires
        sh_stale(st, m),
    ensures
        forall|k: int|
            0 <= k < signer_spec(c, br, Some(st), pool, node, quorum).len() ==> !adds_like(
                #[trigger] signer_spec(c, br, Some(st), pool, node, quorum)[k],
                m,
            ),
{
    let full = signer_spec(c, br, Some(st), pool, node, quorum);
    lemma_signer_gated(c, br, st, pool, node, quorum);
    lemma_signer_adds_requested(c, br, st, pool, node, quorum);
    assert forall|k: int| 0 <= k < full.len() implies !adds_like(#[trigger] full[k], m) by {
        assert(signer_move_gated(full[k], st));
        assert(signer_add_targets_requested(full[k], st));
        if adds_like(full[k], m) {
            match full[k] {
                IDkgChangeAction::MoveToValidated(x) => {
                    crate::types::lemma_msg_eq_equivalence(x, m, m);
                    lemma_rid_eq_requested(st, x, m);
                }
                IDkgChangeAction::AddToValidated(x) => {
                    crate::types::lemma_msg_eq_equivalence(x, m, m);
                    lemma_rid_eq_requested(st, x, m);
                }
                _ => {}
            }
        }
    }
}

/// Equal request identifiers agree on being outstanding.
pub proof fn lemma_rid_eq_transport(
    st: CertifiedStateSnapshot,
    a: crate::types::RequestId,
    b: crate::types::RequestId,
)
    requires
        crate::types::rid_eq(a, b),
    ensures
        st.is_requested(a) == st.is_requested(b),
{
    if st.is_requested(a) {
        let i = choose|i: int|
            0 <= i < st.contexts@.len() && match crate::block_reader::context_request_id_spec(
                #[trigger] st.contexts@[i],
            ) {
                Some(r) => crate::types::rid_eq(r, a),
                None => false,
            };
        assert(match crate::block_reader::context_request_id_spec(st.contexts@[i]) {
            Some(r) => crate::types::rid_eq(r, b),
            None => false,
        });
    }
    if st.is_requested(b) {
        let i = choose|i: int|
            0 <= i < st.contexts@.len() && match crate::block_reader::context_request_id_spec(
                #[trigger] st.contexts@[i],
            ) {
                Some(r) => crate::types::rid_eq(r, b),
                None => false,
            };
        assert(match crate::block_reader::context_request_id_spec(st.contexts@[i]) {
            Some(r) => crate::types::rid_eq(r, a),
            None => false,
        });
    }
}

/// Equal messages agree on whether their request is outstanding.
pub proof fn lemma_rid_eq_requested(st: CertifiedStateSnapshot, x: IDkgMessage, m: IDkgMessage)
    requires
        msg_eq(x, m),
    ensures
        match (crate::signer::share_request(x), crate::signer::share_request(m)) {
            (Some(a), Some(b)) => st.is_requested(a.request_id) == st.is_requested(b.request_id),
            _ => true,
        },
{
    match (crate::signer::share_request(x), crate::signer::share_request(m)) {
        (Some(a), Some(b)) => {
            assert(crate::types::rid_eq(a.request_id, b.request_id));
            lemma_rid_eq_transport(st, a.request_id, b.request_id);
        }
        _ => {}
    }
}

/// The unvalidated share purge never touches the validated bag.
pub proof fn lemma_purge_shares_u_no_remove_validated(
    st: CertifiedStateSnapshot,
    entries: Seq<IDkgMessage>,
)
    ensures
        all_actions(
            purge_shares_spec(st, entries, false),
            |a: IDkgChangeAction| !(a is RemoveValidated),
        ),
    decreases entries.len(),
{
    if entries.len() > 0 {
        lemma_purge_shares_u_no_remove_validated(st, entries.drop_first());
    }
}

/// The validated share purge removes stale shares only.
pub proof fn lemma_purge_shares_v_stale_only(
    st: CertifiedStateSnapshot,
    entries: Seq<IDkgMessage>,
)
    ensures
        forall|k: int|
            0 <= k < purge_shares_spec(st, entries, true).len() ==> match (
            #[trigger] purge_shares_spec(st, entries, true)[k]) {
                IDkgChangeAction::RemoveValidated(x) => sh_stale(st, x),
                _ => true,
            },
    decreases entries.len(),
{
    if entries.len() > 0 {
        lemma_purge_shares_v_stale_only(st, entries.drop_first());
    }
}

/// The create-shares pass signs for a serviceable context this replica has
/// not signed for: its insertion stands in the pass.
pub proof fn lemma_share_pass_contains_share<C: CryptoOracle>(
    c: C,
    br: IDkgBlockReader,
    v: Seq<IDkgMessage>,
    node: u64,
    quorum: u64,
    ctxs: Seq<crate::block_reader::SignatureRequestContext>,
    i: int,
    rid: crate::types::RequestId,
)
    requires
        0 <= i < ctxs.len(),
        crate::block_reader::context_request_id_spec(ctxs[i]) == Some(rid),
        match crate::signer::first_pre_signature(br.pre_signatures@, rid.pre_signature_id) {
            Some(p) => p.signers@.contains(node) && crate::complaints::load_deps_spec(
                c,
                br,
                v,
                node,
                quorum,
                crate::signer::pre_sig_refs(p),
            ) == crate::complaints::LoadOutcome::Loaded,
            None => false,
        },
        !has_key(
            v,
            crate::signer::share_message(
                ctxs[i].scheme,
                crate::types::SigShare { request_id: rid, signer_id: node },
            ),
        ),
        c.share_creation_ok(rid),
    ensures
        exists|k: int|
            0 <= k < crate::signer::create_shares_spec(c, br, v, node, quorum, ctxs).len()
                && #[trigger] crate::signer::create_shares_spec(c, br, v, node, quorum, ctxs)[k]
                == IDkgChangeAction::AddToValidated(
                crate::signer::share_message(
                    ctxs[i].scheme,
                    crate::types::SigShare { request_id: rid, signer_id: node },
                ),
            ),
    decreases ctxs.len(),
{
    let whole = crate::signer::create_shares_spec(c, br, v, node, quorum, ctxs);
    let head = crate::signer::create_for_context_spec(c, br, v, node, quorum, ctxs.first());
    let rest = crate::signer::create_shares_spec(c, br, v, node, quorum, ctxs.drop_first());
    let msg = crate::signer::share_message(
        ctxs[i].scheme,
        crate::types::SigShare { request_id: rid, signer_id: node },
    );
    if i == 0 {
        assert(ctxs.first() == ctxs[0]);
        assert(head == seq![IDkgChangeAction::AddToValidated(msg)]);
        assert(whole[0] == IDkgChangeAction::AddToValidated(msg));
    } else {
        assert(ctxs.drop_first()[i - 1] == ctxs[i]);
        lemma_share_pass_contains_share(c, br, v, node, quorum, ctxs.drop_first(), i - 1, rid);
        let k = choose|k: int|
            0 <= k < rest.len() && #[trigger] rest[k] == IDkgChangeAction::AddToValidated(msg);
        assert(whole[head.len() + k] == rest[k]);
    }
}

/// Progress and idempotence of signing: when an outstanding matched request
/// has its pre-signature available, this replica among the signers, the
/// transcripts loading and the keystore willing, one signer tick leaves this
/// replica's share validated — and with the share in place, the create step
/// of any later tick under the same intent re-signs nothing for it.
pub proof fn lemma_signer_shares_once<C: CryptoOracle>(
    c: C,
    br: IDkgBlockReader,
    st: CertifiedStateSnapshot,
    pool: IDkgPool,
    node: u64,
    quorum: u64,
    i: int,
    rid: crate::types::RequestId,
)
    requires
        0 <= i < st.contexts@.len(),
        crate::block_reader::context_request_id_spec(st.contexts@[i]) == Some(rid),
        match crate::signer::first_pre_signature(br.pre_signatures@, rid.pre_signature_id) {
            Some(p) => p.signers@.contains(node) && crate::complaints::load_deps_spec(
                c,
                br,
                pool.validated@,
                node,
                quorum,
                crate::signer::pre_sig_refs(p),
            ) == crate::complaints::LoadOutcome::Loaded,
            None => false,
        },
        !has_key(
            pool.validated@,
            crate::signer::share_message(
                st.contexts@[i].scheme,
                crate::types::SigShare { request_id: rid, signer_id: node },
            ),
        ),
        c.share_creation_ok(rid),
    ensures
        has_key(
            validated_after(pool.validated@, signer_spec(c, br, Some(st), pool, node, quorum)),
            crate::signer::share_message(
                st.contexts@[i].scheme,
                crate::types::SigShare { request_id: rid, signer_id: node },
            ),
        ),
{
    let v = pool.validated@;
    let u = pool.unvalidated@;
    let share = crate::types::SigShare { request_id: rid, signer_id: node };
    let m = crate::signer::share_message(st.contexts@[i].scheme, share);
    let s1 = crate::signer::create_shares_spec(c, br, v, node, quorum, st.contexts@);
    let s2 = crate::signer::validate_shares_spec(c, st, v, u, Seq::empty());
    let s3 = purge_shares_spec(st, u, false);
    let s4 = purge_shares_spec(st, v, true);
    let full = signer_spec(c, br, Some(st), pool, node, quorum);
    assert(full == s1 + s2 + s3 + s4);

    let p_nr = |a: IDkgChangeAction| !removes_key_like(a, m);
    lemma_create_shares_adds(c, br, v, node, quorum, st.contexts@);
    lemma_all_actions_weaken(s1, |a: IDkgChangeAction| is_add(a), p_nr);
    lemma_validate_passes_no_remove_validated(c, br, st, v, u, Seq::empty());
    lemma_all_actions_weaken(s2, |a: IDkgChangeAction| !(a is RemoveValidated), p_nr);
    lemma_purge_shares_u_no_remove_validated(st, u);
    lemma_all_actions_weaken(s3, |a: IDkgChangeAction| !(a is RemoveValidated), p_nr);
    lemma_purge_shares_v_stale_only(st, v);
    // The request is outstanding, so no share with its key is stale.
    assert(st.is_requested(rid)) by {
        assert(match crate::block_reader::context_request_id_spec(st.contexts@[i]) {
            Some(r) => crate::types::rid_eq(r, rid),
            None => false,
        });
    }
    assert forall|k: int| 0 <= k < s4.len() implies p_nr(#[trigger] s4[k]) by {
        match s4[k] {
            IDkgChangeAction::RemoveValidated(x) => {
                if same_key(x, m) {
                    assert(sh_stale(st, x));
                    match crate::signer::share_request(x) {
                        Some(xs) => {
                            assert(crate::types::rid_eq(xs.request_id, rid));
                            lemma_rid_eq_transport(st, xs.request_id, rid);
                        }
                        None => {}
                    }
                }
            }
            _ => {}
        }
    }
    lemma_all_actions_concat(s1, s2, p_nr);
    lemma_all_actions_concat(s1 + s2, s3, p_nr);
    lemma_all_actions_concat(s1 + s2 + s3, s4, p_nr);
    assert(forall|k: int| 0 <= k < full.len() ==> !removes_key_like(#[trigger] full[k], m)) by {
        assert(forall|k: int| 0 <= k < full.len() ==> p_nr(#[trigger] full[k]));
    }

    lemma_share_pass_contains_share(c, br, v, node, quorum, st.contexts@, i, rid);
    let k = choose|k: int|
        0 <= k < s1.len() && #[trigger] s1[k] == IDkgChangeAction::AddToValidated(m);
    assert(full[k] == s1[k]) by {
        assert((s1 + s2)[k] == s1[k]);
        assert((s1 + s2 + s3)[k] == (s1 + s2)[k]);
        assert((s1 + s2 + s3 + s4)[k] == (s1 + s2 + s3)[k]);
    }
    assert(adds_key_like(full[k], m)) by {
        crate::types::lemma_same_key_equivalence(m, m, m);
    }
    lemma_add_establishes_key(v, full, m, k);
}

/// The signer's insertions target outstanding requests.
pub proof fn lemma_signer_adds_requested<C: CryptoOracle>(
    c: C,
    br: IDkgBlockReader,
    st: CertifiedStateSnapshot,
    pool: IDkgPool,
    node: u64,
    quorum: u64,
)
    ensures
        all_actions(
            signer_spec(c, br, Some(st), pool, node, quorum),
            |a: IDkgChangeAction| signer_add_targets_requested(a, st),
        ),
{
    let v = pool.validated@;
    let u = pool.unvalidated@;
    let p = |a: IDkgChangeAction| signer_add_targets_requested(a, st);
    assert forall|i: int| 0 <= i < st.contexts@.len() implies st.contexts@.contains(
        #[trigger] st.contexts@[i],
    ) by {
    }
    lemma_create_shares_targets(c, br, st, v, node, quorum, st.contexts@);
    lemma_validate_passes_no_adds(c, br, st, v, u, Seq::empty());
    lemma_validate_shares_gated(c, st, v, u, Seq::empty());
    lemma_all_actions_weaken2(
        crate::signer::validate_shares_spec(c, st, v, u, Seq::empty()),
        |a: IDkgChangeAction| signer_move_gated(a, st),
        |a: IDkgChangeAction| !is_add(a),
        p,
    );
    lemma_purge_shares_removals(st, u, false);
    lemma_all_actions_weaken(
        purge_shares_spec(st, u, false),
        |a: IDkgChangeAction| is_removal(a),
        p,
    );
    lemma_purge_shares_removals(st, v, true);
    lemma_all_actions_weaken(
        purge_shares_spec(st, v, true),
        |a: IDkgChangeAction| is_removal(a),
        p,
    );
    let s1 = crate::signer::create_shares_spec(c, br, v, node, quorum, st.contexts@);
    let s2 = crate::signer::validate_shares_spec(c, st, v, u, Seq::empty());
    let s3 = purge_shares_spec(st, u, false);
    let s4 = purge_shares_spec(st, v, true);
    lemma_all_actions_concat(s1, s2, p);
    lemma_all_actions_concat(s1 + s2, s3, p);
    lemma_all_actions_concat(s1 + s2 + s3, s4, p);
}

// ---------------------------------------------------------------------------
// Fixed points.
// ---------------------------------------------------------------------------
/// A purge pass over a bag without stale dealings or support does nothing.
pub proof fn lemma_purge_dealings_empty(
    br: IDkgBlockReader,
    entries: Seq<IDkgMessage>,
    validated: bool,
)
    requires
        forall|i: int| 0 <= i < entries.len() ==> !ds_stale(br, #[trigger] entries[i]),
    ensures
        purge_dealings_spec(br, entries, validated) == Seq::<IDkgChangeAction>::empty(),
    decreases entries.len(),
{
    if entries.len() > 0 {
        assert(!ds_stale(br, entries[0]));
        assert(forall|i: int|
            0 <= i < entries.drop_first().len() ==> !ds_stale(
                br,
                #[trigger] entries.drop_first()[i],
            )) by {
            assert(forall|i: int|
                0 <= i < entries.len() - 1 ==> entries.drop_first()[i] == #[trigger] entries[
                    i + 1
                ]);
        }
        lemma_purge_dealings_empty(br, entries.drop_first(), validated);
    }
}

/// A purge pass over a bag without stale complaints or openings does
/// nothing.
pub proof fn lemma_purge_complaints_empty(
    br: IDkgBlockReader,
    entries: Seq<IDkgMessage>,
    validated: bool,
)
    requires
        forall|i: int| 0 <= i < entries.len() ==> !co_stale(br, #[trigger] entries[i]),
    ensures
        purge_complaints_spec(br, entries, validated) == Seq::<IDkgChangeAction>::empty(),
    decreases entries.len(),
{
    if entries.len() > 0 {
        assert(!co_stale(br, entries[0]));
        assert(forall|i: int|
            0 <= i < entries.drop_first().len() ==> !co_stale(
                br,
                #[trigger] entries.drop_first()[i],
            )) by {
            assert(forall|i: int|
                0 <= i < entries.len() - 1 ==> entries.drop_first()[i] == #[trigger] entries[
                    i + 1
                ]);
        }
        lemma_purge_complaints_empty(br, entries.drop_first(), validated);
    }
}

/// A purge pass over a bag without stale shares does nothing.
pub proof fn lemma_purge_shares_empty(
    st: CertifiedStateSnapshot,
    entries: Seq<IDkgMessage>,
    validated: bool,
)
    requires
        forall|i: int| 0 <= i < entries.len() ==> !sh_stale(st, #[trigger] entries[i]),
    ensures
        purge_shares_spec(st, entries, validated) == Seq::<IDkgChangeAction>::empty(),
    decreases entries.len(),
{
    if entries.len() > 0 {
        assert(!sh_stale(st, entries[0]));
        assert(forall|i: int|
            0 <= i < entries.drop_first().len() ==> !sh_stale(
                st,
                #[trigger] entries.drop_first()[i],
            )) by {
            assert(forall|i: int|
                0 <= i < entries.len() - 1 ==> entries.drop_first()[i] == #[trigger] entries[
                    i + 1
                ]);
        }
        lemma_purge_shares_empty(st, entries.drop_first(), validated);
    }
}

/// Convergence of purging: one tick of an engine leaves no stale artifact
/// of its kinds behind, so the purge passes of every later tick under the
/// same intent are empty.
pub proof fn lemma_purge_fixed_point<C: CryptoOracle>(
    c: C,
    br: IDkgBlockReader,
    st: CertifiedStateSnapshot,
    pool: IDkgPool,
    node: u64,
    quorum: u64,
)
    ensures
        purge_dealings_spec(
            br,
            validated_after(pool.validated@, pre_signer_spec(c, br, pool, node, quorum)),
            true,
        ) == Seq::<IDkgChangeAction>::empty(),
        purge_dealings_spec(
            br,
            unvalidated_after(pool.unvalidated@, pre_signer_spec(c, br, pool, node, quorum)),
            false,
        ) == Seq::<IDkgChangeAction>::empty(),
        purge_complaints_spec(
            br,
            validated_after(pool.validated@, complaint_handler_spec(c, br, pool, node)),
            true,
        ) == Seq::<IDkgChangeAction>::empty(),
        purge_complaints_spec(
            br,
            unvalidated_after(pool.unvalidated@, complaint_handler_spec(c, br, pool, node)),
            false,
        ) == Seq::<IDkgChangeAction>::empty(),
        purge_shares_spec(
            st,
            validated_after(pool.validated@, signer_spec(c, br, Some(st), pool, node, quorum)),
            true,
        ) == Seq::<IDkgChangeAction>::empty(),
        purge_shares_spec(
            st,
            unvalidated_after(
                pool.unvalidated@,
                signer_spec(c, br, Some(st), pool, node, quorum),
            ),
            false,
        ) == Seq::<IDkgChangeAction>::empty(),
{
    let v2 = validated_after(pool.validated@, pre_signer_spec(c, br, pool, node, quorum));
    let u2 = unvalidated_after(pool.unvalidated@, pre_signer_spec(c, br, pool, node, quorum));
    assert forall|i: int| 0 <= i < v2.len() implies !ds_stale(br, #[trigger] v2[i]) by {
        if ds_stale(br, v2[i]) {
            crate::types::lemma_msg_eq_equivalence(v2[i], v2[i], v2[i]);
            assert(has_msg(v2, v2[i]));
            lemma_pre_signer_removes_stale(c, br, pool, node, quorum, v2[i]);
        }
    }
    lemma_purge_dealings_empty(br, v2, true);
    assert forall|i: int| 0 <= i < u2.len() implies !ds_stale(br, #[trigger] u2[i]) by {
        if ds_stale(br, u2[i]) {
            crate::types::lemma_msg_eq_equivalence(u2[i], u2[i], u2[i]);
            assert(has_msg(u2, u2[i]));
            lemma_pre_signer_removes_stale(c, br, pool, node, quorum, u2[i]);
        }
    }
    lemma_purge_dealings_empty(br, u2, false);

    let v3 = validated_after(pool.validated@, complaint_handler_spec(c, br, pool, node));
    let u3 = unvalidated_after(pool.unvalidated@, complaint_handler_spec(c, br, pool, node));
    assert forall|i: int| 0 <= i < v3.len() implies !co_stale(br, #[trigger] v3[i]) by {
        if co_stale(br, v3[i]) {
            crate::types::lemma_msg_eq_equivalence(v3[i], v3[i], v3[i]);
            assert(has_msg(v3, v3[i]));
            lemma_complaint_handler_removes_stale(c, br, pool, node, v3[i]);
        }
    }
    lemma_purge_complaints_empty(br, v3, true);
    assert forall|i: int| 0 <= i < u3.len() implies !co_stale(br, #[trigger] u3[i]) by {
        if co_stale(br, u3[i]) {
            crate::types::lemma_msg_eq_equivalence(u3[i], u3[i], u3[i]);
            assert(has_msg(u3, u3[i]));
            lemma_complaint_handler_removes_stale(c, br, pool, node, u3[i]);
        }
    }
    lemma_purge_complaints_empty(br, u3, false);

    let v4 = validated_after(pool.validated@, signer_spec(c, br, Some(st), pool, node, quorum));
    let u4 = unvalidated_after(
        pool.unvalidated@,
        signer_spec(c, br, Some(st), pool, node, quorum),
    );
    assert forall|i: int| 0 <= i < v4.len() implies !sh_stale(st, #[trigger] v4[i]) by {
        if sh_stale(st, v4[i]) {
            crate::types::lemma_msg_eq_equivalence(v4[i], v4[i], v4[i]);
            assert(has_msg(v4, v4[i]));
            lemma_signer_removes_stale(c, br, st, pool, node, quorum, v4[i]);
        }
    }
    lemma_purge_shares_empty(st, v4, true);
    assert forall|i: int| 0 <= i < u4.len() implies !sh_stale(st, #[trigger] u4[i]) by {
        if sh_stale(st, u4[i]) {
            crate::types::lemma_msg_eq_equivalence(u4[i], u4[i], u4[i]);
            assert(has_msg(u4, u4[i]));
            lemma_signer_removes_stale(c, br, st, pool, node, quorum, u4[i]);
        }
    }
    lemma_purge_shares_empty(st, u4, false);
}

/// Each sub-engine's tick is a function of the pool's contents and the
/// snapshot alone: two pools holding the same messages yield the same
/// change set, whatever else distinguishes them.
pub proof fn lemma_tick_deterministic<C: CryptoOracle>(
    c: C,
    br: IDkgBlockReader,
    st: CertifiedStateSnapshot,
    p1: IDkgPool,
    p2: IDkgPool,
    node: u64,
    quorum: u64,
)
    requires
        p1.validated@ == p2.validated@,
        p1.unvalidated@ == p2.unvalidated@,
    ensures
        pre_signer_spec(c, br, p1, node, quorum) == pre_signer_spec(c, br, p2, node, quorum),
        signer_spec(c, br, Some(st), p1, node, quorum) == signer_spec(
            c,
            br,
            Some(st),
            p2,
            node,
            quorum,
        ),
        complaint_handler_spec(c, br, p1, node) == complaint_handler_spec(c, br, p2, node),
{
}

/// An empty tick leaves the pool exactly as it was: once a sub-engine's
/// change set is empty under a fixed intent, the pool is a fixed point, the
/// next tick computes the same (empty) change set, and the driver idles.
pub proof fn lemma_empty_tick_pool_unchanged(v: Seq<IDkgMessage>, u: Seq<IDkgMessage>)
    ensures
        validated_after(v, Seq::empty()) == v,
        unvalidated_after(u, Seq::empty()) == u,
{
}

/// Whether an action removes the key of `m` from the validated bag.
pub open spec fn removes_key_like(a: IDkgChangeAction, m: IDkgMessage) -> bool {
    match a {
        IDkgChangeAction::RemoveValidated(x) => same_key(x, m),
        _ => false,
    }
}

/// Whether an action inserts a message with the key of `m`.
pub open spec fn adds_key_like(a: IDkgChangeAction, m: IDkgMessage) -> bool {
    match a {
        IDkgChangeAction::AddToValidated(x) => same_key(x, m),
        IDkgChangeAction::MoveToValidated(x) => same_key(x, m),
        _ => false,
    }
}

/// A step that does not remove `m`'s key keeps a key holder in place.
pub proof fn lemma_step_keeps_key(v: Seq<IDkgMessage>, a: IDkgChangeAction, m: IDkgMessage)
    requires
        has_key(v, m),
        !removes_key_like(a, m),
    ensures
        has_key(step_validated(v, a), m),
{
    let i = choose|i: int| 0 <= i < v.len() && same_key(v[i], m);
    match a {
        IDkgChangeAction::AddToValidated(x) => {
            if !has_key(v, x) {
                assert(v.push(x)[i] == v[i]);
            }
        }
        IDkgChangeAction::MoveToValidated(x) => {
            if !has_key(v, x) {
                assert(v.push(x)[i] == v[i]);
            }
        }
        IDkgChangeAction::RemoveValidated(x) => {
            if msg_eq(v[i], x) {
                crate::types::lemma_msg_eq_same_key(v[i], x);
                crate::types::lemma_same_key_equivalence(x, v[i], m);
            } else {
                crate::pool::lemma_drop_msg_keeps(v, x, i);
                let j = choose|j: int|
                    0 <= j < drop_msg(v, x).len() && drop_msg(v, x)[j] == v[i];
                assert(same_key(drop_msg(v, x)[j], m));
            }
        }
        _ => {}
    }
}

/// A key already held survives a change set that never removes it.
pub proof fn lemma_key_sticks(v: Seq<IDkgMessage>, cs: Seq<IDkgChangeAction>, m: IDkgMessage)
    requires
        has_key(v, m),
        forall|k: int| 0 <= k < cs.len() ==> !removes_key_like(#[trigger] cs[k], m),
    ensures
        has_key(validated_after(v, cs), m),
    decreases cs.len(),
{
    if cs.len() > 0 {
        assert(forall|k: int|
            0 <= k < cs.drop_last().len() ==> !removes_key_like(
                #[trigger] cs.drop_last()[k],
                m,
            )) by {
            assert(forall|k: int|
                0 <= k < cs.len() - 1 ==> cs.drop_last()[k] == #[trigger] cs[k]);
        }
        lemma_key_sticks(v, cs.drop_last(), m);
        assert(!removes_key_like(cs.last(), m)) by {
            assert(cs.last() == cs[cs.len() - 1]);
        }
        lemma_step_keeps_key(validated_after(v, cs.drop_last()), cs.last(), m);
    }
}

/// An insertion of `m`'s key at position `k`, never removed afterwards,
/// leaves a key holder in the validated bag.
pub proof fn lemma_add_establishes_key(
    v: Seq<IDkgMessage>,
    cs: Seq<IDkgChangeAction>,
    m: IDkgMessage,
    k: int,
)
    requires
        0 <= k < cs.len(),
        adds_key_like(cs[k], m),
        forall|j: int| k < j < cs.len() ==> !removes_key_like(#[trigger] cs[j], m),
    ensures
        has_key(validated_after(v, cs), m),
    decreases cs.len(),
{
    let prev = validated_after(v, cs.drop_last());
    if k == cs.len() - 1 {
        assert(cs.last() == cs[k]);
        match cs.last() {
            IDkgChangeAction::AddToValidated(x) => {
                if has_key(prev, x) {
                    let i = choose|i: int| 0 <= i < prev.len() && same_key(prev[i], x);
                    crate::types::lemma_same_key_equivalence(prev[i], x, m);
                } else {
                    assert(prev.push(x)[prev.len() as int] == x);
                }
            }
            IDkgChangeAction::MoveToValidated(x) => {
                if has_key(prev, x) {
                    let i = choose|i: int| 0 <= i < prev.len() && same_key(prev[i], x);
                    crate::types::lemma_same_key_equivalence(prev[i], x, m);
                } else {
                    assert(prev.push(x)[prev.len() as int] == x);
                }
            }
            _ => {}
        }
    } else {
        assert(adds_key_like(cs.drop_last()[k], m));
        assert(forall|j: int|
            k < j < cs.drop_last().len() ==> !removes_key_like(
                #[trigger] cs.drop_last()[j],
                m,
            )) by {
            assert(forall|j: int|
                0 <= j < cs.len() - 1 ==> cs.drop_last()[j] == #[trigger] cs[j]);
        }
        lemma_add_establishes_key(v, cs.drop_last(), m, k);
        assert(!removes_key_like(cs.last(), m)) by {
            assert(cs.last() == cs[cs.len() - 1]);
        }
        lemma_step_keeps_key(prev, cs.last(), m);
    }
}

/// The unvalidated purge never touches the validated bag.
pub proof fn lemma_purge_dealings_u_no_remove_validated(
    br: IDkgBlockReader,
    entries: Seq<IDkgMessage>,
)
    ensures
        all_actions(
            purge_dealings_spec(br, entries, false),
            |a: IDkgChangeAction| !(a is RemoveValidated),
        ),
    decreases entries.len(),
{
    if entries.len() > 0 {
        lemma_purge_dealings_u_no_remove_validated(br, entries.drop_first());
    }
}

/// The validated purge removes stale dealings and support only.
pub proof fn lemma_purge_dealings_v_stale_only(br: IDkgBlockReader, entries: Seq<IDkgMessage>)
    ensures
        forall|k: int|
            0 <= k < purge_dealings_spec(br, entries, true).len() ==> match (
            #[trigger] purge_dealings_spec(br, entries, true)[k]) {
                IDkgChangeAction::RemoveValidated(x) => ds_stale(br, x),
                _ => true,
            },
    decreases entries.len(),
{
    if entries.len() > 0 {
        lemma_purge_dealings_v_stale_only(br, entries.drop_first());
    }
}

/// The validation passes never remove from the validated bag: they promote
/// and discard unvalidated artifacts only.
pub proof fn lemma_validate_passes_no_remove_validated<C: CryptoOracle>(
    c: C,
    br: IDkgBlockReader,
    st: CertifiedStateSnapshot,
    v: Seq<IDkgMessage>,
    u: Seq<IDkgMessage>,
    moved: Seq<IDkgMessage>,
)
    ensures
        all_actions(
            crate::pre_signer::validate_dealings_spec(c, br, v, u, moved),
            |a: IDkgChangeAction| !(a is RemoveValidated),
        ),
        all_actions(
            crate::pre_signer::validate_support_spec(c, br, v, u, moved),
            |a: IDkgChangeAction| !(a is RemoveValidated),
        ),
        all_actions(
            crate::complaints::validate_complaints_spec(c, br, v, u, moved),
            |a: IDkgChangeAction| !(a is RemoveValidated),
        ),
        all_actions(
            crate::complaints::validate_openings_spec(c, br, v, u, moved),
            |a: IDkgChangeAction| !(a is RemoveValidated),
        ),
        all_actions(
            crate::signer::validate_shares_spec(c, st, v, u, moved),
            |a: IDkgChangeAction| !(a is RemoveValidated),
        ),
    decreases u.len(),
{
    if u.len() > 0 {
        let m = u.first();
        lemma_validate_passes_no_remove_validated(c, br, st, v, u.drop_first(), moved);
        lemma_validate_passes_no_remove_validated(c, br, st, v, u.drop_first(), moved.push(m));
    }
}

/// The create-dealings pass deals for a serviceable config this replica has
/// not dealt for: its insertion stands in the pass.
pub proof fn lemma_create_pass_contains_deal<C: CryptoOracle>(
    c: C,
    br: IDkgBlockReader,
    v: Seq<IDkgMessage>,
    node: u64,
    quorum: u64,
    configs: Seq<crate::types::IDkgTranscriptParams>,
    i: int,
)
    requires
        0 <= i < configs.len(),
        configs[i].has_dealer(node),
        !has_key(
            v,
            IDkgMessage::Dealing(
                crate::types::SignedDealing {
                    transcript_id: configs[i].transcript_id,
                    dealer_id: node,
                },
            ),
        ),
        crate::complaints::load_deps_spec(
            c,
            br,
            v,
            node,
            quorum,
            configs[i].operation.deps_spec(),
        ) == crate::complaints::LoadOutcome::Loaded,
        c.dealing_creation_ok(configs[i].transcript_id),
    ensures
        exists|k: int|
            0 <= k < crate::pre_signer::create_dealings_spec(c, br, v, node, quorum, configs).len()
                && #[trigger] crate::pre_signer::create_dealings_spec(
                c,
                br,
                v,
                node,
                quorum,
                configs,
            )[k] == IDkgChangeAction::AddToValidated(
                IDkgMessage::Dealing(
                    crate::types::SignedDealing {
                        transcript_id: configs[i].transcript_id,
                        dealer_id: node,
                    },
                ),
            ),
    decreases configs.len(),
{
    let whole = crate::pre_signer::create_dealings_spec(c, br, v, node, quorum, configs);
    let head = crate::pre_signer::create_for_config_spec(c, br, v, node, quorum, configs.first());
    let rest = crate::pre_signer::create_dealings_spec(
        c,
        br,
        v,
        node,
        quorum,
        configs.drop_first(),
    );
    if i == 0 {
        assert(configs.first() == configs[0]);
        let dealing = crate::types::SignedDealing {
            transcript_id: configs[0].transcript_id,
            dealer_id: node,
        };
        assert(head == seq![
            IDkgChangeAction::AddToValidated(IDkgMessage::Dealing(dealing)),
        ]);
        assert(whole[0] == IDkgChangeAction::AddToValidated(IDkgMessage::Dealing(dealing)));
    } else {
        assert(configs.drop_first()[i - 1] == configs[i]);
        lemma_create_pass_contains_deal(c, br, v, node, quorum, configs.drop_first(), i - 1);
        let k = choose|k: int|
            0 <= k < rest.len() && #[trigger] rest[k] == IDkgChangeAction::AddToValidated(
                IDkgMessage::Dealing(
                    crate::types::SignedDealing {
                        transcript_id: configs[i].transcript_id,
                        dealer_id: node,
                    },
                ),
            );
        assert(whole[head.len() + k] == rest[k]);
    }
}

/// Progress and idempotence of dealing: when a requested config names this
/// replica as dealer, its dependencies load, and the keystore deals, one
/// pre-signer tick leaves this replica's dealing validated — and with the
/// dealing in place, the create step of any later tick under the same
/// intent re-deals nothing for that config.
pub proof fn lemma_pre_signer_deals_once<C: CryptoOracle>(
    c: C,
    br: IDkgBlockReader,
    pool: IDkgPool,
    node: u64,
    quorum: u64,
    i: int,
)
    requires
        0 <= i < br.requested@.len(),
        br.requested@[i].has_dealer(node),
        crate::complaints::load_deps_spec(
            c,
            br,
            pool.validated@,
            node,
            quorum,
            br.requested@[i].operation.deps_spec(),
        ) == crate::complaints::LoadOutcome::Loaded,
        c.dealing_creation_ok(br.requested@[i].transcript_id),
    ensures
        has_key(
            validated_after(pool.validated@, pre_signer_spec(c, br, pool, node, quorum)),
            IDkgMessage::Dealing(
                crate::types::SignedDealing {
                    transcript_id: br.requested@[i].transcript_id,
                    dealer_id: node,
                },
            ),
        ),
        forall|w: IDkgPool|
            has_key(
                w.validated@,
                IDkgMessage::Dealing(
                    crate::types::SignedDealing {
                        transcript_id: (#[trigger] br.requested@[i]).transcript_id,
                        dealer_id: node,
                    },
                ),
            ) ==> crate::pre_signer::create_for_config_spec(
                c,
                br,
                w.validated@,
                node,
                quorum,
                br.requested@[i],
            ) == Seq::<IDkgChangeAction>::empty(),
{
    let v = pool.validated@;
    let u = pool.unvalidated@;
    let tid = br.requested@[i].transcript_id;
    let dealing = crate::types::SignedDealing { transcript_id: tid, dealer_id: node };
    let m = IDkgMessage::Dealing(dealing);
    let a1 = crate::pre_signer::create_dealings_spec(c, br, v, node, quorum, br.requested@);
    let a2 = crate::pre_signer::validate_dealings_spec(c, br, v, u, Seq::empty());
    let a3 = crate::pre_signer::send_support_spec(c, br, v, v, node);
    let a4 = crate::pre_signer::validate_support_spec(c, br, v, u, Seq::empty());
    let a5 = purge_dealings_spec(br, u, false);
    let a6 = purge_dealings_spec(br, v, true);
    let full = pre_signer_spec(c, br, pool, node, quorum);
    assert(full == a1 + a2 + a3 + a4 + a5 + a6);

    // No segment ever removes the dealing's key: the first five never
    // remove from the validated bag, and the final purge removes only stale
    // artifacts while this config is requested.
    let p_nr = |a: IDkgChangeAction| !removes_key_like(a, m);
    lemma_create_dealings_adds(c, br, v, node, quorum, br.requested@);
    lemma_all_actions_weaken(a1, |a: IDkgChangeAction| is_add(a), p_nr);
    lemma_validate_passes_no_remove_validated(c, br, arbitrary_state(), v, u, Seq::empty());
    lemma_all_actions_weaken(a2, |a: IDkgChangeAction| !(a is RemoveValidated), p_nr);
    lemma_send_support_adds(c, br, v, v, node);
    lemma_all_actions_weaken(a3, |a: IDkgChangeAction| is_add(a), p_nr);
    lemma_all_actions_weaken(a4, |a: IDkgChangeAction| !(a is RemoveValidated), p_nr);
    lemma_purge_dealings_u_no_remove_validated(br, u);
    lemma_all_actions_weaken(a5, |a: IDkgChangeAction| !(a is RemoveValidated), p_nr);
    lemma_purge_dealings_v_stale_only(br, v);
    assert(br.is_requested(tid));
    assert forall|k: int| 0 <= k < a6.len() implies p_nr(#[trigger] a6[k]) by {
        match a6[k] {
            IDkgChangeAction::RemoveValidated(x) => {
                if same_key(x, m) {
                    assert(ds_stale(br, x));
                }
            }
            _ => {}
        }
    }
    lemma_all_actions_concat(a1, a2, p_nr);
    lemma_all_actions_concat(a1 + a2, a3, p_nr);
    lemma_all_actions_concat(a1 + a2 + a3, a4, p_nr);
    lemma_all_actions_concat(a1 + a2 + a3 + a4, a5, p_nr);
    lemma_all_actions_concat(a1 + a2 + a3 + a4 + a5, a6, p_nr);
    assert(all_actions(full, p_nr));
    assert(forall|k: int| 0 <= k < full.len() ==> !removes_key_like(#[trigger] full[k], m)) by {
        assert(forall|k: int| 0 <= k < full.len() ==> p_nr(#[trigger] full[k]));
    }

    if has_key(v, m) {
        lemma_key_sticks(v, full, m);
    } else {
        lemma_create_pass_contains_deal(c, br, v, node, quorum, br.requested@, i);
        let k = choose|k: int|
            0 <= k < a1.len() && #[trigger] a1[k] == IDkgChangeAction::AddToValidated(m);
        assert(full[k] == a1[k]) by {
            assert((a1 + a2)[k] == a1[k]);
            assert((a1 + a2 + a3)[k] == (a1 + a2)[k]);
            assert((a1 + a2 + a3 + a4)[k] == (a1 + a2 + a3)[k]);
            assert((a1 + a2 + a3 + a4 + a5)[k] == (a1 + a2 + a3 + a4)[k]);
            assert((a1 + a2 + a3 + a4 + a5 + a6)[k] == (a1 + a2 + a3 + a4 + a5)[k]);
        }
        assert(adds_key_like(full[k], m)) by {
            crate::types::lemma_same_key_equivalence(m, m, m);
        }
        lemma_add_establishes_key(v, full, m, k);
    }
}

/// The support-issuing pass attests a validated dealing addressed to this
/// replica that it has not yet supported: its insertion stands in the pass.
pub proof fn lemma_support_pass_contains_support<C: CryptoOracle>(
    c: C,
    br: IDkgBlockReader,
    v_all: Seq<IDkgMessage>,
    entries: Seq<IDkgMessage>,
    node: u64,
    i: int,
    d: crate::types::SignedDealing,
)
    requires
        0 <= i < entries.len(),
        entries[i] == IDkgMessage::Dealing(d),
        match br.config_for(d.transcript_id) {
            Some(config) => config.has_receiver(node),
            None => false,
        },
        !has_key(
            v_all,
            IDkgMessage::DealingSupport(
                crate::types::DealingSupport {
                    transcript_id: d.transcript_id,
                    dealer_id: d.dealer_id,
                    signer_id: node,
                },
            ),
        ),
        c.dealing_private_ok(d),
    ensures
        exists|k: int|
            0 <= k < crate::pre_signer::send_support_spec(c, br, v_all, entries, node).len()
                && #[trigger] crate::pre_signer::send_support_spec(c, br, v_all, entries, node)[k]
                == IDkgChangeAction::AddToValidated(
                IDkgMessage::DealingSupport(
                    crate::types::DealingSupport {
                        transcript_id: d.transcript_id,
                        dealer_id: d.dealer_id,
                        signer_id: node,
                    },
                ),
            ),
    decreases entries.len(),
{
    let whole = crate::pre_signer::send_support_spec(c, br, v_all, entries, node);
    let rest = crate::pre_signer::send_support_spec(c, br, v_all, entries.drop_first(), node);
    let support = crate::types::DealingSupport {
        transcript_id: d.transcript_id,
        dealer_id: d.dealer_id,
        signer_id: node,
    };
    if i == 0 {
        assert(entries.first() == IDkgMessage::Dealing(d));
        assert(whole == seq![
            IDkgChangeAction::AddToValidated(IDkgMessage::DealingSupport(support)),
        ] + rest);
        assert(whole[0] == IDkgChangeAction::AddToValidated(
            IDkgMessage::DealingSupport(support),
        ));
    } else {
        assert(entries.drop_first()[i - 1] == entries[i]);
        lemma_support_pass_contains_support(
            c,
            br,
            v_all,
            entries.drop_first(),
            node,
            i - 1,
            d,
        );
        let k = choose|k: int|
            0 <= k < rest.len() && #[trigger] rest[k] == IDkgChangeAction::AddToValidated(
                IDkgMessage::DealingSupport(support),
            );
        let head = whole.len() - rest.len();
        assert(whole[head + k] == rest[k]);
    }
}

/// Progress and idempotence of support: when a validated dealing's requested
/// config names this replica as receiver, private verification accepts it,
/// and this replica has not supported it yet, one pre-signer tick leaves the
/// support validated — and with the support in place, the support step of
/// any later tick under the same intent re-issues nothing for that dealing.
pub proof fn lemma_pre_signer_supports_once<C: CryptoOracle>(
    c: C,
    br: IDkgBlockReader,
    pool: IDkgPool,
    node: u64,
    quorum: u64,
    i: int,
    d: crate::types::SignedDealing,
)
    requires
        0 <= i < pool.validated@.len(),
        pool.validated@[i] == IDkgMessage::Dealing(d),
        match br.config_for(d.transcript_id) {
            Some(config) => config.has_receiver(node),
            None => false,
        },
        !has_key(
            pool.validated@,
            IDkgMessage::DealingSupport(
                crate::types::DealingSupport {
                    transcript_id: d.transcript_id,
                    dealer_id: d.dealer_id,
                    signer_id: node,
                },
            ),
        ),
        c.dealing_private_ok(d),
    ensures
        has_key(
            validated_after(pool.validated@, pre_signer_spec(c, br, pool, node, quorum)),
            IDkgMessage::DealingSupport(
                crate::types::DealingSupport {
                    transcript_id: d.transcript_id,
                    dealer_id: d.dealer_id,
                    signer_id: node,
                },
            ),
        ),
{
    let v = pool.validated@;
    let u = pool.unvalidated@;
    let support = crate::types::DealingSupport {
        transcript_id: d.transcript_id,
        dealer_id: d.dealer_id,
        signer_id: node,
    };
    let m = IDkgMessage::DealingSupport(support);
    let a1 = crate::pre_signer::create_dealings_spec(c, br, v, node, quorum, br.requested@);
    let a2 = crate::pre_signer::validate_dealings_spec(c, br, v, u, Seq::empty());
    let a3 = crate::pre_signer::send_support_spec(c, br, v, v, node);
    let a4 = crate::pre_signer::validate_support_spec(c, br, v, u, Seq::empty());
    let a5 = purge_dealings_spec(br, u, false);
    let a6 = purge_dealings_spec(br, v, true);
    let full = pre_signer_spec(c, br, pool, node, quorum);
    assert(full == a1 + a2 + a3 + a4 + a5 + a6);

    let p_nr = |a: IDkgChangeAction| !removes_key_like(a, m);
    lemma_create_dealings_adds(c, br, v, node, quorum, br.requested@);
    lemma_all_actions_weaken(a1, |a: IDkgChangeAction| is_add(a), p_nr);
    lemma_validate_passes_no_remove_validated(c, br, arbitrary_state(), v, u, Seq::empty());
    lemma_all_actions_weaken(a2, |a: IDkgChangeAction| !(a is RemoveValidated), p_nr);
    lemma_send_support_adds(c, br, v, v, node);
    lemma_all_actions_weaken(a3, |a: IDkgChangeAction| is_add(a), p_nr);
    lemma_all_actions_weaken(a4, |a: IDkgChangeAction| !(a is RemoveValidated), p_nr);
    lemma_purge_dealings_u_no_remove_validated(br, u);
    lemma_all_actions_weaken(a5, |a: IDkgChangeAction| !(a is RemoveValidated), p_nr);
    lemma_purge_dealings_v_stale_only(br, v);
    crate::block_reader::lemma_first_config(br.requested@, d.transcript_id);
    assert(br.is_requested(d.transcript_id));
    assert forall|k: int| 0 <= k < a6.len() implies p_nr(#[trigger] a6[k]) by {
        match a6[k] {
            IDkgChangeAction::RemoveValidated(x) => {
                if same_key(x, m) {
                    assert(ds_stale(br, x));
                }
            }
            _ => {}
        }
    }
    lemma_all_actions_concat(a1, a2, p_nr);
    lemma_all_actions_concat(a1 + a2, a3, p_nr);
    lemma_all_actions_concat(a1 + a2 + a3, a4, p_nr);
    lemma_all_actions_concat(a1 + a2 + a3 + a4, a5, p_nr);
    lemma_all_actions_concat(a1 + a2 + a3 + a4 + a5, a6, p_nr);
    assert(forall|k: int| 0 <= k < full.len() ==> !removes_key_like(#[trigger] full[k], m)) by {
        assert(forall|k: int| 0 <= k < full.len() ==> p_nr(#[trigger] full[k]));
    }

    lemma_support_pass_contains_support(c, br, v, v, node, i, d);
    let k = choose|k: int|
        0 <= k < a3.len() && #[trigger] a3[k] == IDkgChangeAction::AddToValidated(m);
    let n = (a1 + a2).len();
    assert(full[n + k] == a3[k]) by {
        assert(((a1 + a2) + a3)[n + k] == a3[k]);
        assert((a1 + a2 + a3 + a4)[n + k] == (a1 + a2 + a3)[n + k]);
        assert((a1 + a2 + a3 + a4 + a5)[n + k] == (a1 + a2 + a3 + a4)[n + k]);
        assert((a1 + a2 + a3 + a4 + a5 + a6)[n + k] == (a1 + a2 + a3 + a4 + a5)[n + k]);
    }
    assert(adds_key_like(full[n + k], m)) by {
        crate::types::lemma_same_key_equivalence(m, m, m);
    }
    lemma_add_establishes_key(v, full, m, n + k);
}

/// The unvalidated complaint purge never touches the validated bag.
pub proof fn lemma_purge_complaints_u_no_remove_validated(
    br: IDkgBlockReader,
    entries: Seq<IDkgMessage>,
)
    ensures
        all_actions(
            purge_complaints_spec(br, entries, false),
            |a: IDkgChangeAction| !(a is RemoveValidated),
        ),
    decreases entries.len(),
{
    if entries.len() > 0 {
        lemma_purge_complaints_u_no_remove_validated(br, entries.drop_first());
    }
}

/// The validated complaint purge removes stale complaints and openings only.
pub proof fn lemma_purge_complaints_v_stale_only(
    br: IDkgBlockReader,
    entries: Seq<IDkgMessage>,
)
    ensures
        forall|k: int|
            0 <= k < purge_complaints_spec(br, entries, true).len() ==> match (
            #[trigger] purge_complaints_spec(br, entries, true)[k]) {
                IDkgChangeAction::RemoveValidated(x) => co_stale(br, x),
                _ => true,
            },
    decreases entries.len(),
{
    if entries.len() > 0 {
        lemma_purge_complaints_v_stale_only(br, entries.drop_first());
    }
}

/// The opening-emission pass answers a validated complaint this replica has
/// not yet answered: its insertion stands in the pass.
pub proof fn lemma_opening_pass_contains_opening<C: CryptoOracle>(
    c: C,
    br: IDkgBlockReader,
    v_all: Seq<IDkgMessage>,
    entries: Seq<IDkgMessage>,
    node: u64,
    i: int,
    cp: crate::types::SignedComplaint,
)
    requires
        0 <= i < entries.len(),
        entries[i] == IDkgMessage::Complaint(cp),
        br.is_requested(cp.transcript_id),
        !has_key(
            v_all,
            IDkgMessage::Opening(
                crate::types::SignedOpening {
                    transcript_id: cp.transcript_id,
                    dealer_id: cp.dealer_id,
                    complainer_id: cp.complainer_id,
                    opener_id: node,
                },
            ),
        ),
        c.opening_creation_ok(cp),
    ensures
        exists|k: int|
            0 <= k < crate::complaints::send_openings_spec(c, br, v_all, entries, node).len()
                && #[trigger] crate::complaints::send_openings_spec(c, br, v_all, entries, node)[k]
                == IDkgChangeAction::AddToValidated(
                IDkgMessage::Opening(
                    crate::types::SignedOpening {
                        transcript_id: cp.transcript_id,
                        dealer_id: cp.dealer_id,
                        complainer_id: cp.complainer_id,
                        opener_id: node,
                    },
                ),
            ),
    decreases entries.len(),
{
    let whole = crate::complaints::send_openings_spec(c, br, v_all, entries, node);
    let rest = crate::complaints::send_openings_spec(c, br, v_all, entries.drop_first(), node);
    let opening = crate::types::SignedOpening {
        transcript_id: cp.transcript_id,
        dealer_id: cp.dealer_id,
        complainer_id: cp.complainer_id,
        opener_id: node,
    };
    if i == 0 {
        assert(entries.first() == IDkgMessage::Complaint(cp));
        assert(whole == seq![
            IDkgChangeAction::AddToValidated(IDkgMessage::Opening(opening)),
        ] + rest);
        assert(whole[0] == IDkgChangeAction::AddToValidated(IDkgMessage::Opening(opening)));
    } else {
        assert(entries.drop_first()[i - 1] == entries[i]);
        lemma_opening_pass_contains_opening(
            c,
            br,
            v_all,
            entries.drop_first(),
            node,
            i - 1,
            cp,
        );
        let k = choose|k: int|
            0 <= k < rest.len() && #[trigger] rest[k] == IDkgChangeAction::AddToValidated(
                IDkgMessage::Opening(opening),
            );
        let head = whole.len() - rest.len();
        assert(whole[head + k] == rest[k]);
    }
}

/// Progress and idempotence of opening: a validated complaint on a requested
/// config that this replica has not yet answered is answered within one
/// complaint-handler tick, and the opening stays — so the emission step of
/// any later tick under the same intent re-answers nothing for it.
pub proof fn lemma_complaint_handler_opens_once<C: CryptoOracle>(
    c: C,
    br: IDkgBlockReader,
    pool: IDkgPool,
    node: u64,
    i: int,
    cp: crate::types::SignedComplaint,
)
    requires
        0 <= i < pool.validated@.len(),
        pool.validated@[i] == IDkgMessage::Complaint(cp),
        br.is_requested(cp.transcript_id),
        !has_key(
            pool.validated@,
            IDkgMessage::Opening(
                crate::types::SignedOpening {
                    transcript_id: cp.transcript_id,
                    dealer_id: cp.dealer_id,
                    complainer_id: cp.complainer_id,
                    opener_id: node,
                },
            ),
        ),
        c.opening_creation_ok(cp),
    ensures
        has_key(
            validated_after(pool.validated@, complaint_handler_spec(c, br, pool, node)),
            IDkgMessage::Opening(
                crate::types::SignedOpening {
                    transcript_id: cp.transcript_id,
                    dealer_id: cp.dealer_id,
                    complainer_id: cp.complainer_id,
                    opener_id: node,
                },
            ),
        ),
{
    let v = pool.validated@;
    let u = pool.unvalidated@;
    let opening = crate::types::SignedOpening {
        transcript_id: cp.transcript_id,
        dealer_id: cp.dealer_id,
        complainer_id: cp.complainer_id,
        opener_id: node,
    };
    let m = IDkgMessage::Opening(opening);
    let b1 = crate::complaints::validate_complaints_spec(c, br, v, u, Seq::empty());
    let b2 = crate::complaints::send_openings_spec(c, br, v, v, node);
    let b3 = crate::complaints::validate_openings_spec(c, br, v, u, Seq::empty());
    let b4 = purge_complaints_spec(br, u, false);
    let b5 = purge_complaints_spec(br, v, true);
    let full = complaint_handler_spec(c, br, pool, node);
    assert(full == b1 + b2 + b3 + b4 + b5);

    let p_nr = |a: IDkgChangeAction| !removes_key_like(a, m);
    lemma_validate_passes_no_remove_validated(c, br, arbitrary_state(), v, u, Seq::empty());
    lemma_all_actions_weaken(b1, |a: IDkgChangeAction| !(a is RemoveValidated), p_nr);
    lemma_send_openings_adds(c, br, v, v, node);
    lemma_all_actions_weaken(b2, |a: IDkgChangeAction| is_add(a), p_nr);
    lemma_all_actions_weaken(b3, |a: IDkgChangeAction| !(a is RemoveValidated), p_nr);
    lemma_purge_complaints_u_no_remove_validated(br, u);
    lemma_all_actions_weaken(b4, |a: IDkgChangeAction| !(a is RemoveValidated), p_nr);
    lemma_purge_complaints_v_stale_only(br, v);
    assert forall|k: int| 0 <= k < b5.len() implies p_nr(#[trigger] b5[k]) by {
        match b5[k] {
            IDkgChangeAction::RemoveValidated(x) => {
                if same_key(x, m) {
                    assert(co_stale(br, x));
                }
            }
            _ => {}
        }
    }
    lemma_all_actions_concat(b1, b2, p_nr);
    lemma_all_actions_concat(b1 + b2, b3, p_nr);
    lemma_all_actions_concat(b1 + b2 + b3, b4, p_nr);
    lemma_all_actions_concat(b1 + b2 + b3 + b4, b5, p_nr);
    assert(forall|k: int| 0 <= k < full.len() ==> !removes_key_like(#[trigger] full[k], m)) by {
        assert(forall|k: int| 0 <= k < full.len() ==> p_nr(#[trigger] full[k]));
    }

    lemma_opening_pass_contains_opening(c, br, v, v, node, i, cp);
    let k = choose|k: int|
        0 <= k < b2.len() && #[trigger] b2[k] == IDkgChangeAction::AddToValidated(m);
    let n = b1.len();
    assert(full[n + k] == b2[k]) by {
        assert((b1 + b2)[n + k] == b2[k]);
        assert((b1 + b2 + b3)[n + k] == (b1 + b2)[n + k]);
        assert((b1 + b2 + b3 + b4)[n + k] == (b1 + b2 + b3)[n + k]);
        assert((b1 + b2 + b3 + b4 + b5)[n + k] == (b1 + b2 + b3 + b4)[n + k]);
    }
    assert(adds_key_like(full[n + k], m)) by {
        crate::types::lemma_same_key_equivalence(m, m, m);
    }
    lemma_add_establishes_key(v, full, m, n + k);
}

/// The create-shares pass inserts shares only for contexts taken from the
/// certified state — so their requests are outstanding by construction.
pub proof fn lemma_create_shares_targets<C: CryptoOracle>(
    c: C,
    br: IDkgBlockReader,
    st: CertifiedStateSnapshot,
    v: Seq<IDkgMessage>,
    node: u64,
    quorum: u64,
    ctxs: Seq<crate::block_reader::SignatureRequestContext>,
)
    requires
        forall|i: int| 0 <= i < ctxs.len() ==> st.contexts@.contains(#[trigger] ctxs[i]),
    ensures
        all_actions(
            crate::signer::create_shares_spec(c, br, v, node, quorum, ctxs),
            |a: IDkgChangeAction| signer_add_targets_requested(a, st),
        ),
    decreases ctxs.len(),
{
    let p = |a: IDkgChangeAction| signer_add_targets_requested(a, st);
    if ctxs.len() > 0 {
        assert(forall|i: int|
            0 <= i < ctxs.drop_first().len() ==> st.contexts@.contains(
                #[trigger] ctxs.drop_first()[i],
            )) by {
            assert(forall|i: int|
                0 <= i < ctxs.len() - 1 ==> ctxs.drop_first()[i] == #[trigger] ctxs[i + 1]);
        }
        lemma_create_shares_targets(c, br, st, v, node, quorum, ctxs.drop_first());
        let ctx = ctxs.first();
        assert(st.contexts@.contains(ctx)) by {
            assert(ctxs[0] == ctx);
        }
        match crate::block_reader::context_request_id_spec(ctx) {
            Some(rid) => {
                assert(st.is_requested(rid)) by {
                    let i = choose|i: int| 0 <= i < st.contexts@.len() && st.contexts@[i] == ctx;
                    assert(match crate::block_reader::context_request_id_spec(st.contexts@[i]) {
                        Some(r) => crate::types::rid_eq(r, rid),
                        None => false,
                    });
                }
                match crate::signer::first_pre_signature(br.pre_signatures@, rid.pre_signature_id) {
                    Some(pre) => {
                        match crate::complaints::load_deps_spec(
                            c,
                            br,
                            v,
                            node,
                            quorum,
                            crate::signer::pre_sig_refs(pre),
                        ) {
                            crate::complaints::LoadOutcome::Blocked(cs) => {
                                lemma_complaint_additions_adds(v, cs);
                                lemma_complaint_additions_kind(v, cs);
                            }
                            _ => {}
                        }
                    }
                    None => {}
                }
            }
            None => {}
        }
        lemma_all_actions_concat(
            crate::signer::create_for_context_spec(c, br, v, node, quorum, ctx),
            crate::signer::create_shares_spec(c, br, v, node, quorum, ctxs.drop_first()),
            p,
        );
    }
}

// ---------------------------------------------------------------------------
// One full rotation of the driver.
// ---------------------------------------------------------------------------
/// The kinds of actions a pre-signer tick can take: it inserts dealings,
/// support and complaints, promotes dealings and support, and removes.
pub open spec fn pre_signer_kinds(a: IDkgChangeAction) -> bool {
    match a {
        IDkgChangeAction::AddToValidated(x) => x is Dealing || x is DealingSupport || x
            is Complaint,
        IDkgChangeAction::MoveToValidated(x) => x is Dealing || x is DealingSupport,
        _ => true,
    }
}

/// The kinds of actions a signer tick can take: it inserts shares and
/// complaints, promotes shares, and removes.
pub open spec fn signer_kinds(a: IDkgChangeAction) -> bool {
    match a {
        IDkgChangeAction::AddToValidated(x) => x is EcdsaSigShare || x is SchnorrSigShare || x
            is Complaint,
        IDkgChangeAction::MoveToValidated(x) => x is EcdsaSigShare || x is SchnorrSigShare,
        _ => true,
    }
}

/// The kinds of actions a complaint-handler tick can take: it inserts
/// openings, promotes complaints and openings, and removes.
pub open spec fn handler_kinds(a: IDkgChangeAction) -> bool {
    match a {
        IDkgChangeAction::AddToValidated(x) => x is Opening,
        IDkgChangeAction::MoveToValidated(x) => x is Complaint || x is Opening,
        _ => true,
    }
}

/// The create-dealings pass inserts dealings and complaints only.
pub proof fn lemma_create_dealings_kinds<C: CryptoOracle>(
    c: C,
    br: IDkgBlockReader,
    v: Seq<IDkgMessage>,
    node: u64,
    quorum: u64,
    configs: Seq<crate::types::IDkgTranscriptParams>,
)
    ensures
        all_actions(
            crate::pre_signer::create_dealings_spec(c, br, v, node, quorum, configs),
            |a: IDkgChangeAction| pre_signer_kinds(a),
        ),
    decreases configs.len(),
{
    let p = |a: IDkgChangeAction| pre_signer_kinds(a);
    if configs.len() > 0 {
        lemma_create_dealings_kinds(c, br, v, node, quorum, configs.drop_first());
        match crate::complaints::load_deps_spec(
            c,
            br,
            v,
            node,
            quorum,
            configs.first().operation.deps_spec(),
        ) {
            crate::complaints::LoadOutcome::Blocked(cs) => {
                lemma_complaint_additions_kind(v, cs);
            }
            _ => {}
        }
        lemma_all_actions_concat(
            crate::pre_signer::create_for_config_spec(c, br, v, node, quorum, configs.first()),
            crate::pre_signer::create_dealings_spec(
                c,
                br,
                v,
                node,
                quorum,
                configs.drop_first(),
            ),
            p,
        );
    }
}

/// The support-issuing pass inserts support and complaints only.
pub proof fn lemma_send_support_kinds<C: CryptoOracle>(
    c: C,
    br: IDkgBlockReader,
    v_all: Seq<IDkgMessage>,
    entries: Seq<IDkgMessage>,
    node: u64,
)
    ensures
        all_actions(
            crate::pre_signer::send_support_spec(c, br, v_all, entries, node),
            |a: IDkgChangeAction| pre_signer_kinds(a),
        ),
    decreases entries.len(),
{
    if entries.len() > 0 {
        lemma_send_support_kinds(c, br, v_all, entries.drop_first(), node);
    }
}

/// The create-shares pass inserts shares and complaints only.
pub proof fn lemma_create_shares_kinds<C: CryptoOracle>(
    c: C,
    br: IDkgBlockReader,
    v: Seq<IDkgMessage>,
    node: u64,
    quorum: u64,
    ctxs: Seq<crate::block_reader::SignatureRequestContext>,
)
    ensures
        all_actions(
            crate::signer::create_shares_spec(c, br, v, node, quorum, ctxs),
            |a: IDkgChangeAction| signer_kinds(a),
        ),
    decreases ctxs.len(),
{
    let p = |a: IDkgChangeAction| signer_kinds(a);
    if ctxs.len() > 0 {
        lemma_create_shares_kinds(c, br, v, node, quorum, ctxs.drop_first());
        match crate::block_reader::context_request_id_spec(ctxs.first()) {
            Some(rid) => {
                match crate::signer::first_pre_signature(
                    br.pre_signatures@,
                    rid.pre_signature_id,
                ) {
                    Some(pre) => {
                        match crate::complaints::load_deps_spec(
                            c,
                            br,
                            v,
                            node,
                            quorum,
                            crate::signer::pre_sig_refs(pre),
                        ) {
                            crate::complaints::LoadOutcome::Blocked(cs) => {
                                lemma_complaint_additions_kind(v, cs);
                            }
                            _ => {}
                        }
                    }
                    None => {}
                }
            }
            None => {}
        }
        lemma_all_actions_concat(
            crate::signer::create_for_context_spec(c, br, v, node, quorum, ctxs.first()),
            crate::signer::create_shares_spec(c, br, v, node, quorum, ctxs.drop_first()),
            p,
        );
    }
}

/// The opening-emission pass inserts openings only.
pub proof fn lemma_send_openings_kinds<C: CryptoOracle>(
    c: C,
    br: IDkgBlockReader,
    v_all: Seq<IDkgMessage>,
    entries: Seq<IDkgMessage>,
    node: u64,
)
    ensures
        all_actions(
            crate::complaints::send_openings_spec(c, br, v_all, entries, node),
            |a: IDkgChangeAction| handler_kinds(a),
        ),
    decreases entries.len(),
{
    if entries.len() > 0 {
        lemma_send_openings_kinds(c, br, v_all, entries.drop_first(), node);
    }
}

/// A pre-signer tick only handles dealings, support and complaints.
pub proof fn lemma_pre_signer_all_kinds<C: CryptoOracle>(
    c: C,
    br: IDkgBlockReader,
    pool: IDkgPool,
    node: u64,
    quorum: u64,
)
    ensures
        all_actions(
            pre_signer_spec(c, br, pool, node, quorum),
            |a: IDkgChangeAction| pre_signer_kinds(a),
        ),
{
    let v = pool.validated@;
    let u = pool.unvalidated@;
    let p = |a: IDkgChangeAction| pre_signer_kinds(a);
    lemma_create_dealings_kinds(c, br, v, node, quorum, br.requested@);
    lemma_validate_passes_no_adds(c, br, arbitrary_state(), v, u, Seq::empty());
    lemma_validate_dealings_gated(c, br, v, u, Seq::empty());
    lemma_all_actions_weaken2(
        crate::pre_signer::validate_dealings_spec(c, br, v, u, Seq::empty()),
        |a: IDkgChangeAction| pre_move_gated(a, br),
        |a: IDkgChangeAction| !is_add(a),
        p,
    );
    lemma_send_support_kinds(c, br, v, v, node);
    lemma_validate_support_gated(c, br, v, u, Seq::empty());
    lemma_all_actions_weaken2(
        crate::pre_signer::validate_support_spec(c, br, v, u, Seq::empty()),
        |a: IDkgChangeAction| pre_move_gated(a, br),
        |a: IDkgChangeAction| !is_add(a),
        p,
    );
    lemma_purge_dealings_removals(br, u, false);
    lemma_all_actions_weaken(
        purge_dealings_spec(br, u, false),
        |a: IDkgChangeAction| is_removal(a),
        p,
    );
    lemma_purge_dealings_removals(br, v, true);
    lemma_all_actions_weaken(
        purge_dealings_spec(br, v, true),
        |a: IDkgChangeAction| is_removal(a),
        p,
    );
    let a1 = crate::pre_signer::create_dealings_spec(c, br, v, node, quorum, br.requested@);
    let a2 = crate::pre_signer::validate_dealings_spec(c, br, v, u, Seq::empty());
    let a3 = crate::pre_signer::send_support_spec(c, br, v, v, node);
    let a4 = crate::pre_signer::validate_support_spec(c, br, v, u, Seq::empty());
    let a5 = purge_dealings_spec(br, u, false);
    let a6 = purge_dealings_spec(br, v, true);
    lemma_all_actions_concat(a1, a2, p);
    lemma_all_actions_concat(a1 + a2, a3, p);
    lemma_all_actions_concat(a1 + a2 + a3, a4, p);
    lemma_all_actions_concat(a1 + a2 + a3 + a4, a5, p);
    lemma_all_actions_concat(a1 + a2 + a3 + a4 + a5, a6, p);
}

/// A signer tick only handles shares and complaints.
pub proof fn lemma_signer_all_kinds<C: CryptoOracle>(
    c: C,
    br: IDkgBlockReader,
    st: CertifiedStateSnapshot,
    pool: IDkgPool,
    node: u64,
    quorum: u64,
)
    ensures
        all_actions(
            signer_spec(c, br, Some(st), pool, node, quorum),
            |a: IDkgChangeAction| signer_kinds(a),
        ),
{
    let v = pool.validated@;
    let u = pool.unvalidated@;
    let p = |a: IDkgChangeAction| signer_kinds(a);
    lemma_create_shares_kinds(c, br, v, node, quorum, st.contexts@);
    lemma_validate_passes_no_adds(c, br, st, v, u, Seq::empty());
    lemma_validate_shares_gated(c, st, v, u, Seq::empty());
    lemma_all_actions_weaken2(
        crate::signer::validate_shares_spec(c, st, v, u, Seq::empty()),
        |a: IDkgChangeAction| signer_move_gated(a, st),
        |a: IDkgChangeAction| !is_add(a),
        p,
    );
    lemma_purge_shares_removals(st, u, false);
    lemma_all_actions_weaken(
        purge_shares_spec(st, u, false),
        |a: IDkgChangeAction| is_removal(a),
        p,
    );
    lemma_purge_shares_removals(st, v, true);
    lemma_all_actions_weaken(
        purge_shares_spec(st, v, true),
        |a: IDkgChangeAction| is_removal(a),
        p,
    );
    let s1 = crate::signer::create_shares_spec(c, br, v, node, quorum, st.contexts@);
    let s2 = crate::signer::validate_shares_spec(c, st, v, u, Seq::empty());
    let s3 = purge_shares_spec(st, u, false);
    let s4 = purge_shares_spec(st, v, true);
    lemma_all_actions_concat(s1, s2, p);
    lemma_all_actions_concat(s1 + s2, s3, p);
    lemma_all_actions_concat(s1 + s2 + s3, s4, p);
}

/// A complaint-handler tick only handles complaints and openings.
pub proof fn lemma_handler_all_kinds<C: CryptoOracle>(
    c: C,
    br: IDkgBlockReader,
    pool: IDkgPool,
    node: u64,
)
    ensures
        all_actions(
            complaint_handler_spec(c, br, pool, node),
            |a: IDkgChangeAction| handler_kinds(a),
        ),
{
    let v = pool.validated@;
    let u = pool.unvalidated@;
    let p = |a: IDkgChangeAction| handler_kinds(a);
    lemma_validate_passes_no_adds(c, br, arbitrary_state(), v, u, Seq::empty());
    lemma_validate_complaints_gated(c, br, v, u, Seq::empty());
    lemma_all_actions_weaken2(
        crate::complaints::validate_complaints_spec(c, br, v, u, Seq::empty()),
        |a: IDkgChangeAction| ch_move_gated(a, br),
        |a: IDkgChangeAction| !is_add(a),
        p,
    );
    lemma_send_openings_kinds(c, br, v, v, node);
    lemma_validate_openings_gated(c, br, v, u, Seq::empty());
    lemma_all_actions_weaken2(
        crate::complaints::validate_openings_spec(c, br, v, u, Seq::empty()),
        |a: IDkgChangeAction| ch_move_gated(a, br),
        |a: IDkgChangeAction| !is_add(a),
        p,
    );
    lemma_purge_complaints_removals(br, u, false);
    lemma_all_actions_weaken(
        purge_complaints_spec(br, u, false),
        |a: IDkgChangeAction| is_removal(a),
        p,
    );
    lemma_purge_complaints_removals(br, v, true);
    lemma_all_actions_weaken(
        purge_complaints_spec(br, v, true),
        |a: IDkgChangeAction| is_removal(a),
        p,
    );
    let b1 = crate::complaints::validate_complaints_spec(c, br, v, u, Seq::empty());
    let b2 = crate::complaints::send_openings_spec(c, br, v, v, node);
    let b3 = crate::complaints::validate_openings_spec(c, br, v, u, Seq::empty());
    let b4 = purge_complaints_spec(br, u, false);
    let b5 = purge_complaints_spec(br, v, true);
    lemma_all_actions_concat(b1, b2, p);
    lemma_all_actions_concat(b1 + b2, b3, p);
    lemma_all_actions_concat(b1 + b2 + b3, b4, p);
    lemma_all_actions_concat(b1 + b2 + b3 + b4, b5, p);
}

/// Staleness that is stable across a whole rotation: a stale dealing,
/// support, share or opening. Complaints are left out — while a dependency
/// transcript keeps failing to load short of the opening quorum, the
/// pre-signer and signer re-emit its complaint even after it left the
/// requested set, so staleness of complaints is not preserved by the other
/// engines' ticks.
pub open spec fn rotation_stale(
    br: IDkgBlockReader,
    st: CertifiedStateSnapshot,
    m: IDkgMessage,
) -> bool {
    match m {
        IDkgMessage::Dealing(_) => ds_stale(br, m),
        IDkgMessage::DealingSupport(_) => ds_stale(br, m),
        IDkgMessage::EcdsaSigShare(_) => sh_stale(st, m),
        IDkgMessage::SchnorrSigShare(_) => sh_stale(st, m),
        IDkgMessage::Opening(_) => co_stale(br, m),
        IDkgMessage::Complaint(_) => false,
    }
}

/// The schedule position whose engine purges artifacts of `m`'s kind.
pub open spec fn stale_owner(m: IDkgMessage) -> u64 {
    match m {
        IDkgMessage::Dealing(_) => 0,
        IDkgMessage::DealingSupport(_) => 0,
        IDkgMessage::EcdsaSigShare(_) => 1,
        IDkgMessage::SchnorrSigShare(_) => 1,
        _ => 2,
    }
}

/// No driver tick, whichever engine it runs, inserts a rotation-stale
/// artifact: the owning engine is barred by its gates, the other engines by
/// their kinds.
pub proof fn lemma_tick_no_stale_adds<C: CryptoOracle>(
    schedule: u64,
    c: C,
    br: IDkgBlockReader,
    st: CertifiedStateSnapshot,
    pool: IDkgPool,
    node: u64,
    quorum: u64,
    m: IDkgMessage,
)
    requires
        rotation_stale(br, st, m),
    ensures
        forall|k: int|
            0 <= k < driver_changeset(schedule, c, br, Some(st), pool, node, quorum).len()
                ==> !adds_like(
                #[trigger] driver_changeset(schedule, c, br, Some(st), pool, node, quorum)[k],
                m,
            ),
{
    let cs = driver_changeset(schedule, c, br, Some(st), pool, node, quorum);
    if schedule == 0 {
        match m {
            IDkgMessage::Dealing(_) => {
                lemma_pre_signer_no_stale_adds(c, br, pool, node, quorum, m);
            }
            IDkgMessage::DealingSupport(_) => {
                lemma_pre_signer_no_stale_adds(c, br, pool, node, quorum, m);
            }
            _ => {
                lemma_pre_signer_all_kinds(c, br, pool, node, quorum);
                assert forall|k: int| 0 <= k < cs.len() implies !adds_like(
                    #[trigger] cs[k],
                    m,
                ) by {
                    assert(pre_signer_kinds(cs[k]));
                }
            }
        }
    } else if schedule == 1 {
        match m {
            IDkgMessage::EcdsaSigShare(_) => {
                lemma_signer_no_stale_adds(c, br, st, pool, node, quorum, m);
            }
            IDkgMessage::SchnorrSigShare(_) => {
                lemma_signer_no_stale_adds(c, br, st, pool, node, quorum, m);
            }
            _ => {
                lemma_signer_all_kinds(c, br, st, pool, node, quorum);
                assert forall|k: int| 0 <= k < cs.len() implies !adds_like(
                    #[trigger] cs[k],
                    m,
                ) by {
                    assert(signer_kinds(cs[k]));
                }
            }
        }
    } else {
        match m {
            IDkgMessage::Opening(_) => {
                lemma_complaint_handler_no_stale_adds(c, br, pool, node, m);
            }
            _ => {
                lemma_handler_all_kinds(c, br, pool, node);
                assert forall|k: int| 0 <= k < cs.len() implies !adds_like(
                    #[trigger] cs[k],
                    m,
                ) by {
                    assert(handler_kinds(cs[k]));
                }
            }
        }
    }
}

/// A driver tick cannot bring a rotation-stale artifact back into a pool
/// that does not hold it.
pub proof fn lemma_tick_preserves_stale_absence<C: CryptoOracle>(
    schedule: u64,
    c: C,
    br: IDkgBlockReader,
    st: CertifiedStateSnapshot,
    pool: IDkgPool,
    node: u64,
    quorum: u64,
    m: IDkgMessage,
)
    requires
        rotation_stale(br, st, m),
        !has_msg(pool.validated@, m),
        !has_msg(pool.unvalidated@, m),
    ensures
        !has_msg(
            validated_after(
                pool.validated@,
                driver_changeset(schedule, c, br, Some(st), pool, node, quorum),
            ),
            m,
        ),
        !has_msg(
            unvalidated_after(
                pool.unvalidated@,
                driver_changeset(schedule, c, br, Some(st), pool, node, quorum),
            ),
            m,
        ),
{
    let cs = driver_changeset(schedule, c, br, Some(st), pool, node, quorum);
    lemma_tick_no_stale_adds(schedule, c, br, st, pool, node, quorum, m);
    lemma_validated_no_adds(pool.validated@, cs, m);
    lemma_unvalidated_absent_stays(pool.unvalidated@, cs, m);
}

/// The owning engine's tick removes a rotation-stale artifact from both
/// bags.
pub proof fn lemma_tick_removes_stale<C: CryptoOracle>(
    schedule: u64,
    c: C,
    br: IDkgBlockReader,
    st: CertifiedStateSnapshot,
    pool: IDkgPool,
    node: u64,
    quorum: u64,
    m: IDkgMessage,
)
    requires
        rotation_stale(br, st, m),
        schedule == stale_owner(m),
    ensures
        !has_msg(
            validated_after(
                pool.validated@,
                driver_changeset(schedule, c, br, Some(st), pool, node, quorum),
            ),
            m,
        ),
        !has_msg(
            unvalidated_after(
                pool.unvalidated@,
                driver_changeset(schedule, c, br, Some(st), pool, node, quorum),
            ),
            m,
        ),
{
    match m {
        IDkgMessage::Dealing(_) => {
            lemma_pre_signer_removes_stale(c, br, pool, node, quorum, m);
        }
        IDkgMessage::DealingSupport(_) => {
            lemma_pre_signer_removes_stale(c, br, pool, node, quorum, m);
        }
        IDkgMessage::EcdsaSigShare(_) => {
            lemma_signer_removes_stale(c, br, st, pool, node, quorum, m);
        }
        IDkgMessage::SchnorrSigShare(_) => {
            lemma_signer_removes_stale(c, br, st, pool, node, quorum, m);
        }
        IDkgMessage::Opening(_) => {
            lemma_complaint_handler_removes_stale(c, br, pool, node, m);
        }
        IDkgMessage::Complaint(_) => {}
    }
}

/// Staleness across one full rotation of the driver: from any starting
/// position of the round-robin schedule, a stale dealing, support, share or
/// opening is gone from both bags after three consecutive driver ticks
/// whose change sets are applied in turn — the owning engine's turn removes
/// it, and no engine re-inserts it.
pub proof fn lemma_rotation_removes_stale<C: CryptoOracle>(
    c: C,
    br: IDkgBlockReader,
    st: CertifiedStateSnapshot,
    p0: IDkgPool,
    p1: IDkgPool,
    p2: IDkgPool,
    p3: IDkgPool,
    s: u64,
    node: u64,
    quorum: u64,
    m: IDkgMessage,
)
    requires
        s < 3,
        rotation_stale(br, st, m),
        p1.validated@ == validated_after(
            p0.validated@,
            driver_changeset(s, c, br, Some(st), p0, node, quorum),
        ),
        p1.unvalidated@ == unvalidated_after(
            p0.unvalidated@,
            driver_changeset(s, c, br, Some(st), p0, node, quorum),
        ),
        p2.validated@ == validated_after(
            p1.validated@,
            driver_changeset(((s + 1) % 3) as u64, c, br, Some(st), p1, node, quorum),
        ),
        p2.unvalidated@ == unvalidated_after(
            p1.unvalidated@,
            driver_changeset(((s + 1) % 3) as u64, c, br, Some(st), p1, node, quorum),
        ),
        p3.validated@ == validated_after(
            p2.validated@,
            driver_changeset(((s + 2) % 3) as u64, c, br, Some(st), p2, node, quorum),
        ),
        p3.unvalidated@ == unvalidated_after(
            p2.unvalidated@,
            driver_changeset(((s + 2) % 3) as u64, c, br, Some(st), p2, node, quorum),
        ),
    ensures
        !has_msg(p3.validated@, m),
        !has_msg(p3.unvalidated@, m),
{
    let owner = stale_owner(m);
    if s == owner {
        lemma_tick_removes_stale(s, c, br, st, p0, node, quorum, m);
        lemma_tick_preserves_stale_absence(
            ((s + 1) % 3) as u64,
            c,
            br,
            st,
            p1,
            node,
            quorum,
            m,
        );
        lemma_tick_preserves_stale_absence(
            ((s + 2) % 3) as u64,
            c,
            br,
            st,
            p2,
            node,
            quorum,
            m,
        );
    } else if ((s + 1) % 3) as u64 == owner {
        lemma_tick_removes_stale(((s + 1) % 3) as u64, c, br, st, p1, node, quorum, m);
        lemma_tick_preserves_stale_absence(
            ((s + 2) % 3) as u64,
            c,
            br,
            st,
            p2,
            node,
            quorum,
            m,
        );
    } else {
        assert(((s + 2) % 3) as u64 == owner);
        lemma_tick_removes_stale(((s + 2) % 3) as u64, c, br, st, p2, node, quorum, m);
    }
}

/// The driver's global fixed point is stable: once every sub-engine's tick
/// on a pool is empty under a fixed intent, each rotation position computes
/// the empty change set and the pool never changes again.
pub proof fn lemma_driver_fixed_point<C: CryptoOracle>(
    c: C,
    br: IDkgBlockReader,
    st: Option<CertifiedStateSnapshot>,
    pool: IDkgPool,
    node: u64,
    quorum: u64,
    s: u64,
)
    requires
        pre_signer_spec(c, br, pool, node, quorum) == Seq::<IDkgChangeAction>::empty(),
        signer_spec(c, br, st, pool, node, quorum) == Seq::<IDkgChangeAction>::empty(),
        complaint_handler_spec(c, br, pool, node) == Seq::<IDkgChangeAction>::empty(),
    ensures
        driver_changeset(s, c, br, st, pool, node, quorum) == Seq::<IDkgChangeAction>::empty(),
        validated_after(
            pool.validated@,
            driver_changeset(s, c, br, st, pool, node, quorum),
        ) == pool.validated@,
        unvalidated_after(
            pool.unvalidated@,
            driver_changeset(s, c, br, st, pool, node, quorum),
        ) == pool.unvalidated@,
{
}

} // verus!

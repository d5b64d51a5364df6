//! The complaint handler: validates complaints arriving by gossip, answers
//! validated complaints with openings, and exposes the transcript loader the
//! other sub-engines use.
//!
//! Loader state machine per transcript: a clean load succeeds outright; a
//! load that leaves some dealers' shares undecryptable either emits one
//! complaint per failing dealer, or — once enough validated openings have
//! accumulated for every failing dealer — succeeds deterministically
//! (the transcript is recoverable).

use vstd::prelude::*;

use crate::block_reader::IDkgBlockReader;
use crate::crypto::CryptoOracle;
use crate::pool::{has_key, IDkgChangeAction, IDkgPool};
use crate::types::{
    IDkgMessage, IDkgTranscript, SignedComplaint, SignedOpening, TranscriptId, TranscriptRef,
};

verus! {

/// What one attempt to load a transcript produced.
pub enum TranscriptLoadStatus {
    /// The transcript is in the local keystore; its shares are usable.
    Success,
    /// A reference could not be resolved against the finalized chain; no
    /// complaint can help.
    Failure,
    /// Some dealers' shares could not be decrypted; these complaints ask the
    /// peers for openings.
    Complaints(Vec<SignedComplaint>),
}

/// Spec-level image of a load attempt over a whole dependency list.
pub enum LoadOutcome {
    /// Every dependency resolved and loaded (or is recoverable).
    Loaded,
    /// Some dependency reference did not resolve.
    Unresolved,
    /// The first failing dependency produced these complaints.
    Blocked(Seq<SignedComplaint>),
}

/// How many validated openings answer the complaint of `complainer` about
/// `dealer`'s share in `tid`. Validated openings have pairwise distinct
/// keys, so this is also the number of distinct openers.
pub open spec fn opening_count(
    v: Seq<IDkgMessage>,
    tid: TranscriptId,
    dealer: u64,
    complainer: u64,
) -> nat
    decreases v.len(),
{
    if v.len() == 0 {
        0
    } else {
        let rest = opening_count(v.drop_last(), tid, dealer, complainer);
        match v.last() {
            IDkgMessage::Opening(o) => if o.transcript_id == tid && o.dealer_id == dealer
                && o.complainer_id == complainer {
                rest + 1
            } else {
                rest
            },
            _ => rest,
        }
    }
}

/// Whether every failing dealer has reached the opening quorum: the
/// transcript is then recoverable and loads succeed deterministically.
pub open spec fn all_quorum(
    v: Seq<IDkgMessage>,
    tid: TranscriptId,
    fails: Seq<u64>,
    complainer: u64,
    quorum: u64,
) -> bool {
    forall|i: int|
        0 <= i < fails.len() ==> opening_count(v, tid, #[trigger] fails[i], complainer) >= quorum
}

/// The complaints a failed load of `tid` emits: one per failing dealer.
pub open spec fn complaints_for(tid: TranscriptId, fails: Seq<u64>, complainer: u64) -> Seq<
    SignedComplaint,
> {
    fails.map_values(
        |d: u64| SignedComplaint { transcript_id: tid, dealer_id: d, complainer_id: complainer },
    )
}

/// Outcome of loading one transcript: `None` when it loads (cleanly or by
/// recovery), otherwise the complaints to emit.
pub open spec fn load_one_spec<C: CryptoOracle>(
    c: C,
    v: Seq<IDkgMessage>,
    node: u64,
    quorum: u64,
    tid: TranscriptId,
) -> Option<Seq<SignedComplaint>> {
    let fails = c.load_failures(tid);
    if fails.len() == 0 || all_quorum(v, tid, fails, node, quorum) {
        None
    } else {
        Some(complaints_for(tid, fails, node))
    }
}

/// Outcome of loading a dependency list, first failure first: resolution
/// failures dominate, then the first transcript that needs complaints.
pub open spec fn load_deps_spec<C: CryptoOracle>(
    c: C,
    br: IDkgBlockReader,
    v: Seq<IDkgMessage>,
    node: u64,
    quorum: u64,
    refs: Seq<TranscriptRef>,
) -> LoadOutcome
    decreases refs.len(),
{
    if refs.len() == 0 {
        LoadOutcome::Loaded
    } else {
        match br.resolve_spec(refs.first()) {
            None => LoadOutcome::Unresolved,
            Some(t) => match load_one_spec(c, v, node, quorum, t.transcript_id) {
                Some(cs) => LoadOutcome::Blocked(cs),
                None => load_deps_spec(c, br, v, node, quorum, refs.drop_first()),
            },
        }
    }
}

/// The change actions that insert the complaints of `cs` whose key is not
/// already validated; the rest are withheld so the pool invariant is kept
/// and re-runs settle.
pub open spec fn complaint_additions(v: Seq<IDkgMessage>, cs: Seq<SignedComplaint>) -> Seq<
    IDkgChangeAction,
>
    decreases cs.len(),
{
    if cs.len() == 0 {
        Seq::empty()
    } else {
        let rest = complaint_additions(v, cs.drop_last());
        if has_key(v, IDkgMessage::Complaint(cs.last())) {
            rest
        } else {
            rest.push(IDkgChangeAction::AddToValidated(IDkgMessage::Complaint(cs.last())))
        }
    }
}

/// The complaint handler; it also serves the other sub-engines as the
/// transcript loader.
pub struct IDkgComplaintHandlerImpl {
    /// This replica's identity.
    pub node_id: u64,
    /// The scheme-dependent number of validated openings that makes a failed
    /// share recoverable.
    pub opening_quorum: u64,
}

impl IDkgComplaintHandlerImpl {
    /// Builds the handler for one replica with its recovery quorum.
    pub fn new(node_id: u64, opening_quorum: u64) -> (r: IDkgComplaintHandlerImpl)
        ensures
            r == (IDkgComplaintHandlerImpl { node_id, opening_quorum }),
    {
        IDkgComplaintHandlerImpl { node_id, opening_quorum }
    }

    /// Counts the validated openings answering (`tid`, `dealer`,
    /// `complainer`).
    pub fn count_openings(
        &self,
        pool: &IDkgPool,
        tid: TranscriptId,
        dealer: u64,
        complainer: u64,
    ) -> (r: u64)
        ensures
            r == opening_count(pool.validated@, tid, dealer, complainer) || r == u64::MAX,
            opening_count(pool.validated@, tid, dealer, complainer) >= r,
    {
        let mut n: u64 = 0;
        let mut i: usize = 0;
        while i < pool.validated.len()
            invariant
                i <= pool.validated@.len(),
                n == opening_count(pool.validated@.take(i as int), tid, dealer, complainer) || n
                    == u64::MAX,
                opening_count(pool.validated@.take(i as int), tid, dealer, complainer) >= n,
            decreases pool.validated@.len() - i,
        {
            match &pool.validated[i] {
                IDkgMessage::Opening(o) => {
                    if o.transcript_id == tid && o.dealer_id == dealer && o.complainer_id
                        == complainer {
                        if n < u64::MAX {
                            n = n + 1;
                        }
                    }
                }
                _ => {}
            }
            proof {
                assert(pool.validated@.take(i + 1).drop_last() =~= pool.validated@.take(i as int));
                assert(pool.validated@.take(i + 1).last() == pool.validated@[i as int]);
            }
            i = i + 1;
        }
        proof {
            assert(pool.validated@.take(pool.validated@.len() as int) =~= pool.validated@);
        }
        n
    }

    /// Attempts to load one transcript: a clean or recoverable load reports
    /// success, otherwise the complaints to emit come back. Resolution is
    /// the caller's business, so `Failure` never arises here.
    pub fn load_transcript<C: CryptoOracle>(
        &self,
        pool: &IDkgPool,
        crypto: &C,
        t: &IDkgTranscript,
    ) -> (r: TranscriptLoadStatus)
        ensures
            match r {
                TranscriptLoadStatus::Success => load_one_spec(
                    *crypto,
                    pool.validated@,
                    self.node_id,
                    self.opening_quorum,
                    t.transcript_id,
                ) is None,
                TranscriptLoadStatus::Failure => false,
                TranscriptLoadStatus::Complaints(cs) => load_one_spec(
                    *crypto,
                    pool.validated@,
                    self.node_id,
                    self.opening_quorum,
                    t.transcript_id,
                ) == Some(cs@),
            },
    {
        let fails = crypto.load_transcript(t, self.node_id);
        if fails.len() == 0 {
            proof {
                assert(crypto.load_failures(t.transcript_id).len() == 0);
            }
            return TranscriptLoadStatus::Success;
        }
        let ghost fail_dealers = crypto.load_failures(t.transcript_id);
        let mut i: usize = 0;
        let mut recovered = true;
        while i < fails.len()
            invariant
                i <= fails@.len(),
                fails@.len() == fail_dealers.len(),
                forall|k: int|
                    0 <= k < fails@.len() ==> #[trigger] fails@[k] == (SignedComplaint {
                        transcript_id: t.transcript_id,
                        dealer_id: fail_dealers[k],
                        complainer_id: self.node_id,
                    }),
                recovered == (forall|k: int|
                    0 <= k < i ==> opening_count(
                        pool.validated@,
                        t.transcript_id,
                        #[trigger] fail_dealers[k],
                        self.node_id,
                    ) >= self.opening_quorum),
            decreases fails@.len() - i,
        {
            let n = self.count_openings(pool, t.transcript_id, fails[i].dealer_id, self.node_id);
            if n < self.opening_quorum {
                recovered = false;
                proof {
                    assert(opening_count(
                        pool.validated@,
                        t.transcript_id,
                        fail_dealers[i as int],
                        self.node_id,
                    ) < self.opening_quorum);
                }
            }
            i = i + 1;
        }
        if recovered {
            proof {
                assert(all_quorum(
                    pool.validated@,
                    t.transcript_id,
                    fail_dealers,
                    self.node_id,
                    self.opening_quorum,
                ));
            }
            TranscriptLoadStatus::Success
        } else {
            proof {
                assert(!all_quorum(
                    pool.validated@,
                    t.transcript_id,
                    fail_dealers,
                    self.node_id,
                    self.opening_quorum,
                ));
                assert(fails@ =~= complaints_for(t.transcript_id, fail_dealers, self.node_id));
            }
            TranscriptLoadStatus::Complaints(fails)
        }
    }

    /// Loads a whole dependency list: resolves each reference against the
    /// chain and loads it, stopping at the first reference that does not
    /// resolve or the first transcript that needs complaints.
    pub fn load_dependencies<C: CryptoOracle>(
        &self,
        pool: &IDkgPool,
        crypto: &C,
        block_reader: &IDkgBlockReader,
        refs: &Vec<TranscriptRef>,
    ) -> (r: TranscriptLoadStatus)
        ensures
            match r {
                TranscriptLoadStatus::Success => load_deps_spec(
                    *crypto,
                    *block_reader,
                    pool.validated@,
                    self.node_id,
                    self.opening_quorum,
                    refs@,
                ) == LoadOutcome::Loaded,
                TranscriptLoadStatus::Failure => load_deps_spec(
                    *crypto,
                    *block_reader,
                    pool.validated@,
                    self.node_id,
                    self.opening_quorum,
                    refs@,
                ) == LoadOutcome::Unresolved,
                TranscriptLoadStatus::Complaints(cs) => load_deps_spec(
                    *crypto,
                    *block_reader,
                    pool.validated@,
                    self.node_id,
                    self.opening_quorum,
                    refs@,
                ) == LoadOutcome::Blocked(cs@),
            },
    {
        let ghost full = load_deps_spec(
            *crypto,
            *block_reader,
            pool.validated@,
            self.node_id,
            self.opening_quorum,
            refs@,
        );
        let mut i: usize = 0;
        proof {
            assert(refs@.skip(0) =~= refs@);
        }
        while i < refs.len()
            invariant
                i <= refs@.len(),
                full == load_deps_spec(
                    *crypto,
                    *block_reader,
                    pool.validated@,
                    self.node_id,
                    self.opening_quorum,
                    refs@,
                ),
                full == load_deps_spec(
                    *crypto,
                    *block_reader,
                    pool.validated@,
                    self.node_id,
                    self.opening_quorum,
                    refs@.skip(i as int),
                ),
            decreases refs@.len() - i,
        {
            proof {
                assert(refs@.skip(i as int).first() == refs@[i as int]);
                assert(refs@.skip(i as int).drop_first() =~= refs@.skip(i + 1));
            }
            match block_reader.transcript(&refs[i]) {
                None => {
                    return TranscriptLoadStatus::Failure;
                }
                Some(t) => {
                    match self.load_transcript(pool, crypto, &t) {
                        TranscriptLoadStatus::Success => {}
                        TranscriptLoadStatus::Failure => {
                            proof {
                                assert(false);
                            }
                        }
                        TranscriptLoadStatus::Complaints(cs) => {
                            return TranscriptLoadStatus::Complaints(cs);
                        }
                    }
                }
            }
            i = i + 1;
        }
        TranscriptLoadStatus::Success
    }
}

/// Whether an artifact about transcript `tid` is stale: its config is no
/// longer requested and its source height does not lie beyond the tip.
pub open spec fn stale(br: IDkgBlockReader, tid: TranscriptId) -> bool {
    !br.is_requested(tid) && tid.source_height <= br.tip
}

/// Decides `stale`.
pub fn is_stale(br: &IDkgBlockReader, tid: TranscriptId) -> (r: bool)
    ensures
        r == stale(*br, tid),
{
    !br.has_config(tid) && tid.source_height <= br.tip
}

/// The actions of the complaint-validation pass on the unvalidated suffix
/// `u`, given that the complaints of `moved` were already promoted in this
/// batch: gate on the config being requested, drop duplicates, verify the
/// rest.
pub open spec fn validate_complaints_spec<C: CryptoOracle>(
    c: C,
    br: IDkgBlockReader,
    v: Seq<IDkgMessage>,
    u: Seq<IDkgMessage>,
    moved: Seq<IDkgMessage>,
) -> Seq<IDkgChangeAction>
    decreases u.len(),
{
    if u.len() == 0 {
        Seq::empty()
    } else {
        let m = u.first();
        let rest = u.drop_first();
        match m {
            IDkgMessage::Complaint(cp) => {
                if br.is_requested(cp.transcript_id) {
                    if has_key(v, m) || has_key(moved, m) {
                        seq![IDkgChangeAction::HandleInvalid(m)] + validate_complaints_spec(
                            c,
                            br,
                            v,
                            rest,
                            moved,
                        )
                    } else if c.complaint_ok(cp) {
                        seq![IDkgChangeAction::MoveToValidated(m)] + validate_complaints_spec(
                            c,
                            br,
                            v,
                            rest,
                            moved.push(m),
                        )
                    } else {
                        seq![IDkgChangeAction::HandleInvalid(m)] + validate_complaints_spec(
                            c,
                            br,
                            v,
                            rest,
                            moved,
                        )
                    }
                } else {
                    validate_complaints_spec(c, br, v, rest, moved)
                }
            }
            _ => validate_complaints_spec(c, br, v, rest, moved),
        }
    }
}

/// The actions of the opening-emission pass over the validated suffix
/// `entries`: for each validated complaint on a requested config for which
/// this replica has not yet opened, create and queue an opening.
pub open spec fn send_openings_spec<C: CryptoOracle>(
    c: C,
    br: IDkgBlockReader,
    v_all: Seq<IDkgMessage>,
    entries: Seq<IDkgMessage>,
    node: u64,
) -> Seq<IDkgChangeAction>
    decreases entries.len(),
{
    if entries.len() == 0 {
        Seq::empty()
    } else {
        let rest = send_openings_spec(c, br, v_all, entries.drop_first(), node);
        match entries.first() {
            IDkgMessage::Complaint(cp) => {
                let opening = SignedOpening {
                    transcript_id: cp.transcript_id,
                    dealer_id: cp.dealer_id,
                    complainer_id: cp.complainer_id,
                    opener_id: node,
                };
                if br.is_requested(cp.transcript_id) && !has_key(
                    v_all,
                    IDkgMessage::Opening(opening),
                ) && c.opening_creation_ok(cp) {
                    seq![
                        IDkgChangeAction::AddToValidated(IDkgMessage::Opening(opening)),
                    ] + rest
                } else {
                    rest
                }
            }
            _ => rest,
        }
    }
}

/// The actions of the opening-validation pass, symmetric to complaint
/// validation.
pub open spec fn validate_openings_spec<C: CryptoOracle>(
    c: C,
    br: IDkgBlockReader,
    v: Seq<IDkgMessage>,
    u: Seq<IDkgMessage>,
    moved: Seq<IDkgMessage>,
) -> Seq<IDkgChangeAction>
    decreases u.len(),
{
    if u.len() == 0 {
        Seq::empty()
    } else {
        let m = u.first();
        let rest = u.drop_first();
        match m {
            IDkgMessage::Opening(o) => {
                if br.is_requested(o.transcript_id) {
                    if has_key(v, m) || has_key(moved, m) {
                        seq![IDkgChangeAction::HandleInvalid(m)] + validate_openings_spec(
                            c,
                            br,
                            v,
                            rest,
                            moved,
                        )
                    } else if c.opening_ok(o) {
                        seq![IDkgChangeAction::MoveToValidated(m)] + validate_openings_spec(
                            c,
                            br,
                            v,
                            rest,
                            moved.push(m),
                        )
                    } else {
                        seq![IDkgChangeAction::HandleInvalid(m)] + validate_openings_spec(
                            c,
                            br,
                            v,
                            rest,
                            moved,
                        )
                    }
                } else {
                    validate_openings_spec(c, br, v, rest, moved)
                }
            }
            _ => validate_openings_spec(c, br, v, rest, moved),
        }
    }
}

/// The removals of the purge pass over one bag: every complaint or opening
/// whose transcript went stale leaves the pool.
pub open spec fn purge_complaints_spec(
    br: IDkgBlockReader,
    entries: Seq<IDkgMessage>,
    validated: bool,
) -> Seq<IDkgChangeAction>
    decreases entries.len(),
{
    if entries.len() == 0 {
        Seq::empty()
    } else {
        let m = entries.first();
        let rest = purge_complaints_spec(br, entries.drop_first(), validated);
        let tid = match m {
            IDkgMessage::Complaint(cp) => Some(cp.transcript_id),
            IDkgMessage::Opening(o) => Some(o.transcript_id),
            _ => None,
        };
        match tid {
            Some(t) => if stale(br, t) {
                if validated {
                    seq![IDkgChangeAction::RemoveValidated(m)] + rest
                } else {
                    seq![IDkgChangeAction::RemoveUnvalidated(m)] + rest
                }
            } else {
                rest
            },
            None => rest,
        }
    }
}

/// The complaint handler's whole tick.
pub open spec fn complaint_handler_spec<C: CryptoOracle>(
    c: C,
    br: IDkgBlockReader,
    pool: IDkgPool,
    node: u64,
) -> Seq<IDkgChangeAction> {
    validate_complaints_spec(c, br, pool.validated@, pool.unvalidated@, Seq::empty())
        + send_openings_spec(c, br, pool.validated@, pool.validated@, node)
        + validate_openings_spec(c, br, pool.validated@, pool.unvalidated@, Seq::empty())
        + purge_complaints_spec(br, pool.unvalidated@, false) + purge_complaints_spec(
        br,
        pool.validated@,
        true,
    )
}

impl IDkgComplaintHandlerImpl {
    /// One tick of the complaint handler: validate arriving complaints,
    /// answer validated complaints with openings, validate arriving
    /// openings, purge what went stale. Deterministic in the snapshot.
    pub fn on_state_change<C: CryptoOracle>(
        &self,
        pool: &IDkgPool,
        block_reader: &IDkgBlockReader,
        crypto: &C,
    ) -> (r: Vec<IDkgChangeAction>)
        ensures
            r@ == complaint_handler_spec(*crypto, *block_reader, *pool, self.node_id),
    {
        let mut out: Vec<IDkgChangeAction> = Vec::new();
        let v = &pool.validated;
        let u = &pool.unvalidated;

        // Validate unvalidated complaints.
        let mut moved: Vec<IDkgMessage> = Vec::new();
        let mut i: usize = 0;
        proof {
            assert(u@.skip(0) =~= u@);
        }
        while i < u.len()
            invariant
                i <= u@.len(),
                validate_complaints_spec(*crypto, *block_reader, v@, u@, Seq::empty()) == out@
                    + validate_complaints_spec(
                    *crypto,
                    *block_reader,
                    v@,
                    u@.skip(i as int),
                    moved@,
                ),
            decreases u@.len() - i,
        {
            proof {
                assert(u@.skip(i as int).first() == u@[i as int]);
                assert(u@.skip(i as int).drop_first() =~= u@.skip(i + 1));
            }
            let m = u[i];
            match m {
                IDkgMessage::Complaint(cp) => {
                    if block_reader.has_config(cp.transcript_id) {
                        if crate::pool::contains_key(v, &m) || crate::pool::contains_key(
                            &moved,
                            &m,
                        ) {
                            out.push(IDkgChangeAction::HandleInvalid(m));
                        } else if crypto.verify_complaint(&cp) {
                            out.push(IDkgChangeAction::MoveToValidated(m));
                            moved.push(m);
                        } else {
                            out.push(IDkgChangeAction::HandleInvalid(m));
                        }
                    }
                }
                _ => {}
            }
            i = i + 1;
        }
        let ghost pass1 = validate_complaints_spec(
            *crypto,
            *block_reader,
            v@,
            u@,
            Seq::empty(),
        );
        proof {
            assert(out@ == pass1);
        }

        // Send openings for validated complaints not yet answered by us.
        let mut j: usize = 0;
        proof {
            assert(v@.skip(0) =~= v@);
        }
        while j < v.len()
            invariant
                j <= v@.len(),
                out@ + send_openings_spec(
                    *crypto,
                    *block_reader,
                    v@,
                    v@.skip(j as int),
                    self.node_id,
                ) == pass1 + send_openings_spec(*crypto, *block_reader, v@, v@, self.node_id),
            decreases v@.len() - j,
        {
            proof {
                assert(v@.skip(j as int).first() == v@[j as int]);
                assert(v@.skip(j as int).drop_first() =~= v@.skip(j + 1));
            }
            let m = v[j];
            match m {
                IDkgMessage::Complaint(cp) => {
                    let opening = SignedOpening {
                        transcript_id: cp.transcript_id,
                        dealer_id: cp.dealer_id,
                        complainer_id: cp.complainer_id,
                        opener_id: self.node_id,
                    };
                    if block_reader.has_config(cp.transcript_id) && !crate::pool::contains_key(
                        v,
                        &IDkgMessage::Opening(opening),
                    ) {
                        match crypto.create_opening(&cp, self.node_id) {
                            Some(o) => {
                                out.push(
                                    IDkgChangeAction::AddToValidated(IDkgMessage::Opening(o)),
                                );
                            }
                            None => {}
                        }
                    }
                }
                _ => {}
            }
            j = j + 1;
        }
        let ghost pass2 = pass1 + send_openings_spec(
            *crypto,
            *block_reader,
            v@,
            v@,
            self.node_id,
        );
        proof {
            assert(out@ == pass2);
        }

        // Validate unvalidated openings.
        let mut moved2: Vec<IDkgMessage> = Vec::new();
        let mut k: usize = 0;
        proof {
            assert(u@.skip(0) =~= u@);
        }
        while k < u.len()
            invariant
                k <= u@.len(),
                out@ + validate_openings_spec(
                    *crypto,
                    *block_reader,
                    v@,
                    u@.skip(k as int),
                    moved2@,
                ) == pass2 + validate_openings_spec(*crypto, *block_reader, v@, u@, Seq::empty()),
            decreases u@.len() - k,
        {
            proof {
                assert(u@.skip(k as int).first() == u@[k as int]);
                assert(u@.skip(k as int).drop_first() =~= u@.skip(k + 1));
            }
            let m = u[k];
            match m {
                IDkgMessage::Opening(o) => {
                    if block_reader.has_config(o.transcript_id) {
                        if crate::pool::contains_key(v, &m) || crate::pool::contains_key(
                            &moved2,
                            &m,
                        ) {
                            out.push(IDkgChangeAction::HandleInvalid(m));
                        } else if crypto.verify_opening(&o) {
                            out.push(IDkgChangeAction::MoveToValidated(m));
                            moved2.push(m);
                        } else {
                            out.push(IDkgChangeAction::HandleInvalid(m));
                        }
                    }
                }
                _ => {}
            }
            k = k + 1;
        }
        let ghost pass3 = pass2 + validate_openings_spec(
            *crypto,
            *block_reader,
            v@,
            u@,
            Seq::empty(),
        );
        proof {
            assert(out@ == pass3);
        }

        // Purge stale complaints and openings from both bags.
        let mut p: usize = 0;
        proof {
            assert(u@.skip(0) =~= u@);
        }
        while p < u.len()
            invariant
                p <= u@.len(),
                out@ + purge_complaints_spec(*block_reader, u@.skip(p as int), false) == pass3
                    + purge_complaints_spec(*block_reader, u@, false),
            decreases u@.len() - p,
        {
            proof {
                assert(u@.skip(p as int).first() == u@[p as int]);
                assert(u@.skip(p as int).drop_first() =~= u@.skip(p + 1));
            }
            let m = u[p];
            match m {
                IDkgMessage::Complaint(cp) => {
                    if is_stale(block_reader, cp.transcript_id) {
                        out.push(IDkgChangeAction::RemoveUnvalidated(m));
                    }
                }
                IDkgMessage::Opening(o) => {
                    if is_stale(block_reader, o.transcript_id) {
                        out.push(IDkgChangeAction::RemoveUnvalidated(m));
                    }
                }
                _ => {}
            }
            p = p + 1;
        }
        let ghost pass4 = pass3 + purge_complaints_spec(*block_reader, u@, false);
        proof {
            assert(out@ == pass4);
        }

        let mut q: usize = 0;
        proof {
            assert(v@.skip(0) =~= v@);
        }
        while q < v.len()
            invariant
                q <= v@.len(),
                out@ + purge_complaints_spec(*block_reader, v@.skip(q as int), true) == pass4
                    + purge_complaints_spec(*block_reader, v@, true),
            decreases v@.len() - q,
        {
            proof {
                assert(v@.skip(q as int).first() == v@[q as int]);
                assert(v@.skip(q as int).drop_first() =~= v@.skip(q + 1));
            }
            let m = v[q];
            match m {
                IDkgMessage::Complaint(cp) => {
                    if is_stale(block_reader, cp.transcript_id) {
                        out.push(IDkgChangeAction::RemoveValidated(m));
                    }
                }
                IDkgMessage::Opening(o) => {
                    if is_stale(block_reader, o.transcript_id) {
                        out.push(IDkgChangeAction::RemoveValidated(m));
                    }
                }
                _ => {}
            }
            q = q + 1;
        }
        out
    }
}

} // verus!

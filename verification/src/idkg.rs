//! The top-level IDKG component: the gossip priority oracle here, the
//! round-robin driver and the retention task in the impl blocks further down.
//!
//! The priority oracle ranks a peer-advertised message from its attribute and
//! a cached snapshot of the replica's view: fetch now what the replica will
//! consume, stash what lies in the near future, drop what will never matter.

use vstd::prelude::*;

use crate::block_reader::{context_request_id_spec, CertifiedStateSnapshot, IDkgBlockReader};
use crate::complaints::{complaint_handler_spec, IDkgComplaintHandlerImpl};
use crate::crypto::{transcript_ids_of, CryptoOracle, RetainError};
use crate::pool::{IDkgChangeAction, IDkgPool};
use crate::pre_signer::{pre_signer_spec, IDkgPreSignerImpl};
use crate::signer::{signer_spec, ThresholdSignerImpl};
use crate::types::{
    rid_eq, IDkgMessageAttribute, IDkgTranscript, IDkgTranscriptParams, Priority, RequestId,
    TranscriptId, TranscriptRef,
};

verus! {

/// How far above the locally known height an artifact may lie and still be
/// fetched at once; like consensus itself, artifacts further ahead are not
/// fetched yet.
pub const LOOK_AHEAD: u64 = 10;

/// The cached snapshot the priority oracle ranks against: the two local
/// heights plus the requested and active artifact identifiers.
#[derive(Clone, PartialEq, Eq, Debug)]
pub struct IDkgPriorityFnArgs {
    pub finalized_height: u64,
    pub certified_height: u64,
    pub requested_transcripts: Vec<TranscriptId>,
    pub requested_signatures: Vec<RequestId>,
    pub active_transcripts: Vec<TranscriptId>,
}

/// The transcript identifiers of a sequence of configs.
pub open spec fn config_ids(s: Seq<IDkgTranscriptParams>) -> Seq<TranscriptId> {
    s.map_values(|c: IDkgTranscriptParams| c.transcript_id)
}

/// The transcript identifiers of a sequence of references.
pub open spec fn ref_ids(s: Seq<TranscriptRef>) -> Seq<TranscriptId> {
    s.map_values(|r: TranscriptRef| r.transcript_id)
}

/// The request identifiers of the matched contexts, in context order.
pub open spec fn request_ids_of(
    s: Seq<crate::block_reader::SignatureRequestContext>,
) -> Seq<RequestId>
    decreases s.len(),
{
    if s.len() == 0 {
        Seq::empty()
    } else {
        let rest = request_ids_of(s.drop_last());
        match context_request_id_spec(s.last()) {
            Some(r) => rest.push(r),
            None => rest,
        }
    }
}

/// Whether `s` holds a request identifier equal to `rid`.
pub open spec fn contains_rid(s: Seq<RequestId>, rid: RequestId) -> bool {
    exists|i: int| 0 <= i < s.len() && rid_eq(s[i], rid)
}

impl IDkgPriorityFnArgs {
    /// Projects the block reader and the certified state into the snapshot
    /// the priority oracle ranks against. Without a certified state the
    /// certified height counts as zero and no signature is requested.
    pub fn new(block_reader: &IDkgBlockReader, state: Option<&CertifiedStateSnapshot>) -> (r:
        IDkgPriorityFnArgs)
        ensures
            r.finalized_height == block_reader.tip,
            r.requested_transcripts@ == config_ids(block_reader.requested@),
            r.active_transcripts@ == ref_ids(block_reader.active_refs@),
            match state {
                Some(s) => r.certified_height == s.height && r.requested_signatures@
                    == request_ids_of(s.contexts@),
                None => r.certified_height == 0 && r.requested_signatures@ == Seq::<
                    RequestId,
                >::empty(),
            },
    {
        let mut requested_transcripts: Vec<TranscriptId> = Vec::new();
        let mut i: usize = 0;
        while i < block_reader.requested.len()
            invariant
                i <= block_reader.requested@.len(),
                requested_transcripts@ == config_ids(block_reader.requested@.take(i as int)),
            decreases block_reader.requested@.len() - i,
        {
            requested_transcripts.push(block_reader.requested[i].transcript_id);
            proof {
                assert(config_ids(block_reader.requested@.take(i + 1)) =~= config_ids(
                    block_reader.requested@.take(i as int),
                ).push(block_reader.requested@[i as int].transcript_id));
            }
            i = i + 1;
        }
        proof {
            assert(block_reader.requested@.take(block_reader.requested@.len() as int)
                =~= block_reader.requested@);
        }

        let mut active_transcripts: Vec<TranscriptId> = Vec::new();
        let mut j: usize = 0;
        while j < block_reader.active_refs.len()
            invariant
                j <= block_reader.active_refs@.len(),
                active_transcripts@ == ref_ids(block_reader.active_refs@.take(j as int)),
            decreases block_reader.active_refs@.len() - j,
        {
            active_transcripts.push(block_reader.active_refs[j].transcript_id);
            proof {
                assert(ref_ids(block_reader.active_refs@.take(j + 1)) =~= ref_ids(
                    block_reader.active_refs@.take(j as int),
                ).push(block_reader.active_refs@[j as int].transcript_id));
            }
            j = j + 1;
        }
        proof {
            assert(block_reader.active_refs@.take(block_reader.active_refs@.len() as int)
                =~= block_reader.active_refs@);
        }

        let (certified_height, requested_signatures): (u64, Vec<RequestId>) = match state {
            Some(s) => {
                let mut rids: Vec<RequestId> = Vec::new();
                let mut k: usize = 0;
                while k < s.contexts.len()
                    invariant
                        k <= s.contexts@.len(),
                        rids@ == request_ids_of(s.contexts@.take(k as int)),
                    decreases s.contexts@.len() - k,
                {
                    match crate::block_reader::get_context_request_id(&s.contexts[k]) {
                        Some(r) => rids.push(r),
                        None => {}
                    }
                    proof {
                        assert(s.contexts@.take(k + 1).drop_last() =~= s.contexts@.take(k as int));
                        assert(s.contexts@.take(k + 1).last() == s.contexts@[k as int]);
                    }
                    k = k + 1;
                }
                proof {
                    assert(s.contexts@.take(s.contexts@.len() as int) =~= s.contexts@);
                }
                (s.height, rids)
            }
            None => (0u64, Vec::new()),
        };

        IDkgPriorityFnArgs {
            finalized_height: block_reader.tip,
            certified_height,
            requested_transcripts,
            requested_signatures,
            active_transcripts,
        }
    }
}

/// The priority of an advertised message: a pure function of the attribute,
/// the replica's own subnet, and the snapshot.
pub open spec fn priority_spec(
    attr: IDkgMessageAttribute,
    subnet_id: u64,
    args: IDkgPriorityFnArgs,
) -> Priority {
    match attr {
        IDkgMessageAttribute::Dealing(tid) => transcript_priority(tid, subnet_id, args),
        IDkgMessageAttribute::DealingSupport(tid) => transcript_priority(tid, subnet_id, args),
        IDkgMessageAttribute::EcdsaSigShare(rid) => share_priority(rid, args),
        IDkgMessageAttribute::SchnorrSigShare(rid) => share_priority(rid, args),
        IDkgMessageAttribute::Complaint(tid) => complaint_priority(tid, args),
        IDkgMessageAttribute::Opening(tid) => complaint_priority(tid, args),
    }
}

/// Priority of a dealing or dealing support for transcript `tid`. A
/// transcript from another subnet is always fetched: its source height is
/// not comparable with local heights.
pub open spec fn transcript_priority(
    tid: TranscriptId,
    subnet_id: u64,
    args: IDkgPriorityFnArgs,
) -> Priority {
    if tid.source_subnet != subnet_id {
        Priority::FetchNow
    } else if tid.source_height <= args.finalized_height {
        if args.requested_transcripts@.contains(tid) {
            Priority::FetchNow
        } else {
            Priority::Drop
        }
    } else if tid.source_height < args.finalized_height + LOOK_AHEAD {
        Priority::FetchNow
    } else {
        Priority::Stash
    }
}

/// Priority of a signature share for request `rid`, ranked against the
/// certified height and the requested signatures.
pub open spec fn share_priority(rid: RequestId, args: IDkgPriorityFnArgs) -> Priority {
    if rid.height <= args.certified_height {
        if contains_rid(args.requested_signatures@, rid) {
            Priority::FetchNow
        } else {
            Priority::Drop
        }
    } else if rid.height < args.certified_height + LOOK_AHEAD {
        Priority::FetchNow
    } else {
        Priority::Stash
    }
}

/// Priority of a complaint or opening for transcript `tid`: accepted while
/// the transcript is either still being requested or already in active use.
pub open spec fn complaint_priority(tid: TranscriptId, args: IDkgPriorityFnArgs) -> Priority {
    if tid.source_height <= args.finalized_height {
        if args.active_transcripts@.contains(tid) || args.requested_transcripts@.contains(tid) {
            Priority::FetchNow
        } else {
            Priority::Drop
        }
    } else if tid.source_height < args.finalized_height + LOOK_AHEAD {
        Priority::FetchNow
    } else {
        Priority::Stash
    }
}

/// Decides membership of `tid` in `v`.
fn contains_tid(v: &Vec<TranscriptId>, tid: TranscriptId) -> (r: bool)
    ensures
        r == v@.contains(tid),
{
    let mut i: usize = 0;
    while i < v.len()
        invariant
            i <= v@.len(),
            forall|k: int| 0 <= k < i ==> v@[k] != tid,
        decreases v@.len() - i,
    {
        if v[i] == tid {
            return true;
        }
        i = i + 1;
    }
    false
}

/// Decides `contains_rid` membership.
fn contains_request(v: &Vec<RequestId>, rid: &RequestId) -> (r: bool)
    ensures
        r == contains_rid(v@, *rid),
{
    let mut i: usize = 0;
    while i < v.len()
        invariant
            i <= v@.len(),
            forall|k: int| 0 <= k < i ==> !rid_eq(v@[k], *rid),
        decreases v@.len() - i,
    {
        if crate::types::request_id_eq(&v[i], rid) {
            return true;
        }
        i = i + 1;
    }
    false
}

/// Ranks one advertised message. Same attribute, same subnet, same snapshot:
/// same answer — the result is pinned to `priority_spec`.
pub fn compute_priority(
    attr: &IDkgMessageAttribute,
    subnet_id: u64,
    args: &IDkgPriorityFnArgs,
) -> (r: Priority)
    ensures
        r == priority_spec(*attr, subnet_id, *args),
{
    match attr {
        IDkgMessageAttribute::Dealing(tid) | IDkgMessageAttribute::DealingSupport(tid) => {
            if tid.source_subnet != subnet_id {
                return Priority::FetchNow;
            }
            if tid.source_height <= args.finalized_height {
                if contains_tid(&args.requested_transcripts, *tid) {
                    Priority::FetchNow
                } else {
                    Priority::Drop
                }
            } else if tid.source_height - args.finalized_height < LOOK_AHEAD {
                Priority::FetchNow
            } else {
                Priority::Stash
            }
        }
        IDkgMessageAttribute::EcdsaSigShare(rid) | IDkgMessageAttribute::SchnorrSigShare(rid) => {
            if rid.height <= args.certified_height {
                if contains_request(&args.requested_signatures, rid) {
                    Priority::FetchNow
                } else {
                    Priority::Drop
                }
            } else if rid.height - args.certified_height < LOOK_AHEAD {
                Priority::FetchNow
            } else {
                Priority::Stash
            }
        }
        IDkgMessageAttribute::Complaint(tid) | IDkgMessageAttribute::Opening(tid) => {
            if tid.source_height <= args.finalized_height {
                if contains_tid(&args.active_transcripts, *tid) || contains_tid(
                    &args.requested_transcripts,
                    *tid,
                ) {
                    Priority::FetchNow
                } else {
                    Priority::Drop
                }
            } else if tid.source_height - args.finalized_height < LOOK_AHEAD {
                Priority::FetchNow
            } else {
                Priority::Stash
            }
        }
    }
}

/// The gossip-facing component: it remembers the replica's own subnet and
/// ranks advertised messages against a snapshot.
pub struct IDkgGossipImpl {
    pub subnet_id: u64,
}

impl IDkgGossipImpl {
    /// Builds the gossip component for one subnet.
    pub fn new(subnet_id: u64) -> (r: IDkgGossipImpl)
        ensures
            r.subnet_id == subnet_id,
    {
        IDkgGossipImpl { subnet_id }
    }

    /// Takes the snapshot the priority function ranks against. The transport
    /// layer holds it for the duration of one gossip round and asks
    /// [`Self::priority`] per advertised message.
    pub fn get_priority_function(
        &self,
        block_reader: &IDkgBlockReader,
        state: Option<&CertifiedStateSnapshot>,
    ) -> (r: IDkgPriorityFnArgs)
        ensures
            r.finalized_height == block_reader.tip,
            r.requested_transcripts@ == config_ids(block_reader.requested@),
            r.active_transcripts@ == ref_ids(block_reader.active_refs@),
            match state {
                Some(s) => r.certified_height == s.height && r.requested_signatures@
                    == request_ids_of(s.contexts@),
                None => r.certified_height == 0 && r.requested_signatures@ == Seq::<
                    RequestId,
                >::empty(),
            },
    {
        IDkgPriorityFnArgs::new(block_reader, state)
    }

    /// The priority function handed to the transport layer, specialized to
    /// one snapshot.
    pub fn priority(&self, attr: &IDkgMessageAttribute, args: &IDkgPriorityFnArgs) -> (r:
        Priority)
        ensures
            r == priority_spec(*attr, self.subnet_id, *args),
    {
        compute_priority(attr, self.subnet_id, args)
    }
}

/// Priority is a pure function of (attribute, subnet, snapshot): two
/// snapshots that agree on their heights and identifier sets rank every
/// attribute the same way, however they were built.
pub proof fn lemma_priority_deterministic(
    attr: IDkgMessageAttribute,
    subnet_id: u64,
    a: IDkgPriorityFnArgs,
    b: IDkgPriorityFnArgs,
)
    requires
        a.finalized_height == b.finalized_height,
        a.certified_height == b.certified_height,
        a.requested_transcripts@ == b.requested_transcripts@,
        a.requested_signatures@ == b.requested_signatures@,
        a.active_transcripts@ == b.active_transcripts@,
    ensures
        priority_spec(attr, subnet_id, a) == priority_spec(attr, subnet_id, b),
{
}

/// How often, in seconds, the retention task asks the crypto layer to clear
/// key material of inactive transcripts.
pub const INACTIVE_TRANSCRIPT_PURGE_SECS: u64 = 60;

/// A counter bump that cannot overflow: saturates at the top.
pub open spec fn bumped(before: u64, after: u64) -> bool {
    after == if before == u64::MAX {
        before
    } else {
        (before + 1) as u64
    }
}

/// Increments a counter, saturating at the top.
fn bump(x: u64) -> (r: u64)
    ensures
        bumped(x, r),
{
    if x == u64::MAX {
        x
    } else {
        x + 1
    }
}

/// A counter raised by `n`, saturating at the top.
pub open spec fn bumped_by(before: u64, after: u64, n: nat) -> bool {
    after == if before + n > u64::MAX {
        u64::MAX as int
    } else {
        before + n
    }
}

/// Adds `n` to a counter, saturating at the top.
fn bump_by(x: u64, n: u64) -> (r: u64)
    ensures
        bumped_by(x, r, n as nat),
{
    if x > u64::MAX - n {
        u64::MAX
    } else {
        x + n
    }
}

/// Counters the component keeps about its retention task.
#[derive(Clone, Copy, PartialEq, Eq, Structural, Debug)]
pub struct IDkgClientMetrics {
    /// Active transcript references that failed to resolve, counted one per
    /// failing reference per retention attempt.
    pub resolution_failures: u64,
    /// Retention attempts aborted because a transcript reference failed to
    /// resolve; nothing was handed to the crypto layer.
    pub retention_aborts: u64,
    /// Retention requests the crypto layer answered with a transient error.
    pub retention_transient_errors: u64,
    /// Retention requests the crypto layer answered with a fatal error;
    /// operator intervention is required.
    pub retention_critical_errors: u64,
    /// Retention requests that completed.
    pub retentions_completed: u64,
}

/// Whether every active transcript reference resolves against the chain.
pub open spec fn all_resolvable(br: IDkgBlockReader) -> bool {
    forall|i: int|
        0 <= i < br.active_refs@.len() ==> br.resolve_spec(#[trigger] br.active_refs@[i]) is Some
}

/// The transcripts the active references resolve to, in reference order.
pub open spec fn resolved_actives(br: IDkgBlockReader) -> Seq<IDkgTranscript> {
    br.active_refs@.map_values(|r: TranscriptRef| br.resolve_spec(r).unwrap())
}

/// How many of the first `n` active references fail to resolve.
pub open spec fn unresolvable_prefix(br: IDkgBlockReader, n: int) -> nat
    decreases n,
{
    if n <= 0 {
        0
    } else {
        unresolvable_prefix(br, n - 1) + if br.resolve_spec(br.active_refs@[n - 1]) is None {
            1nat
        } else {
            0nat
        }
    }
}

/// How many active references fail to resolve against the chain.
pub open spec fn unresolvable_count(br: IDkgBlockReader) -> nat {
    unresolvable_prefix(br, br.active_refs@.len() as int)
}

/// Counts the active references the chain cannot resolve, one count per
/// failing reference.
pub fn count_unresolvable(br: &IDkgBlockReader) -> (r: u64)
    ensures
        r == unresolvable_count(*br),
{
    let mut n: u64 = 0;
    let mut i: usize = 0;
    while i < br.active_refs.len()
        invariant
            i <= br.active_refs@.len(),
            n == unresolvable_prefix(*br, i as int),
            n <= i,
        decreases br.active_refs@.len() - i,
    {
        match br.transcript(&br.active_refs[i]) {
            None => {
                n = n + 1;
            }
            Some(_) => {}
        }
        i = i + 1;
    }
    n
}

/// Resolves every active transcript reference: all of them, or nothing.
/// `None` means some reference failed and retention must not run — key
/// material may never be under-retained.
pub fn build_retention_set(br: &IDkgBlockReader) -> (r: Option<Vec<IDkgTranscript>>)
    ensures
        match r {
            Some(v) => all_resolvable(*br) && v@ == resolved_actives(*br),
            None => !all_resolvable(*br),
        },
{
    let mut out: Vec<IDkgTranscript> = Vec::new();
    let mut i: usize = 0;
    while i < br.active_refs.len()
        invariant
            i <= br.active_refs@.len(),
            out@.len() == i,
            forall|k: int|
                0 <= k < i ==> br.resolve_spec(#[trigger] br.active_refs@[k]) == Some(out@[k]),
        decreases br.active_refs@.len() - i,
    {
        match br.transcript(&br.active_refs[i]) {
            Some(t) => {
                out.push(t);
            }
            None => {
                return None;
            }
        }
        i = i + 1;
    }
    proof {
        assert(out@ =~= resolved_actives(*br));
    }
    Some(out)
}

/// Every transcript the finalized tip references appears in the retention
/// set that `build_retention_set` hands to the crypto layer: retention never
/// narrows the set, and on any resolution failure it is skipped outright.
pub proof fn lemma_retention_set_covers_actives(br: IDkgBlockReader)
    requires
        all_resolvable(br),
    ensures
        forall|i: int|
            0 <= i < br.active_refs@.len() ==> resolved_actives(br).contains(
                br.resolve_spec(#[trigger] br.active_refs@[i]).unwrap(),
            ),
{
    assert forall|i: int| 0 <= i < br.active_refs@.len() implies resolved_actives(br).contains(
        br.resolve_spec(#[trigger] br.active_refs@[i]).unwrap(),
    ) by {
        assert(resolved_actives(br)[i] == br.resolve_spec(br.active_refs@[i]).unwrap());
    }
}

/// The change set of one driver tick: which sub-engine the schedule index
/// picks, applied to the given snapshots and pool.
pub open spec fn driver_changeset<C: CryptoOracle>(
    schedule: u64,
    c: C,
    br: IDkgBlockReader,
    state: Option<CertifiedStateSnapshot>,
    pool: IDkgPool,
    node: u64,
    quorum: u64,
) -> Seq<IDkgChangeAction> {
    if schedule == 0 {
        pre_signer_spec(c, br, pool, node, quorum)
    } else if schedule == 1 {
        signer_spec(c, br, state, pool, node, quorum)
    } else {
        complaint_handler_spec(c, br, pool, node)
    }
}

/// The IDKG component: the three sub-engines, the round-robin schedule, the
/// retention deadline and the retention counters.
pub struct IDkgImpl {
    pub pre_signer: IDkgPreSignerImpl,
    pub signer: ThresholdSignerImpl,
    pub complaint_handler: IDkgComplaintHandlerImpl,
    /// Rotating index: which sub-engine the next tick invokes.
    pub schedule: u64,
    /// When the retention task last ran, in seconds.
    pub last_transcript_purge_secs: u64,
    pub metrics: IDkgClientMetrics,
}

impl IDkgImpl {
    /// The three sub-engines agree on whose replica they act for.
    pub open spec fn wf(self) -> bool {
        &&& self.pre_signer.node_id == self.complaint_handler.node_id
        &&& self.signer.node_id == self.complaint_handler.node_id
        &&& self.schedule < 3
    }

    /// Builds the component for one replica. `opening_quorum` is the
    /// scheme-dependent number of validated openings that makes a failed
    /// share recoverable; `now_secs` is the construction time, from which
    /// the first retention period is measured.
    pub fn new(node_id: u64, opening_quorum: u64, now_secs: u64) -> (r: IDkgImpl)
        ensures
            r.wf(),
            r.pre_signer.node_id == node_id,
            r.signer.node_id == node_id,
            r.complaint_handler == (IDkgComplaintHandlerImpl { node_id, opening_quorum }),
            r.schedule == 0,
            r.last_transcript_purge_secs == now_secs,
            r.metrics == (IDkgClientMetrics {
                resolution_failures: 0,
                retention_aborts: 0,
                retention_transient_errors: 0,
                retention_critical_errors: 0,
                retentions_completed: 0,
            }),
    {
        IDkgImpl {
            pre_signer: IDkgPreSignerImpl::new(node_id),
            signer: ThresholdSignerImpl::new(node_id),
            complaint_handler: IDkgComplaintHandlerImpl::new(node_id, opening_quorum),
            schedule: 0,
            last_transcript_purge_secs: now_secs,
            metrics: IDkgClientMetrics {
                resolution_failures: 0,
                retention_aborts: 0,
                retention_transient_errors: 0,
                retention_critical_errors: 0,
                retentions_completed: 0,
            },
        }
    }

    /// The retention task: resolve every active transcript reference and
    /// hand the complete set to the crypto layer. Any resolution failure
    /// aborts the attempt — the crypto layer is not called, so it never
    /// retains less than the chain still references.
    pub fn purge_inactive_transcripts<C: CryptoOracle>(
        &mut self,
        crypto: &mut C,
        block_reader: &IDkgBlockReader,
    )
        ensures
            final(self).pre_signer == old(self).pre_signer,
            final(self).signer == old(self).signer,
            final(self).complaint_handler == old(self).complaint_handler,
            final(self).schedule == old(self).schedule,
            final(self).last_transcript_purge_secs == old(self).last_transcript_purge_secs,
            if all_resolvable(*block_reader) {
                &&& final(crypto).retain_count() == old(crypto).retain_count() + 1
                &&& final(crypto).retained() == transcript_ids_of(
                    resolved_actives(*block_reader),
                )
                &&& final(self).metrics.retention_aborts == old(self).metrics.retention_aborts
                &&& final(self).metrics.resolution_failures == old(
                    self,
                ).metrics.resolution_failures
                &&& (match old(crypto).retain_verdict() {
                    Ok(()) => bumped(
                        old(self).metrics.retentions_completed,
                        final(self).metrics.retentions_completed,
                    ) && final(self).metrics.retention_transient_errors == old(self).metrics.retention_transient_errors && final(self).metrics.retention_critical_errors == old(self).metrics.retention_critical_errors,
                    Err(RetainError::Transient) => bumped(
                        old(self).metrics.retention_transient_errors,
                        final(self).metrics.retention_transient_errors,
                    ) && final(self).metrics.retentions_completed == old(self).metrics.retentions_completed && final(self).metrics.retention_critical_errors == old(self).metrics.retention_critical_errors,
                    Err(RetainError::Fatal) => bumped(
                        old(self).metrics.retention_critical_errors,
                        final(self).metrics.retention_critical_errors,
                    ) && final(self).metrics.retentions_completed == old(self).metrics.retentions_completed && final(self).metrics.retention_transient_errors == old(self).metrics.retention_transient_errors,
                })
            } else {
                &&& *final(crypto) == *old(crypto)
                &&& bumped(
                    old(self).metrics.retention_aborts,
                    final(self).metrics.retention_aborts,
                )
                &&& final(self).metrics.retentions_completed == old(self).metrics.retentions_completed
                &&& final(self).metrics.retention_transient_errors == old(self).metrics.retention_transient_errors
                &&& final(self).metrics.retention_critical_errors == old(self).metrics.retention_critical_errors
            },
    {
        match build_retention_set(block_reader) {
            None => {
                let failing = count_unresolvable(block_reader);
                self.metrics.resolution_failures = bump_by(
                    self.metrics.resolution_failures,
                    failing,
                );
                self.metrics.retention_aborts = bump(self.metrics.retention_aborts);
            }
            Some(actives) => {
                match crypto.retain_active_transcripts(&actives) {
                    Ok(()) => {
                        self.metrics.retentions_completed = bump(
                            self.metrics.retentions_completed,
                        );
                    }
                    Err(RetainError::Transient) => {
                        self.metrics.retention_transient_errors = bump(
                            self.metrics.retention_transient_errors,
                        );
                    }
                    Err(RetainError::Fatal) => {
                        self.metrics.retention_critical_errors = bump(
                            self.metrics.retention_critical_errors,
                        );
                    }
                }
            }
        }
    }

    /// One tick of the driver: exactly one sub-engine runs, chosen round
    /// robin, and its change set is returned for the caller to apply. When
    /// the retention deadline has passed, the retention task runs as well
    /// and the deadline resets.
    pub fn on_state_change<C: CryptoOracle>(
        &mut self,
        pool: &IDkgPool,
        block_reader: &IDkgBlockReader,
        state: Option<&CertifiedStateSnapshot>,
        crypto: &mut C,
        now_secs: u64,
    ) -> (r: Vec<IDkgChangeAction>)
        requires
            old(self).wf(),
        ensures
            final(self).wf(),
            final(self).pre_signer == old(self).pre_signer,
            final(self).signer == old(self).signer,
            final(self).complaint_handler == old(self).complaint_handler,
            final(self).schedule == ((old(self).schedule + 1) % 3) as u64,
            r@ == driver_changeset(
                old(self).schedule,
                *old(crypto),
                *block_reader,
                match state {
                    Some(s) => Some(*s),
                    None => None::<CertifiedStateSnapshot>,
                },
                *pool,
                old(self).pre_signer.node_id,
                old(self).complaint_handler.opening_quorum,
            ),
            if now_secs >= old(self).last_transcript_purge_secs
                + INACTIVE_TRANSCRIPT_PURGE_SECS {
                &&& final(self).last_transcript_purge_secs == now_secs
                &&& (all_resolvable(*block_reader) ==> final(crypto).retain_count() == old(
                    crypto,
                ).retain_count() + 1 && final(crypto).retained() == transcript_ids_of(
                    resolved_actives(*block_reader),
                ))
                &&& (!all_resolvable(*block_reader) ==> *final(crypto) == *old(crypto) && bumped(
                    old(self).metrics.retention_aborts,
                    final(self).metrics.retention_aborts,
                ))
            } else {
                &&& final(self).last_transcript_purge_secs == old(self).last_transcript_purge_secs
                &&& *final(crypto) == *old(crypto)
                &&& final(self).metrics == old(self).metrics
            },
    {
        let r = if self.schedule == 0 {
            self.pre_signer.on_state_change(pool, block_reader, &self.complaint_handler, crypto)
        } else if self.schedule == 1 {
            self.signer.on_state_change(
                pool,
                block_reader,
                state,
                &self.complaint_handler,
                crypto,
            )
        } else {
            self.complaint_handler.on_state_change(pool, block_reader, crypto)
        };
        self.schedule = (self.schedule + 1) % 3;

        let elapsed = if now_secs >= self.last_transcript_purge_secs {
            now_secs - self.last_transcript_purge_secs
        } else {
            0
        };
        if elapsed >= INACTIVE_TRANSCRIPT_PURGE_SECS {
            self.purge_inactive_transcripts(crypto, block_reader);
            self.last_transcript_purge_secs = now_secs;
        }
        r
    }
}

} // verus!

//! The core state of the instance-serving API: a set of simulated instances,
//! each either available, busy with one operation, or deleted, plus a graph
//! of completed computations keyed by (state label, operation).
//!
//! The surrounding server is asynchronous: it locks this state, dispatches
//! the actual computation to a background task, and races it against a
//! timeout. Those shells perform no decisions of their own — every state
//! transition is decided here, synchronously: `start_update` claims an
//! instance, the caller runs the operation outside, and `finish_update`
//! records the result and releases the instance.

use vstd::prelude::*;
use vstd::string::StringExecFns;

use crate::text::{decimal_of, digit_str, hex_upper_of, u64_decimal};

verus! {

/// The number of bytes in a state label.
pub const STATE_LABEL_HASH_SIZE: usize = 32;

/// Uniquely identifies a state of a simulated instance.
#[derive(Clone, Copy, PartialEq, Eq, PartialOrd, Ord, Hash, Debug)]
pub struct StateLabel(pub [u8; 32]);

/// The only error of converting bytes to a state label: the wrong length.
#[derive(Clone, Copy, PartialEq, Eq, Debug)]
pub struct InvalidSize;

impl StateLabel {
    /// Byte-wise equality of two labels.
    pub open spec fn eq_spec(self, other: StateLabel) -> bool {
        self.0@ == other.0@
    }

    /// Decides label equality.
    pub fn eq_label(&self, other: &StateLabel) -> (r: bool)
        ensures
            r == self.eq_spec(*other),
    {
        let mut i: usize = 0;
        while i < 32
            invariant
                i <= 32,
                forall|k: int| 0 <= k < i ==> self.0@[k] == other.0@[k],
            decreases 32 - i,
        {
            if self.0[i] != other.0[i] {
                return false;
            }
            i = i + 1;
        }
        proof {
            assert(self.0@ =~= other.0@);
        }
        true
    }

    /// Converts a byte vector into a label; the input having the wrong
    /// length is the only error.
    pub fn try_from_vec(v: &Vec<u8>) -> (r: Result<StateLabel, InvalidSize>)
        ensures
            v@.len() == 32 <==> r is Ok,
            match r {
                Ok(l) => l.0@ == v@,
                Err(_) => v@.len() != 32,
            },
    {
        if v.len() != STATE_LABEL_HASH_SIZE {
            return Err(InvalidSize);
        }
        let mut out: [u8; 32] = [0; 32];
        let mut i: usize = 0;
        while i < 32
            invariant
                i <= 32,
                v@.len() == 32,
                forall|k: int| 0 <= k < i ==> out@[k] == v@[k],
            decreases 32 - i,
        {
            out[i] = v[i];
            i = i + 1;
        }
        proof {
            assert(out@ =~= v@);
        }
        Ok(StateLabel(out))
    }
}

impl Default for StateLabel {
    /// The all-zero label.
    fn default() -> (r: StateLabel)
        ensures
            r.0@.len() == 32,
            forall|k: int| 0 <= k < 32 ==> r.0@[k] == 0u8,
    {
        StateLabel([0; 32])
    }
}

/// Identifies one operation.
#[derive(Clone, Copy, PartialEq, Eq, Hash, Debug)]
pub struct OpId(pub u64);

/// The errors an instance operation can report.
#[derive(Clone, Copy, PartialEq, Eq, Debug)]
pub enum PocketIcError {
    CanisterNotFound(u64),
    SubnetNotFound(u64),
    BadIngressMessage(u64),
    RequestRoutingError(u64),
}

/// What a canister call returned: a reply payload, or a reject message.
#[derive(Clone, PartialEq, Eq, Debug)]
pub enum WasmResult {
    Reply(Vec<u8>),
    Reject(String),
}

/// A call that the system itself refused, with its error code and
/// description.
#[derive(Clone, PartialEq, Eq, Debug)]
pub struct UserError {
    pub code: u64,
    pub description: String,
}

/// Structural equality of canister results, payloads compared by contents.
pub open spec fn canister_result_eq(
    a: Result<WasmResult, UserError>,
    b: Result<WasmResult, UserError>,
) -> bool {
    match (a, b) {
        (Ok(WasmResult::Reply(x)), Ok(WasmResult::Reply(y))) => x@ == y@,
        (Ok(WasmResult::Reject(x)), Ok(WasmResult::Reject(y))) => x@ == y@,
        (Err(x), Err(y)) => x.code == y.code && x.description@ == y.description@,
        _ => false,
    }
}

/// What an instance operation produced. Copies are taken with
/// [`dup_op_out`].
#[derive(PartialEq, Eq, Debug)]
pub enum OpOut {
    NoOutput,
    Time(u64),
    CanisterId(u64),
    Cycles(u128),
    Bytes(Vec<u8>),
    StableMemBytes(Vec<u8>),
    CanisterResult(Result<WasmResult, UserError>),
    Error(PocketIcError),
    /// The value was delivered synchronously and dropped from the graph.
    Pruned,
}

impl From<Result<WasmResult, UserError>> for OpOut {
    /// Wraps a canister call's outcome as an operation output.
    fn from(r: Result<WasmResult, UserError>) -> (out: OpOut) {
        OpOut::CanisterResult(r)
    }
}

impl vstd::std_specs::convert::FromSpecImpl<Result<WasmResult, UserError>> for OpOut {
    open spec fn obeys_from_spec() -> bool {
        true
    }

    open spec fn from_spec(r: Result<WasmResult, UserError>) -> OpOut {
        OpOut::CanisterResult(r)
    }
}

/// Structural equality of outputs, byte vectors compared by contents.
pub open spec fn op_out_eq(a: OpOut, b: OpOut) -> bool {
    match (a, b) {
        (OpOut::NoOutput, OpOut::NoOutput) => true,
        (OpOut::Time(x), OpOut::Time(y)) => x == y,
        (OpOut::CanisterId(x), OpOut::CanisterId(y)) => x == y,
        (OpOut::Cycles(x), OpOut::Cycles(y)) => x == y,
        (OpOut::Bytes(x), OpOut::Bytes(y)) => x@ == y@,
        (OpOut::StableMemBytes(x), OpOut::StableMemBytes(y)) => x@ == y@,
        (OpOut::CanisterResult(x), OpOut::CanisterResult(y)) => canister_result_eq(x, y),
        (OpOut::Error(x), OpOut::Error(y)) => x == y,
        (OpOut::Pruned, OpOut::Pruned) => true,
        _ => false,
    }
}

/// Copies a byte vector.
fn copy_bytes(v: &Vec<u8>) -> (r: Vec<u8>)
    ensures
        r@ == v@,
{
    let mut out: Vec<u8> = Vec::new();
    let mut i: usize = 0;
    while i < v.len()
        invariant
            i <= v@.len(),
            out@ == v@.take(i as int),
        decreases v@.len() - i,
    {
        out.push(v[i]);
        proof {
            assert(v@.take(i + 1) =~= v@.take(i as int).push(v@[i as int]));
        }
        i = i + 1;
    }
    proof {
        assert(v@.take(v@.len() as int) =~= v@);
    }
    out
}

/// Copies an output.
pub fn dup_op_out(o: &OpOut) -> (r: OpOut)
    ensures
        op_out_eq(r, *o),
{
    match o {
        OpOut::NoOutput => OpOut::NoOutput,
        OpOut::Time(x) => OpOut::Time(*x),
        OpOut::CanisterId(x) => OpOut::CanisterId(*x),
        OpOut::Cycles(x) => OpOut::Cycles(*x),
        OpOut::Bytes(v) => OpOut::Bytes(copy_bytes(v)),
        OpOut::StableMemBytes(v) => OpOut::StableMemBytes(copy_bytes(v)),
        OpOut::CanisterResult(r) => OpOut::CanisterResult(
            match r {
                Ok(WasmResult::Reply(v)) => Ok(WasmResult::Reply(copy_bytes(v))),
                Ok(WasmResult::Reject(msg)) => Ok(WasmResult::Reject(msg.clone())),
                Err(e) => Err(UserError { code: e.code, description: e.description.clone() }),
            },
        ),
        OpOut::Error(e) => OpOut::Error(*e),
        OpOut::Pruned => OpOut::Pruned,
    }
}

/// One recorded computation: running `op_id` on the instance state labelled
/// `state_label` led to `new_state_label` and produced `output`.
#[derive(PartialEq, Eq, Debug)]
pub struct Computation {
    pub state_label: StateLabel,
    pub op_id: OpId,
    pub new_state_label: StateLabel,
    pub output: OpOut,
}

/// The latest recorded computation for (label, op), newest entries shadow
/// older ones.
pub open spec fn graph_lookup(g: Seq<Computation>, label: StateLabel, op: OpId) -> Option<
    Computation,
>
    decreases g.len(),
{
    if g.len() == 0 {
        None
    } else if g.last().state_label.eq_spec(label) && g.last().op_id == op {
        Some(g.last())
    } else {
        graph_lookup(g.drop_last(), label, op)
    }
}

/// A mock of a simulated instance, as far as this state machine reads it:
/// its current state label. The real instance carries the whole simulated
/// machine; the surrounding server converts.
#[derive(Clone, Copy, PartialEq, Eq, Debug)]
pub struct PocketIc {
    pub state_label: StateLabel,
}

/// Anything that can report a state label.
pub trait HasStateLabel {
    /// The label reported.
    spec fn state_label_spec(&self) -> StateLabel;

    /// Reports the state label.
    fn get_state_label(&self) -> (r: StateLabel)
        ensures
            r == self.state_label_spec(),
    ;
}

impl HasStateLabel for PocketIc {
    open spec fn state_label_spec(&self) -> StateLabel {
        self.state_label
    }

    fn get_state_label(&self) -> (r: StateLabel) {
        self.state_label
    }
}

/// The state of one instance slot: busy with an operation, available, or
/// deleted.
pub enum InstanceState {
    Busy { state_label: StateLabel, op_id: OpId },
    Available(PocketIc),
    Deleted,
}

/// The status line for one instance slot.
pub open spec fn instance_state_string(s: InstanceState) -> Seq<char> {
    match s {
        InstanceState::Busy { state_label, op_id } => "Busy(StateLabel("@ + hex_upper_of(
            state_label.0@,
        ) + "), OpId("@ + decimal_of(op_id.0 as nat) + "))"@,
        InstanceState::Available(_) => "Available"@,
        InstanceState::Deleted => "Deleted"@,
    }
}

/// Renders a state label's bytes as uppercase hex.
fn hex_upper(l: &StateLabel) -> (r: String)
    ensures
        r@ == hex_upper_of(l.0@),
{
    let mut out = String::new();
    let mut i: usize = 0;
    while i < 32
        invariant
            i <= 32,
            out@ == hex_upper_of(l.0@.take(i as int)),
        decreases 32 - i,
    {
        let b = l.0[i];
        out.append(digit_str(b / 16));
        out.append(digit_str(b % 16));
        proof {
            assert(l.0@.take(i + 1).drop_last() =~= l.0@.take(i as int));
            assert(l.0@.take(i + 1).last() == l.0@[i as int]);
            assert(out@ =~= hex_upper_of(l.0@.take(i + 1)));
        }
        i = i + 1;
    }
    proof {
        assert(l.0@.take(32) =~= l.0@);
    }
    out
}

/// An update could not even be dispatched.
#[derive(Clone, PartialEq, Eq, Debug)]
pub struct UpdateError {
    pub message: String,
}

/// How a dispatched update came back: already busy with another operation,
/// started and still running, or finished with its output.
#[derive(Debug)]
pub enum UpdateReply {
    /// The instance is busy executing another update.
    Busy { state_label: StateLabel, op_id: OpId },
    /// The instance is busy executing this update.
    Started { state_label: StateLabel, op_id: OpId },
    /// The result was cached or quickly computed and is returned directly.
    Output(OpOut),
}

impl UpdateReply {
    /// The (state label, operation) pair still in progress, if any.
    pub fn get_in_progress(&self) -> (r: Option<(StateLabel, OpId)>)
        ensures
            match *self {
                UpdateReply::Busy { state_label, op_id } => r == Some((state_label, op_id)),
                UpdateReply::Started { state_label, op_id } => r == Some((state_label, op_id)),
                UpdateReply::Output(_) => r is None,
            },
    {
        match self {
            UpdateReply::Busy { state_label, op_id } => Some((*state_label, *op_id)),
            UpdateReply::Started { state_label, op_id } => Some((*state_label, *op_id)),
            UpdateReply::Output(_) => None,
        }
    }
}

/// The core state of the instance-serving API.
pub struct ApiState {
    pub instances: Vec<InstanceState>,
    /// The computation graph: newest entries shadow older ones.
    pub graph: Vec<Computation>,
    /// How long, in milliseconds, an update may run before the caller is
    /// told the instance is busy.
    pub sync_wait_time_ms: u64,
    /// The server's own port, if one was configured.
    pub port: Option<u16>,
    /// One flag per started gateway: still running, or told to stop.
    pub http_gateways: Vec<bool>,
}

/// Builds the initial [`ApiState`].
pub struct PocketIcApiStateBuilder {
    pub initial_instances: Vec<PocketIc>,
    pub sync_wait_time_ms: Option<u64>,
    pub port: Option<u16>,
}

/// The default bound on synchronous waiting, in milliseconds.
pub const DEFAULT_SYNC_WAIT_MS: u64 = 10000;

impl PocketIcApiStateBuilder {
    /// An empty builder.
    pub fn new() -> (r: PocketIcApiStateBuilder)
        ensures
            r.initial_instances@.len() == 0,
            r.sync_wait_time_ms is None,
            r.port is None,
    {
        PocketIcApiStateBuilder { initial_instances: Vec::new(), sync_wait_time_ms: None, port: None }
    }

    /// Computations are dispatched into background tasks; one that runs
    /// longer than this bound reports the instance as busy instead of
    /// blocking the caller.
    pub fn with_sync_wait_time(self, sync_wait_time_ms: u64) -> (r: PocketIcApiStateBuilder)
        ensures
            r.sync_wait_time_ms == Some(sync_wait_time_ms),
            r.initial_instances@ == self.initial_instances@,
            r.port == self.port,
    {
        PocketIcApiStateBuilder { sync_wait_time_ms: Some(sync_wait_time_ms), ..self }
    }

    /// Remembers the server's own port.
    pub fn with_port(self, port: u16) -> (r: PocketIcApiStateBuilder)
        ensures
            r.port == Some(port),
            r.initial_instances@ == self.initial_instances@,
            r.sync_wait_time_ms == self.sync_wait_time_ms,
    {
        PocketIcApiStateBuilder { port: Some(port), ..self }
    }

    /// Makes the given instance available in the initial state.
    pub fn add_initial_instance(self, instance: PocketIc) -> (r: PocketIcApiStateBuilder)
        ensures
            r.initial_instances@ == self.initial_instances@.push(instance),
            r.sync_wait_time_ms == self.sync_wait_time_ms,
            r.port == self.port,
    {
        let mut s = self;
        s.initial_instances.push(instance);
        s
    }

    /// Builds the initial state: every initial instance available, the
    /// graph empty, the configured or default synchronous wait bound.
    pub fn build(self) -> (r: ApiState)
        ensures
            r.instances@.len() == self.initial_instances@.len(),
            forall|i: int|
                0 <= i < r.instances@.len() ==> (#[trigger] r.instances@[i] matches
                    InstanceState::Available(p) && p == self.initial_instances@[i]),
            r.graph@.len() == 0,
            r.sync_wait_time_ms == (match self.sync_wait_time_ms {
                Some(ms) => ms,
                None => DEFAULT_SYNC_WAIT_MS,
            }),
            r.port == self.port,
            r.http_gateways@.len() == 0,
    {
        let mut instances: Vec<InstanceState> = Vec::new();
        let mut i: usize = 0;
        while i < self.initial_instances.len()
            invariant
                i <= self.initial_instances@.len(),
                instances@.len() == i,
                forall|k: int|
                    0 <= k < i ==> (#[trigger] instances@[k] matches InstanceState::Available(p)
                        && p == self.initial_instances@[k]),
            decreases self.initial_instances@.len() - i,
        {
            instances.push(InstanceState::Available(self.initial_instances[i]));
            i = i + 1;
        }
        let sync_wait_time_ms = match self.sync_wait_time_ms {
            Some(ms) => ms,
            None => DEFAULT_SYNC_WAIT_MS,
        };
        ApiState {
            instances,
            graph: Vec::new(),
            sync_wait_time_ms,
            port: self.port,
            http_gateways: Vec::new(),
        }
    }
}

/// What `start_update` decided.
#[derive(Debug)]
pub enum StartOutcome {
    /// The instance is busy with a previous operation.
    Busy { state_label: StateLabel, op_id: OpId },
    /// The instance was claimed: run the operation on the returned instance
    /// value and hand it back through `finish_update`.
    Started { state_label: StateLabel, op_id: OpId, instance: PocketIc },
}

impl ApiState {
    /// Polls the computation graph: the recorded outcome of running `op_id`
    /// on the state labelled `state_label`, if it has been recorded.
    pub fn read_result(&self, state_label: &StateLabel, op_id: OpId) -> (r: Option<(
        StateLabel,
        OpOut,
    )>)
        ensures
            match r {
                Some((l, o)) => graph_lookup(self.graph@, *state_label, op_id) matches Some(c)
                    && l == c.new_state_label && op_out_eq(o, c.output),
                None => graph_lookup(self.graph@, *state_label, op_id) is None,
            },
    {
        let mut i: usize = self.graph.len();
        proof {
            assert(self.graph@.take(self.graph@.len() as int) =~= self.graph@);
        }
        while i > 0
            invariant
                i <= self.graph@.len(),
                graph_lookup(self.graph@, *state_label, op_id) == graph_lookup(
                    self.graph@.take(i as int),
                    *state_label,
                    op_id,
                ),
            decreases i,
        {
            proof {
                assert(self.graph@.take(i as int).last() == self.graph@[i - 1]);
                assert(self.graph@.take(i as int).drop_last() =~= self.graph@.take(i - 1));
            }
            let c = &self.graph[i - 1];
            if c.state_label.eq_label(state_label) && c.op_id.0 == op_id.0 {
                return Some((c.new_state_label, dup_op_out(&c.output)));
            }
            i = i - 1;
        }
        proof {
            assert(self.graph@.take(0) =~= Seq::<Computation>::empty());
        }
        None
    }

    /// The whole computation graph.
    pub fn get_graph(&self) -> (r: &Vec<Computation>)
        ensures
            r@ == self.graph@,
    {
        &self.graph
    }

    /// Adds an instance; it is available at once. Returns its identifier.
    pub fn add_instance(&mut self, instance: PocketIc) -> (r: usize)
        ensures
            final(self).instances@.len() == old(self).instances@.len() + 1,
            final(self).instances@.last() matches InstanceState::Available(p) && p == instance,
            forall|i: int|
                0 <= i < old(self).instances@.len() ==> final(self).instances@[i] == old(self).instances@[i],
            r == old(self).instances@.len(),
            final(self).graph@ == old(self).graph@,
            final(self).http_gateways@ == old(self).http_gateways@,
            final(self).sync_wait_time_ms == old(self).sync_wait_time_ms,
            final(self).port == old(self).port,
    {
        let r = self.instances.len();
        self.instances.push(InstanceState::Available(instance));
        r
    }

    /// Deletes an instance: its slot is marked deleted and never reused.
    /// An unknown identifier changes nothing.
    pub fn delete_instance(&mut self, instance_id: usize)
        ensures
            final(self).instances@.len() == old(self).instances@.len(),
            instance_id < old(self).instances@.len() ==> final(self).instances@[
                instance_id as int
            ] is Deleted,
            forall|i: int|
                0 <= i < old(self).instances@.len() && i != instance_id ==> final(self).instances@[i] == old(self).instances@[i],
            final(self).graph@ == old(self).graph@,
            final(self).http_gateways@ == old(self).http_gateways@,
            final(self).sync_wait_time_ms == old(self).sync_wait_time_ms,
            final(self).port == old(self).port,
    {
        if instance_id < self.instances.len() {
            self.instances[instance_id] = InstanceState::Deleted;
        }
    }

    /// Registers a started gateway and returns its identifier.
    pub fn register_http_gateway(&mut self) -> (r: usize)
        ensures
            final(self).http_gateways@ == old(self).http_gateways@.push(true),
            r == old(self).http_gateways@.len(),
            final(self).instances@ == old(self).instances@,
            final(self).graph@ == old(self).graph@,
            final(self).sync_wait_time_ms == old(self).sync_wait_time_ms,
            final(self).port == old(self).port,
    {
        let r = self.http_gateways.len();
        self.http_gateways.push(true);
        r
    }

    /// Tells a gateway to stop. An unknown identifier changes nothing.
    pub fn stop_http_gateway(&mut self, instance_id: usize)
        ensures
            final(self).http_gateways@.len() == old(self).http_gateways@.len(),
            instance_id < old(self).http_gateways@.len() ==> final(self).http_gateways@[
                instance_id as int
            ] == false,
            forall|i: int|
                0 <= i < old(self).http_gateways@.len() && i != instance_id ==> final(self).http_gateways@[i] == old(self).http_gateways@[i],
            final(self).instances@ == old(self).instances@,
            final(self).graph@ == old(self).graph@,
            final(self).sync_wait_time_ms == old(self).sync_wait_time_ms,
            final(self).port == old(self).port,
    {
        if instance_id < self.http_gateways.len() {
            self.http_gateways[instance_id] = false;
        }
    }

    /// One status line per instance slot: a busy slot reports the state
    /// label and the operation it is busy with, rendered as
    /// `Busy(StateLabel(<hex>), OpId(<decimal>))`.
    pub fn list_instance_states(&self) -> (r: Vec<String>)
        ensures
            r@.len() == self.instances@.len(),
            forall|i: int|
                0 <= i < r@.len() ==> r@[i]@ == instance_state_string(
                    #[trigger] self.instances@[i],
                ),
    {
        let mut out: Vec<String> = Vec::new();
        let mut i: usize = 0;
        while i < self.instances.len()
            invariant
                i <= self.instances@.len(),
                out@.len() == i,
                forall|k: int|
                    0 <= k < i ==> out@[k]@ == instance_state_string(
                        #[trigger] self.instances@[k],
                    ),
            decreases self.instances@.len() - i,
        {
            let line = match &self.instances[i] {
                InstanceState::Busy { state_label, op_id } => {
                    let mut s = "Busy(StateLabel(".to_owned();
                    let hex = hex_upper(state_label);
                    s.append(hex.as_str());
                    s.append("), OpId(");
                    let dec = u64_decimal(op_id.0);
                    s.append(dec.as_str());
                    s.append("))");
                    proof {
                        assert(s@ =~= instance_state_string(self.instances@[i as int]));
                    }
                    s
                }
                InstanceState::Available(_) => "Available".to_owned(),
                InstanceState::Deleted => "Deleted".to_owned(),
            };
            out.push(line);
            i = i + 1;
        }
        out
    }

    /// Dispatch decision for an update bound to an instance. A deleted or
    /// unknown instance is an error; a busy instance reports the operation
    /// it is running; an available instance is claimed for `op_id` and
    /// handed to the caller to run the operation on.
    pub fn start_update(&mut self, instance_id: usize, op_id: OpId) -> (r: Result<
        StartOutcome,
        UpdateError,
    >)
        ensures
            final(self).graph@ == old(self).graph@,
            final(self).http_gateways@ == old(self).http_gateways@,
            final(self).sync_wait_time_ms == old(self).sync_wait_time_ms,
            final(self).port == old(self).port,
            final(self).instances@.len() == old(self).instances@.len(),
            match r {
                Err(e) => {
                    &&& final(self).instances@ == old(self).instances@
                    &&& (instance_id >= old(self).instances@.len() || old(self).instances@[
                        instance_id as int
                    ] is Deleted)
                    &&& (if instance_id >= old(self).instances@.len() {
                        e.message@ == "Instance not found"@
                    } else {
                        e.message@ == "Instance was deleted"@
                    })
                }
                Ok(StartOutcome::Busy { state_label, op_id: running }) => {
                    &&& final(self).instances@ == old(self).instances@
                    &&& instance_id < old(self).instances@.len()
                    &&& old(self).instances@[instance_id as int] matches InstanceState::Busy {
                        state_label: l,
                        op_id: o,
                    } && l == state_label && o == running
                }
                Ok(StartOutcome::Started { state_label, op_id: started, instance }) => {
                    &&& instance_id < old(self).instances@.len()
                    &&& old(self).instances@[instance_id as int] matches
                        InstanceState::Available(p) && p == instance && p.state_label
                        == state_label
                    &&& started == op_id
                    &&& final(self).instances@ == old(self).instances@.update(
                        instance_id as int,
                        InstanceState::Busy { state_label, op_id },
                    )
                }
            },
    {
        if instance_id >= self.instances.len() {
            return Err(UpdateError { message: "Instance not found".to_owned() });
        }
        match &self.instances[instance_id] {
            InstanceState::Deleted => Err(
                UpdateError { message: "Instance was deleted".to_owned() },
            ),
            InstanceState::Busy { state_label, op_id } => Ok(
                StartOutcome::Busy { state_label: *state_label, op_id: *op_id },
            ),
            InstanceState::Available(pic) => {
                let instance = *pic;
                let state_label = instance.get_state_label();
                self.instances[instance_id] = InstanceState::Busy { state_label, op_id };
                Ok(StartOutcome::Started { state_label, op_id, instance })
            }
        }
    }

    /// Records a finished operation: the result enters the computation
    /// graph under the state it ran on, and the instance — whose label may
    /// have advanced — becomes available again, unless it was deleted
    /// meanwhile.
    pub fn finish_update(
        &mut self,
        instance_id: usize,
        old_state_label: StateLabel,
        op_id: OpId,
        instance: PocketIc,
        output: OpOut,
    )
        requires
            instance_id < old(self).instances@.len(),
        ensures
            final(self).graph@ == old(self).graph@.push(
                Computation {
                    state_label: old_state_label,
                    op_id,
                    new_state_label: instance.state_label,
                    output,
                },
            ),
            final(self).instances@.len() == old(self).instances@.len(),
            (if old(self).instances@[instance_id as int] is Deleted {
                final(self).instances@ == old(self).instances@
            } else {
                final(self).instances@ == old(self).instances@.update(
                    instance_id as int,
                    InstanceState::Available(instance),
                )
            }),
            final(self).http_gateways@ == old(self).http_gateways@,
            final(self).sync_wait_time_ms == old(self).sync_wait_time_ms,
            final(self).port == old(self).port,
    {
        let new_state_label = instance.get_state_label();
        self.graph.push(
            Computation { state_label: old_state_label, op_id, new_state_label, output },
        );
        match &self.instances[instance_id] {
            InstanceState::Deleted => {}
            _ => {
                self.instances[instance_id] = InstanceState::Available(instance);
            }
        }
    }

    /// Prunes a result that was already delivered synchronously: the graph
    /// keeps the transition but forgets the value.
    pub fn prune_result(&mut self, old_state_label: StateLabel, op_id: OpId)
        ensures
            final(self).instances@ == old(self).instances@,
            final(self).http_gateways@ == old(self).http_gateways@,
            final(self).sync_wait_time_ms == old(self).sync_wait_time_ms,
            final(self).port == old(self).port,
            match graph_lookup(old(self).graph@, old_state_label, op_id) {
                Some(c) => {
                    &&& final(self).graph@ == old(self).graph@.push(
                        Computation {
                            state_label: old_state_label,
                            op_id,
                            new_state_label: c.new_state_label,
                            output: OpOut::Pruned,
                        },
                    )
                    &&& graph_lookup(final(self).graph@, old_state_label, op_id) matches Some(p)
                        && p.new_state_label == c.new_state_label && p.output is Pruned
                }
                None => final(self).graph@ == old(self).graph@,
            },
    {
        match self.read_result(&old_state_label, op_id) {
            Some((new_state_label, _)) => {
                let entry = Computation {
                    state_label: old_state_label,
                    op_id,
                    new_state_label,
                    output: OpOut::Pruned,
                };
                self.graph.push(entry);
                proof {
                    assert(graph_lookup(self.graph@, old_state_label, op_id) == Some(
                        self.graph@.last(),
                    ));
                }
            }
            None => {}
        }
    }
}

} // verus!

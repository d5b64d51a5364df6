//! Consensus support for threshold signatures on a replicated subnet.
//!
//! Each replica runs a pool-driven state machine over its local pool of
//! interactive distributed key generation (IDKG) artifacts: a pre-signer that
//! drives transcript creation, a signer that produces signature shares, a
//! complaint handler that recovers shares a replica cannot decrypt, a gossip
//! priority oracle that ranks incoming artifacts, and a periodic retention
//! task that tells the crypto layer which transcripts must keep their key
//! material. A round-robin driver invokes exactly one sub-engine per tick and
//! applies its change set to the pool atomically.
//!
//! The laws the machine obeys are stated and proved in [`laws`]: validated
//! artifacts have pairwise distinct keys, nothing is promoted unless its
//! config or request stands in the current intent, stale artifacts are
//! removed within one tick of their engine — and within one full rotation of
//! the driver, from any starting position — and ticks are deterministic in
//! the snapshot they see.
//!
//! [`state_api`] holds the synchronous core of the instance-serving test
//! server whose simulated subnets exercise this machinery, and
//! [`endpoints`] the plain data types of the ledger-facing API surface.

pub mod block_reader;
pub mod complaints;
pub mod crypto;
pub mod endpoints;
pub mod idkg;
pub mod laws;
pub mod pool;
pub mod pre_signer;
pub mod proposals;
pub mod signer;
pub mod text;
pub mod state_api;
pub mod types;

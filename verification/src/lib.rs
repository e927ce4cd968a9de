//! Shared-memory cognitive substrate for a fixed collective of 32 agents.
//!
//! The crate verifies the logical core of the substrate:
//!
//! - `agent_buffer` — sequence-counter-guarded per-agent buffer sets
//!   (32 agents x 5 buffers x 1024 bytes);
//! - `ring_buffer` — single-producer single-consumer interrupt ring of
//!   fixed 64-byte entries with dual half-buffers and a page spacer;
//! - `gwt` — global-workspace broadcast engine: salience scoring,
//!   winner selection, summary packing and fan-out;
//! - `consolidation` — periodic metadata harvest, staleness tracking and
//!   prune scoring;
//! - `dispatch` — routing of popped interrupts into percept buffers;
//! - `layout` — the byte layout of the shared region and its total size.
//!
//! The raw shared-memory mapping itself (mmap / POSIX shm) is operating-system
//! territory and lives outside this crate; the types here model the region's
//! contents and carry the contracts that the protocol relies on.

use vstd::prelude::*;

pub mod agent_buffer;
pub mod consolidation;
pub mod dispatch;
pub mod gwt;
pub mod layout;
pub mod ring_buffer;
pub mod seq_util;

verus! {

/// Number of agents in the collective.
pub const NUM_AGENTS: usize = 32;

/// Size in bytes of each individual buffer (percept, workspace, broadcast,
/// action, meta).
pub const BUFFER_SIZE: usize = 1024;

/// Number of buffer kinds per agent.
pub const NUM_BUFFER_TYPES: usize = 5;

/// Total data bytes per agent buffer set.
pub const AGENT_BUFFER_TOTAL: usize = 5120;

/// Ring buffer capacity in entries (a power of two).
pub const RING_CAPACITY: usize = 4096;

/// Buffer kind index: sensory input.
pub const BUF_PERCEPT: usize = 0;

/// Buffer kind index: current working state (broadcast competition input).
pub const BUF_WORKSPACE: usize = 1;

/// Buffer kind index: received global-workspace broadcast.
pub const BUF_BROADCAST: usize = 2;

/// Buffer kind index: output decisions.
pub const BUF_ACTION: usize = 3;

/// Buffer kind index: genome, metrics, configuration.
pub const BUF_META: usize = 4;

} // verus!

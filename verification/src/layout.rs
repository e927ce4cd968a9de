//! Byte layout of the shared region.
//!
//! The region's layout is the system's wire format: the agent buffer
//! matrix at offset zero, the interrupt ring right after it, and at least
//! 4096 bytes of tail padding. Every structure is laid out in 64-byte
//! cache lines; the sizes below are the frozen attach contract that the
//! allocator and every attaching process compute identically.

use vstd::prelude::*;

verus! {

/// One guarded buffer: a 64-byte line for the sequence counter, then 1024
/// data bytes.
pub const SEQLOCK_BUFFER_BYTES: usize = 64 + 1024;

/// One agent slot: a 64-byte header line (agent id, activity flag,
/// padding), then the five guarded buffers.
pub const AGENT_BUFFER_SET_BYTES: usize = 64 + 5 * SEQLOCK_BUFFER_BYTES;

/// The agent buffer matrix: 32 agent slots.
pub const AGENT_MATRIX_BYTES: usize = 32 * AGENT_BUFFER_SET_BYTES;

/// The interrupt ring: one 64-byte line each for the producer and consumer
/// counters, two half-buffers of 2048 entries of 64 bytes, the 4096-byte
/// page spacer between them, and a trailing 64-byte line holding the
/// reserved word and the three statistics counters.
pub const INTERRUPT_RING_BYTES: usize = 64 + 64 + 2048 * 64 + 4096 + 2048 * 64 + 64;

/// Tail padding after the ring.
pub const TAIL_PAD_BYTES: usize = 4096;

/// Total size in bytes of the shared region: the matrix, the ring, and
/// the tail padding. Allocator and attachers must agree on this sum.
pub fn required_shm_size() -> (s: usize)
    ensures
        s == AGENT_MATRIX_BYTES + INTERRUPT_RING_BYTES + TAIL_PAD_BYTES,
        s == 446656,
{
    AGENT_MATRIX_BYTES + INTERRUPT_RING_BYTES + TAIL_PAD_BYTES
}

} // verus!

//! Sequence-counter-guarded per-agent buffer sets.
//!
//! Each agent owns five buffers of 1024 bytes: percept, workspace, broadcast,
//! action and meta. Every buffer carries a sequence counter following the
//! optimistic-read protocol: the counter is even exactly when the buffer is
//! stable, and a writer bumps it by two for every completed write. A reader
//! that observes the same even counter on both sides of its copy has seen a
//! complete image of one write, never a mix of two.
//!
//! This module is the logical model of that protocol: the buffer contents and
//! the counters are held as plain values, writes are whole-image updates, and
//! the contracts pin down the byte image every operation leaves behind.

use vstd::prelude::*;

use crate::BUFFER_SIZE;
use crate::NUM_AGENTS;
use crate::NUM_BUFFER_TYPES;

verus! {

/// The image a write with source `src` leaves in a 1024-byte buffer:
/// the source, truncated to 1024 bytes, with the tail zeroed when the
/// source is short.
pub open spec fn pad_block(src: Seq<u8>) -> Seq<u8> {
    Seq::new(BUFFER_SIZE as nat, |i: int| if i < src.len() { src[i] } else { 0u8 })
}

/// A single sequence-counter-guarded buffer: 1024 data bytes plus the
/// counter. Even counter = stable; odd = a writer is mid-write. In this
/// model every write is a complete step, so a well-formed buffer always
/// shows an even counter.
pub struct SeqlockBuffer {
    /// Sequence counter; bumped by two per completed write.
    pub sequence: u64,
    /// The data image, always exactly 1024 bytes.
    pub data: Vec<u8>,
}

impl SeqlockBuffer {
    /// The buffer holds exactly 1024 bytes and is not mid-write.
    pub open spec fn wf(self) -> bool {
        &&& self.data@.len() == BUFFER_SIZE
        &&& self.sequence % 2 == 0
    }

    /// A fresh, zeroed buffer with counter zero.
    pub fn new() -> (r: SeqlockBuffer)
        ensures
            r.wf(),
            r.sequence == 0,
            r.data@ == pad_block(Seq::<u8>::empty()),
    {
        let r = SeqlockBuffer { sequence: 0, data: vec![0u8; BUFFER_SIZE] };
        proof {
            assert(r.data@ =~= pad_block(Seq::<u8>::empty()));
        }
        r
    }

    /// Complete one write: bump the counter to odd, install the padded
    /// image of `src`, bump the counter back to even.
    ///
    /// The protocol admits exactly one writer per buffer; in this model that
    /// discipline is the exclusive borrow.
    pub fn write(&mut self, src: &[u8])
        requires
            old(self).wf(),
        ensures
            final(self).wf(),
            final(self).sequence == old(self).sequence.wrapping_add(2),
            final(self).data@ == pad_block(src@),
    {
        // Odd: write in progress.
        self.sequence = self.sequence.wrapping_add(1);
        let n = src.len();
        for i in 0..BUFFER_SIZE
            invariant
                self.data@.len() == BUFFER_SIZE,
                n == src@.len(),
                forall|k: int| 0 <= k < i ==> self.data@[k] == pad_block(src@)[k],
                self.sequence == old(self).sequence.wrapping_add(1),
        {
            if i < n {
                self.data[i] = src[i];
            } else {
                self.data[i] = 0;
            }
        }
        // Even: write complete.
        self.sequence = self.sequence.wrapping_add(1);
        proof {
            assert(self.data@ =~= pad_block(src@));
        }
    }

    /// Copy up to 1024 bytes into `dest`, returning the number of failed
    /// attempts. A reader retries only while a writer holds the buffer; a
    /// well-formed buffer is stable, so the copy succeeds at once and the
    /// returned retry count is zero.
    pub fn read(&self, dest: &mut Vec<u8>) -> (retries: u32)
        requires
            self.wf(),
        ensures
            retries == 0,
            final(dest)@.len() == old(dest)@.len(),
            forall|k: int|
                0 <= k < old(dest)@.len() ==> final(dest)@[k] == (if k < BUFFER_SIZE {
                    self.data@[k]
                } else {
                    old(dest)@[k]
                }),
    {
        let len = if dest.len() < BUFFER_SIZE {
            dest.len()
        } else {
            BUFFER_SIZE
        };
        for i in 0..len
            invariant
                len <= dest@.len(),
                len <= BUFFER_SIZE,
                dest@.len() == old(dest)@.len(),
                self.data@.len() == BUFFER_SIZE,
                forall|k: int| 0 <= k < i ==> dest@[k] == self.data@[k],
                forall|k: int| i <= k < dest@.len() ==> dest@[k] == old(dest)@[k],
        {
            dest[i] = self.data[i];
        }
        0
    }

    /// Snapshot of the sequence counter, for monitoring.
    pub fn sequence_number(&self) -> (r: u64)
        ensures
            r == self.sequence,
    {
        self.sequence
    }

    /// Whether a writer currently holds the buffer (odd counter).
    pub fn is_writing(&self) -> (r: bool)
        ensures
            r == (self.sequence % 2 == 1),
    {
        self.sequence % 2 == 1
    }
}

/// Complete buffer set for one agent: identity, activity flag, and the five
/// guarded buffers.
pub struct AgentBufferSet {
    /// Agent index, `0..31`.
    pub agent_id: u32,
    /// Activity flag; zero means inactive.
    pub active: u64,
    /// The five buffers, indexed by buffer kind.
    pub buffers: Vec<SeqlockBuffer>,
}

impl AgentBufferSet {
    /// Five well-formed buffers.
    pub open spec fn wf(self) -> bool {
        &&& self.buffers@.len() == NUM_BUFFER_TYPES
        &&& forall|j: int| 0 <= j < NUM_BUFFER_TYPES ==> (#[trigger] self.buffers@[j]).wf()
    }

    /// A fresh, inactive agent slot with zeroed buffers.
    pub fn new(agent_id: u32) -> (r: AgentBufferSet)
        ensures
            r.wf(),
            r.agent_id == agent_id,
            r.active == 0,
            forall|j: int|
                0 <= j < NUM_BUFFER_TYPES ==> (#[trigger] r.buffers@[j]).sequence == 0
                    && r.buffers@[j].data@ == pad_block(Seq::<u8>::empty()),
    {
        let mut buffers: Vec<SeqlockBuffer> = Vec::new();
        for j in 0..NUM_BUFFER_TYPES
            invariant
                buffers@.len() == j,
                forall|k: int|
                    0 <= k < j ==> (#[trigger] buffers@[k]).wf() && buffers@[k].sequence == 0
                        && buffers@[k].data@ == pad_block(Seq::<u8>::empty()),
        {
            buffers.push(SeqlockBuffer::new());
        }
        AgentBufferSet { agent_id, active: 0, buffers }
    }

    /// Write to one buffer kind; an out-of-range kind is ignored.
    pub fn write_buffer(&mut self, buffer_type: usize, data: &[u8])
        requires
            old(self).wf(),
        ensures
            final(self).wf(),
            final(self).agent_id == old(self).agent_id,
            final(self).active == old(self).active,
            final(self).buffers@.len() == old(self).buffers@.len(),
            buffer_type < NUM_BUFFER_TYPES ==> {
                &&& final(self).buffers@[buffer_type as int].data@ == pad_block(data@)
                &&& final(self).buffers@[buffer_type as int].sequence == old(
                    self,
                ).buffers@[buffer_type as int].sequence.wrapping_add(2)
            },
            forall|j: int|
                0 <= j < NUM_BUFFER_TYPES && j != buffer_type ==> final(self).buffers@[j] == old(
                    self,
                ).buffers@[j],
    {
        if buffer_type < NUM_BUFFER_TYPES {
            self.buffers[buffer_type].write(data);
        }
    }

    /// Read from one buffer kind into `dest`, returning the retry count;
    /// an out-of-range kind leaves `dest` unchanged and reports zero.
    pub fn read_buffer(&self, buffer_type: usize, dest: &mut Vec<u8>) -> (retries: u32)
        requires
            self.wf(),
        ensures
            retries == 0,
            final(dest)@.len() == old(dest)@.len(),
            buffer_type < NUM_BUFFER_TYPES ==> forall|k: int|
                0 <= k < old(dest)@.len() ==> final(dest)@[k] == (if k < BUFFER_SIZE {
                    self.buffers@[buffer_type as int].data@[k]
                } else {
                    old(dest)@[k]
                }),
            buffer_type >= NUM_BUFFER_TYPES ==> final(dest)@ == old(dest)@,
    {
        if buffer_type < NUM_BUFFER_TYPES {
            self.buffers[buffer_type].read(dest)
        } else {
            0
        }
    }

    /// Snapshot all five buffers into one 5120-byte image, each buffer
    /// individually protected by its counter. Returns the image and the
    /// total retry count.
    pub fn snapshot_all(&self) -> (r: (Vec<u8>, u32))
        requires
            self.wf(),
        ensures
            r.0@.len() == 5 * BUFFER_SIZE,
            r.1 == 0,
            forall|j: int, k: int|
                0 <= j < NUM_BUFFER_TYPES && 0 <= k < BUFFER_SIZE ==> r.0@[j * (BUFFER_SIZE as int)
                    + k] == self.buffers@[j].data@[k],
    {
        let mut out: Vec<u8> = Vec::new();
        let mut total_retries: u32 = 0;
        for j in 0..NUM_BUFFER_TYPES
            invariant
                self.wf(),
                total_retries == 0,
                out@.len() == j * (BUFFER_SIZE as int),
                forall|jj: int, k: int|
                    0 <= jj < j && 0 <= k < BUFFER_SIZE ==> out@[jj * (BUFFER_SIZE as int) + k]
                        == self.buffers@[jj].data@[k],
        {
            let mut tmp: Vec<u8> = vec![0u8; BUFFER_SIZE];
            let retries = self.buffers[j].read(&mut tmp);
            total_retries = total_retries + retries;
            out.append(&mut tmp);
        }
        (out, total_retries)
    }
}

/// Monitoring snapshot for a single agent.
#[derive(Clone, Copy, Debug)]
pub struct AgentMeta {
    /// Agent index.
    pub agent_id: u32,
    /// Whether the slot is active.
    pub active: bool,
    /// Sequence counters of the five buffers, by buffer kind.
    pub sequences: [u64; 5],
}

/// The full agent memory region: 32 agent buffer sets.
pub struct AgentMemoryRegion {
    /// The agent slots, indexed by agent id.
    pub agents: Vec<AgentBufferSet>,
}

/// Number of agents among the first `n` entries of `agents` whose activity
/// flag is non-zero.
pub open spec fn count_active(agents: Seq<AgentBufferSet>, n: int) -> int
    decreases n,
{
    if n <= 0 {
        0
    } else {
        count_active(agents, n - 1) + if agents[n - 1].active != 0 {
            1int
        } else {
            0int
        }
    }
}

impl AgentMemoryRegion {
    /// 32 well-formed agent slots, each carrying its own index.
    pub open spec fn wf(self) -> bool {
        &&& self.agents@.len() == NUM_AGENTS
        &&& forall|i: int|
            0 <= i < NUM_AGENTS ==> (#[trigger] self.agents@[i]).wf() && self.agents@[i].agent_id
                == i
    }

    /// A fresh region: all agents inactive, all buffers zeroed.
    pub fn new() -> (r: AgentMemoryRegion)
        ensures
            r.wf(),
            forall|i: int| 0 <= i < NUM_AGENTS ==> (#[trigger] r.agents@[i]).active == 0,
            forall|i: int, j: int|
                0 <= i < NUM_AGENTS && 0 <= j < NUM_BUFFER_TYPES ==> (#[trigger] r.agents@[i].buffers@[j]).sequence
                    == 0 && r.agents@[i].buffers@[j].data@ == pad_block(Seq::<u8>::empty()),
    {
        let mut agents: Vec<AgentBufferSet> = Vec::new();
        for i in 0..NUM_AGENTS
            invariant
                agents@.len() == i,
                forall|k: int|
                    0 <= k < i ==> (#[trigger] agents@[k]).wf() && agents@[k].agent_id == k
                        && agents@[k].active == 0,
                forall|k: int, j: int|
                    0 <= k < i && 0 <= j < NUM_BUFFER_TYPES ==> (
                    #[trigger] agents@[k].buffers@[j]).sequence == 0 && agents@[k].buffers@[j].data@
                        == pad_block(Seq::<u8>::empty()),
        {
            agents.push(AgentBufferSet::new(i as u32));
        }
        AgentMemoryRegion { agents }
    }

    /// Mark an agent slot active; an out-of-range index is ignored.
    pub fn activate_agent(&mut self, agent_id: usize)
        requires
            old(self).wf(),
        ensures
            final(self).wf(),
            agent_id < NUM_AGENTS ==> {
                &&& final(self).agents@[agent_id as int].active == 1
                &&& final(self).agents@[agent_id as int].agent_id == old(
                    self,
                ).agents@[agent_id as int].agent_id
                &&& final(self).agents@[agent_id as int].buffers == old(
                    self,
                ).agents@[agent_id as int].buffers
            },
            forall|i: int|
                0 <= i < NUM_AGENTS && i != agent_id ==> final(self).agents@[i] == old(
                    self,
                ).agents@[i],
    {
        if agent_id < NUM_AGENTS {
            self.agents[agent_id].active = 1;
        }
    }

    /// Mark an agent slot inactive; an out-of-range index is ignored.
    pub fn deactivate_agent(&mut self, agent_id: usize)
        requires
            old(self).wf(),
        ensures
            final(self).wf(),
            agent_id < NUM_AGENTS ==> {
                &&& final(self).agents@[agent_id as int].active == 0
                &&& final(self).agents@[agent_id as int].agent_id == old(
                    self,
                ).agents@[agent_id as int].agent_id
                &&& final(self).agents@[agent_id as int].buffers == old(
                    self,
                ).agents@[agent_id as int].buffers
            },
            forall|i: int|
                0 <= i < NUM_AGENTS && i != agent_id ==> final(self).agents@[i] == old(
                    self,
                ).agents@[i],
    {
        if agent_id < NUM_AGENTS {
            self.agents[agent_id].active = 0;
        }
    }

    /// Count the agents whose activity flag is non-zero.
    pub fn active_count(&self) -> (r: usize)
        requires
            self.wf(),
        ensures
            r == count_active(self.agents@, NUM_AGENTS as int),
    {
        let mut count: usize = 0;
        for i in 0..NUM_AGENTS
            invariant
                self.wf(),
                count == count_active(self.agents@, i as int),
                count <= i,
        {
            if self.agents[i].active != 0 {
                count = count + 1;
            }
        }
        count
    }

    /// Metadata snapshot for one agent: identity, activity, and the five
    /// sequence counters. `None` exactly when the index is out of range.
    pub fn agent_metadata(&self, agent_id: usize) -> (r: Option<AgentMeta>)
        requires
            self.wf(),
        ensures
            agent_id >= NUM_AGENTS ==> r is None,
            agent_id < NUM_AGENTS ==> {
                &&& r is Some
                &&& r->Some_0.agent_id == self.agents@[agent_id as int].agent_id
                &&& r->Some_0.active == (self.agents@[agent_id as int].active != 0)
                &&& forall|j: int|
                    0 <= j < NUM_BUFFER_TYPES ==> r->Some_0.sequences@[j]
                        == self.agents@[agent_id as int].buffers@[j].sequence
            },
    {
        if agent_id >= NUM_AGENTS {
            return None;
        }
        let agent = &self.agents[agent_id];
        let sequences: [u64; 5] = [
            agent.buffers[0].sequence_number(),
            agent.buffers[1].sequence_number(),
            agent.buffers[2].sequence_number(),
            agent.buffers[3].sequence_number(),
            agent.buffers[4].sequence_number(),
        ];
        Some(AgentMeta { agent_id: agent.agent_id, active: agent.active != 0, sequences })
    }
}

} // verus!

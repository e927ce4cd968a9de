//! Interrupt dispatch: routing popped ring entries into percept buffers.
//!
//! Each cognitive tick drains up to 64 interrupts from the ring. An entry
//! addressed to `0xFFFF` is a broadcast and lands in every agent's percept
//! buffer; an entry addressed to an agent below 32 lands in that agent's
//! percept buffer; any other target is dropped on the floor. When several
//! drained entries hit the same agent, the later one overwrites the
//! earlier, so a percept buffer ends up holding the padded payload of the
//! last entry that hit it.

use vstd::prelude::*;

use crate::agent_buffer::pad_block;
use crate::agent_buffer::AgentMemoryRegion;
use crate::ring_buffer::InterruptEntry;
use crate::ring_buffer::InterruptRingBuffer;
use crate::BUF_PERCEPT;
use crate::NUM_AGENTS;
use crate::NUM_BUFFER_TYPES;

verus! {

/// Whether entry `e` is delivered to agent `i`.
pub open spec fn hits(e: InterruptEntry, i: int) -> bool {
    e.target_agent == 0xFFFF || e.target_agent == i
}

/// How many of the entries hit agent `i`.
pub open spec fn hit_count(entries: Seq<InterruptEntry>, i: int) -> int
    decreases entries.len(),
{
    if entries.len() == 0 {
        0
    } else {
        hit_count(entries.drop_last(), i) + if hits(entries.last(), i) {
            1int
        } else {
            0int
        }
    }
}

/// A hit count is never negative.
pub proof fn lemma_hit_count_nonneg(entries: Seq<InterruptEntry>, i: int)
    ensures
        hit_count(entries, i) >= 0,
    decreases entries.len(),
{
    if entries.len() > 0 {
        lemma_hit_count_nonneg(entries.drop_last(), i);
    }
}

/// The last entry among `entries` that hits agent `i`, if any.
pub open spec fn last_hit(entries: Seq<InterruptEntry>, i: int) -> Option<InterruptEntry>
    decreases entries.len(),
{
    if entries.len() == 0 {
        Option::<InterruptEntry>::None
    } else if hits(entries.last(), i) {
        Option::<InterruptEntry>::Some(entries.last())
    } else {
        last_hit(entries.drop_last(), i)
    }
}

/// A sequence counter after `k` further completed writes.
pub open spec fn seq_after(s: u64, k: int) -> u64
    decreases k,
{
    if k <= 0 {
        s
    } else {
        seq_after(s, k - 1).wrapping_add(2)
    }
}

/// Deliver one interrupt entry: write its payload into the percept buffer
/// of the targeted agent, of every agent for a broadcast target, and of no
/// one for an out-of-range target.
#[verifier::loop_isolation(false)]
pub fn dispatch_entry(region: &mut AgentMemoryRegion, entry: &InterruptEntry)
    requires
        old(region).wf(),
    ensures
        final(region).wf(),
        final(region).agents@.len() == NUM_AGENTS,
        forall|i: int|
            0 <= i < NUM_AGENTS && hits(*entry, i) ==> {
                &&& (#[trigger] final(region).agents@[i]).buffers@[BUF_PERCEPT as int].data@
                    == pad_block(entry.payload@)
                &&& final(region).agents@[i].buffers@[BUF_PERCEPT as int].sequence == old(
                    region,
                ).agents@[i].buffers@[BUF_PERCEPT as int].sequence.wrapping_add(2)
            },
        forall|i: int|
            0 <= i < NUM_AGENTS && !hits(*entry, i) ==> (#[trigger] final(region).agents@[i])
                == old(region).agents@[i],
        forall|i: int, j: int|
            0 <= i < NUM_AGENTS && 0 <= j < NUM_BUFFER_TYPES && j != BUF_PERCEPT ==> (
            #[trigger] final(region).agents@[i].buffers@[j]) == old(region).agents@[i].buffers@[j],
        forall|i: int|
            0 <= i < NUM_AGENTS ==> (#[trigger] final(region).agents@[i]).active == old(
                region,
            ).agents@[i].active && final(region).agents@[i].agent_id == old(
                region,
            ).agents@[i].agent_id,
{
    if entry.target_agent == 0xFFFF {
        let payload = vstd::array::array_as_slice(&entry.payload);
        for a in 0..NUM_AGENTS
            invariant
                region.agents@.len() == NUM_AGENTS,
                forall|i: int| 0 <= i < NUM_AGENTS ==> (#[trigger] region.agents@[i]).wf(),
                forall|i: int|
                    a <= i < NUM_AGENTS ==> (#[trigger] region.agents@[i]) == old(
                        region,
                    ).agents@[i],
                forall|i: int|
                    0 <= i < a ==> {
                        &&& (#[trigger] region.agents@[i]).buffers@.len() == NUM_BUFFER_TYPES
                        &&& region.agents@[i].buffers@[BUF_PERCEPT as int].data@ == pad_block(
                            entry.payload@,
                        )
                        &&& region.agents@[i].buffers@[BUF_PERCEPT as int].sequence == old(
                            region,
                        ).agents@[i].buffers@[BUF_PERCEPT as int].sequence.wrapping_add(2)
                        &&& region.agents@[i].active == old(region).agents@[i].active
                        &&& region.agents@[i].agent_id == old(region).agents@[i].agent_id
                        &&& forall|jb: int|
                            0 <= jb < NUM_BUFFER_TYPES && jb != BUF_PERCEPT ==> (
                            #[trigger] region.agents@[i].buffers@[jb]) == old(
                                region,
                            ).agents@[i].buffers@[jb]
                    },
        {
            region.agents[a].write_buffer(BUF_PERCEPT, payload);
        }
    } else if (entry.target_agent as usize) < NUM_AGENTS {
        let payload = vstd::array::array_as_slice(&entry.payload);
        region.agents[entry.target_agent as usize].write_buffer(BUF_PERCEPT, payload);
    }
}

/// Drain up to `max` interrupts from the ring and deliver each to the
/// percept buffers it addresses. Returns the number of entries drained:
/// `max`, or fewer when the ring empties first. After the call every
/// agent's percept buffer holds the padded payload of the last drained
/// entry that hit it (and is untouched if none did), and the drained
/// entries are exactly the oldest `n` of the queue.
#[verifier::loop_isolation(false)]
pub fn drain_interrupts(
    region: &mut AgentMemoryRegion,
    ring: &mut InterruptRingBuffer,
    max: usize,
) -> (n: usize)
    requires
        old(region).wf(),
        old(ring).wf(),
    ensures
        final(region).wf(),
        final(ring).wf(),
        n == (if max <= old(ring).contents().len() {
            max as int
        } else {
            old(ring).contents().len() as int
        }),
        final(ring).contents() == old(ring).contents().skip(n as int),
        final(ring).total_pushed == old(ring).total_pushed,
        final(ring).total_dropped == old(ring).total_dropped,
        forall|i: int|
            0 <= i < NUM_AGENTS ==> (#[trigger] final(region).agents@[i]).buffers@[BUF_PERCEPT as int].data@
                == (match last_hit(old(ring).contents().take(n as int), i) {
                Option::Some(e) => pad_block(e.payload@),
                Option::None => old(region).agents@[i].buffers@[BUF_PERCEPT as int].data@,
            }),
        forall|i: int|
            0 <= i < NUM_AGENTS ==> (#[trigger] final(region).agents@[i]).buffers@[BUF_PERCEPT as int].sequence
                == seq_after(
                old(region).agents@[i].buffers@[BUF_PERCEPT as int].sequence,
                hit_count(old(ring).contents().take(n as int), i),
            ),
        forall|i: int, j: int|
            0 <= i < NUM_AGENTS && 0 <= j < NUM_BUFFER_TYPES && j != BUF_PERCEPT ==> (
            #[trigger] final(region).agents@[i].buffers@[j]) == old(region).agents@[i].buffers@[j],
        forall|i: int|
            0 <= i < NUM_AGENTS ==> (#[trigger] final(region).agents@[i]).active == old(
                region,
            ).agents@[i].active && final(region).agents@[i].agent_id == old(
                region,
            ).agents@[i].agent_id,
{
    let ghost queued = old(ring).contents();
    let mut count: usize = 0;
    while count < max && !ring.is_empty()
        invariant
            count <= max,
            count <= queued.len(),
            region.wf(),
            ring.wf(),
            ring.contents() == queued.skip(count as int),
            ring.total_pushed == old(ring).total_pushed,
            ring.total_dropped == old(ring).total_dropped,
            forall|i: int|
                0 <= i < NUM_AGENTS ==> (#[trigger] region.agents@[i]).buffers@[BUF_PERCEPT as int].data@
                    == (match last_hit(queued.take(count as int), i) {
                    Option::Some(e) => pad_block(e.payload@),
                    Option::None => old(region).agents@[i].buffers@[BUF_PERCEPT as int].data@,
                }),
            forall|i: int|
                0 <= i < NUM_AGENTS ==> (#[trigger] region.agents@[i]).buffers@[BUF_PERCEPT as int].sequence
                    == seq_after(
                    old(region).agents@[i].buffers@[BUF_PERCEPT as int].sequence,
                    hit_count(queued.take(count as int), i),
                ),
            forall|i: int, j: int|
                0 <= i < NUM_AGENTS && 0 <= j < NUM_BUFFER_TYPES && j != BUF_PERCEPT ==> (
                #[trigger] region.agents@[i].buffers@[j]) == old(region).agents@[i].buffers@[j],
            forall|i: int|
                0 <= i < NUM_AGENTS ==> (#[trigger] region.agents@[i]).active == old(
                    region,
                ).agents@[i].active && region.agents@[i].agent_id == old(region).agents@[i].agent_id,
        decreases max - count,
    {
        if let Some(entry) = ring.pop() {
            proof {
                assert(queued.skip(count as int)[0] == queued[count as int]);
                assert(queued.skip(count as int).subrange(
                    1,
                    queued.skip(count as int).len() as int,
                ) =~= queued.skip(count + 1));
            }
            dispatch_entry(region, &entry);
            proof {
                let taken = queued.take(count + 1);
                assert(taken.drop_last() =~= queued.take(count as int));
                assert(taken.last() == entry);
                assert forall|i: int| 0 <= i < NUM_AGENTS implies (
                #[trigger] region.agents@[i]).buffers@[BUF_PERCEPT as int].sequence == seq_after(
                    old(region).agents@[i].buffers@[BUF_PERCEPT as int].sequence,
                    hit_count(taken, i),
                ) by {
                    let s0 = old(region).agents@[i].buffers@[BUF_PERCEPT as int].sequence;
                    let c = hit_count(queued.take(count as int), i);
                    lemma_hit_count_nonneg(queued.take(count as int), i);
                    if hits(entry, i) {
                        assert(hit_count(taken, i) == c + 1);
                        assert(seq_after(s0, c + 1) == seq_after(s0, c).wrapping_add(2));
                    } else {
                        assert(hit_count(taken, i) == c);
                    }
                }
            }
            count = count + 1;
        } else {
            proof {
                assert(false);
            }
        }
    }
    proof {
        if count < max {
            assert(queued.skip(count as int).len() == 0);
            assert(queued.len() == count);
        }
    }
    count
}

} // verus!

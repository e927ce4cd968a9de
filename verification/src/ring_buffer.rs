//! Lock-free-style single-producer single-consumer interrupt ring.
//!
//! The ring holds exactly 4096 entries of 64 bytes each, split into two
//! half-buffers of 2048 entries separated by a 4096-byte spacer. The spacer
//! carries no data; on real hardware it keeps the prefetcher, streaming
//! through one half, from dragging the other half's cache lines into the
//! producer's working set. `head` and `tail` are free-running 64-bit
//! counters that may wrap; an entry's slot is its counter value modulo 4096,
//! with slots 0..2048 in half A and 2048..4096 in half B.
//!
//! This module is the logical model of that queue: the two halves are plain
//! vectors, and the contracts pin down the queue contents — the slice of
//! slots from `tail` to `head` in counter order — across every operation.

use vstd::prelude::*;

use crate::RING_CAPACITY;
use vstd::arithmetic::div_mod::lemma_mod_division_less_than_divisor;
use vstd::arithmetic::div_mod::lemma_mod_equivalence;
use vstd::arithmetic::div_mod::lemma_mod_multiples_vanish;
use vstd::arithmetic::div_mod::lemma_small_mod;

verus! {

/// Entries per half-buffer.
pub const HALF_CAP: usize = 2048;

/// Single interrupt entry — 64 bytes of payload-bearing fields.
#[derive(Clone, Copy)]
pub struct InterruptEntry {
    /// Source agent id (0-31).
    pub source_agent: u16,
    /// Target agent id (0-31); 0xFFFF means broadcast to all agents.
    pub target_agent: u16,
    /// Interrupt kind: 0 percept, 1 priority, 2 override, 3 emergency.
    pub interrupt_type: u8,
    /// Priority level; higher is more urgent.
    pub priority: u8,
    /// Reserved padding, part of the 64-byte wire format.
    pub _pad: u16,
    /// Monotonic timestamp in nanoseconds.
    pub timestamp: u64,
    /// Payload bytes.
    pub payload: [u8; 44],
}

impl Default for InterruptEntry {
    /// The all-zero entry.
    fn default() -> (r: InterruptEntry)
        ensures
            r.source_agent == 0,
            r.target_agent == 0,
            r.interrupt_type == 0,
            r.priority == 0,
            r._pad == 0,
            r.timestamp == 0,
            forall|i: int| 0 <= i < 44 ==> r.payload@[i] == 0u8,
    {
        InterruptEntry {
            source_agent: 0,
            target_agent: 0,
            interrupt_type: 0,
            priority: 0,
            _pad: 0,
            timestamp: 0,
            payload: [0u8; 44],
        }
    }
}

/// Distance from `tail` up to `head` on the wrapping 64-bit counter circle:
/// the number of entries currently queued.
pub open spec fn ring_fill(head: u64, tail: u64) -> int {
    vstd::wrapping::u64_specs::wrapping_sub(head, tail) as int
}

/// Single-producer single-consumer ring of 4096 interrupt entries.
///
/// Field order mirrors the wire layout of the shared region: producer
/// counter, consumer counter, half A, spacer, half B, reserved word,
/// statistics counters.
pub struct InterruptRingBuffer {
    /// Producer counter; the next push goes to slot `head % 4096`.
    pub head: u64,
    /// Consumer counter; the next pop comes from slot `tail % 4096`.
    pub tail: u64,
    /// Half A: slots 0..2048.
    pub entries_a: Vec<InterruptEntry>,
    /// Dead zone between the halves; never read or written.
    pub spacer: Vec<u8>,
    /// Half B: slots 2048..4096.
    pub entries_b: Vec<InterruptEntry>,
    /// Reserved word, persisted in the region but not consulted.
    pub active_write_buffer: u32,
    /// Count of accepted pushes.
    pub total_pushed: u64,
    /// Count of successful pops.
    pub total_popped: u64,
    /// Count of pushes rejected because the ring was full.
    pub total_dropped: u64,
}

impl InterruptRingBuffer {
    /// The entry stored at slot `s` (0..4096).
    pub open spec fn slot_entry(self, s: int) -> InterruptEntry {
        if s < HALF_CAP {
            self.entries_a@[s]
        } else {
            self.entries_b@[s - HALF_CAP]
        }
    }

    /// The queued entries, oldest first: slots `tail`, `tail + 1`, ...,
    /// `head - 1`, each taken modulo 4096.
    pub open spec fn contents(self) -> Seq<InterruptEntry> {
        Seq::new(
            ring_fill(self.head, self.tail) as nat,
            |i: int| self.slot_entry((self.tail + i) % (RING_CAPACITY as int)),
        )
    }

    /// Both halves fully allocated, the fill within capacity, and the
    /// statistics counters in step with the position counters.
    pub open spec fn wf(self) -> bool {
        &&& self.entries_a@.len() == HALF_CAP
        &&& self.entries_b@.len() == HALF_CAP
        &&& self.spacer@.len() == 4096
        &&& ring_fill(self.head, self.tail) <= RING_CAPACITY
        &&& self.head == self.total_pushed
        &&& self.tail == self.total_popped
    }

    /// A fresh, empty ring with all counters zero.
    pub fn new() -> (r: InterruptRingBuffer)
        ensures
            r.wf(),
            r.contents() == Seq::<InterruptEntry>::empty(),
            r.head == 0,
            r.tail == 0,
            r.total_pushed == 0,
            r.total_popped == 0,
            r.total_dropped == 0,
    {
        let r = InterruptRingBuffer {
            head: 0,
            tail: 0,
            entries_a: vec![InterruptEntry::default(); HALF_CAP],
            spacer: vec![0u8; 4096],
            entries_b: vec![InterruptEntry::default(); HALF_CAP],
            active_write_buffer: 0,
            total_pushed: 0,
            total_popped: 0,
            total_dropped: 0,
        };
        proof {
            assert(r.contents() =~= Seq::<InterruptEntry>::empty());
        }
        r
    }

    /// Push an entry. A full ring rejects the push and counts a drop; an
    /// accepted push appends the entry to the queue.
    pub fn push(&mut self, entry: InterruptEntry) -> (accepted: bool)
        requires
            old(self).wf(),
        ensures
            final(self).wf(),
            accepted == (old(self).contents().len() < RING_CAPACITY),
            accepted ==> {
                &&& final(self).contents() == old(self).contents().push(entry)
                &&& final(self).total_pushed == old(self).total_pushed.wrapping_add(1)
                &&& final(self).total_popped == old(self).total_popped
                &&& final(self).total_dropped == old(self).total_dropped
            },
            !accepted ==> {
                &&& final(self).contents() == old(self).contents()
                &&& final(self).total_pushed == old(self).total_pushed
                &&& final(self).total_popped == old(self).total_popped
                &&& final(self).total_dropped == old(self).total_dropped.wrapping_add(1)
            },
    {
        let head = self.head;
        let tail = self.tail;
        if head.wrapping_sub(tail) >= RING_CAPACITY as u64 {
            self.total_dropped = self.total_dropped.wrapping_add(1);
            proof {
                assert(self.contents() =~= old(self).contents());
            }
            return false;
        }
        let ghost f = ring_fill(head, tail);
        let idx = (head % (RING_CAPACITY as u64)) as usize;
        proof {
            lemma_mod_division_less_than_divisor(head as int, RING_CAPACITY as int);
        }
        if idx < HALF_CAP {
            self.entries_a[idx] = entry;
        } else {
            self.entries_b[idx - HALF_CAP] = entry;
        }
        self.head = head.wrapping_add(1);
        self.total_pushed = self.total_pushed.wrapping_add(1);
        proof {
            self.lemma_push_contents(*old(self), entry, f, idx as int);
        }
        true
    }

    /// Proof that an accepted push appends exactly one entry: the freshly
    /// written slot is the one past the old queue, and every older slot is
    /// untouched because distinct offsets below 4096 land in distinct slots.
    proof fn lemma_push_contents(
        self,
        prev: InterruptRingBuffer,
        entry: InterruptEntry,
        f: int,
        idx: int,
    )
        requires
            prev.wf(),
            0 <= f < RING_CAPACITY,
            f == ring_fill(prev.head, prev.tail),
            idx == prev.head as int % (RING_CAPACITY as int),
            self.head == prev.head.wrapping_add(1),
            self.tail == prev.tail,
            self.entries_a@.len() == HALF_CAP,
            self.entries_b@.len() == HALF_CAP,
            idx < HALF_CAP ==> self.entries_a@ == prev.entries_a@.update(idx, entry)
                && self.entries_b@ == prev.entries_b@,
            idx >= HALF_CAP ==> self.entries_b@ == prev.entries_b@.update(
                idx - HALF_CAP,
                entry,
            ) && self.entries_a@ == prev.entries_a@,
        ensures
            ring_fill(self.head, self.tail) == f + 1,
            self.contents() == prev.contents().push(entry),
    {
        let cap = RING_CAPACITY as int;
        let t = prev.tail as int;
        let h = prev.head as int;
        assert(ring_fill(self.head, self.tail) == f + 1);
        // The slot being written is the slot of offset `f` past `tail`.
        assert((t + f) % cap == idx) by {
            if h - t >= 0 {
                assert(t + f == h);
            } else {
                assert(t + f == h + 0x1_0000_0000_0000_0000);
                lemma_mod_multiples_vanish(0x10_0000_0000_0000, h, cap);
            }
        }
        // Older offsets land in other slots.
        assert forall|i: int| 0 <= i < f implies #[trigger] ((t + i) % cap) != idx by {
            lemma_mod_equivalence(t + f, t + i, cap);
            lemma_small_mod((f - i) as nat, cap as nat);
        }
        assert forall|i: int| 0 <= i < f implies #[trigger] self.contents()[i]
            == prev.contents()[i] by {
            lemma_mod_division_less_than_divisor(t + i, cap);
        }
        assert(self.contents()[f] == entry);
        assert(self.contents() =~= prev.contents().push(entry));
    }

    /// Pop the oldest entry, or report an empty ring.
    pub fn pop(&mut self) -> (r: Option<InterruptEntry>)
        requires
            old(self).wf(),
        ensures
            final(self).wf(),
            (r is Some) == (old(self).contents().len() > 0),
            r is Some ==> {
                &&& r->Some_0 == old(self).contents()[0]
                &&& final(self).contents() == old(self).contents().subrange(
                    1,
                    old(self).contents().len() as int,
                )
                &&& final(self).total_popped == old(self).total_popped.wrapping_add(1)
                &&& final(self).total_pushed == old(self).total_pushed
                &&& final(self).total_dropped == old(self).total_dropped
            },
            r is None ==> {
                &&& final(self).contents() == old(self).contents()
                &&& final(self).total_pushed == old(self).total_pushed
                &&& final(self).total_popped == old(self).total_popped
                &&& final(self).total_dropped == old(self).total_dropped
            },
    {
        let tail = self.tail;
        let head = self.head;
        if tail == head {
            proof {
                assert(self.contents() =~= old(self).contents());
            }
            return None;
        }
        let ghost f = ring_fill(head, tail);
        let idx = (tail % (RING_CAPACITY as u64)) as usize;
        proof {
            lemma_mod_division_less_than_divisor(tail as int, RING_CAPACITY as int);
        }
        let entry = if idx < HALF_CAP {
            self.entries_a[idx]
        } else {
            self.entries_b[idx - HALF_CAP]
        };
        self.tail = tail.wrapping_add(1);
        self.total_popped = self.total_popped.wrapping_add(1);
        proof {
            let cap = RING_CAPACITY as int;
            let t = tail as int;
            assert(entry == old(self).contents()[0]);
            assert(ring_fill(self.head, self.tail) == f - 1);
            assert forall|i: int| 0 <= i < f - 1 implies #[trigger] self.contents()[i] == old(
                self,
            ).contents()[i + 1] by {
                if self.tail as int == t + 1 {
                } else {
                    // The consumer counter wrapped: its new value is
                    // `t + 1 - 2^64`, which reaches the same slot.
                    assert(self.tail as int + i == t + 1 + i - 0x1_0000_0000_0000_0000);
                    lemma_mod_multiples_vanish(-0x10_0000_0000_0000, self.tail as int + i, cap);
                    assert((t + 1 + i) % cap == (self.tail as int + i) % cap);
                }
            }
            assert(self.contents() =~= old(self).contents().subrange(
                1,
                old(self).contents().len() as int,
            ));
        }
        Some(entry)
    }

    /// Number of entries currently queued.
    pub fn len(&self) -> (r: usize)
        requires
            self.wf(),
        ensures
            r == self.contents().len(),
    {
        self.head.wrapping_sub(self.tail) as usize
    }

    /// Whether the ring holds no entries.
    pub fn is_empty(&self) -> (r: bool)
        requires
            self.wf(),
        ensures
            r == (self.contents().len() == 0),
    {
        self.len() == 0
    }

    /// Total capacity in entries.
    pub fn capacity(&self) -> (r: usize)
        ensures
            r == RING_CAPACITY,
    {
        HALF_CAP * 2
    }

    /// Statistics snapshot.
    pub fn stats(&self) -> (r: RingBufferStats)
        requires
            self.wf(),
        ensures
            r.current_len == self.contents().len(),
            r.capacity == RING_CAPACITY,
            r.total_pushed == self.total_pushed,
            r.total_popped == self.total_popped,
            r.total_dropped == self.total_dropped,
    {
        RingBufferStats {
            current_len: self.len(),
            capacity: self.capacity(),
            total_pushed: self.total_pushed,
            total_popped: self.total_popped,
            total_dropped: self.total_dropped,
        }
    }
}

/// No entry is lost or invented: on every well-formed ring, the accepted
/// pushes minus the successful pops — taken on the wrapping counter circle —
/// equal the number of entries currently queued. Drops are counted
/// separately and only on rejected pushes.
pub proof fn lemma_counter_conservation(r: InterruptRingBuffer)
    requires
        r.wf(),
    ensures
        ring_fill(r.total_pushed, r.total_popped) == r.contents().len(),
{
}

/// Statistics snapshot of the ring.
#[derive(Clone, Copy, Debug)]
pub struct RingBufferStats {
    /// Entries currently queued.
    pub current_len: usize,
    /// Total capacity in entries.
    pub capacity: usize,
    /// Accepted pushes.
    pub total_pushed: u64,
    /// Successful pops.
    pub total_popped: u64,
    /// Rejected pushes.
    pub total_dropped: u64,
}

} // verus!

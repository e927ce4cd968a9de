//! Global-workspace broadcast engine.
//!
//! Once per cognitive tick the engine snapshots every active agent's
//! workspace, scores each snapshot by salience, selects the top-K, packs a
//! summary of the winners and writes it into every active agent's broadcast
//! buffer.
//!
//! Salience is the product of three factors, each in `[0, 1]`:
//! recency (1.0 when the workspace sequence advanced since the prior cycle,
//! else 0.3), relevance (the geometric mean of byte density and byte
//! diversity), and surprise (1.0 when the workspace hash changed, else 0.1).
//! Because salience is non-negative and only its ordering matters, the
//! engine works with the exact integer `salience_key` — the square of
//! salience times the positive constant `100 * 100 * 1024 * 256`. Ordering
//! by the key is exactly ordering by salience, with no rounding.

use vstd::prelude::*;

use crate::agent_buffer::pad_block;
use crate::agent_buffer::AgentMemoryRegion;
use crate::seq_util::lemma_multiset_eq_contains;
use crate::seq_util::lemma_swap_multiset;
use crate::BUFFER_SIZE;
use crate::BUF_BROADCAST;
use crate::BUF_WORKSPACE;
use crate::NUM_AGENTS;
use crate::NUM_BUFFER_TYPES;
use vstd::arithmetic::div_mod::lemma_div_pos_is_pos;
use vstd::arithmetic::div_mod::lemma_fundamental_div_mod;
use vstd::arithmetic::div_mod::lemma_mod_division_less_than_divisor;

verus! {

/// One step of the 64-bit FNV-1a hash: fold one byte into the accumulator.
pub open spec fn fnv1a_step(acc: u64, b: u8) -> u64 {
    vstd::wrapping::u64_specs::wrapping_mul(acc ^ (b as u64), 0x100000001b3)
}

/// FNV-1a folded over `s` from index `i` onward, starting from `acc`.
pub open spec fn fnv1a_from(s: Seq<u8>, i: int, acc: u64) -> u64
    decreases s.len() - i,
{
    if i < 0 || i >= s.len() {
        acc
    } else {
        fnv1a_from(s, i + 1, fnv1a_step(acc, s[i]))
    }
}

/// The canonical 64-bit FNV-1a hash of a byte sequence.
pub open spec fn fnv1a_hash(s: Seq<u8>) -> u64 {
    fnv1a_from(s, 0, 0xcbf29ce484222325u64)
}

/// Fast non-cryptographic hash for surprise detection: 64-bit FNV-1a.
pub fn fast_hash(data: &[u8]) -> (r: u64)
    ensures
        r == fnv1a_hash(data@),
{
    let mut hash: u64 = 0xcbf29ce484222325;
    let n = data.len();
    for i in 0..n
        invariant
            n == data@.len(),
            fnv1a_hash(data@) == fnv1a_from(data@, i as int, hash),
    {
        hash = (hash ^ (data[i] as u64)).wrapping_mul(0x100000001b3);
    }
    hash
}

/// Number of non-zero bytes among the first `n` of `s`.
pub open spec fn count_nonzero(s: Seq<u8>, n: int) -> int
    decreases n,
{
    if n <= 0 {
        0
    } else {
        count_nonzero(s, n - 1) + if s[n - 1] != 0 {
            1int
        } else {
            0int
        }
    }
}

/// Whether the byte at index `k` already occurs earlier in `s`.
pub open spec fn has_before(s: Seq<u8>, k: int) -> bool {
    exists|j: int| 0 <= j < k && s[j] == s[k]
}

/// Number of distinct byte values among the first `n` of `s`.
pub open spec fn distinct_count(s: Seq<u8>, n: int) -> int
    decreases n,
{
    if n <= 0 {
        0
    } else {
        distinct_count(s, n - 1) + if has_before(s, n - 1) {
            0int
        } else {
            1int
        }
    }
}

/// Squared relevance of a byte image, scaled by `1024 * 256`: the count of
/// non-zero bytes times the count of distinct byte values. Relevance itself
/// is `sqrt(density * diversity)` with `density = non_zero / 1024` and
/// `diversity = distinct / 256`; squaring and scaling by a positive constant
/// preserves its ordering exactly.
pub open spec fn relevance_key(s: Seq<u8>) -> int {
    count_nonzero(s, s.len() as int) * distinct_count(s, s.len() as int)
}

/// Both byte counts over a prefix are bounded by the prefix length.
pub proof fn lemma_counts_bound(s: Seq<u8>, n: int)
    requires
        0 <= n <= s.len(),
    ensures
        0 <= count_nonzero(s, n) <= n,
        0 <= distinct_count(s, n) <= n,
    decreases n,
{
    if n > 0 {
        lemma_counts_bound(s, n - 1);
    }
}

/// Scaled squared relevance of a workspace image: non-zero byte count times
/// distinct byte value count.
pub fn compute_relevance(data: &[u8]) -> (r: u64)
    requires
        data@.len() <= BUFFER_SIZE,
    ensures
        r == relevance_key(data@),
        r <= BUFFER_SIZE * BUFFER_SIZE,
{
    let n = data.len();
    let mut nonzero: u64 = 0;
    let mut seen: Vec<bool> = vec![false; 256];
    let mut unique: u64 = 0;
    for i in 0..n
        invariant
            n == data@.len(),
            n <= BUFFER_SIZE,
            seen@.len() == 256,
            nonzero == count_nonzero(data@, i as int),
            nonzero <= i,
            unique == distinct_count(data@, i as int),
            unique <= i,
            forall|v: int|
                0 <= v < 256 ==> (seen@[v] <==> exists|j: int|
                    0 <= j < i && (#[trigger] data@[j]) as int == v),
    {
        let b = data[i];
        if b != 0 {
            nonzero = nonzero + 1;
        }
        if !seen[b as usize] {
            seen[b as usize] = true;
            unique = unique + 1;
        }
    }
    proof {
        assert(nonzero * unique <= n * n) by (nonlinear_arith)
            requires
                0 <= nonzero <= n,
                0 <= unique <= n,
        ;
        assert(n * n <= BUFFER_SIZE * BUFFER_SIZE) by (nonlinear_arith)
            requires
                0 <= n <= BUFFER_SIZE,
        ;
    }
    nonzero * unique
}

/// Salience score of one workspace, in exact scaled integers.
#[derive(Clone, Copy, Debug)]
pub struct SalienceScore {
    /// The scored agent.
    pub agent_id: usize,
    /// Recency factor in tenths: 10 when the workspace sequence advanced
    /// since the previous cycle, else 3.
    pub recency_tenths: u64,
    /// Surprise factor in tenths: 10 when the workspace hash changed since
    /// the previous cycle, else 1.
    pub surprise_tenths: u64,
    /// Squared relevance scaled by `1024 * 256`: non-zero bytes times
    /// distinct byte values.
    pub relevance_sq: u64,
    /// Squared salience scaled by `100 * 100 * 1024 * 256`:
    /// `recency_tenths² * surprise_tenths² * relevance_sq`. Ordering by this
    /// key is exactly ordering by real-valued salience.
    pub salience_key: u64,
}

/// Squared, scaled salience from its factors.
pub open spec fn salience_key_of(rec_tenths: u64, sur_tenths: u64, relevance_sq: int) -> int {
    rec_tenths * rec_tenths * sur_tenths * sur_tenths * relevance_sq
}

/// Ranking order on scores: higher salience first, ties broken by lower
/// agent id. `score_le(a, b)` says `a` may stand no later than `b`.
pub open spec fn score_le(a: SalienceScore, b: SalienceScore) -> bool {
    a.salience_key > b.salience_key || (a.salience_key == b.salience_key && a.agent_id
        <= b.agent_id)
}

/// Strict version of the ranking order.
pub open spec fn score_lt(a: SalienceScore, b: SalienceScore) -> bool {
    a.salience_key > b.salience_key || (a.salience_key == b.salience_key && a.agent_id
        < b.agent_id)
}

/// Salience monotonicity: holding recency and surprise fixed, a workspace
/// with strictly more non-zero bytes and strictly more distinct byte values
/// scores at least as high (in fact strictly higher when both factors are
/// non-zero).
pub proof fn lemma_salience_monotonic(rec: u64, sur: u64, ws1: Seq<u8>, ws2: Seq<u8>)
    requires
        count_nonzero(ws1, ws1.len() as int) > count_nonzero(ws2, ws2.len() as int),
        distinct_count(ws1, ws1.len() as int) > distinct_count(ws2, ws2.len() as int),
    ensures
        salience_key_of(rec, sur, relevance_key(ws1)) >= salience_key_of(
            rec,
            sur,
            relevance_key(ws2),
        ),
{
    lemma_counts_bound(ws1, ws1.len() as int);
    lemma_counts_bound(ws2, ws2.len() as int);
    let nz1 = count_nonzero(ws1, ws1.len() as int);
    let dc1 = distinct_count(ws1, ws1.len() as int);
    let nz2 = count_nonzero(ws2, ws2.len() as int);
    let dc2 = distinct_count(ws2, ws2.len() as int);
    assert(nz1 * dc1 >= nz2 * dc2) by (nonlinear_arith)
        requires
            nz1 > nz2 >= 0,
            dc1 > dc2 >= 0,
    ;
    assert(rec * rec * sur * sur * (nz1 * dc1) >= rec * rec * sur * sur * (nz2 * dc2))
        by (nonlinear_arith)
        requires
            nz1 * dc1 >= nz2 * dc2,
            rec >= 0,
            sur >= 0,
    ;
}

/// Whether `v[j]` must stand before `v[j - 1]` in ranking order.
fn score_before(a: &SalienceScore, b: &SalienceScore) -> (r: bool)
    ensures
        r == score_lt(*a, *b),
{
    a.salience_key > b.salience_key || (a.salience_key == b.salience_key && a.agent_id
        < b.agent_id)
}

/// Sort scores into ranking order: descending salience, ties broken by
/// ascending agent id (so the order is stable for input listed by agent id).
fn sort_scores(v: &mut Vec<SalienceScore>)
    ensures
        final(v)@.len() == old(v)@.len(),
        final(v)@.to_multiset() == old(v)@.to_multiset(),
        forall|a: int, b: int|
            0 <= a < b < final(v)@.len() ==> score_le(final(v)@[a], final(v)@[b]),
        forall|k: int| 0 <= k < final(v)@.len() ==> old(v)@.contains(#[trigger] final(v)@[k]),
{
    broadcast use vstd::seq_lib::group_to_multiset_ensures;

    let n = v.len();
    if n < 2 {
        proof {
            lemma_multiset_eq_contains(old(v)@, v@);
        }
        return ;
    }
    let mut i: usize = 1;
    while i < n
        invariant
            1 <= i <= n,
            v@.len() == n,
            v@.to_multiset() == old(v)@.to_multiset(),
            forall|a: int, b: int| 0 <= a < b < i ==> score_le(v@[a], v@[b]),
        decreases n - i,
    {
        let mut j: usize = i;
        while j > 0 && score_before(&v[j], &v[j - 1])
            invariant
                0 < i < n,
                0 <= j <= i,
                v@.len() == n,
                v@.to_multiset() == old(v)@.to_multiset(),
                forall|a: int, b: int| 0 <= a < b <= i && b != j ==> score_le(v@[a], v@[b]),
            decreases j,
        {
            let ghost s0 = v@;
            let x = v[j];
            let y = v[j - 1];
            v[j - 1] = x;
            v[j] = y;
            proof {
                lemma_swap_multiset(s0, j - 1, j as int);
                assert(v@ =~= s0.update(j - 1, s0[j as int]).update(j as int, s0[j - 1]));
                assert forall|a: int, b: int|
                    0 <= a < b <= i && b != j - 1 implies score_le(v@[a], v@[b]) by {
                    if b == j {
                        if a < j - 1 {
                            assert(score_le(s0[a], s0[j - 1]));
                        }
                    } else if a == j - 1 {
                        assert(score_le(s0[j as int], s0[b]));
                    } else if a == j {
                        assert(score_le(s0[j - 1], s0[b]));
                    }
                }
            }
            j = j - 1;
        }
        proof {
            assert forall|a: int, b: int| 0 <= a < b < i + 1 implies score_le(v@[a], v@[b]) by {
                if b == j && j > 0 {
                    assert(score_le(v@[j - 1], v@[j as int]));
                    if a < j - 1 {
                        assert(score_le(v@[a], v@[j - 1]));
                    }
                }
            }
        }
        i = i + 1;
    }
    proof {
        lemma_multiset_eq_contains(old(v)@, v@);
    }
}

/// Workspace image used for scoring and packing for agent `i`: the agent's
/// workspace buffer when active, the zero image when inactive.
pub open spec fn ws_image(region: AgentMemoryRegion, i: int) -> Seq<u8> {
    if region.agents@[i].active != 0 {
        region.agents@[i].buffers@[BUF_WORKSPACE as int].data@
    } else {
        pad_block(Seq::<u8>::empty())
    }
}

/// The workspace images of all 32 agents.
pub open spec fn ws_images(region: AgentMemoryRegion) -> Seq<Seq<u8>> {
    Seq::new(NUM_AGENTS as nat, |i: int| ws_image(region, i))
}

/// The salience score the engine computes for active agent `i`, from the
/// tracking state in `gwt` and the workspace in `region`.
pub open spec fn score_spec(gwt: GwtEngine, region: AgentMemoryRegion, i: int) -> SalienceScore {
    let ws = region.agents@[i].buffers@[BUF_WORKSPACE as int].data@;
    let sq = region.agents@[i].buffers@[BUF_WORKSPACE as int].sequence;
    let rec: u64 = if sq > gwt.prev_sequences@[i] {
        10u64
    } else {
        3u64
    };
    let sur: u64 = if fnv1a_hash(ws) != gwt.prev_hashes@[i] {
        10u64
    } else {
        1u64
    };
    let rel = relevance_key(ws);
    SalienceScore {
        agent_id: i as usize,
        recency_tenths: rec,
        surprise_tenths: sur,
        relevance_sq: rel as u64,
        salience_key: salience_key_of(rec, sur, rel) as u64,
    }
}

/// The scores of the active agents among the first `n`, in agent order.
pub open spec fn scores_upto(gwt: GwtEngine, region: AgentMemoryRegion, n: int) -> Seq<
    SalienceScore,
>
    decreases n,
{
    if n <= 0 {
        Seq::<SalienceScore>::empty()
    } else if region.agents@[n - 1].active != 0 {
        scores_upto(gwt, region, n - 1).push(score_spec(gwt, region, n - 1))
    } else {
        scores_upto(gwt, region, n - 1)
    }
}

/// There is at most one score per agent, each carrying an agent id below `n`.
pub proof fn lemma_scores_upto_ids(gwt: GwtEngine, region: AgentMemoryRegion, n: int)
    requires
        0 <= n,
    ensures
        scores_upto(gwt, region, n).len() <= n,
        forall|k: int|
            0 <= k < scores_upto(gwt, region, n).len() ==> 0 <= (#[trigger] scores_upto(
                gwt,
                region,
                n,
            )[k]).agent_id < n,
    decreases n,
{
    if n > 0 {
        lemma_scores_upto_ids(gwt, region, n - 1);
    }
}

/// Number of winner blocks that fit in the 1024-byte summary: one leading
/// count byte, then 129 bytes per winner (one id byte plus the first 128
/// workspace bytes), stopping before a block would overflow the buffer.
pub open spec fn packed_count(n: int) -> int {
    if n < 7 {
        n
    } else {
        7
    }
}

/// Byte `i` of the broadcast summary for the given ranked winners and
/// workspace images: byte 0 is the winner count; winner `j` occupies bytes
/// `1 + 129 j .. 130 + 129 j` as its agent id followed by the first 128
/// bytes of its workspace image; the rest is zero.
pub open spec fn payload_at(winners: Seq<SalienceScore>, images: Seq<Seq<u8>>, i: int) -> u8 {
    if i == 0 {
        winners.len() as u8
    } else {
        let j = (i - 1) / 129;
        let off = (i - 1) % 129;
        if j < packed_count(winners.len() as int) {
            if off == 0 {
                winners[j].agent_id as u8
            } else {
                images[winners[j].agent_id as int][off - 1]
            }
        } else {
            0u8
        }
    }
}

/// The full 1024-byte broadcast summary.
pub open spec fn payload_image(winners: Seq<SalienceScore>, images: Seq<Seq<u8>>) -> Seq<u8> {
    Seq::new(BUFFER_SIZE as nat, |i: int| payload_at(winners, images, i))
}

/// Broadcast fan-out shape: the summary every active agent receives opens
/// with the winner count, and winner `j`'s agent id stands at byte
/// `1 + 129 j` for every packed winner — the same count and id sequence
/// for every receiver, since all receive the one image.
pub proof fn lemma_summary_prefix(winners: Seq<SalienceScore>, images: Seq<Seq<u8>>, j: int)
    requires
        0 <= j < packed_count(winners.len() as int),
    ensures
        payload_image(winners, images)[0] == winners.len() as u8,
        payload_image(winners, images)[1 + 129 * j] == winners[j].agent_id as u8,
{
    let idx = 1 + 129 * j;
    assert(0 < idx < BUFFER_SIZE);
    assert((idx - 1) / 129 == j && (idx - 1) % 129 == 0) by (nonlinear_arith)
        requires
            idx == 1 + 129 * j,
            0 <= j,
    ;
}

/// Global-workspace engine state.
pub struct GwtEngine {
    /// Number of top workspaces to broadcast.
    pub top_k: usize,
    /// Previous workspace hashes, by agent, for surprise detection.
    pub prev_hashes: Vec<u64>,
    /// Previous workspace sequence numbers, by agent, for recency detection.
    pub prev_sequences: Vec<u64>,
    /// Broadcast cycles run.
    pub cycle_count: u64,
    /// Winners of the most recent broadcast, in rank order.
    pub last_winners: Vec<SalienceScore>,
    /// Total broadcast time in nanoseconds, as reported by the caller.
    pub total_broadcast_ns: u64,
    /// Number of broadcasts performed.
    pub broadcast_count: u64,
}

impl GwtEngine {
    /// One tracking slot per agent.
    pub open spec fn wf(self) -> bool {
        &&& self.prev_hashes@.len() == NUM_AGENTS
        &&& self.prev_sequences@.len() == NUM_AGENTS
    }

    /// A fresh engine that will broadcast the top `top_k` workspaces.
    pub fn new(top_k: usize) -> (r: GwtEngine)
        ensures
            r.wf(),
            r.top_k == top_k,
            forall|i: int| 0 <= i < NUM_AGENTS ==> r.prev_hashes@[i] == 0,
            forall|i: int| 0 <= i < NUM_AGENTS ==> r.prev_sequences@[i] == 0,
            r.cycle_count == 0,
            r.last_winners@ == Seq::<SalienceScore>::empty(),
            r.total_broadcast_ns == 0,
            r.broadcast_count == 0,
    {
        let r = GwtEngine {
            top_k,
            prev_hashes: vec![0u64; NUM_AGENTS],
            prev_sequences: vec![0u64; NUM_AGENTS],
            cycle_count: 0,
            last_winners: Vec::new(),
            total_broadcast_ns: 0,
            broadcast_count: 0,
        };
        proof {
            assert(r.last_winners@ =~= Seq::<SalienceScore>::empty());
        }
        r
    }

    /// Run one broadcast cycle.
    ///
    /// Reads every active agent's workspace, scores the snapshots by
    /// salience, selects the top-K in ranking order (descending salience,
    /// ties to the lower agent id), packs the 1024-byte summary, and writes
    /// that same summary into every active agent's broadcast buffer.
    /// Inactive agents are neither scored nor written, and no buffer other
    /// than the broadcast slots is touched. Returns the winners in rank
    /// order.
    #[verifier::loop_isolation(false)]
    #[verifier::rlimit(60)]
    pub fn broadcast_cycle(&mut self, region: &mut AgentMemoryRegion) -> (winners: Vec<
        SalienceScore,
    >)
        requires
            old(self).wf(),
            old(region).wf(),
        ensures
            final(self).wf(),
            final(region).wf(),
            final(self).top_k == old(self).top_k,
            final(self).cycle_count == old(self).cycle_count.wrapping_add(1),
            final(self).broadcast_count == old(self).broadcast_count.wrapping_add(1),
            final(self).total_broadcast_ns == old(self).total_broadcast_ns,
            final(self).last_winners@ == winners@,
            forall|i: int|
                0 <= i < NUM_AGENTS ==> #[trigger] final(self).prev_hashes@[i] == (if old(
                    region,
                ).agents@[i].active != 0 {
                    fnv1a_hash(old(region).agents@[i].buffers@[BUF_WORKSPACE as int].data@)
                } else {
                    old(self).prev_hashes@[i]
                }),
            forall|i: int|
                0 <= i < NUM_AGENTS ==> #[trigger] final(self).prev_sequences@[i] == (if old(
                    region,
                ).agents@[i].active != 0 {
                    old(region).agents@[i].buffers@[BUF_WORKSPACE as int].sequence
                } else {
                    old(self).prev_sequences@[i]
                }),
            winners@.len() == (if old(self).top_k < scores_upto(
                *old(self),
                *old(region),
                NUM_AGENTS as int,
            ).len() {
                old(self).top_k as int
            } else {
                scores_upto(*old(self), *old(region), NUM_AGENTS as int).len() as int
            }),
            forall|a: int, b: int|
                0 <= a < b < winners@.len() ==> score_le(winners@[a], winners@[b]),
            exists|ranked: Seq<SalienceScore>|
                {
                    &&& #[trigger] ranked.to_multiset() == scores_upto(
                        *old(self),
                        *old(region),
                        NUM_AGENTS as int,
                    ).to_multiset()
                    &&& (forall|a: int, b: int|
                        0 <= a < b < ranked.len() ==> score_le(ranked[a], ranked[b]))
                    &&& winners@ == ranked.take(winners@.len() as int)
                },
            forall|i: int|
                0 <= i < NUM_AGENTS && old(region).agents@[i].active != 0 ==> {
                    &&& (#[trigger] final(region).agents@[i]).buffers@[BUF_BROADCAST as int].data@
                        == payload_image(winners@, ws_images(*old(region)))
                    &&& final(region).agents@[i].buffers@[BUF_BROADCAST as int].sequence == old(
                        region,
                    ).agents@[i].buffers@[BUF_BROADCAST as int].sequence.wrapping_add(2)
                },
            forall|i: int|
                0 <= i < NUM_AGENTS && old(region).agents@[i].active == 0 ==> (
                #[trigger] final(region).agents@[i]) == old(region).agents@[i],
            forall|i: int, j: int|
                0 <= i < NUM_AGENTS && 0 <= j < NUM_BUFFER_TYPES && j != BUF_BROADCAST ==> (
                #[trigger] final(region).agents@[i].buffers@[j]) == old(
                    region,
                ).agents@[i].buffers@[j],
            forall|i: int|
                0 <= i < NUM_AGENTS ==> (#[trigger] final(region).agents@[i]).active == old(
                    region,
                ).agents@[i].active && final(region).agents@[i].agent_id == old(
                    region,
                ).agents@[i].agent_id,
    {
        self.cycle_count = self.cycle_count.wrapping_add(1);

        // Phase 1: snapshot workspaces and score the active agents.
        let mut scores: Vec<SalienceScore> = Vec::new();
        let mut workspace_data: Vec<Vec<u8>> = Vec::new();
        for agent_id in 0..NUM_AGENTS
            invariant
                *region == *old(region),
                self.wf(),
                self.top_k == old(self).top_k,
                self.cycle_count == old(self).cycle_count.wrapping_add(1),
                self.broadcast_count == old(self).broadcast_count,
                self.total_broadcast_ns == old(self).total_broadcast_ns,
                self.last_winners@ == old(self).last_winners@,
                scores@ == scores_upto(*old(self), *old(region), agent_id as int),
                workspace_data@.len() == agent_id,
                forall|k: int|
                    0 <= k < agent_id ==> (#[trigger] workspace_data@[k])@ == ws_image(
                        *old(region),
                        k,
                    ),
                forall|k: int|
                    0 <= k < NUM_AGENTS ==> #[trigger] self.prev_hashes@[k] == (if k < agent_id
                        && old(region).agents@[k].active != 0 {
                        fnv1a_hash(old(region).agents@[k].buffers@[BUF_WORKSPACE as int].data@)
                    } else {
                        old(self).prev_hashes@[k]
                    }),
                forall|k: int|
                    0 <= k < NUM_AGENTS ==> #[trigger] self.prev_sequences@[k] == (if k < agent_id
                        && old(region).agents@[k].active != 0 {
                        old(region).agents@[k].buffers@[BUF_WORKSPACE as int].sequence
                    } else {
                        old(self).prev_sequences@[k]
                    }),
        {
            if region.agents[agent_id].active != 0 {
                let mut ws: Vec<u8> = vec![0u8; BUFFER_SIZE];
                let _retries = region.agents[agent_id].buffers[BUF_WORKSPACE].read(&mut ws);
                proof {
                    assert(ws@ =~= region.agents@[agent_id as int].buffers@[BUF_WORKSPACE as int].data@);
                }
                let sq = region.agents[agent_id].buffers[BUF_WORKSPACE].sequence_number();
                let recency_t: u64 = if sq > self.prev_sequences[agent_id] {
                    10
                } else {
                    3
                };
                let rel = compute_relevance(ws.as_slice());
                let hash = fast_hash(ws.as_slice());
                let surprise_t: u64 = if hash != self.prev_hashes[agent_id] {
                    10
                } else {
                    1
                };
                let factor = recency_t * recency_t * surprise_t * surprise_t;
                proof {
                    assert(factor * rel <= 10000 * (BUFFER_SIZE * BUFFER_SIZE)) by (nonlinear_arith)
                        requires
                            0 <= factor <= 10000,
                            0 <= rel <= BUFFER_SIZE * BUFFER_SIZE,
                    ;
                }
                let key = factor * rel;
                self.prev_hashes[agent_id] = hash;
                self.prev_sequences[agent_id] = sq;
                scores.push(
                    SalienceScore {
                        agent_id,
                        recency_tenths: recency_t,
                        surprise_tenths: surprise_t,
                        relevance_sq: rel,
                        salience_key: key,
                    },
                );
                workspace_data.push(ws);
                proof {
                    assert(scores@.last() == score_spec(
                        *old(self),
                        *old(region),
                        agent_id as int,
                    ));
                    assert(scores@ =~= scores_upto(*old(self), *old(region), agent_id + 1));
                }
            } else {
                workspace_data.push(vec![0u8; BUFFER_SIZE]);
                proof {
                    assert(workspace_data@[agent_id as int]@ =~= pad_block(Seq::<u8>::empty()));
                }
            }
        }
        let ghost all_scores = scores_upto(*old(self), *old(region), NUM_AGENTS as int);
        proof {
            lemma_scores_upto_ids(*old(self), *old(region), NUM_AGENTS as int);
        }

        // Phase 2: rank and take the top K.
        sort_scores(&mut scores);
        let ghost ranked = scores@;
        let wcount = if scores.len() < self.top_k {
            scores.len()
        } else {
            self.top_k
        };
        let mut winners: Vec<SalienceScore> = Vec::new();
        for w in 0..wcount
            invariant
                winners@ == ranked.take(w as int),
        {
            winners.push(scores[w]);
            proof {
                assert(winners@ =~= ranked.take(w + 1));
            }
        }
        proof {
            assert(forall|k: int|
                0 <= k < winners@.len() ==> all_scores.contains(#[trigger] winners@[k]));
            assert(forall|k: int|
                0 <= k < winners@.len() ==> 0 <= (#[trigger] winners@[k]).agent_id < NUM_AGENTS);
        }

        // Phase 3: pack the summary.
        let ghost images = ws_images(*old(region));
        let mut payload: Vec<u8> = vec![0u8; BUFFER_SIZE];
        payload[0] = winners.len() as u8;
        let n_packed = if winners.len() < 7 {
            winners.len()
        } else {
            7
        };
        for j in 0..n_packed
            invariant
                payload@.len() == BUFFER_SIZE,
                payload@[0] == winners@.len() as u8,
                forall|jj: int, off: int|
                    0 <= jj < j && 0 <= off < 129 ==> #[trigger] payload@[1 + jj * 129 + off] == (
                    if off == 0 {
                        winners@[jj].agent_id as u8
                    } else {
                        images[winners@[jj].agent_id as int][off - 1]
                    }),
                forall|idx: int| 1 + j * 129 <= idx < BUFFER_SIZE ==> payload@[idx] == 0,
        {
            let id = winners[j].agent_id;
            let offset = 1 + j * 129;
            payload[offset] = id as u8;
            for k in 0..128usize
                invariant
                    payload@.len() == BUFFER_SIZE,
                    payload@[0] == winners@.len() as u8,
                    forall|jj: int, off: int|
                        0 <= jj < j && 0 <= off < 129 ==> #[trigger] payload@[1 + jj * 129 + off]
                            == (if off == 0 {
                            winners@[jj].agent_id as u8
                        } else {
                            images[winners@[jj].agent_id as int][off - 1]
                        }),
                    payload@[offset as int] == id as u8,
                    forall|kk: int|
                        0 <= kk < k ==> #[trigger] payload@[offset + 1 + kk] == images[id as int][kk],
                    forall|idx: int| offset + 1 + k <= idx < BUFFER_SIZE ==> payload@[idx] == 0,
            {
                payload[offset + 1 + k] = workspace_data[id][k];
                proof {
                    assert(workspace_data@[id as int]@ == images[id as int]);
                }
            }
            proof {
                assert forall|jj: int, off: int|
                    0 <= jj < j + 1 && 0 <= off < 129 implies #[trigger] payload@[1 + jj * 129
                    + off] == (if off == 0 {
                    winners@[jj].agent_id as u8
                } else {
                    images[winners@[jj].agent_id as int][off - 1]
                }) by {
                    if jj == j && off > 0 {
                        assert(payload@[offset + 1 + (off - 1)] == images[id as int][off - 1]);
                    }
                }
            }
        }
        proof {
            assert forall|idx: int| 0 <= idx < BUFFER_SIZE implies payload@[idx] == payload_at(
                winners@,
                images,
                idx,
            ) by {
                if idx > 0 {
                    let jj = (idx - 1) / 129;
                    let off = (idx - 1) % 129;
                    lemma_fundamental_div_mod(idx - 1, 129);
                    lemma_mod_division_less_than_divisor(idx - 1, 129);
                    lemma_div_pos_is_pos(idx - 1, 129);
                    if jj < n_packed {
                        assert(idx == 1 + jj * 129 + off);
                        assert(payload@[1 + jj * 129 + off] == (if off == 0 {
                            winners@[jj].agent_id as u8
                        } else {
                            images[winners@[jj].agent_id as int][off - 1]
                        }));
                    } else {
                        assert(jj * 129 >= n_packed * 129) by (nonlinear_arith)
                            requires
                                jj >= n_packed,
                        ;
                        assert(idx >= 1 + n_packed * 129);
                    }
                }
            }
            assert(payload@ =~= payload_image(winners@, images));
        }

        // Phase 4: fan the summary out to every active agent.
        for a in 0..NUM_AGENTS
            invariant
                region.agents@.len() == NUM_AGENTS,
                forall|i: int| 0 <= i < NUM_AGENTS ==> (#[trigger] region.agents@[i]).wf(),
                forall|i: int|
                    0 <= i < NUM_AGENTS && !(i < a && old(region).agents@[i].active != 0)
                        ==> #[trigger] region.agents@[i] == old(region).agents@[i],
                forall|i: int|
                    0 <= i < a && old(region).agents@[i].active != 0 ==> {
                        &&& (#[trigger] region.agents@[i]).buffers@.len() == NUM_BUFFER_TYPES
                        &&& region.agents@[i].buffers@[BUF_BROADCAST as int].data@ == payload@
                        &&& region.agents@[i].buffers@[BUF_BROADCAST as int].sequence == old(
                            region,
                        ).agents@[i].buffers@[BUF_BROADCAST as int].sequence.wrapping_add(2)
                        &&& region.agents@[i].active == old(region).agents@[i].active
                        &&& region.agents@[i].agent_id == old(region).agents@[i].agent_id
                        &&& forall|jb: int|
                            0 <= jb < NUM_BUFFER_TYPES && jb != BUF_BROADCAST
                                ==> #[trigger] region.agents@[i].buffers@[jb] == old(
                                region,
                            ).agents@[i].buffers@[jb]
                    },
        {
            if region.agents[a].active != 0 {
                region.agents[a].write_buffer(BUF_BROADCAST, payload.as_slice());
                proof {
                    assert(pad_block(payload@) =~= payload@);
                }
            }
        }

        // Phase 5: record the cycle and remember the winners.
        self.broadcast_count = self.broadcast_count.wrapping_add(1);
        let mut lw: Vec<SalienceScore> = Vec::new();
        let m = winners.len();
        for w in 0..m
            invariant
                m == winners@.len(),
                lw@ == winners@.take(w as int),
        {
            lw.push(winners[w]);
            proof {
                assert(lw@ =~= winners@.take(w + 1));
            }
        }
        self.last_winners = lw;
        proof {
            assert(self.last_winners@ =~= winners@);
            assert(ranked.take(winners@.len() as int) =~= winners@);
            assert(ranked.to_multiset() == all_scores.to_multiset() && (forall|a: int, b: int|
                0 <= a < b < ranked.len() ==> score_le(ranked[a], ranked[b])) && winners@
                == ranked.take(winners@.len() as int));
        }
        winners
    }

    /// Record the wall-clock duration of one broadcast, measured by the
    /// caller; the engine itself holds no clock.
    pub fn record_broadcast_time(&mut self, ns: u64)
        ensures
            *final(self) == (GwtEngine {
                total_broadcast_ns: old(self).total_broadcast_ns.wrapping_add(ns),
                ..*old(self)
            }),
    {
        self.total_broadcast_ns = self.total_broadcast_ns.wrapping_add(ns);
    }

    /// Average broadcast latency in whole microseconds; zero before the
    /// first recorded broadcast.
    pub fn avg_broadcast_us(&self) -> (r: u64)
        ensures
            r == (if self.broadcast_count == 0 {
                0u64
            } else {
                (self.total_broadcast_ns / self.broadcast_count) / 1000u64
            }),
    {
        if self.broadcast_count == 0 {
            return 0;
        }
        (self.total_broadcast_ns / self.broadcast_count) / 1000
    }

    /// Engine statistics for monitoring.
    pub fn stats(&self) -> (r: GwtStats)
        ensures
            r.cycle_count == self.cycle_count,
            r.broadcast_count == self.broadcast_count,
            r.avg_broadcast_us == (if self.broadcast_count == 0 {
                0u64
            } else {
                (self.total_broadcast_ns / self.broadcast_count) / 1000u64
            }),
            r.last_winners@ == self.last_winners@,
    {
        let mut winners: Vec<SalienceScore> = Vec::new();
        let m = self.last_winners.len();
        for w in 0..m
            invariant
                m == self.last_winners@.len(),
                winners@ == self.last_winners@.take(w as int),
        {
            winners.push(self.last_winners[w]);
            proof {
                assert(winners@ =~= self.last_winners@.take(w + 1));
            }
        }
        proof {
            assert(winners@ =~= self.last_winners@);
        }
        GwtStats {
            cycle_count: self.cycle_count,
            broadcast_count: self.broadcast_count,
            avg_broadcast_us: self.avg_broadcast_us(),
            last_winners: winners,
        }
    }
}

/// Statistics snapshot of the broadcast engine.
#[derive(Debug)]
pub struct GwtStats {
    /// Broadcast cycles run.
    pub cycle_count: u64,
    /// Broadcasts performed.
    pub broadcast_count: u64,
    /// Average broadcast latency in whole microseconds.
    pub avg_broadcast_us: u64,
    /// Winners of the most recent broadcast, in rank order.
    pub last_winners: Vec<SalienceScore>,
}

} // verus!

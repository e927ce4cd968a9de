//! Consolidation engine: periodic bulk harvest and prune scoring.
//!
//! Once per hundred cognitive ticks the engine copies every agent's
//! metadata (identity, activity flag, the five buffer sequence counters)
//! into a local array in one linear scan, then scores each agent for
//! pruning entirely from the local copy. An agent whose counters did not
//! move since the previous consolidation accrues staleness; an agent with
//! a high write rate is protected.
//!
//! The prune score is `sqrt(staleness) * 1/(1 + activity_rate) * 10` for
//! active agents (with `activity_rate = total_writes / cycles`) and a flat
//! `100` for inactive ones. The engine computes it in exact integer
//! thousandths (`prune_score_milli`), using an integer square root and
//! integer division; `100_000` is the inactive agent's flat score.

use vstd::prelude::*;

use crate::agent_buffer::AgentMemoryRegion;
use crate::seq_util::lemma_multiset_eq_contains;
use crate::seq_util::lemma_swap_multiset;
use crate::NUM_AGENTS;
use crate::NUM_BUFFER_TYPES;

verus! {

/// Integer square root, defined by counting up: the largest `r` with
/// `r * r <= x` (zero for non-positive `x`).
pub open spec fn spec_isqrt(x: int) -> int
    decreases x,
{
    if x <= 0 {
        0
    } else {
        let r = spec_isqrt(x - 1);
        if (r + 1) * (r + 1) <= x {
            r + 1
        } else {
            r
        }
    }
}

/// `spec_isqrt(x)` is the unique non-negative root: its square is at most
/// `x`, the next square is beyond `x`.
pub proof fn lemma_isqrt_props(x: int)
    requires
        x >= 0,
    ensures
        spec_isqrt(x) >= 0,
        spec_isqrt(x) * spec_isqrt(x) <= x,
        x < (spec_isqrt(x) + 1) * (spec_isqrt(x) + 1),
    decreases x,
{
    if x > 0 {
        lemma_isqrt_props(x - 1);
        let r = spec_isqrt(x - 1);
        if (r + 1) * (r + 1) <= x {
            assert(x <= (r + 1) * (r + 1));
            assert(x < (r + 2) * (r + 2)) by (nonlinear_arith)
                requires
                    x == (r + 1) * (r + 1),
                    r >= 0,
            ;
        }
    }
}

/// Any non-negative `r` whose square brackets `x` is `spec_isqrt(x)`.
pub proof fn lemma_isqrt_unique(x: int, r: int)
    requires
        0 <= r,
        r * r <= x,
        x < (r + 1) * (r + 1),
    ensures
        r == spec_isqrt(x),
{
    lemma_isqrt_props(x);
    let s = spec_isqrt(x);
    assert(r == s) by (nonlinear_arith)
        requires
            0 <= r,
            0 <= s,
            r * r <= x,
            x < (r + 1) * (r + 1),
            s * s <= x,
            x < (s + 1) * (s + 1),
    ;
}

/// Integer square root of a 128-bit value, by binary search.
pub fn isqrt(x: u128) -> (r: u64)
    ensures
        r == spec_isqrt(x as int),
{
    let mut lo: u64 = 0;
    let mut hi: u64 = u64::MAX;
    proof {
        assert((hi as int + 1) * (hi as int + 1) > u128::MAX) by (nonlinear_arith)
            requires
                hi == u64::MAX,
        ;
    }
    while lo < hi
        invariant
            lo <= hi,
            (lo as int) * (lo as int) <= x as int,
            (x as int) < (hi as int + 1) * (hi as int + 1),
        decreases hi - lo,
    {
        let mid: u64 = lo + (((hi - lo) as u128 + 1) / 2) as u64;
        proof {
            assert(lo < mid <= hi);
            assert((mid as u128) * (mid as u128) <= u128::MAX) by (nonlinear_arith)
                requires
                    mid <= u64::MAX,
            ;
        }
        let sq: u128 = (mid as u128) * (mid as u128);
        if sq <= x {
            lo = mid;
        } else {
            hi = mid - 1;
        }
    }
    proof {
        lemma_isqrt_unique(x as int, lo as int);
    }
    lo
}

/// The five buffer sequence counters of agent `i`, in buffer-kind order.
pub open spec fn agent_sequences(region: AgentMemoryRegion, i: int) -> Seq<u64> {
    Seq::new(NUM_BUFFER_TYPES as nat, |j: int| region.agents@[i].buffers@[j].sequence)
}

/// Sum of the first `n` counters.
pub open spec fn sum_seqs(s: Seq<u64>, n: int) -> int
    decreases n,
{
    if n <= 0 {
        0
    } else {
        sum_seqs(s, n - 1) + s[n - 1]
    }
}

/// Whether any of the five counters moved since the previous snapshot.
pub open spec fn seqs_changed(cur: Seq<u64>, prev: Seq<u64>) -> bool {
    exists|j: int| 0 <= j < NUM_BUFFER_TYPES && cur[j] != prev[j]
}

/// One consolidation step of the staleness counter: a write anywhere
/// resets it to zero; otherwise it grows by one (saturating).
pub open spec fn staleness_step(prior: u64, changed: bool) -> u64 {
    if changed {
        0u64
    } else if prior == u64::MAX {
        u64::MAX
    } else {
        (prior + 1) as u64
    }
}

/// Saturating increment of the consolidation cycle counter.
pub open spec fn sat_inc(c: u64) -> u64 {
    if c == u64::MAX {
        u64::MAX
    } else {
        (c + 1) as u64
    }
}

/// Staleness accrual: starting from staleness `s0`, `k` consecutive
/// consolidations that observe no write leave the reported staleness at
/// `s0 + k` (saturating), which is at least `k - 1`.
pub proof fn lemma_staleness_accrual(s0: u64, k: nat)
    requires
        k <= u64::MAX,
    ensures
        stale_after(s0, k) == (if s0 + k <= u64::MAX {
            (s0 + k) as u64
        } else {
            u64::MAX
        }),
        stale_after(s0, k) as int >= k as int - 1,
    decreases k,
{
    if k > 0 {
        lemma_staleness_accrual(s0, (k - 1) as nat);
    }
}

/// The staleness counter after `k` consecutive no-write consolidations.
pub open spec fn stale_after(s0: u64, k: nat) -> u64
    decreases k,
{
    if k == 0 {
        s0
    } else {
        staleness_step(stale_after(s0, (k - 1) as nat), false)
    }
}

/// Staleness reported for `id` by the previous consolidation: the first
/// matching entry's value, or zero when the agent was never reported.
pub open spec fn prior_staleness(s: Seq<MemoryMetadata>, id: int) -> u64
    decreases s.len(),
{
    if s.len() == 0 {
        0u64
    } else if s.first().agent_id == id {
        s.first().staleness
    } else {
        prior_staleness(s.drop_first(), id)
    }
}

/// Activity factor in thousandths: with `activity_rate = writes / cycles`,
/// this is `1/(1 + activity_rate)` scaled by 1000, i.e.
/// `1000 * cycles / (cycles + writes)`.
pub open spec fn activity_milli(cycles: u64, writes: int) -> int
    recommends
        cycles >= 1,
{
    (1000 * cycles) / (cycles + writes)
}

/// Prune score in thousandths: inactive agents score a flat 100; an active
/// agent scores `sqrt(staleness) * 10` damped by its activity factor.
pub open spec fn prune_score_spec(active: bool, staleness: u64, writes: int, cycles: u64) -> int {
    if !active {
        100_000
    } else {
        spec_isqrt(1_000_000 * staleness) * activity_milli(cycles, writes) / 100
    }
}

/// Memory metadata for pruning decisions, one entry per agent.
#[derive(Clone, Copy, Debug)]
pub struct MemoryMetadata {
    /// The described agent.
    pub agent_id: usize,
    /// Whether the agent slot was active at harvest time.
    pub active: bool,
    /// The five buffer sequence counters at harvest time.
    pub sequences: [u64; 5],
    /// Total writes: half the sum of the counters (each write bumps its
    /// counter twice).
    pub total_writes: u128,
    /// Consecutive consolidations without an observed write.
    pub staleness: u64,
    /// Prune score in thousandths; higher means more prunable.
    pub prune_score_milli: u64,
}

/// Whether some entry of `s` describes agent `i`.
pub open spec fn has_agent(s: Seq<MemoryMetadata>, i: int) -> bool {
    exists|j: int| 0 <= j < s.len() && (#[trigger] s[j]).agent_id == i
}

/// The metadata entry `m` is exactly what one consolidation pass derives
/// for its agent from engine state `eng` and the region.
pub open spec fn meta_matches(eng: ConsolidationEngine, region: AgentMemoryRegion, m: MemoryMetadata) -> bool {
    let i = m.agent_id as int;
    let seqs = agent_sequences(region, i);
    &&& 0 <= i < NUM_AGENTS
    &&& m.active == (region.agents@[i].active != 0)
    &&& m.sequences@ == seqs
    &&& m.total_writes == sum_seqs(seqs, NUM_BUFFER_TYPES as int) / 2
    &&& m.staleness == staleness_step(
        prior_staleness(eng.last_results@, i),
        seqs_changed(seqs, eng.prev_snapshots@[i]@),
    )
    &&& m.prune_score_milli == prune_score_spec(
        m.active,
        m.staleness,
        m.total_writes as int,
        sat_inc(eng.cycle_count),
    )
}

/// Pruning order on metadata: higher prune score first, ties broken by
/// lower agent id.
pub open spec fn meta_le(a: MemoryMetadata, b: MemoryMetadata) -> bool {
    a.prune_score_milli > b.prune_score_milli || (a.prune_score_milli == b.prune_score_milli
        && a.agent_id <= b.agent_id)
}

/// Strict version of the pruning order.
pub open spec fn meta_lt(a: MemoryMetadata, b: MemoryMetadata) -> bool {
    a.prune_score_milli > b.prune_score_milli || (a.prune_score_milli == b.prune_score_milli
        && a.agent_id < b.agent_id)
}

/// Whether `a` must stand before `b` in pruning order.
fn meta_before(a: &MemoryMetadata, b: &MemoryMetadata) -> (r: bool)
    ensures
        r == meta_lt(*a, *b),
{
    a.prune_score_milli > b.prune_score_milli || (a.prune_score_milli == b.prune_score_milli
        && a.agent_id < b.agent_id)
}

/// Sort metadata into pruning order: descending prune score, ties broken
/// by ascending agent id.
fn sort_metas(v: &mut Vec<MemoryMetadata>)
    ensures
        final(v)@.len() == old(v)@.len(),
        final(v)@.to_multiset() == old(v)@.to_multiset(),
        forall|a: int, b: int| 0 <= a < b < final(v)@.len() ==> meta_le(final(v)@[a], final(v)@[b]),
        forall|k: int| 0 <= k < final(v)@.len() ==> old(v)@.contains(#[trigger] final(v)@[k]),
        forall|k: int| 0 <= k < old(v)@.len() ==> final(v)@.contains(#[trigger] old(v)@[k]),
{
    broadcast use vstd::seq_lib::group_to_multiset_ensures;

    let n = v.len();
    if n < 2 {
        proof {
            lemma_multiset_eq_contains(old(v)@, v@);
            lemma_multiset_eq_contains(v@, old(v)@);
        }
        return ;
    }
    let mut i: usize = 1;
    while i < n
        invariant
            1 <= i <= n,
            v@.len() == n,
            v@.to_multiset() == old(v)@.to_multiset(),
            forall|a: int, b: int| 0 <= a < b < i ==> meta_le(v@[a], v@[b]),
        decreases n - i,
    {
        let mut j: usize = i;
        while j > 0 && meta_before(&v[j], &v[j - 1])
            invariant
                0 < i < n,
                0 <= j <= i,
                v@.len() == n,
                v@.to_multiset() == old(v)@.to_multiset(),
                forall|a: int, b: int| 0 <= a < b <= i && b != j ==> meta_le(v@[a], v@[b]),
            decreases j,
        {
            let ghost s0 = v@;
            let x = v[j];
            let y = v[j - 1];
            v[j - 1] = x;
            v[j] = y;
            proof {
                lemma_swap_multiset(s0, j - 1, j as int);
                assert(v@ =~= s0.update(j - 1, s0[j as int]).update(j as int, s0[j - 1]));
                assert forall|a: int, b: int|
                    0 <= a < b <= i && b != j - 1 implies meta_le(v@[a], v@[b]) by {
                    if b == j {
                        if a < j - 1 {
                            assert(meta_le(s0[a], s0[j - 1]));
                        }
                    } else if a == j - 1 {
                        assert(meta_le(s0[j as int], s0[b]));
                    } else if a == j {
                        assert(meta_le(s0[j - 1], s0[b]));
                    }
                }
            }
            j = j - 1;
        }
        proof {
            assert forall|a: int, b: int| 0 <= a < b < i + 1 implies meta_le(v@[a], v@[b]) by {
                if b == j && j > 0 {
                    assert(meta_le(v@[j - 1], v@[j as int]));
                    if a < j - 1 {
                        assert(meta_le(v@[a], v@[j - 1]));
                    }
                }
            }
        }
        i = i + 1;
    }
    proof {
        lemma_multiset_eq_contains(old(v)@, v@);
        lemma_multiset_eq_contains(v@, old(v)@);
    }
}

/// Consolidation engine state.
pub struct ConsolidationEngine {
    /// Sequence counters of every agent at the previous consolidation.
    pub prev_snapshots: Vec<[u64; 5]>,
    /// Consolidations run (saturating).
    pub cycle_count: u64,
    /// The sorted results of the most recent consolidation.
    pub last_results: Vec<MemoryMetadata>,
}

impl ConsolidationEngine {
    /// One snapshot slot per agent.
    pub open spec fn wf(self) -> bool {
        &&& self.prev_snapshots@.len() == NUM_AGENTS
        &&& self.last_results@.len() <= NUM_AGENTS
    }

    /// A fresh engine with zeroed snapshots and no results.
    pub fn new() -> (r: ConsolidationEngine)
        ensures
            r.wf(),
            r.cycle_count == 0,
            r.last_results@ == Seq::<MemoryMetadata>::empty(),
            forall|i: int, j: int|
                0 <= i < NUM_AGENTS && 0 <= j < NUM_BUFFER_TYPES ==> #[trigger] r.prev_snapshots@[i]@[j]
                    == 0,
    {
        let r = ConsolidationEngine {
            prev_snapshots: vec![[0u64; 5]; NUM_AGENTS],
            cycle_count: 0,
            last_results: Vec::new(),
        };
        proof {
            assert(r.last_results@ =~= Seq::<MemoryMetadata>::empty());
        }
        r
    }

    /// Staleness reported for `id` by the most recent consolidation, or
    /// zero if that consolidation reported no entry for it.
    fn find_prior_staleness(&self, id: usize) -> (r: u64)
        ensures
            r == prior_staleness(self.last_results@, id as int),
    {
        let n = self.last_results.len();
        proof {
            assert(self.last_results@.skip(0) =~= self.last_results@);
        }
        for k in 0..n
            invariant
                n == self.last_results@.len(),
                prior_staleness(self.last_results@, id as int) == prior_staleness(
                    self.last_results@.skip(k as int),
                    id as int,
                ),
        {
            if self.last_results[k].agent_id == id {
                proof {
                    assert(self.last_results@.skip(k as int).first() == self.last_results@[k as int]);
                }
                return self.last_results[k].staleness;
            }
            proof {
                assert(self.last_results@.skip(k as int).drop_first() =~= self.last_results@.skip(
                    k + 1,
                ));
            }
        }
        proof {
            assert(self.last_results@.skip(n as int).len() == 0);
        }
        0
    }

    /// Run one consolidation pass: harvest every agent's metadata, derive
    /// staleness and prune scores against the previous snapshots, retain
    /// the new snapshots, and return (and remember) the results sorted
    /// into pruning order. The region itself is only read.
    #[verifier::loop_isolation(false)]
    #[verifier::rlimit(60)]
    pub fn consolidate(&mut self, region: &AgentMemoryRegion) -> (results: Vec<MemoryMetadata>)
        requires
            old(self).wf(),
            region.wf(),
        ensures
            final(self).wf(),
            final(self).cycle_count == sat_inc(old(self).cycle_count),
            forall|i: int|
                0 <= i < NUM_AGENTS ==> (#[trigger] final(self).prev_snapshots@[i])@
                    == agent_sequences(*region, i),
            final(self).last_results@ == results@,
            results@.len() == NUM_AGENTS,
            forall|j: int|
                0 <= j < NUM_AGENTS ==> meta_matches(*old(self), *region, #[trigger] results@[j]),
            forall|i: int| 0 <= i < NUM_AGENTS ==> #[trigger] has_agent(results@, i),
            forall|a: int, b: int| 0 <= a < b < NUM_AGENTS ==> meta_le(results@[a], results@[b]),
    {
        self.cycle_count = self.cycle_count.saturating_add(1);

        // Phase 1: bulk harvest into a local array — one linear scan over
        // the shared region, no further shared reads during scoring.
        let mut local_meta: Vec<crate::agent_buffer::AgentMeta> = Vec::new();
        for agent_id in 0..NUM_AGENTS
            invariant
                local_meta@.len() == agent_id,
                forall|k: int|
                    0 <= k < agent_id ==> {
                        &&& (#[trigger] local_meta@[k]).agent_id == k
                        &&& local_meta@[k].active == (region.agents@[k].active != 0)
                        &&& local_meta@[k].sequences@ == agent_sequences(*region, k)
                    },
        {
            if let Some(meta) = region.agent_metadata(agent_id) {
                local_meta.push(meta);
                proof {
                    assert(local_meta@.last().sequences@ =~= agent_sequences(
                        *region,
                        agent_id as int,
                    ));
                }
            }
        }

        // Phase 2: score each agent from the local copy.
        let mut results: Vec<MemoryMetadata> = Vec::new();
        for idx in 0..NUM_AGENTS
            invariant
                self.wf(),
                self.cycle_count == sat_inc(old(self).cycle_count),
                self.last_results@ == old(self).last_results@,
                results@.len() == idx,
                forall|k: int|
                    0 <= k < idx ==> meta_matches(*old(self), *region, #[trigger] results@[k])
                        && results@[k].agent_id == k,
                forall|k: int|
                    0 <= k < NUM_AGENTS ==> (#[trigger] self.prev_snapshots@[k])@ == (if k < idx {
                        agent_sequences(*region, k)
                    } else {
                        old(self).prev_snapshots@[k]@
                    }),
        {
            let meta = local_meta[idx];
            let mut sum: u128 = 0;
            for j in 0..NUM_BUFFER_TYPES
                invariant
                    sum == sum_seqs(meta.sequences@, j as int),
                    sum <= j * 0xffff_ffff_ffff_ffff,
            {
                sum = sum + meta.sequences[j] as u128;
            }
            let total_writes: u128 = sum / 2;
            let mut changed = false;
            for j in 0..NUM_BUFFER_TYPES
                invariant
                    changed == exists|jj: int|
                        0 <= jj < j && meta.sequences@[jj] != (#[trigger] self.prev_snapshots@[idx as int]@[jj]),
            {
                if meta.sequences[j] != self.prev_snapshots[idx][j] {
                    changed = true;
                }
            }
            let prior = self.find_prior_staleness(idx);
            let staleness: u64 = if changed {
                0
            } else if prior == u64::MAX {
                u64::MAX
            } else {
                prior + 1
            };
            let prune_score_milli: u64 = if !meta.active {
                100_000
            } else {
                let sf = isqrt(1_000_000u128 * staleness as u128);
                proof {
                    lemma_isqrt_props(1_000_000 * staleness as int);
                    assert(sf as int * sf as int <= 1_000_000 * staleness as int);
                    assert(sf < 0x400_0000_0000) by (nonlinear_arith)
                        requires
                            sf as int * sf as int <= 1_000_000 * staleness as int,
                            staleness <= 0xffff_ffff_ffff_ffff,
                            sf >= 0,
                    ;
                }
                let c = self.cycle_count;
                let af: u128 = (1000u128 * c as u128) / (c as u128 + total_writes);
                proof {
                    vstd::arithmetic::div_mod::lemma_div_is_ordered(
                        1000 * c as int,
                        1000 * c as int + 1000 * total_writes as int,
                        c as int + total_writes as int,
                    );
                    assert((1000 * c as int + 1000 * total_writes as int) / (c as int
                        + total_writes as int) == 1000) by (nonlinear_arith)
                        requires
                            c as int + total_writes as int > 0,
                    ;
                    assert(af <= 1000);
                    assert(sf as u128 * af <= 0x400_0000_0000u128 * 1000) by (nonlinear_arith)
                        requires
                            sf < 0x400_0000_0000,
                            af <= 1000,
                    ;
                }
                ((sf as u128 * af) / 100) as u64
            };
            results.push(
                MemoryMetadata {
                    agent_id: idx,
                    active: meta.active,
                    sequences: meta.sequences,
                    total_writes,
                    staleness,
                    prune_score_milli,
                },
            );
            self.prev_snapshots[idx] = meta.sequences;
        }
        let ghost pre_sort = results@;

        // Phase 3: sort into pruning order.
        sort_metas(&mut results);
        proof {
            assert forall|i: int| 0 <= i < NUM_AGENTS implies #[trigger] has_agent(
                results@,
                i,
            ) by {
                assert(results@.contains(pre_sort[i]));
                let j = choose|j: int| 0 <= j < results@.len() && results@[j] == pre_sort[i];
                assert(results@[j].agent_id == i);
            }
        }

        // Phase 4: retain the sorted results for observational queries.
        let mut kept: Vec<MemoryMetadata> = Vec::new();
        let n = results.len();
        for k in 0..n
            invariant
                n == results@.len(),
                kept@ == results@.take(k as int),
        {
            kept.push(results[k]);
            proof {
                assert(kept@ =~= results@.take(k + 1));
            }
        }
        self.last_results = kept;
        proof {
            assert(self.last_results@ =~= results@);
        }
        results
    }

    /// The retained entries whose prune score exceeds the threshold (in
    /// thousandths), in retained order.
    pub fn get_prunable(&self, threshold_milli: u64) -> (r: Vec<MemoryMetadata>)
        ensures
            r@ == prunable_filter(self.last_results@, threshold_milli),
    {
        let mut out: Vec<MemoryMetadata> = Vec::new();
        let n = self.last_results.len();
        for k in 0..n
            invariant
                n == self.last_results@.len(),
                out@ == prunable_filter(self.last_results@.take(k as int), threshold_milli),
        {
            proof {
                assert(self.last_results@.take(k + 1).drop_last() =~= self.last_results@.take(
                    k as int,
                ));
            }
            if self.last_results[k].prune_score_milli > threshold_milli {
                out.push(self.last_results[k]);
            }
        }
        proof {
            assert(self.last_results@.take(n as int) =~= self.last_results@);
        }
        out
    }

    /// Engine statistics for monitoring.
    pub fn stats(&self) -> (r: ConsolidationStats)
        requires
            self.wf(),
        ensures
            r.cycle_count == self.cycle_count,
            r.active_agents == count_active_metas(self.last_results@, self.last_results@.len() as int),
            r.total_agents == self.last_results@.len(),
            r.avg_staleness_milli == (if self.last_results@.len() > 0 {
                1000 * sum_staleness(self.last_results@, self.last_results@.len() as int)
                    / (self.last_results@.len() as int)
            } else {
                0
            }),
            r.prunable_count == prunable_filter(self.last_results@, 50_000).len(),
    {
        let n = self.last_results.len();
        let mut active: usize = 0;
        let mut stale_sum: u128 = 0;
        for k in 0..n
            invariant
                n == self.last_results@.len(),
                active == count_active_metas(self.last_results@, k as int),
                active <= k,
                stale_sum == sum_staleness(self.last_results@, k as int),
                stale_sum <= k * 0xffff_ffff_ffff_ffff,
        {
            if self.last_results[k].active {
                active = active + 1;
            }
            stale_sum = stale_sum + self.last_results[k].staleness as u128;
        }
        let avg_staleness_milli: u128 = if n > 0 {
            1000 * stale_sum / (n as u128)
        } else {
            0
        };
        ConsolidationStats {
            cycle_count: self.cycle_count,
            active_agents: active,
            total_agents: n,
            avg_staleness_milli,
            prunable_count: self.get_prunable(50_000).len(),
        }
    }
}

/// The entries of `s` whose prune score exceeds `threshold_milli`, in order.
pub open spec fn prunable_filter(s: Seq<MemoryMetadata>, threshold_milli: u64) -> Seq<
    MemoryMetadata,
>
    decreases s.len(),
{
    if s.len() == 0 {
        Seq::<MemoryMetadata>::empty()
    } else if s.last().prune_score_milli > threshold_milli {
        prunable_filter(s.drop_last(), threshold_milli).push(s.last())
    } else {
        prunable_filter(s.drop_last(), threshold_milli)
    }
}

/// Number of active entries among the first `n` of `s`.
pub open spec fn count_active_metas(s: Seq<MemoryMetadata>, n: int) -> int
    decreases n,
{
    if n <= 0 {
        0
    } else {
        count_active_metas(s, n - 1) + if s[n - 1].active {
            1int
        } else {
            0int
        }
    }
}

/// Sum of the staleness counters of the first `n` entries of `s`.
pub open spec fn sum_staleness(s: Seq<MemoryMetadata>, n: int) -> int
    decreases n,
{
    if n <= 0 {
        0
    } else {
        sum_staleness(s, n - 1) + s[n - 1].staleness
    }
}

/// Statistics snapshot of the consolidation engine.
#[derive(Debug)]
pub struct ConsolidationStats {
    /// Consolidations run.
    pub cycle_count: u64,
    /// Active entries in the latest results.
    pub active_agents: usize,
    /// Total entries in the latest results.
    pub total_agents: usize,
    /// Mean staleness of the latest results, in thousandths.
    pub avg_staleness_milli: u128,
    /// Entries whose prune score exceeds 50 (in thousandths, 50 000).
    pub prunable_count: usize,
}

} // verus!

//! Tests for the consolidation engine.

use spine_core::agent_buffer::AgentMemoryRegion;
use spine_core::consolidation::ConsolidationEngine;
use spine_core::BUF_META;
use spine_core::NUM_AGENTS;

#[test]
fn test_consolidation_basic() {
    let mut region = AgentMemoryRegion::new();

    region.activate_agent(0);
    region.activate_agent(1);
    region.agents[0].write_buffer(BUF_META, b"active agent 0");

    let mut engine = ConsolidationEngine::new();
    let results = engine.consolidate(&region);

    assert_eq!(results.len(), NUM_AGENTS);

    // Agent 0 should have lower prune score (it's active with writes)
    let agent_0 = results.iter().find(|r| r.agent_id == 0).unwrap();
    let agent_5 = results.iter().find(|r| r.agent_id == 5).unwrap();
    assert!(agent_0.prune_score_milli < agent_5.prune_score_milli);
}

#[test]
fn test_staleness_accumulation() {
    let mut region = AgentMemoryRegion::new();

    region.activate_agent(0);
    region.agents[0].write_buffer(0, b"initial data");

    let mut engine = ConsolidationEngine::new();

    // First cycle: staleness = 0 (just wrote)
    engine.consolidate(&region);
    let agent_0 = engine.last_results.iter().find(|r| r.agent_id == 0).unwrap();
    assert_eq!(agent_0.staleness, 0);

    // Second cycle without writing: staleness should increase
    engine.consolidate(&region);
    let agent_0 = engine.last_results.iter().find(|r| r.agent_id == 0).unwrap();
    assert!(agent_0.staleness > 0);
}

#[test]
fn test_staleness_accrues_over_cycles() {
    // An agent that receives no writes across k consolidations after an
    // initial write reports staleness at least k - 1.
    let mut region = AgentMemoryRegion::new();
    region.activate_agent(0);
    region.agents[0].write_buffer(0, b"seed");
    let mut engine = ConsolidationEngine::new();
    let k = 5;
    for _ in 0..k {
        engine.consolidate(&region);
    }
    let agent_0 = engine.last_results.iter().find(|r| r.agent_id == 0).unwrap();
    assert!(agent_0.staleness >= k - 1);
    assert_eq!(agent_0.staleness, k - 1); // exactly: reset on cycle 1, +1 each after
}

#[test]
fn test_inactive_score_flat() {
    // Inactive agents always carry the flat prune score of 100 (in
    // thousandths: 100_000) and sort to the front.
    let region = AgentMemoryRegion::new();
    let mut engine = ConsolidationEngine::new();
    let results = engine.consolidate(&region);
    for r in &results {
        assert!(!r.active);
        assert_eq!(r.prune_score_milli, 100_000);
    }
    // Ties broken by ascending agent id.
    for (i, r) in results.iter().enumerate() {
        assert_eq!(r.agent_id, i);
    }
}

#[test]
fn test_prune_score_exact() {
    // An active agent with no writes: the first consolidation sees no
    // change from the zero snapshot, so staleness is 1, the activity rate
    // is 0, and the score is sqrt(1) * 10 = 10.000.
    let mut region = AgentMemoryRegion::new();
    region.activate_agent(2);
    let mut engine = ConsolidationEngine::new();
    let results = engine.consolidate(&region);
    let agent_2 = results.iter().find(|r| r.agent_id == 2).unwrap();
    assert!(agent_2.active);
    assert_eq!(agent_2.staleness, 1);
    assert_eq!(agent_2.prune_score_milli, 10_000);
}

#[test]
fn test_total_writes_halved() {
    // Each completed write bumps one counter by two; total_writes is the
    // halved sum over all five buffers.
    let mut region = AgentMemoryRegion::new();
    region.activate_agent(0);
    region.agents[0].write_buffer(0, b"a");
    region.agents[0].write_buffer(0, b"b");
    region.agents[0].write_buffer(3, b"c");
    let mut engine = ConsolidationEngine::new();
    let results = engine.consolidate(&region);
    let agent_0 = results.iter().find(|r| r.agent_id == 0).unwrap();
    assert_eq!(agent_0.total_writes, 3);
    assert_eq!(agent_0.sequences, [4, 0, 0, 2, 0]);
}

#[test]
fn test_get_prunable_threshold() {
    let mut region = AgentMemoryRegion::new();
    region.activate_agent(0);
    region.agents[0].write_buffer(0, b"busy");
    let mut engine = ConsolidationEngine::new();
    engine.consolidate(&region);
    // All 31 inactive agents exceed a threshold of 50.0; the active,
    // freshly written agent 0 (score 0) does not.
    let prunable = engine.get_prunable(50_000);
    assert_eq!(prunable.len(), 31);
    assert!(prunable.iter().all(|m| m.agent_id != 0));
}

#[test]
fn test_consolidation_stats() {
    let mut region = AgentMemoryRegion::new();
    region.activate_agent(0);
    region.activate_agent(7);
    let mut engine = ConsolidationEngine::new();
    engine.consolidate(&region);
    let stats = engine.stats();
    assert_eq!(stats.cycle_count, 1);
    assert_eq!(stats.active_agents, 2);
    assert_eq!(stats.total_agents, NUM_AGENTS);
    assert_eq!(stats.prunable_count, 30);
    // Every agent reports staleness 1 after a write-free first cycle.
    assert_eq!(stats.avg_staleness_milli, 1000);
}

#[test]
fn test_sorted_by_prune_score() {
    let mut region = AgentMemoryRegion::new();
    region.activate_agent(3);
    region.agents[3].write_buffer(1, b"hot");
    let mut engine = ConsolidationEngine::new();
    let results = engine.consolidate(&region);
    for w in results.windows(2) {
        assert!(
            w[0].prune_score_milli > w[1].prune_score_milli
                || (w[0].prune_score_milli == w[1].prune_score_milli
                    && w[0].agent_id < w[1].agent_id)
        );
    }
    // The one busy active agent sorts last.
    assert_eq!(results[NUM_AGENTS - 1].agent_id, 3);
}

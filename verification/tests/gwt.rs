//! Tests for the global-workspace broadcast engine.

use spine_core::agent_buffer::AgentMemoryRegion;
use spine_core::gwt::compute_relevance;
use spine_core::gwt::fast_hash;
use spine_core::gwt::GwtEngine;
use spine_core::BUFFER_SIZE;
use spine_core::BUF_BROADCAST;
use spine_core::BUF_WORKSPACE;

#[test]
fn test_broadcast_cycle() {
    let mut region = AgentMemoryRegion::new();

    // Activate 4 agents
    for i in 0..4 {
        region.activate_agent(i);
    }

    // Write workspace data
    region.agents[0].write_buffer(BUF_WORKSPACE, &[42u8; 100]);
    region.agents[1].write_buffer(BUF_WORKSPACE, &[1, 2, 3, 4, 5]);
    region.agents[2].write_buffer(BUF_WORKSPACE, &[0u8; 50]); // empty-ish
    region.agents[3].write_buffer(
        BUF_WORKSPACE,
        &(0..200).map(|i| i as u8).collect::<Vec<_>>(),
    );

    let mut engine = GwtEngine::new(2);
    let winners = engine.broadcast_cycle(&mut region);

    assert_eq!(winners.len(), 2);
    // Agent 3 should win (highest diversity/relevance)
    assert_eq!(winners[0].agent_id, 3);

    // Verify broadcast was written to all active agents
    let mut broadcast = vec![0u8; BUFFER_SIZE];
    region.agents[0].read_buffer(BUF_BROADCAST, &mut broadcast);
    assert!(broadcast[0] > 0); // winner_count > 0
}

#[test]
fn test_relevance_empty() {
    let data = [0u8; 1024];
    assert_eq!(compute_relevance(&data), 0);
}

#[test]
fn test_relevance_diverse() {
    let data: Vec<u8> = (0..=255u16).cycle().take(1024).map(|v| v as u8).collect();
    let key = compute_relevance(&data);
    // The key is squared relevance scaled by 1024 * 256; undo the scale
    // to compare against the real-valued threshold of the formula.
    let rel = ((key as f64) / (1024.0 * 256.0)).sqrt();
    assert!(rel > 0.5); // high density + high diversity
}

#[test]
fn test_fast_hash_different() {
    let a = [1u8; 100];
    let b = [2u8; 100];
    assert_ne!(fast_hash(&a), fast_hash(&b));
}

#[test]
fn test_fnv1a_known_values() {
    // Canonical 64-bit FNV-1a values.
    assert_eq!(fast_hash(b""), 0xcbf29ce484222325);
    assert_eq!(fast_hash(b"a"), 0xaf63dc4c8601ec8c);
    assert_eq!(fast_hash(b"Hello"), 0x63f0bfacf2c00f6b);
}

#[test]
fn test_relevance_exact() {
    // 100 bytes of value 42, rest zero: 100 non-zero bytes, two distinct
    // byte values ({0, 42}) over the 1024-byte image.
    let mut data = [0u8; 1024];
    for b in data.iter_mut().take(100) {
        *b = 42;
    }
    assert_eq!(compute_relevance(&data), 100 * 2);
}

#[test]
fn test_broadcast_fanout_uniform() {
    // Every active agent receives the same summary: same winner count,
    // same winner ids at the documented offsets; inactive agents'
    // broadcast buffers stay untouched.
    let mut region = AgentMemoryRegion::new();
    for i in 0..4 {
        region.activate_agent(i);
    }
    region.agents[0].write_buffer(BUF_WORKSPACE, &[42u8; 100]);
    region.agents[1].write_buffer(BUF_WORKSPACE, &[1, 2, 3, 4, 5]);
    region.agents[2].write_buffer(BUF_WORKSPACE, &[0u8; 50]);
    region.agents[3].write_buffer(
        BUF_WORKSPACE,
        &(0..200).map(|i| i as u8).collect::<Vec<_>>(),
    );

    let mut engine = GwtEngine::new(2);
    let winners = engine.broadcast_cycle(&mut region);
    assert_eq!(winners.len(), 2);

    let mut reference = vec![0u8; BUFFER_SIZE];
    region.agents[0].read_buffer(BUF_BROADCAST, &mut reference);
    assert_eq!(reference[0], 2); // winner_count
    assert_eq!(reference[1], winners[0].agent_id as u8);
    assert_eq!(reference[1 + 129], winners[1].agent_id as u8);
    // Winner 0 is agent 3; its first 128 workspace bytes follow its id.
    assert_eq!(reference[2], 0);
    assert_eq!(reference[3], 1);
    assert_eq!(reference[2 + 127], 127);

    for i in 1..4 {
        let mut b = vec![0u8; BUFFER_SIZE];
        region.agents[i].read_buffer(BUF_BROADCAST, &mut b);
        assert_eq!(b, reference);
    }
    // Agent 5 is inactive: untouched broadcast buffer.
    assert_eq!(region.agents[5].buffers[BUF_BROADCAST].sequence_number(), 0);
    let mut b5 = vec![0u8; BUFFER_SIZE];
    region.agents[5].read_buffer(BUF_BROADCAST, &mut b5);
    assert!(b5.iter().all(|&x| x == 0));
}

#[test]
fn test_salience_ordering_monotone() {
    // Holding recency and surprise fixed, strictly greater density and
    // diversity never score lower.
    let mut sparse = [0u8; 1024];
    sparse[0] = 9;
    let mut dense = [0u8; 1024];
    for (i, b) in dense.iter_mut().enumerate().take(64) {
        *b = (i % 7 + 1) as u8;
    }
    let low = compute_relevance(&sparse);
    let high = compute_relevance(&dense);
    assert!(high >= low);
}

#[test]
fn test_gwt_stats() {
    let mut region = AgentMemoryRegion::new();
    region.activate_agent(0);
    region.agents[0].write_buffer(BUF_WORKSPACE, b"focus");
    let mut engine = GwtEngine::new(3);
    let winners = engine.broadcast_cycle(&mut region);
    assert_eq!(winners.len(), 1);
    engine.record_broadcast_time(4_000);
    let stats = engine.stats();
    assert_eq!(stats.cycle_count, 1);
    assert_eq!(stats.broadcast_count, 1);
    assert_eq!(stats.avg_broadcast_us, 4);
    assert_eq!(stats.last_winners.len(), 1);
    assert_eq!(stats.last_winners[0].agent_id, 0);
}

#[test]
fn test_recency_and_surprise_decay() {
    // A workspace that does not change between cycles loses both its
    // recency and its surprise factor.
    let mut region = AgentMemoryRegion::new();
    region.activate_agent(0);
    region.agents[0].write_buffer(BUF_WORKSPACE, b"steady");
    let mut engine = GwtEngine::new(1);
    let first = engine.broadcast_cycle(&mut region);
    assert_eq!(first[0].recency_tenths, 10);
    assert_eq!(first[0].surprise_tenths, 10);
    let second = engine.broadcast_cycle(&mut region);
    assert_eq!(second[0].recency_tenths, 3);
    assert_eq!(second[0].surprise_tenths, 1);
    assert!(second[0].salience_key < first[0].salience_key);
}

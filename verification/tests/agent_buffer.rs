//! Tests for the seqlock-guarded agent buffer matrix.

use spine_core::agent_buffer::AgentMemoryRegion;
use spine_core::BUFFER_SIZE;
use spine_core::BUF_PERCEPT;
use spine_core::NUM_AGENTS;

#[test]
fn test_seqlock_write_read() {
    let mut region = AgentMemoryRegion::new();

    let data = b"Hello, Neural Spine!";
    region.agents[0].write_buffer(0, data); // percept

    let mut read_buf = vec![0u8; 1024];
    let retries = region.agents[0].read_buffer(0, &mut read_buf);
    assert_eq!(retries, 0); // no contention
    assert_eq!(&read_buf[..data.len()], data);
}

#[test]
fn test_snapshot_all() {
    let mut region = AgentMemoryRegion::new();

    // Write to each buffer
    for i in 0..5 {
        let data = vec![i as u8; 100];
        region.agents[3].write_buffer(i, &data);
    }

    let (snapshot, retries) = region.agents[3].snapshot_all();
    assert_eq!(retries, 0);
    assert_eq!(snapshot[0], 0); // percept first byte
    assert_eq!(snapshot[1024], 1); // workspace first byte
    assert_eq!(snapshot[2048], 2); // broadcast first byte
}

#[test]
fn test_active_count() {
    let mut region = AgentMemoryRegion::new();

    assert_eq!(region.active_count(), 0);
    region.activate_agent(0);
    region.activate_agent(15);
    region.activate_agent(31);
    assert_eq!(region.active_count(), 3);
    region.deactivate_agent(15);
    assert_eq!(region.active_count(), 2);
}

#[test]
fn test_percept_round_trip() {
    // Activate agent 0, write a 20-byte percept, read the full buffer back:
    // the prefix is the payload, the remainder zero, with no retry.
    let mut region = AgentMemoryRegion::new();
    region.activate_agent(0);
    let msg = b"Hello, Neural Spine!";
    region.agents[0].write_buffer(BUF_PERCEPT, msg);

    let mut back = vec![0xAAu8; 1024];
    let retries = region.agents[0].read_buffer(BUF_PERCEPT, &mut back);
    assert_eq!(retries, 0);
    assert_eq!(&back[..20], msg);
    assert!(back[20..].iter().all(|&b| b == 0));
}

#[test]
fn test_snapshot_five_kinds() {
    // Write payloads of 100 bytes of value k into kind k, snapshot all
    // five buffers, and check the first byte of each 1024-byte section.
    let mut region = AgentMemoryRegion::new();
    region.activate_agent(3);
    for kind in 0..5 {
        let data = vec![kind as u8; 100];
        region.agents[3].write_buffer(kind, &data);
    }
    let (snapshot, _retries) = region.agents[3].snapshot_all();
    assert_eq!(snapshot.len(), 5120);
    assert_eq!(snapshot[0], 0);
    assert_eq!(snapshot[1024], 1);
    assert_eq!(snapshot[2048], 2);
    assert_eq!(snapshot[3072], 3);
    assert_eq!(snapshot[4096], 4);
}

#[test]
fn test_write_truncates_and_zeroes() {
    let mut region = AgentMemoryRegion::new();
    // Oversized source: only the first 1024 bytes land.
    let big = vec![7u8; 2000];
    region.agents[1].write_buffer(2, &big);
    let mut buf = vec![0u8; 1024];
    region.agents[1].read_buffer(2, &mut buf);
    assert!(buf.iter().all(|&b| b == 7));

    // Short source afterwards: the tail is zeroed again.
    region.agents[1].write_buffer(2, b"xy");
    region.agents[1].read_buffer(2, &mut buf);
    assert_eq!(&buf[..2], b"xy");
    assert!(buf[2..].iter().all(|&b| b == 0));
}

#[test]
fn test_sequence_parity_and_monitoring() {
    let mut region = AgentMemoryRegion::new();
    assert_eq!(region.agents[0].buffers[0].sequence_number(), 0);
    assert!(!region.agents[0].buffers[0].is_writing());
    region.agents[0].write_buffer(0, b"tick");
    // One completed write bumps the counter by exactly two.
    assert_eq!(region.agents[0].buffers[0].sequence_number(), 2);
    assert!(!region.agents[0].buffers[0].is_writing());
}

#[test]
fn test_read_buffer_bad_kind() {
    let mut region = AgentMemoryRegion::new();
    region.agents[0].write_buffer(0, b"data");
    let mut buf = vec![9u8; 16];
    // An out-of-range kind reports zero retries and leaves dest untouched.
    let retries = region.agents[0].read_buffer(5, &mut buf);
    assert_eq!(retries, 0);
    assert!(buf.iter().all(|&b| b == 9));
    // An out-of-range kind on write is ignored.
    region.agents[0].write_buffer(7, b"ignored");
    for j in 0..5 {
        if j == 0 {
            assert_eq!(region.agents[0].buffers[j].sequence_number(), 2);
        } else {
            assert_eq!(region.agents[0].buffers[j].sequence_number(), 0);
        }
    }
}

#[test]
fn test_agent_metadata() {
    let mut region = AgentMemoryRegion::new();
    region.activate_agent(4);
    region.agents[4].write_buffer(1, b"w");
    region.agents[4].write_buffer(1, b"w2");
    let meta = region.agent_metadata(4).unwrap();
    assert_eq!(meta.agent_id, 4);
    assert!(meta.active);
    assert_eq!(meta.sequences, [0, 4, 0, 0, 0]);
    assert!(region.agent_metadata(NUM_AGENTS).is_none());
}

#[test]
fn test_read_shorter_dest() {
    let mut region = AgentMemoryRegion::new();
    region.agents[2].write_buffer(3, b"abcdef");
    let mut small = vec![0u8; 4];
    let retries = region.agents[2].read_buffer(3, &mut small);
    assert_eq!(retries, 0);
    assert_eq!(&small[..], b"abcd");
    assert_eq!(small.len(), 4);
    let _ = BUFFER_SIZE;
}

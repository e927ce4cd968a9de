//! Tests for interrupt dispatch and the region layout contract.

use spine_core::agent_buffer::AgentMemoryRegion;
use spine_core::dispatch::drain_interrupts;
use spine_core::layout::required_shm_size;
use spine_core::ring_buffer::InterruptEntry;
use spine_core::ring_buffer::InterruptRingBuffer;
use spine_core::BUF_PERCEPT;

#[test]
fn test_shm_size_calculation() {
    let size = required_shm_size();
    assert!(size > 0);
    println!("Required SHM size: {} bytes ({:.2} MB)", size, size as f64 / (1024.0 * 1024.0));
}

#[test]
fn test_layout_sum() {
    // Matrix (32 x (64 + 5 x 1088)) + ring (two counter lines, two
    // 2048-entry halves, the page spacer, one trailing line) + tail pad.
    assert_eq!(required_shm_size(), 176128 + 266432 + 4096);
}

#[test]
fn test_drain_targeted() {
    let mut region = AgentMemoryRegion::new();
    let mut ring = InterruptRingBuffer::new();

    let mut entry = InterruptEntry::default();
    entry.target_agent = 4;
    entry.payload[..5].copy_from_slice(b"alert");
    assert!(ring.push(entry));

    let drained = drain_interrupts(&mut region, &mut ring, 64);
    assert_eq!(drained, 1);
    assert!(ring.is_empty());

    let mut percept = vec![0u8; 1024];
    region.agents[4].read_buffer(BUF_PERCEPT, &mut percept);
    assert_eq!(&percept[..5], b"alert");
    // Only agent 4 was written.
    assert_eq!(region.agents[3].buffers[BUF_PERCEPT].sequence_number(), 0);
}

#[test]
fn test_drain_broadcast_target() {
    let mut region = AgentMemoryRegion::new();
    let mut ring = InterruptRingBuffer::new();

    let mut entry = InterruptEntry::default();
    entry.target_agent = 0xFFFF;
    entry.payload[..4].copy_from_slice(b"ping");
    assert!(ring.push(entry));

    let drained = drain_interrupts(&mut region, &mut ring, 64);
    assert_eq!(drained, 1);
    for i in 0..32 {
        let mut percept = vec![0u8; 1024];
        region.agents[i].read_buffer(BUF_PERCEPT, &mut percept);
        assert_eq!(&percept[..4], b"ping");
    }
}

#[test]
fn test_drain_caps_at_max() {
    let mut region = AgentMemoryRegion::new();
    let mut ring = InterruptRingBuffer::new();
    for i in 0..100u16 {
        let mut entry = InterruptEntry::default();
        entry.target_agent = 0;
        entry.payload[0] = i as u8;
        assert!(ring.push(entry));
    }
    let drained = drain_interrupts(&mut region, &mut ring, 64);
    assert_eq!(drained, 64);
    assert_eq!(ring.len(), 36);
    // The last delivered entry wins the percept buffer.
    let mut percept = vec![0u8; 1024];
    region.agents[0].read_buffer(BUF_PERCEPT, &mut percept);
    assert_eq!(percept[0], 63);
    // An out-of-range target (neither broadcast nor < 32) hits no one.
    let mut stray = InterruptEntry::default();
    stray.target_agent = 1000;
    assert!(ring.push(stray));
    drain_interrupts(&mut region, &mut ring, 64);
    assert_eq!(region.agents[0].buffers[BUF_PERCEPT].sequence_number(), 2 * 64 + 2 * 36);
}

//! Tests for the SPSC interrupt ring.

use spine_core::ring_buffer::InterruptEntry;
use spine_core::ring_buffer::InterruptRingBuffer;

#[test]
fn test_entry_size() {
    assert_eq!(std::mem::size_of::<InterruptEntry>(), 64);
}

#[test]
fn test_push_pop_single() {
    let mut buf = InterruptRingBuffer::new();

    let mut entry = InterruptEntry::default();
    entry.source_agent = 5;
    entry.target_agent = 12;
    entry.priority = 200;
    entry.timestamp = 1234567890;

    assert!(buf.push(entry));
    assert_eq!(buf.len(), 1);

    let popped = buf.pop().expect("should have entry");
    assert_eq!(popped.source_agent, 5);
    assert_eq!(popped.target_agent, 12);
    assert_eq!(popped.priority, 200);
    assert_eq!(popped.timestamp, 1234567890);
    assert_eq!(buf.len(), 0);
}

#[test]
fn test_push_pop_many() {
    let mut buf = InterruptRingBuffer::new();

    // Push 100 entries
    for i in 0..100u16 {
        let mut entry = InterruptEntry::default();
        entry.source_agent = i;
        assert!(buf.push(entry));
    }
    assert_eq!(buf.len(), 100);

    // Pop them back
    for i in 0..100u16 {
        let entry = buf.pop().expect("should have entry");
        assert_eq!(entry.source_agent, i);
    }
    assert!(buf.is_empty());
}

#[test]
fn test_overflow_returns_false() {
    let mut buf = InterruptRingBuffer::new();

    // Fill to capacity
    for _ in 0..buf.capacity() {
        assert!(buf.push(InterruptEntry::default()));
    }

    // Next push should fail
    assert!(!buf.push(InterruptEntry::default()));
    assert_eq!(buf.stats().total_dropped, 1);
}

#[test]
fn test_wrapping_across_buffers() {
    let mut buf = InterruptRingBuffer::new();

    // Push entries that span both buffer halves
    for i in 0..3000u16 {
        let mut entry = InterruptEntry::default();
        entry.source_agent = i;
        assert!(buf.push(entry));
    }

    for i in 0..3000u16 {
        let entry = buf.pop().expect("should have entry");
        assert_eq!(entry.source_agent, i);
    }
}

#[test]
fn test_ring_wrap_no_drops() {
    // Push 3000 entries tagged by source agent and pop all 3000: the
    // popped order is exactly the push order and nothing was dropped.
    let mut buf = InterruptRingBuffer::new();
    for i in 0..3000u16 {
        let mut entry = InterruptEntry::default();
        entry.source_agent = i;
        assert!(buf.push(entry));
    }
    for i in 0..3000u16 {
        let entry = buf.pop().expect("should have entry");
        assert_eq!(entry.source_agent, i);
    }
    assert_eq!(buf.stats().total_dropped, 0);
}

#[test]
fn test_fifo_interleaved() {
    // Pushes interleaved with pops still come out in push order.
    let mut buf = InterruptRingBuffer::new();
    let mut next_push: u16 = 0;
    let mut next_pop: u16 = 0;
    for round in 0..500 {
        let pushes = 1 + (round % 3);
        for _ in 0..pushes {
            let mut entry = InterruptEntry::default();
            entry.source_agent = next_push;
            assert!(buf.push(entry));
            next_push += 1;
        }
        if round % 2 == 0 {
            let entry = buf.pop().expect("should have entry");
            assert_eq!(entry.source_agent, next_pop);
            next_pop += 1;
        }
    }
    while let Some(entry) = buf.pop() {
        assert_eq!(entry.source_agent, next_pop);
        next_pop += 1;
    }
    assert_eq!(next_pop, next_push);
}

#[test]
fn test_counter_conservation() {
    // total_pushed - total_popped == current length, and drops are counted
    // only on rejected pushes.
    let mut buf = InterruptRingBuffer::new();
    for _ in 0..10 {
        assert!(buf.push(InterruptEntry::default()));
    }
    for _ in 0..4 {
        assert!(buf.pop().is_some());
    }
    let stats = buf.stats();
    assert_eq!(stats.total_pushed - stats.total_popped, stats.current_len as u64);
    assert_eq!(stats.total_dropped, 0);
}

#[test]
fn test_pop_empty() {
    let mut buf = InterruptRingBuffer::new();
    assert!(buf.pop().is_none());
    assert!(buf.is_empty());
    assert_eq!(buf.capacity(), 4096);
    let stats = buf.stats();
    assert_eq!(stats.total_pushed, 0);
    assert_eq!(stats.total_popped, 0);
}

#[test]
fn test_saturation_then_drain() {
    // Exactly 4096 pushes succeed; the 4097th is rejected and counted;
    // after one pop a push succeeds again.
    let mut buf = InterruptRingBuffer::new();
    for i in 0..4096u32 {
        let mut entry = InterruptEntry::default();
        entry.timestamp = i as u64;
        assert!(buf.push(entry));
    }
    assert!(!buf.push(InterruptEntry::default()));
    assert_eq!(buf.stats().total_dropped, 1);
    assert_eq!(buf.pop().unwrap().timestamp, 0);
    assert!(buf.push(InterruptEntry::default()));
    assert_eq!(buf.len(), 4096);
}

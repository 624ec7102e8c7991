use kanbun::ring::OutputRingBuffer;

#[test]
fn ring_buffer_keeps_the_most_recent_lines() {
    let mut ring = OutputRingBuffer::new();
    for i in 0..250 {
        ring.push(format!("line {}", i));
    }
    assert_eq!(ring.len(), 240);
    assert_eq!(ring.dropped_lines(), 10);
    let snapshot = ring.snapshot_tail(3).expect("snapshot");
    assert_eq!(snapshot, "... [10 earlier lines truncated]\nline 247\nline 248\nline 249");
}

#[test]
fn ring_buffer_tail_larger_than_contents() {
    let mut ring = OutputRingBuffer::new();
    assert!(ring.snapshot_tail(8).is_none());
    ring.push("a".to_string());
    ring.push("b".to_string());
    assert_eq!(ring.snapshot_tail(8).as_deref(), Some("a\nb"));
    assert_eq!(ring.snapshot_tail(0).as_deref(), Some(""));
    assert_eq!(ring.dropped_lines(), 0);
}

#[test]
fn ring_buffer_at_capacity_drops_nothing() {
    let mut ring = OutputRingBuffer::new();
    for i in 0..240 {
        ring.push(i.to_string());
    }
    assert_eq!(ring.len(), 240);
    assert_eq!(ring.dropped_lines(), 0);
    ring.push("next".to_string());
    assert_eq!(ring.len(), 240);
    assert_eq!(ring.dropped_lines(), 1);
    assert_eq!(ring.snapshot_tail(1).as_deref(), Some("... [1 earlier lines truncated]\nnext"));
}

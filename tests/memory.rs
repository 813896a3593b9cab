use browser_mcp_rust_server::{MemoryMonitor, RingBuffer};

#[test]
fn test_memory_monitor() {
    let mut monitor = MemoryMonitor::new(1); // 1MB limit

    // Should allow small allocations
    assert!(monitor.allocate(1024));
    assert_eq!(monitor.current_usage(), 1024);

    // Should prevent large allocations
    assert!(!monitor.allocate(2 * 1024 * 1024)); // 2MB
    assert_eq!(monitor.warning_count(), 1);

    // Should allow deallocation
    monitor.deallocate(1024);
    assert_eq!(monitor.current_usage(), 0);
}

#[test]
fn test_ring_buffer() {
    let mut buffer = RingBuffer::new(3);

    buffer.push(1);
    buffer.push(2);
    buffer.push(3);
    assert_eq!(buffer.len(), 3);

    // Should overwrite oldest when at capacity
    buffer.push(4);
    assert_eq!(buffer.len(), 3);

    let mut items: Vec<i32> = Vec::new();
    let mut it = buffer.iter();
    while let Some(x) = it.next() {
        items.push(*x);
    }
    assert_eq!(items, vec![2, 3, 4]);
}

#[test]
fn ring_buffer_clear_keeps_capacity() {
    let mut buffer = RingBuffer::new(2);
    assert!(buffer.is_empty());
    buffer.push("a");
    buffer.push("b");
    buffer.push("c");
    buffer.clear();
    assert!(buffer.is_empty());
    assert_eq!(buffer.capacity(), 2);
    buffer.push("d");
    let mut it = buffer.iter();
    assert_eq!(it.next(), Some(&"d"));
    assert_eq!(it.next(), None);
}

#[test]
fn memory_monitor_exact_limit_and_saturating_release() {
    let mut monitor = MemoryMonitor::new(1);
    assert!(monitor.allocate(1024 * 1024));
    assert!(!monitor.allocate(1));
    assert_eq!(monitor.warning_count(), 1);
    monitor.deallocate(5 * 1024 * 1024);
    assert_eq!(monitor.current_usage(), 0);
}

use make87::channels::{FifoBuffer, RingBuffer};

#[test]
fn test_fifo_buffer_drops_newest_when_full() {
    let mut buffer: FifoBuffer<u32> = FifoBuffer::new(2);
    assert!(buffer.push(1));
    assert!(buffer.push(2));
    assert!(!buffer.push(3));
    assert_eq!(buffer.len(), 2);
    assert_eq!(buffer.pop(), Some(1));
    assert_eq!(buffer.pop(), Some(2));
    assert_eq!(buffer.pop(), None);
}

#[test]
fn test_ring_buffer_overwrites_oldest_when_full() {
    let mut buffer: RingBuffer<u32> = RingBuffer::new(2);
    buffer.push(1);
    buffer.push(2);
    buffer.push(3);
    assert_eq!(buffer.len(), 2);
    assert_eq!(buffer.pop(), Some(2));
    assert_eq!(buffer.pop(), Some(3));
    assert_eq!(buffer.pop(), None);
}

#[test]
fn test_fifo_buffer_interleaved() {
    let mut buffer: FifoBuffer<u32> = FifoBuffer::new(3);
    buffer.push(10);
    buffer.push(20);
    assert_eq!(buffer.pop(), Some(10));
    buffer.push(30);
    buffer.push(40);
    assert_eq!(buffer.pop(), Some(20));
    assert_eq!(buffer.pop(), Some(30));
    assert_eq!(buffer.pop(), Some(40));
}

#[test]
fn test_ring_buffer_zero_capacity_keeps_nothing() {
    let mut buffer: RingBuffer<u32> = RingBuffer::new(0);
    buffer.push(1);
    assert_eq!(buffer.len(), 0);
    assert_eq!(buffer.pop(), None);
}

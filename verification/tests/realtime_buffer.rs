use insanity::realtime_buffer::RealTimeBuffer;

#[test]
fn plays_in_order_and_conceals_gaps() {
    let mut buffer = RealTimeBuffer::new(4);
    buffer.set(1, 'b');
    buffer.set(3, 'd');
    assert_eq!(buffer.head(), 1);
    assert_eq!(buffer.prev(), 3);
    assert_eq!(buffer.len(), 2);
    assert_eq!(buffer.next_item(), Some('b'));
    assert_eq!(buffer.next_item(), None);
    assert_eq!(buffer.next_item(), Some('d'));
    assert_eq!(buffer.next_item(), None);
    assert_eq!(buffer.head(), 4);
    assert!(buffer.is_empty());
}

#[test]
fn late_items_and_redelivery() {
    let mut buffer = RealTimeBuffer::new(4);
    buffer.set(0, 0);
    assert_eq!(buffer.next_item(), Some(0));
    buffer.set(0, 1);
    assert!(buffer.is_empty());
    buffer.set(1, 2);
    buffer.set(1, 3);
    assert_eq!(buffer.len(), 1);
    assert_eq!(buffer.next_item(), Some(3));
}

#[test]
fn far_future_slides_the_window() {
    let mut buffer = RealTimeBuffer::new(3);
    buffer.set(0, 0);
    buffer.set(1, 1);
    buffer.set(9, 9);
    assert_eq!(buffer.head(), 7);
    assert_eq!(buffer.len(), 1);
}

#[test]
fn clear_starts_afresh() {
    let mut buffer = RealTimeBuffer::new(3);
    buffer.set(100, 0);
    buffer.clear();
    assert!(buffer.is_empty());
    assert_eq!(buffer.head(), 0);
    buffer.set(2, 7);
    assert_eq!(buffer.head(), 2);
    assert_eq!(buffer.next_item(), Some(7));
}

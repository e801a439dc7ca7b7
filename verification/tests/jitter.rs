use insanity::audio::jitter::JitterBuffer;

#[test]
fn occupancy_bounded_by_capacity() {
    let mut buffer = JitterBuffer::new(3);
    buffer.set(0, 0u32);
    buffer.set(1, 1u32);
    buffer.set(2, 2u32);
    assert_eq!(buffer.len(), 3);
    assert!(!buffer.is_empty());
}

#[test]
fn gap_walk_advances_one_slot_per_call() {
    let mut buffer = JitterBuffer::new(10);
    buffer.set(0, 0u32);
    buffer.set(2, 2u32);
    assert_eq!(buffer.next_item(), Some(0));
    assert_eq!(buffer.next_item(), None);
    assert_eq!(buffer.next_item(), Some(2));
}

#[test]
fn starvation_past_prev_waits_without_advancing() {
    let mut buffer = JitterBuffer::new(10);
    buffer.set(5, 5u32);
    assert_eq!(buffer.next_item(), Some(5));
    assert_eq!(buffer.head(), 6);
    assert_eq!(buffer.next_item(), None);
    assert_eq!(buffer.next_item(), None);
    assert_eq!(buffer.head(), 6);
}

#[test]
fn late_data_dropped_after_playout() {
    let mut buffer = JitterBuffer::new(10);
    buffer.set(0, 0u32);
    assert_eq!(buffer.next_item(), Some(0));
    buffer.set(0, 9u32);
    assert_eq!(buffer.len(), 0);
    assert_eq!(buffer.next_item(), None);
}

#[test]
fn duplicate_replaces_without_growth() {
    let mut buffer = JitterBuffer::new(10);
    buffer.set(3, 3u32);
    buffer.set(3, 4u32);
    assert_eq!(buffer.len(), 1);
    assert_eq!(buffer.next_item(), Some(4));
}

#[test]
fn far_future_evicts_and_slides_head() {
    let mut buffer = JitterBuffer::new(3);
    buffer.set(0, 0u32);
    buffer.set(1, 1u32);
    buffer.set(10, 10u32);
    assert_eq!(buffer.head(), 8);
    assert_eq!(buffer.next_item(), None);
    assert_eq!(buffer.next_item(), None);
    assert_eq!(buffer.next_item(), Some(10));
}

#[test]
fn virgin_nonzero_seq_anchors_head() {
    let mut buffer = JitterBuffer::new(10);
    buffer.set(7, 7u32);
    assert_eq!(buffer.head(), 7);
    assert_eq!(buffer.next_item(), Some(7));
}

#[test]
fn overflow_reports_dropped_unplayed() {
    let mut buffer = JitterBuffer::new(3);
    buffer.set(0, 0u32);
    buffer.set(1, 1u32);
    buffer.set(2, 2u32);
    assert_eq!(buffer.set(5, 5u32), 3);
    assert_eq!(buffer.head(), 3);
    assert_eq!(buffer.next_item(), None);
    assert_eq!(buffer.next_item(), None);
    assert_eq!(buffer.next_item(), Some(5));
}

#[test]
fn reset_clears_and_reanchors() {
    let mut buffer = JitterBuffer::new(10);
    buffer.set(0, 0u32);
    assert_eq!(buffer.next_item(), Some(0));
    buffer.reset();
    assert!(buffer.is_empty());
    assert_eq!(buffer.head(), 0);
    buffer.set(0, 9u32);
    assert_eq!(buffer.next_item(), Some(9));
}

#[test]
fn reordered_items_come_out_in_order() {
    let mut buffer = JitterBuffer::new(4);
    for index in [2u128, 4, 3, 5] {
        buffer.set(index, index);
    }
    let out: Vec<Option<u128>> = (0..5).map(|_| buffer.next_item()).collect();
    assert_eq!(out, vec![Some(2), Some(3), Some(4), Some(5), None]);
}

#[test]
fn every_capacity_holds_its_number_of_items() {
    for capacity in 1usize..8 {
        let mut buffer = JitterBuffer::new(capacity);
        for index in 0..20u128 {
            buffer.set(index, index);
            assert!(buffer.len() <= capacity);
        }
        assert_eq!(buffer.len(), capacity);
        assert_eq!(buffer.head(), 20 - capacity as u128);
        assert_eq!(buffer.prev(), 19);
    }
}

#[test]
fn a_mixed_run_loses_nothing_and_plays_in_order() {
    let mut buffer = JitterBuffer::new(4);
    assert_eq!(buffer.prev(), 0);
    let mut evicted = 0;
    let mut played = Vec::new();
    for index in [3u128, 5, 5, 4] {
        evicted += buffer.set(index, index);
    }
    assert_eq!(buffer.prev(), 5);
    played.extend(buffer.next_item());
    for index in [2u128, 9] {
        evicted += buffer.set(index, index);
    }
    assert_eq!(buffer.prev(), 9);
    played.extend(buffer.next_item());
    for index in [8u128, 7] {
        evicted += buffer.set(index, index);
    }
    assert_eq!(buffer.prev(), 9);
    for _ in 0..3 {
        played.extend(buffer.next_item());
    }
    assert_eq!(played, vec![3, 7, 8, 9]);
    // Eight arrived: one was late, one replaced another.
    assert_eq!(evicted, 2);
    assert_eq!(8, 1 + 1 + evicted + played.len() + buffer.len());
}

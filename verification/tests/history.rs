use system_monitor::history::{HistoryBuffer, HISTORY_CAPACITY};

#[test]
fn new_buffer_holds_one_hundred_zeros() {
    let buffer = HistoryBuffer::new();
    assert_eq!(HISTORY_CAPACITY, 100);
    assert_eq!(buffer.capacity(), 100);
    assert_eq!(buffer.len(), 100);
    assert_eq!(buffer.values(), vec![0u64; 100]);
}

#[test]
fn empty_buffer_grows_until_full_and_stays_full() {
    let mut buffer = HistoryBuffer::with_capacity(5);
    assert_eq!(buffer.len(), 0);
    assert_eq!(buffer.values(), Vec::<u64>::new());
    for sample in 1..=20u64 {
        buffer.append(sample);
        assert!(buffer.len() <= buffer.capacity());
        let expected = if sample < 5 { sample as usize } else { 5 };
        assert_eq!(buffer.len(), expected);
        assert_eq!(buffer.values().len(), expected);
    }
    assert_eq!(buffer.capacity(), 5);
}

#[test]
fn append_below_capacity_keeps_every_sample() {
    let mut buffer = HistoryBuffer::with_capacity(4);
    buffer.append(7);
    buffer.append(8);
    buffer.append(9);
    assert_eq!(buffer.values(), vec![7, 8, 9]);
}

#[test]
fn append_to_full_buffer_evicts_the_oldest() {
    let mut buffer = HistoryBuffer::with_capacity(5);
    for sample in [10u64, 11, 12, 13, 14] {
        buffer.append(sample);
    }
    assert_eq!(buffer.values(), vec![10, 11, 12, 13, 14]);
    buffer.append(99);
    assert_eq!(buffer.values(), vec![11, 12, 13, 14, 99]);
    buffer.append(100);
    assert_eq!(buffer.values(), vec![12, 13, 14, 99, 100]);
}

#[test]
fn values_stay_in_order_across_many_wraps() {
    let mut buffer = HistoryBuffer::with_capacity(3);
    for sample in 0..100u64 {
        buffer.append(sample);
    }
    assert_eq!(buffer.values(), vec![97, 98, 99]);
}

#[test]
fn buffer_without_room_holds_nothing() {
    let mut buffer = HistoryBuffer::with_capacity(0);
    buffer.append(5);
    buffer.append(6);
    assert_eq!(buffer.len(), 0);
    assert_eq!(buffer.capacity(), 0);
    assert_eq!(buffer.values(), Vec::<u64>::new());
}

#[test]
fn buffer_of_one_keeps_the_latest() {
    let mut buffer = HistoryBuffer::with_capacity(1);
    buffer.append(5);
    assert_eq!(buffer.values(), vec![5]);
    buffer.append(6);
    assert_eq!(buffer.values(), vec![6]);
}

#[test]
fn prefilled_buffer_shows_first_sample_after_ninety_nine_zeros() {
    let mut buffer = HistoryBuffer::new();
    buffer.append(12_500_000);
    let values = buffer.values();
    assert_eq!(values.len(), 100);
    assert!(values[..99].iter().all(|sample| *sample == 0));
    assert_eq!(values[99], 12_500_000);
    assert_eq!(values[99] as f64 / 1_000_000.0, 12.5);
}

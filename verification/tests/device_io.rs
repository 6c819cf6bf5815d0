use vdev::Device;
use vdev::VdevError;

#[test]
fn new_device_is_empty() {
    let d = Device::new(0);
    assert_eq!(d.number(), 0);
    assert_eq!(d.read_at(0, 100), Vec::<u8>::new());
}

#[test]
fn growth_invariant_length_is_max_and_gap_reads_zero() {
    let mut d = Device::new(0);
    assert_eq!(d.write_at(0, &[1]), Ok(1));
    // Previous length 1; writing 2 bytes at offset 3 grows to max(1, 5) = 5
    // and the gap [1, 3) reads back as zero.
    assert_eq!(d.write_at(3, &[9, 9]), Ok(2));
    assert_eq!(d.read_at(0, 100), vec![1, 0, 0, 9, 9]);
    // A write inside the existing span leaves the length at max(5, 2) = 5.
    assert_eq!(d.write_at(1, &[8]), Ok(1));
    assert_eq!(d.read_at(0, 100), vec![1, 8, 0, 9, 9]);
}

#[test]
fn read_at_or_past_end_returns_zero_bytes() {
    let mut d = Device::new(0);
    assert_eq!(d.write_at(0, &[1, 2, 3]), Ok(3));
    assert_eq!(d.read_at(3, 10), Vec::<u8>::new());
    assert_eq!(d.read_at(7, 10), Vec::<u8>::new());
    let empty = Device::new(1);
    assert_eq!(empty.read_at(0, 10), Vec::<u8>::new());
}

#[test]
fn write_then_read_round_trip() {
    let mut d = Device::new(0);
    let payload = vec![0xde, 0xad, 0xbe, 0xef];
    assert_eq!(d.write_at(5, &payload), Ok(4));
    assert_eq!(d.read_at(5, 4), payload);
}

#[test]
fn read_clamps_count_to_available_bytes() {
    let mut d = Device::new(0);
    assert_eq!(d.write_at(0, &[10, 20, 30]), Ok(3));
    assert_eq!(d.read_at(1, 100), vec![20, 30]);
    assert_eq!(d.read_at(1, 1), vec![20]);
    assert_eq!(d.read_at(0, 0), Vec::<u8>::new());
}

#[test]
fn write_far_past_end_zero_fills_the_gap() {
    let mut d = Device::new(0);
    assert_eq!(d.write_at(100, &[5]), Ok(1));
    let all = d.read_at(0, 200);
    assert_eq!(all.len(), 101);
    assert!(all[..100].iter().all(|&b| b == 0));
    assert_eq!(all[100], 5);
}

#[test]
fn empty_write_still_grows_to_its_offset() {
    let mut d = Device::new(0);
    assert_eq!(d.write_at(10, &[]), Ok(0));
    let all = d.read_at(0, 100);
    assert_eq!(all, vec![0; 10]);
}

#[test]
fn overflowing_write_fails_and_changes_nothing() {
    let mut d = Device::new(0);
    assert_eq!(d.write_at(0, &[7]), Ok(1));
    assert_eq!(d.write_at(usize::MAX, &[1]), Err(VdevError::OffsetOverflow));
    assert_eq!(d.read_at(0, 10), vec![7]);
    assert_eq!(
        d.write_at(usize::MAX - 1, &[1, 2, 3]),
        Err(VdevError::OffsetOverflow)
    );
    assert_eq!(d.read_at(0, 10), vec![7]);
}

#[test]
fn truncate_discards_all_contents() {
    let mut d = Device::new(2);
    assert_eq!(d.write_at(0, &[1, 2, 3]), Ok(3));
    d.truncate();
    assert_eq!(d.read_at(0, 10), Vec::<u8>::new());
    assert_eq!(d.number(), 2);
}

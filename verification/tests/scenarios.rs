use horrid_ring::HorridRing;

#[test]
fn fresh_buffer_pops_nothing_for_several_capacities() {
    let mut one = HorridRing::<u8>::with_capacity(1);
    assert!(one.next().is_none());
    let mut seven = HorridRing::<u32>::with_capacity(7);
    assert!(seven.next().is_none());
}

#[test]
fn fill_to_capacity_pops_in_original_order() {
    let mut rb = HorridRing::with_capacity(3);
    rb.push(10);
    rb.push(20);
    rb.push(30);
    assert_eq!(rb.next(), Some(10));
    assert_eq!(rb.next(), Some(20));
    assert_eq!(rb.next(), Some(30));
    assert!(rb.next().is_none());
}

#[test]
fn overfill_drains_only_the_newest_capacity_values() {
    let mut rb = HorridRing::with_capacity(4);
    for v in 1..=7 {
        rb.push(v);
    }
    assert_eq!(rb.drain(), vec![4, 5, 6, 7]);
}

#[test]
fn wrap_overwrites_oldest_then_runs_dry() {
    let mut rb = HorridRing::with_capacity(2);
    rb.push(0);
    rb.push(1);
    rb.push(2);
    assert_eq!(rb.next(), Some(1));
    assert_eq!(rb.next(), Some(2));
    assert!(rb.next().is_none());
}

#[test]
fn clear_after_wrapping_pushes_leaves_nothing() {
    let mut rb = HorridRing::with_capacity(2);
    for v in 0..5 {
        rb.push(v);
    }
    rb.clear();
    assert!(rb.next().is_none());
    assert_eq!(rb.drain(), Vec::<i32>::new());
}

#[test]
fn drain_empties_the_buffer_and_later_pushes_still_work() {
    let mut rb = HorridRing::with_capacity(4);
    rb.push(5);
    rb.push(6);
    assert_eq!(rb.drain(), vec![5, 6]);
    assert!(rb.next().is_none());
    rb.push(7);
    assert_eq!(rb.next(), Some(7));
    assert!(rb.next().is_none());
}

#[test]
fn write_within_capacity_round_trips() {
    let mut rb = HorridRing::with_capacity(8);
    let bytes: Vec<u8> = vec![9, 8, 7, 6, 5];
    assert_eq!(rb.write(&bytes), 5);
    assert_eq!(rb.drain(), bytes);
}

#[test]
fn read_into_larger_destination_copies_only_the_available_bytes() {
    let mut rb = HorridRing::with_capacity(4);
    rb.push(11u8);
    rb.push(22u8);
    let mut buf: Vec<u8> = vec![99; 10];
    let count = rb.read(&mut buf);
    assert_eq!(count, 2);
    assert_eq!(&buf[0..2], &[11, 22]);
    assert_eq!(&buf[2..], &[99; 8]);
    assert!(rb.next().is_none());
}

#[test]
fn read_into_smaller_destination_stops_at_its_end() {
    let mut rb = HorridRing::with_capacity(4);
    for v in 1..=4u8 {
        rb.push(v);
    }
    let mut buf: Vec<u8> = vec![0; 2];
    let count = rb.read(&mut buf);
    assert_eq!(count, 2);
    assert_eq!(buf, vec![1, 2]);
    assert_eq!(rb.drain(), vec![3, 4]);
}

#[test]
fn read_into_empty_destination_consumes_nothing() {
    let mut rb = HorridRing::with_capacity(2);
    rb.push(1u8);
    let mut buf: Vec<u8> = Vec::new();
    assert_eq!(rb.read(&mut buf), 0);
    assert_eq!(rb.next(), Some(1));
}

#[test]
fn bulk_write_of_512_laps_wraps_the_epoch_back_to_empty() {
    // 1024 bytes into a 2-slot buffer wrap the writer 512 times; 512 is a
    // multiple of 256, so the 8-bit write epoch returns to the read epoch
    // and, with both indices back at zero, the buffer reports empty.
    let mut rb = HorridRing::with_capacity(2);
    let buf: Vec<u8> = vec![3; 1024];
    assert_eq!(rb.write(&buf), 1024);
    assert_eq!(rb.drain(), Vec::<u8>::new());
}

#[test]
fn bulk_write_one_lap_past_capacity_keeps_the_newest_bytes() {
    let mut rb = HorridRing::with_capacity(4);
    let buf: Vec<u8> = vec![1, 2, 3, 4, 5, 6];
    assert_eq!(rb.write(&buf), 6);
    assert_eq!(rb.drain(), vec![3, 4, 5, 6]);
}

#[test]
fn reader_two_laps_behind_rereads_the_snapped_slot() {
    // The catch-up rule compares epochs and indices exactly once per pop,
    // so a writer that laps the reader more than once makes the first
    // snapped-to slot come out twice before the freshest value.
    let mut rb = HorridRing::with_capacity(2);
    for v in [1, 2, 3, 4, 5] {
        rb.push(v);
    }
    assert_eq!(rb.drain(), vec![4, 4, 5]);
}

#[test]
fn epochs_wrap_after_256_laps_and_the_buffer_reports_empty() {
    // 256 write wraps bring the 8-bit write epoch back to the read epoch,
    // so with both indices at zero the buffer looks empty again.
    let mut rb = HorridRing::with_capacity(1);
    for v in 0..256 {
        rb.push(v);
    }
    assert!(rb.next().is_none());
}

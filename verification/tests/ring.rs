use horrid_ring::HorridRing;

#[test]
fn test_read_empty() {
    let mut rb = HorridRing::<u8>::with_capacity(4);
    assert!(rb.next().is_none());
}

#[test]
fn test_write_wraps() {
    let mut rb = HorridRing::with_capacity(2);
    rb.push(0); // 0 [0] [?]
    rb.push(1); // 1 [0] [1]
    rb.push(2); // 2 [2] [1]
    assert_eq!(rb.next(), Some(1));
    assert_eq!(rb.next(), Some(2));
}

#[test]
fn test_non_wrapping_write() {
    let mut rb = HorridRing::with_capacity(2);
    rb.push(0);
    rb.push(1);
    assert_eq!(rb.next(), Some(0));
    assert_eq!(rb.next(), Some(1));
}

#[test]
fn test_read() {
    let mut buf: Vec<u8> = vec![0; 1024];
    let mut rb = HorridRing::with_capacity(4);
    rb.push(1);
    rb.push(2);
    rb.push(3);
    rb.push(4);

    let num_bytes = rb.read(&mut buf);
    assert_eq!(&buf[0..num_bytes], &[1, 2, 3, 4]);
}

#[test]
fn test_clear() {
    let mut rb = HorridRing::with_capacity(4);
    rb.push(1);
    rb.clear();

    assert!(rb.next().is_none());
}

#[test]
fn test_drain() {
    let mut rb = HorridRing::with_capacity(4);
    rb.push(1);
    rb.push(2);
    let val = rb.drain();

    assert_eq!(val, vec![1, 2]);
}

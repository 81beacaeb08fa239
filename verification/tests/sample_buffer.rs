use libereco::sample_buffer::SampleBuffer;

#[test]
fn push_read_discard() {
    let mut buf = SampleBuffer::<i32>::new();

    buf.push(&[1, 2, 3, 4]);

    assert_eq!(buf.available(), 4);
    assert_eq!(buf.read(2), Some(&[1, 2][..]));

    buf.consume(2);

    assert_eq!(buf.read(2), Some(&[3, 4][..]));
    assert_eq!(buf.available(), 2);
}

#[test]
fn compact() {
    let mut buf = SampleBuffer::<i32>::new();

    buf.push(&(0..100).collect::<Vec<_>>());

    buf.consume(80);

    assert_eq!(buf.read(20).unwrap()[0], 80);

    buf.push(&[100, 101]);

    assert_eq!(buf.available(), 22);
}

#[test]
fn clear_after_discard() {
    let mut buf = SampleBuffer::<i32>::new();

    buf.push(&[1, 2, 3]);

    buf.consume(3);

    assert!(buf.is_empty());

    buf.push(&[4]);

    assert_eq!(buf.read(1), Some(&[4][..]));
}

#[test]
fn read_more_than_available_is_none() {
    let mut buf = SampleBuffer::<u8>::default();
    assert!(buf.is_empty());
    assert_eq!(buf.read(1), None);
    buf.push(&[7, 8]);
    assert_eq!(buf.read(3), None);
    assert_eq!(buf.read(0), Some(&[][..]));
}

#[test]
fn order_survives_compaction() {
    // FIFO order holds across a consume that compacts (more than half consumed)
    // and one that does not.
    let mut buf = SampleBuffer::<u16>::new();
    buf.push(&[1, 2, 3, 4, 5, 6, 7, 8, 9, 10]);
    buf.consume(3);
    assert_eq!(buf.read(7), Some(&[4, 5, 6, 7, 8, 9, 10][..]));
    buf.consume(4);
    assert_eq!(buf.read(3), Some(&[8, 9, 10][..]));
    buf.push(&[11]);
    assert_eq!(buf.read(4), Some(&[8, 9, 10, 11][..]));
    buf.clear();
    assert_eq!(buf.available(), 0);
}

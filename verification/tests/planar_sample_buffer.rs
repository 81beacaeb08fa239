use libereco::planar_sample_buffer::PlanarSampleBuffer;

#[test]
fn planar_push_read_consume() {
    let mut buf = PlanarSampleBuffer::<i32>::new(2);
    assert_eq!(buf.channels(), 2);
    assert!(buf.is_empty());
    buf.push(&[&[1, 2, 3], &[10, 20, 30]]);
    assert_eq!(buf.available(), 3);
    assert_eq!(buf.read_channel(0, 2), Some(&[1, 2][..]));
    assert_eq!(buf.read_channel(1, 3), Some(&[10, 20, 30][..]));
    assert_eq!(buf.read_channel(1, 4), None);
    assert_eq!(buf.read_channel(2, 1), None);
    buf.consume(2);
    assert_eq!(buf.read_channel(0, 1), Some(&[3][..]));
    assert_eq!(buf.read_channel(1, 1), Some(&[30][..]));
}

#[test]
fn planar_push_channel_and_clear() {
    let mut buf = PlanarSampleBuffer::<u8>::new(2);
    buf.push_channel(1, &[5, 6]);
    assert_eq!(buf.available(), 0);
    assert_eq!(buf.read_channel(1, 2), Some(&[5, 6][..]));
    buf.clear();
    assert_eq!(buf.read_channel(1, 1), None);
    assert_eq!(buf.channels(), 2);
}

#[test]
fn planar_resize_changes_channels_and_clears() {
    let mut buf = PlanarSampleBuffer::<i16>::new(1);
    buf.push(&[&[1, 2]]);
    buf.resize(3);
    assert_eq!(buf.channels(), 3);
    assert!(buf.is_empty());
    buf.resize(1);
    assert_eq!(buf.channels(), 1);
    let empty = PlanarSampleBuffer::<i16>::default();
    assert_eq!(empty.channels(), 0);
    assert_eq!(empty.available(), 0);
}

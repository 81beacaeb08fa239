use libereco::playback::{copy_available, read_into, FrameCursor, PlaybackState};

#[test]
fn playback_spans_chunks_and_callbacks() {
    let mut state = PlaybackState::<i16>::new();
    assert!(state.is_idle());
    let mut out = [0i16; 4];
    state.load(vec![1, 2, 3]);
    let n = state.play_into(&mut out, 0);
    assert_eq!(n, 3);
    assert!(state.is_idle());
    state.load(vec![4, 5, 6]);
    let m = state.play_into(&mut out, n);
    assert_eq!(m, 1);
    assert_eq!(out, [1, 2, 3, 4]);
    assert!(!state.is_idle());
    let mut next = [0i16; 4];
    assert_eq!(state.play_into(&mut next, 0), 2);
    assert_eq!(next, [5, 6, 0, 0]);
    assert!(state.is_idle());
    assert_eq!(state.play_into(&mut next, 0), 0);
}

#[test]
fn copy_available_clamps_to_space_and_source() {
    let mut out = [9u8; 5];
    assert_eq!(copy_available(&[1, 2, 3], 1, &mut out, 2), 2);
    assert_eq!(out, [9, 9, 2, 3, 9]);
    assert_eq!(copy_available(&[1, 2, 3], 0, &mut out, 4), 1);
    assert_eq!(out, [9, 9, 2, 3, 1]);
    assert_eq!(copy_available(&[1, 2, 3], 7, &mut out, 0), 0);
}

#[test]
fn read_into_fills_with_silence() {
    let mut offset = 1;
    let mut out = [7i32; 4];
    assert!(read_into(&[10, 20, 30], &mut offset, &mut out, 0));
    assert_eq!(out, [20, 30, 0, 0]);
    assert_eq!(offset, 3);
    let mut offset = 0;
    let mut small = [0i32; 2];
    assert!(!read_into(&[10, 20, 30], &mut offset, &mut small, 0));
    assert_eq!(small, [10, 20]);
    assert_eq!(offset, 2);
}

#[test]
fn frame_cursor_reads_frames_across_buffers() {
    let frames: [&[i16]; 2] = [&[1, 2, 3, 4, 5], &[6, 7]];
    let mut cursor = FrameCursor::new();
    assert_eq!(cursor.current(), None);
    cursor.start(0);
    let mut out = [0i16; 3];
    assert_eq!(cursor.read_from(frames[0], &mut out, 0), (3, None));
    assert_eq!(out, [1, 2, 3]);
    assert_eq!(cursor.current(), Some(0));
    let mut out = [9i16; 4];
    assert_eq!(cursor.read_from(frames[0], &mut out, 1), (2, Some(0)));
    assert_eq!(out, [9, 4, 5, 9]);
    assert_eq!(cursor.current(), None);
    cursor.start(1);
    assert_eq!(cursor.read_from(frames[1], &mut out, 3), (1, None));
    assert_eq!(out, [9, 4, 5, 6]);
    let mut rest = [0i16; 1];
    assert_eq!(cursor.read_from(frames[1], &mut rest, 0), (1, Some(1)));
    assert_eq!(rest, [7]);
}

#[test]
fn frame_cursor_lets_go_of_an_empty_frame() {
    let mut cursor = FrameCursor::new();
    cursor.start(4);
    let mut out = [1u8; 2];
    assert_eq!(cursor.read_from(&[], &mut out, 0), (0, Some(4)));
    assert_eq!(out, [1, 1]);
    assert_eq!(cursor.current(), None);
}

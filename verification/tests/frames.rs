use jarvis_core::frames::FrameBuffer;

#[test]
fn frames_are_consecutive_slices_of_the_input() {
    let mut b = FrameBuffer::with_capacity(8);
    let samples: Vec<i16> = (0..10).collect();
    let frames = b.push(&samples[..7], 3);
    assert_eq!(frames, vec![vec![0, 1, 2], vec![3, 4, 5]]);
    let frames = b.push(&samples[7..], 3);
    assert_eq!(frames, vec![vec![6, 7, 8]]);
    let frames = b.push(&[10, 11], 3);
    assert_eq!(frames, vec![vec![9, 10, 11]]);
    assert!(b.push(&[], 3).is_empty());
}

#[test]
fn clear_drops_waiting_samples() {
    let mut b = FrameBuffer::with_capacity(4);
    assert!(b.push(&[1, 2], 3).is_empty());
    b.clear();
    assert_eq!(b.push(&[7, 8, 9], 3), vec![vec![7, 8, 9]]);
}

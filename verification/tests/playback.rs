use acouwalk::playback::PlaybackBuffer;

#[test]
fn empty_buffer_needs_more_and_gives_nothing() {
    let mut b: PlaybackBuffer<f32> = PlaybackBuffer::new(44100);
    assert!(b.needs_more(1));
    assert!(!b.needs_more(0));
    let mut l = [9.0f32; 4];
    let mut r = [9.0f32; 4];
    assert_eq!(b.emit(&mut l, &mut r), 0);
    assert_eq!(l, [9.0; 4]);
    assert_eq!(r, [9.0; 4]);
    assert!(!b.compact());
}

#[test]
fn emit_parts_left_from_right() {
    let mut b: PlaybackBuffer<f32> = PlaybackBuffer::new(44100);
    let mut chunk = vec![0.1, -0.1, 0.2, -0.2, 0.3, -0.3];
    b.append(&mut chunk);
    assert!(chunk.is_empty());
    assert!(!b.needs_more(3));
    assert!(b.needs_more(4));
    let mut l = [0.0f32; 2];
    let mut r = [0.0f32; 2];
    assert_eq!(b.emit(&mut l, &mut r), 2);
    assert_eq!(l, [0.1, 0.2]);
    assert_eq!(r, [-0.1, -0.2]);
    assert!(b.needs_more(2));
    assert!(!b.needs_more(1));
    // fewer frames wait than the block takes: the rest of the block stays
    let mut l = [7.0f32; 2];
    let mut r = [8.0f32; 2];
    assert_eq!(b.emit(&mut l, &mut r), 1);
    assert_eq!(l, [0.3, 7.0]);
    assert_eq!(r, [-0.3, 8.0]);
    assert_eq!(b.emit(&mut l, &mut r), 0);
}

#[test]
fn emit_goes_by_the_shorter_block() {
    let mut b: PlaybackBuffer<i32> = PlaybackBuffer::new(10);
    let mut chunk: Vec<i32> = (1..=10).collect();
    b.append(&mut chunk);
    let mut l = [0; 3];
    let mut r = [0; 2];
    assert_eq!(b.emit(&mut l, &mut r), 2);
    assert_eq!(l, [1, 3, 0]);
    assert_eq!(r, [2, 4]);
    let mut l = [0; 1];
    let mut r = [0; 3];
    assert_eq!(b.emit(&mut l, &mut r), 1);
    assert_eq!(l, [5]);
    assert_eq!(r, [6, 0, 0]);
}

#[test]
fn emit_leaves_half_a_frame_waiting() {
    let mut b: PlaybackBuffer<i32> = PlaybackBuffer::new(10);
    let mut chunk = vec![1, 2, 3];
    b.append(&mut chunk);
    let mut l = [0; 4];
    let mut r = [0; 4];
    assert_eq!(b.emit(&mut l, &mut r), 1);
    assert_eq!(l, [1, 0, 0, 0]);
    assert_eq!(r, [2, 0, 0, 0]);
    assert!(b.needs_more(1));
    let mut chunk = vec![4, 5];
    b.append(&mut chunk);
    assert_eq!(b.emit(&mut l, &mut r), 1);
    assert_eq!(l[0], 3);
    assert_eq!(r[0], 4);
}

#[test]
fn compact_comes_after_more_than_a_second_and_loses_nothing() {
    let mut b: PlaybackBuffer<i32> = PlaybackBuffer::new(4);
    let mut chunk: Vec<i32> = (0..20).collect();
    b.append(&mut chunk);
    let mut l = [0; 2];
    let mut r = [0; 2];
    assert_eq!(b.emit(&mut l, &mut r), 2);
    // four samples went out: not more than the rate
    assert!(!b.compact());
    assert_eq!(b.emit(&mut l, &mut r), 2);
    assert_eq!(l, [4, 6]);
    // eight went out
    assert!(b.compact());
    assert!(!b.compact());
    assert_eq!(b.emit(&mut l, &mut r), 2);
    assert_eq!(l, [8, 10]);
    assert_eq!(r, [9, 11]);
    let mut more = vec![20, 21];
    b.append(&mut more);
    let mut l = [0; 8];
    let mut r = [0; 8];
    assert_eq!(b.emit(&mut l, &mut r), 5);
    assert_eq!(l, [12, 14, 16, 18, 20, 0, 0, 0]);
    assert_eq!(r, [13, 15, 17, 19, 21, 0, 0, 0]);
    assert!(b.compact());
    assert!(b.needs_more(1));
}

#[test]
fn emit_interleaved_hands_samples_out_as_they_are() {
    let mut b: PlaybackBuffer<f32> = PlaybackBuffer::new(2);
    let mut chunk = vec![0.5, -0.5, 0.25, -0.25, 0.125];
    b.append(&mut chunk);
    let mut data = [0.0f32; 4];
    assert_eq!(b.emit_interleaved(&mut data), 4);
    assert_eq!(data, [0.5, -0.5, 0.25, -0.25]);
    assert!(b.compact());
    let mut data = [1.0f32; 4];
    assert_eq!(b.emit_interleaved(&mut data), 1);
    assert_eq!(data, [0.125, 1.0, 1.0, 1.0]);
    assert_eq!(b.emit_interleaved(&mut data), 0);
    let mut none: [f32; 0] = [];
    assert_eq!(b.emit_interleaved(&mut none), 0);
}

#[test]
fn a_callback_after_another_plays_the_stream_in_order() {
    let mut b: PlaybackBuffer<u32> = PlaybackBuffer::new(64);
    let mut next: u32 = 0;
    let mut heard_l: Vec<u32> = Vec::new();
    let mut heard_r: Vec<u32> = Vec::new();
    for _ in 0..100 {
        if b.begin_block(16) {
            let mut chunk: Vec<u32> = (next..next + 24).collect();
            next += 24;
            b.append(&mut chunk);
        }
        let mut l = [0u32; 16];
        let mut r = [0u32; 16];
        let n = b.emit(&mut l, &mut r);
        heard_l.extend_from_slice(&l[..n]);
        heard_r.extend_from_slice(&r[..n]);
    }
    assert!(heard_l.len() > 1000);
    for (i, s) in heard_l.iter().enumerate() {
        assert_eq!(*s, 2 * i as u32);
    }
    for (i, s) in heard_r.iter().enumerate() {
        assert_eq!(*s, 2 * i as u32 + 1);
    }
}

#[test]
fn begin_block_compacts_and_asks_for_what_is_missing() {
    let mut b: PlaybackBuffer<i32> = PlaybackBuffer::new(3);
    assert_eq!(b.waiting(), 0);
    assert!(b.begin_block(1));
    assert!(!b.begin_block(0));
    let mut chunk: Vec<i32> = (0..10).collect();
    b.append(&mut chunk);
    assert_eq!(b.waiting(), 10);
    assert!(!b.begin_block(5));
    assert!(b.begin_block(6));
    let mut l = [0; 2];
    let mut r = [0; 2];
    assert_eq!(b.emit(&mut l, &mut r), 2);
    assert_eq!(b.waiting(), 6);
    // four samples went out, one more than the rate: they are let go now
    assert!(!b.begin_block(3));
    assert!(!b.compact());
    assert_eq!(b.waiting(), 6);
    assert_eq!(b.emit(&mut l, &mut r), 2);
    assert_eq!(l, [4, 6]);
    assert_eq!(r, [5, 7]);
    assert!(b.begin_block(2));
    assert_eq!(b.waiting(), 2);
}

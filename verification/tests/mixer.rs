use acouwalk::mixer::{common_len, mix, Mixer};

fn mean(samples: &Vec<f32>) -> f32 {
    let s: f32 = samples.iter().sum();
    s / samples.len() as f32
}

#[test]
fn new_mixer_has_every_stream_running() {
    let m: Mixer<f32> = Mixer::new(5);
    for i in 0..5 {
        assert!(m.is_live(i));
    }
    assert!(!m.is_live(5));
    assert!(m.any_live());
    let none: Mixer<f32> = Mixer::new(0);
    assert!(!none.any_live());
    assert!(!none.is_live(0));
}

#[test]
fn retired_stream_stays_out() {
    let mut m: Mixer<f32> = Mixer::new(3);
    m.retire(1);
    assert!(m.is_live(0));
    assert!(!m.is_live(1));
    assert!(m.is_live(2));
    m.retire(1);
    m.retire(7);
    assert!(m.is_live(0));
    assert!(!m.is_live(1));
    assert!(m.is_live(2));
    assert!(m.any_live());
    m.retire(0);
    m.retire(2);
    assert!(!m.any_live());
}

#[test]
fn cycle_hands_over_what_was_gathered_in_order() {
    let mut m: Mixer<f32> = Mixer::new(3);
    m.gather(vec![1.0, 1.0]);
    m.gather(vec![0.0, 0.0]);
    m.gather(vec![-1.0, -1.0]);
    let bufs = m.finish_cycle().unwrap();
    assert_eq!(bufs, vec![vec![1.0, 1.0], vec![0.0, 0.0], vec![-1.0, -1.0]]);
    assert_eq!(common_len(&bufs), Some(2));
    assert_eq!(mix(&bufs, mean), vec![0.0, 0.0]);
    // the next cycle starts with nothing
    assert_eq!(m.finish_cycle(), None);
}

#[test]
fn cycle_without_a_chunk_ends_the_mix() {
    let mut m: Mixer<f32> = Mixer::new(2);
    m.gather(vec![0.5]);
    m.retire(1);
    assert_eq!(m.finish_cycle(), Some(vec![vec![0.5]]));
    m.retire(0);
    assert!(!m.any_live());
    assert_eq!(m.finish_cycle(), None);
}

#[test]
fn common_len_asks_for_chunks_of_one_length() {
    let none: Vec<Vec<f32>> = Vec::new();
    assert_eq!(common_len(&none), None);
    assert_eq!(common_len(&vec![vec![1.0f32, 2.0]]), Some(2));
    assert_eq!(common_len(&vec![vec![1, 2], vec![3, 4], vec![5, 6]]), Some(2));
    assert_eq!(common_len(&vec![vec![1, 2], vec![3], vec![5, 6]]), None);
    assert_eq!(common_len(&vec![vec![1], vec![3, 4]]), None);
    let empty: Vec<Vec<u8>> = vec![vec![], vec![]];
    assert_eq!(common_len(&empty), Some(0));
}

#[test]
fn mix_of_one_zero_and_minus_one_is_zero() {
    let bufs = vec![vec![1.0f32, 1.0], vec![0.0, 0.0], vec![-1.0, -1.0]];
    assert_eq!(mix(&bufs, mean), vec![0.0, 0.0]);
}

#[test]
fn mix_takes_the_mean_sample_by_sample() {
    let bufs = vec![vec![0.5f32, -0.25, 1.0, 0.0], vec![0.25, -0.75, -1.0, 0.0]];
    assert_eq!(mix(&bufs, mean), vec![0.375, -0.5, 0.0, 0.0]);
    let alone = vec![vec![0.1f32, 0.2, 0.3]];
    assert_eq!(mix(&alone, mean), vec![0.1, 0.2, 0.3]);
    let empty: Vec<Vec<f32>> = vec![vec![], vec![]];
    assert!(mix(&empty, mean).is_empty());
}

#[test]
fn mix_hands_over_the_samples_of_a_place_in_the_order_of_the_chunks() {
    let bufs = vec![vec![1, 2], vec![3, 4], vec![5, 6]];
    let digits = |samples: &Vec<i32>| samples.iter().fold(0, |n, s| 10 * n + s);
    assert_eq!(mix(&bufs, digits), vec![135, 246]);
}

use wio_examples::sampler::{Sampler, AVERAGING_FACTOR, FFT_POINTS};

#[test]
fn four_samples_make_one_filtered_value() {
    let mut s = Sampler::new();
    assert!(!s.frame_ready());
    assert_eq!(s.frame(), vec![]);
    assert_eq!(AVERAGING_FACTOR, 4);
    assert_eq!(FFT_POINTS, 256);
    for x in 0..(4 * 256u32) {
        s.on_sample((x % 1000) as u16);
    }
    // The sampling buffer is full; nothing has been handed over yet.
    assert!(!s.frame_ready());
    // The next group of four hands the full buffer over.
    for _ in 0..4 {
        s.on_sample(7);
    }
    assert!(s.frame_ready());
    let frame = s.frame();
    assert_eq!(frame.len(), 256);
    for i in 0..256u32 {
        let expected: u32 = (0..4).map(|j| (4 * i + j) % 1000).sum();
        assert_eq!(frame[i as usize], expected);
    }
}

#[test]
fn partial_group_is_not_stored() {
    let mut s = Sampler::new();
    for _ in 0..(4 * 256 + 3) {
        s.on_sample(1);
    }
    assert!(!s.frame_ready());
    s.on_sample(1);
    assert!(s.frame_ready());
    assert!(s.frame().iter().all(|&v| v == 4));
}

#[test]
fn values_are_dropped_while_both_buffers_are_full() {
    let mut s = Sampler::new();
    for _ in 0..(4 * 257) {
        s.on_sample(2);
    }
    assert!(s.frame_ready());
    // Fill the new sampling buffer with 9s, then keep sampling: both buffers
    // are full, the frame being analysed is left alone.
    for _ in 0..(4 * 256 + 40) {
        s.on_sample(9);
    }
    assert!(s.frame().iter().all(|&v| v == 8));
    s.release_frame();
    assert!(!s.frame_ready());
    assert_eq!(s.frame(), vec![]);
    // The next completed group hands over the buffer of 9s.
    for _ in 0..4 {
        s.on_sample(1);
    }
    assert!(s.frame_ready());
    assert!(s.frame().iter().all(|&v| v == 36));
}

#[test]
fn maximal_samples_do_not_overflow() {
    let mut s = Sampler::new();
    for _ in 0..(4 * 257) {
        s.on_sample(u16::MAX);
    }
    assert!(s.frame().iter().all(|&v| v == 4 * 65535));
}

#[test]
fn handover_comes_exactly_when_the_sampling_buffer_overflows() {
    let mut s = Sampler::new();
    for _ in 0..(4 * 256 + 4) {
        s.on_sample(1);
    }
    assert!(s.frame_ready());
    // Ten values go into the fresh sampling buffer while the frame is analysed.
    for _ in 0..40 {
        s.on_sample(2);
    }
    s.release_frame();
    // With L = 10 values waiting, the swap comes at sample 4 * (256 - 10) + 4.
    for _ in 0..(4 * 246 + 3) {
        s.on_sample(3);
        assert!(!s.frame_ready());
    }
    s.on_sample(3);
    assert!(s.frame_ready());
    let frame = s.frame();
    assert!(frame[..10].iter().all(|&v| v == 8));
    assert!(frame[10..].iter().all(|&v| v == 12));
}

use oddio::frame::Sample;
use oddio::frames::{Frames, FramesSampler};
use oddio::source::{mix_stereo, MonoToStereo, MonoToStereoSampler, Sampler, Source};

#[test]
fn frames_play_back_by_position() {
    let f = Frames::new(vec![1i32, 2, 3, 4], 10);
    let s: FramesSampler = f.sample(40);
    assert_eq!(s.get(&f, 0, 4), 1);
    assert_eq!(s.get(&f, 1, 4), 2);
    assert_eq!(s.get(&f, 3, 4), 4);
    assert_eq!(s.get(&f, 4, 4), 0);
    assert_eq!(s.get(&f, 1, 0), 1);
    assert_eq!(f.remaining(), 40);
}

#[test]
fn frames_advance_and_run_out() {
    let mut f = Frames::new(vec![1i32, 2], 5);
    f.advance(7);
    assert_eq!(f.remaining(), 3);
    assert_eq!(f.sample(1).get(&f, 0, 1), 2);
    f.advance(10);
    assert_eq!(f.remaining(), -7);
    assert_eq!(f.sample(1).get(&f, 0, 1), 0);
    f.advance(u64::MAX);
    assert_eq!(f.cursor, u64::MAX);
    assert_eq!(f.remaining(), i64::MIN);
}

#[test]
fn mono_to_stereo_copies_each_sample() {
    let m = Frames::new(vec![7i32, -3], 1).into_stereo();
    let s: MonoToStereoSampler<FramesSampler> = m.sample(2);
    assert_eq!(s.get(&m, 0, 2), [7, 7]);
    assert_eq!(s.get(&m, 1, 2), [-3, -3]);
    assert_eq!(m.remaining(), 2);
}

#[test]
fn stereo_source_mixes_into_output() {
    let mut src = Frames::new(vec![[1i32, 2], [3, 4], [5, 6], [7, 8]], 1);
    let mut out: [[Sample; 2]; 2] = [[10, 10], [20, 20]];
    assert!(!mix_stereo(&mut src, 1, &mut out));
    assert_eq!(out, [[11, 12], [23, 24]]);
    assert_eq!(src.cursor, 2);
    assert!(!mix_stereo(&mut src, 1, &mut out));
    assert_eq!(out, [[16, 18], [30, 32]]);
    assert_eq!(src.remaining(), 0);
}

#[test]
fn exhausted_source_asks_to_be_dropped() {
    let mut src = MonoToStereo(Frames::new(vec![1i32], 1));
    src.advance(2);
    let mut out: [[Sample; 2]; 2] = [[1, 1], [1, 1]];
    assert!(mix_stereo(&mut src, 1, &mut out));
    assert_eq!(out, [[1, 1], [1, 1]]);
    assert_eq!(src.0.cursor, 2);
}

use oddio::frame::{add_samples, mix, Frame, Sample};

#[test]
fn samples_add_exactly_in_range() {
    assert_eq!(add_samples(3, 4), 7);
    assert_eq!(add_samples(-10, 4), -6);
}

#[test]
fn samples_saturate_at_the_ends() {
    assert_eq!(add_samples(i32::MAX, 1), i32::MAX);
    assert_eq!(add_samples(i32::MIN, -1), i32::MIN);
    assert_eq!(add_samples(i32::MAX, i32::MIN), -1);
}

#[test]
fn stereo_frames_mix_per_channel() {
    let a: [Sample; 2] = [1, i32::MAX];
    let b: [Sample; 2] = [2, 5];
    assert_eq!(mix(&a, &b), [3, i32::MAX]);
    assert_eq!(<[Sample; 2] as Frame>::zero(), [0, 0]);
    assert_eq!(<Sample as Frame>::zero(), 0);
    assert_eq!(mix(&-4i32, &9i32), 5);
}

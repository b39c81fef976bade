use oddio::frame::Sample;
use oddio::mixer::{Mixer, MixerControl, BUFFER_FRAMES};
use oddio::signal::{Constant, Signal, UNBOUNDED};

#[test]
fn new_mixer_is_silent() {
    let mut m: Mixer<Constant<Sample>> = Mixer::new();
    let mut out = [5i32; 8];
    m.sample(1, &mut out);
    assert_eq!(out, [0; 8]);
    assert_eq!(m.len(), 0);
    assert_eq!(m.remaining(), UNBOUNDED);
    let d: Mixer<Constant<Sample>> = Mixer::default();
    assert_eq!(d.len(), 0);
}

#[test]
fn two_constants_sum() {
    let mut m: Mixer<Constant<Sample>> = Mixer::new();
    MixerControl(&mut m).play(Constant::new(3));
    MixerControl(&mut m).play(Constant::new(4));
    let mut out = [0i32; 5];
    m.sample(1, &mut out);
    assert_eq!(out, [7; 5]);
}

#[test]
fn sums_saturate() {
    let mut m: Mixer<Constant<Sample>> = Mixer::new();
    let mut c = MixerControl(&mut m);
    c.play(Constant::new(i32::MAX - 1));
    c.play(Constant::new(5));
    let mut out = [0i32; 3];
    m.sample(1, &mut out);
    assert_eq!(out, [i32::MAX; 3]);
}

#[test]
fn played_signal_joins_at_next_tick() {
    let mut m: Mixer<Constant<Sample>> = Mixer::new();
    let h = MixerControl(&mut m).play(Constant::new(2));
    assert_eq!(h.id(), 0);
    assert_eq!(m.len(), 0);
    let mut out = [0i32; 2];
    m.sample(1, &mut out);
    assert_eq!(m.len(), 1);
    assert_eq!(out, [2, 2]);
    let h2 = MixerControl(&mut m).play(Constant::new(1));
    assert_eq!(h2.id(), 1);
}

#[test]
fn exhausted_entry_leaves_on_following_tick() {
    let mut m: Mixer<Constant<Sample>> = Mixer::new();
    let mut c = MixerControl(&mut m);
    c.play(Constant::new(1));
    c.play(Constant::lasting(10, 2));
    let mut out = [0i32; 4];
    m.sample(1, &mut out);
    assert_eq!(out, [11; 4]);
    assert_eq!(m.len(), 2);
    m.sample(1, &mut out);
    assert_eq!(out, [1; 4]);
    assert_eq!(m.len(), 1);
    MixerControl(&mut m).play(Constant::new(5));
    m.sample(1, &mut out);
    assert_eq!(m.len(), 2);
    assert_eq!(out, [6; 4]);
}

#[test]
fn released_entry_keeps_playing() {
    let mut m: Mixer<Constant<Sample>> = Mixer::new();
    let h = MixerControl(&mut m).play(Constant::new(9));
    MixerControl(&mut m).release(h);
    let mut out = [0i32; 3];
    for _ in 0..3 {
        m.sample(1, &mut out);
        assert_eq!(out, [9; 3]);
    }
    assert_eq!(m.len(), 1);
}

#[test]
fn pause_resume_stop_through_handles() {
    let mut m: Mixer<Constant<Sample>> = Mixer::new();
    let a = MixerControl(&mut m).play(Constant::new(1));
    let b = MixerControl(&mut m).play(Constant::new(100));
    MixerControl(&mut m).pause(&b);
    let mut out = [0i32; 2];
    m.sample(1, &mut out);
    assert_eq!(out, [1, 1]);
    assert_eq!(m.len(), 2);
    MixerControl(&mut m).resume(&b);
    m.sample(1, &mut out);
    assert_eq!(out, [101, 101]);
    MixerControl(&mut m).stop(&a);
    m.sample(1, &mut out);
    assert_eq!(out, [100, 100]);
    assert_eq!(m.len(), 1);
}

#[test]
fn stereo_scenario() {
    let mut m: Mixer<Constant<[Sample; 2]>> = Mixer::new();
    let mut c = MixerControl(&mut m);
    c.play(Constant::new([2000, 2000]));
    c.play(Constant::lasting([3000, -1000], 2));
    let mut out = [[0i32; 2]; 4];
    m.sample(1, &mut out);
    assert_eq!(out, [[5000, 1000]; 4]);
    m.sample(1, &mut out);
    assert_eq!(out, [[2000, 2000]; 4]);
    assert_eq!(m.len(), 1);
}

#[test]
fn long_outputs_are_sampled_in_chunks() {
    let n = BUFFER_FRAMES * 2 + 3;
    let mut m: Mixer<Constant<Sample>> = Mixer::new();
    MixerControl(&mut m).play(Constant::lasting(4, n as i64 + 1));
    MixerControl(&mut m).play(Constant::new(-1));
    let mut out = vec![0i32; n];
    m.sample(1, &mut out);
    assert!(out.iter().all(|&x| x == 3));
    m.sample(1, &mut out);
    assert!(out.iter().all(|&x| x == 3));
    m.sample(1, &mut out);
    assert!(out.iter().all(|&x| x == -1));
    assert_eq!(m.len(), 1);
}

#[test]
fn mixers_nest() {
    let mut inner: Mixer<Constant<Sample>> = Mixer::new();
    MixerControl(&mut inner).play(Constant::new(2));
    MixerControl(&mut inner).play(Constant::new(3));
    let mut outer: Mixer<Mixer<Constant<Sample>>> = Mixer::new();
    MixerControl(&mut outer).play(inner);
    let mut out = [0i32; 3];
    outer.sample(1, &mut out);
    assert_eq!(out, [5; 3]);
}

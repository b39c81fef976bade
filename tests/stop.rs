use oddio::signal::{spend_time, Constant, Signal, UNBOUNDED};
use oddio::stop::{Stop, StopState};

#[test]
fn paused_signal_is_silent_and_keeps_its_time() {
    let mut s = Stop::new(Constant::lasting(5i32, 100));
    s.pause();
    assert!(s.is_paused());
    let mut out = [9i32; 4];
    s.sample(10, &mut out);
    assert_eq!(out, [0, 0, 0, 0]);
    assert_eq!(s.remaining(), 100);
    s.resume();
    let mut out = [0i32; 3];
    s.sample(10, &mut out);
    assert_eq!(out, [5, 5, 5]);
    assert_eq!(s.remaining(), 70);

    let mut direct = Stop::new(Constant::lasting(5i32, 100));
    let mut out2 = [0i32; 3];
    direct.sample(10, &mut out2);
    assert_eq!(out2, out);
    assert_eq!(direct.remaining(), s.remaining());
}

#[test]
fn stop_is_final() {
    let mut s = Stop::new(Constant::new(1i32));
    s.stop();
    assert!(s.is_stopped());
    s.resume();
    s.pause();
    assert_eq!(s.state, StopState::Stopped);
    assert_eq!(s.remaining(), 0);
    let mut out = [7i32; 2];
    s.sample(1, &mut out);
    assert_eq!(out, [0, 0]);
}

#[test]
fn pause_and_resume_only_toggle() {
    let mut s = Stop::new(Constant::new(1i32));
    s.resume();
    assert_eq!(s.state, StopState::Playing);
    s.pause();
    s.pause();
    assert_eq!(s.state, StopState::Paused);
    s.resume();
    assert_eq!(s.state, StopState::Playing);
}

#[test]
fn constant_spends_its_time() {
    let mut c = Constant::lasting(2i32, 5);
    let mut out = [0i32; 3];
    c.sample(2, &mut out);
    assert_eq!(out, [2, 2, 2]);
    assert_eq!(c.remaining(), -1);
    let mut u = Constant::new(2i32);
    u.sample(1000, &mut out);
    assert_eq!(u.remaining(), UNBOUNDED);
}

#[test]
fn spent_time_saturates() {
    assert_eq!(spend_time(10, 3, 2), 4);
    assert_eq!(spend_time(UNBOUNDED, u64::MAX, 5), UNBOUNDED);
    assert_eq!(spend_time(0, u64::MAX, 4), i64::MIN);
    assert_eq!(spend_time(i64::MIN + 1, 1, 1), i64::MIN);
}

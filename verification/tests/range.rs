use ball_cube::range01::{WrappingUnit, SaturatingUnit, wrapping_new, saturating_new, UNIT,
    HALF_UNIT};
use ball_cube::component::{CubeRotation, Timer, SlideHandle, RotateHandle, PathHandle};

// One full range is 3600 units, so a tenth of the range is 360
// units.

#[test]
fn wrapping_new_stays_in_range() {
    assert_eq!(wrapping_new(0), 0);
    assert_eq!(wrapping_new(3600), 0);
    assert_eq!(wrapping_new(3601), 1);
    assert_eq!(wrapping_new(-1), 3599);
    assert_eq!(wrapping_new(-3600), 0);
    assert_eq!(wrapping_new(7200), 0);
    assert!(wrapping_new(i64::MAX) < UNIT);
    assert!(wrapping_new(i64::MIN) < UNIT);
}

#[test]
fn saturating_new_stays_in_range() {
    assert_eq!(saturating_new(0), 0);
    assert_eq!(saturating_new(3600), 3600);
    assert_eq!(saturating_new(3601), 3600);
    assert_eq!(saturating_new(-1), 0);
    assert_eq!(saturating_new(i64::MAX), UNIT);
    assert_eq!(saturating_new(i64::MIN), 0);
}

#[test]
fn random_adds_never_escape_range() {
    fastrand::seed(7);
    let mut w = WrappingUnit::new(fastrand::i64(..));
    let mut s = SaturatingUnit::new(fastrand::i64(..));
    for _ in 0..1000 {
        let d = fastrand::i64(..);
        w.add(d);
        s.add(d);
        assert!(w.value() < UNIT);
        assert!(s.value() <= UNIT);
    }
}

#[test]
fn wrap_correctness() {
    // 0.3 + 0.9 wraps to 0.2
    let mut w = WrappingUnit::new(1080);
    w.add(3240);
    assert_eq!(w.value(), 720);
    // 0.1 - 0.3 wraps to 0.8
    let mut w2 = WrappingUnit::new(360);
    w2.add(-1080);
    assert_eq!(w2.value(), 2880);
}

#[test]
fn saturation_correctness() {
    // 0.9 + 0.5 clamps to 1.0
    let mut s = SaturatingUnit::new(3240);
    s.add(1800);
    assert_eq!(s.value(), UNIT);
    // 0.1 - 0.5 clamps to 0.0
    let mut s2 = SaturatingUnit::new(360);
    s2.add(-1800);
    assert_eq!(s2.value(), 0);
}

#[test]
fn handle_constructors() {
    assert_eq!(SlideHandle::left().t.value(), 0);
    assert_eq!(SlideHandle::right().t.value(), UNIT);
    assert_eq!(RotateHandle::up().t.value(), 0);
    assert_eq!(RotateHandle::down().t.value(), HALF_UNIT);
    assert_eq!(PathHandle::new(7300).t.value(), 100);
}

#[test]
fn face_back_band() {
    // pitch band [0.25, 0.75] shows the back face
    assert!(!CubeRotation::new(0, 899).is_face_back());
    assert!(CubeRotation::new(0, 900).is_face_back());
    assert!(CubeRotation::new(0, 1800).is_face_back());
    assert!(CubeRotation::new(0, 2700).is_face_back());
    assert!(!CubeRotation::new(0, 2701).is_face_back());
    // the startup pitch of -0.05 shows the front face
    assert!(!CubeRotation::new(1800, -180).is_face_back());
}

#[test]
fn timer_progress() {
    let mut t = Timer::from_millis(200);
    assert_eq!(t.percent(), 0);
    assert!(!t.finished());
    t.tick(100);
    assert_eq!(t.percent(), 1800);
    assert!(!t.finished());
    t.tick(150);
    assert_eq!(t.percent(), UNIT);
    assert!(t.finished());
    let mut z = Timer::from_millis(0);
    z.tick(0);
    assert_eq!(z.percent(), UNIT);
    assert!(z.finished());
}

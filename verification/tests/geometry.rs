use ball_cube::bezier::{linear, quadratic, cubic, Path, ControlPoint};
use ball_cube::descriptor::{BallPath, CubeDescriptor, snap3, PATH_OUTSIDE_ORIGIN_X,
    PATH_SIDE_ORIGIN_Y};
use ball_cube::geom::{Vec3, Vec2, SensorBox};
use ball_cube::input::isqrt;

#[test]
fn linear_interpolates_exactly() {
    assert_eq!(linear(0, 100, 0), 0);
    assert_eq!(linear(0, 100, 3600), 100);
    assert_eq!(linear(0, 100, 1800), 50);
    assert_eq!(linear(-43300, 43300, 1800), 0);
    assert_eq!(linear(-43300, 43300, 3600), 43300);
}

#[test]
fn quadratic_interpolates_exactly() {
    assert_eq!(quadratic(0, 100, 200, 0), 0);
    assert_eq!(quadratic(0, 100, 200, 3600), 200);
    assert_eq!(quadratic(0, 100, 200, 1800), 100);
}

#[test]
fn cubic_interpolates_exactly() {
    assert_eq!(cubic(0, 0, 0, 1000000, 1800), 125000);
    assert_eq!(cubic(1000000, 0, 0, 0, 1800), 125000);
    assert_eq!(cubic(7, 8, 9, 10, 0), 7);
    assert_eq!(cubic(7, 8, 9, 10, 3600), 10);
}

#[test]
fn path_closure_at_ends() {
    let p = BallPath::right();
    // at parameter 0 the path sits exactly on the first control point
    let start = p.evaluate(ball_cube::component::PathHandle::new(0));
    assert_eq!(start.x, PATH_OUTSIDE_ORIGIN_X);
    assert_eq!(start.y, -PATH_SIDE_ORIGIN_Y);
    assert_eq!(start.z, 0);
    // approaching 1 from below it comes back to the same point
    let near_end = p.evaluate(ball_cube::component::PathHandle::new(3599));
    assert!((near_end.x - PATH_OUTSIDE_ORIGIN_X).abs() < 1000);
    assert!((near_end.y - -PATH_SIDE_ORIGIN_Y).abs() < 1000);
    assert_eq!(near_end.z, 0);
}

#[test]
fn reverse_involution() {
    let reference = BallPath::right();
    let mut p = BallPath::right();
    p.0.reverse();
    p.0.reverse();
    assert_eq!(p.0.cp.len(), reference.0.cp.len());
    for k in 0..p.0.cp.len() {
        assert_eq!(p.0.cp[k], reference.0.cp[k]);
    }
    // and the doubly reversed path evaluates to the same positions
    for t in [0u32, 500, 1700, 2900, 3599] {
        let h = ball_cube::component::PathHandle::new(t as i64);
        assert_eq!(p.evaluate(h), reference.evaluate(h));
    }
}

#[test]
fn reverse_swaps_tangents() {
    let mut p = Path {
        cp: vec![
            ControlPoint {
                backward: Vec3::new(1, 0, 0),
                origin: Vec3::new(2, 0, 0),
                forward: Vec3::new(3, 0, 0),
            },
            ControlPoint {
                backward: Vec3::new(4, 0, 0),
                origin: Vec3::new(5, 0, 0),
                forward: Vec3::new(6, 0, 0),
            },
        ],
    };
    p.reverse();
    assert_eq!(p.cp[0].backward, Vec3::new(6, 0, 0));
    assert_eq!(p.cp[0].origin, Vec3::new(5, 0, 0));
    assert_eq!(p.cp[0].forward, Vec3::new(4, 0, 0));
    assert_eq!(p.cp[1].backward, Vec3::new(3, 0, 0));
    assert_eq!(p.cp[1].origin, Vec3::new(2, 0, 0));
    assert_eq!(p.cp[1].forward, Vec3::new(1, 0, 0));
}

#[test]
fn snap_lattice() {
    assert_eq!(snap3(0), 0);
    assert_eq!(snap3(899), 0);
    assert_eq!(snap3(900), 1800);
    assert_eq!(snap3(1800), 1800);
    assert_eq!(snap3(2700), 1800);
    assert_eq!(snap3(2701), 3600);
    assert_eq!(snap3(3600), 3600);
}

#[test]
fn snap_idempotence() {
    for t in [0u32, 1, 899, 900, 1799, 1800, 2700, 2701, 3599, 3600] {
        assert_eq!(snap3(snap3(t)), snap3(t));
    }
}

#[test]
fn first_ball_snap() {
    let cube = CubeDescriptor::default();
    // ball step is 1/18 of the range; 0.02 of the range is 72 units
    assert_eq!(cube.ball_step(), 200);
    assert_eq!(cube.path_snap_first(72), 0);
    // 0.05 of the range is 180 units, above the half step of 100
    assert_eq!(cube.path_snap_first(180), 200);
    assert_eq!(cube.path_snap_first(100), 0);
    assert_eq!(cube.path_snap_first(101), 200);
}

#[test]
fn canonical_handles() {
    let cube = CubeDescriptor::default();
    let handles = cube.ball_init_handles();
    assert_eq!(handles.len(), 64);
    for (i, h) in handles.iter().enumerate() {
        let (path, slide, rotate) = expected_slot(i);
        assert_eq!(h.path.t.value(), path, "slot {}", i);
        assert_eq!(h.slide.t.value(), slide, "slot {}", i);
        assert_eq!(h.rotate.t.value(), rotate, "slot {}", i);
    }
}

fn expected_slot(i: usize) -> (u32, u32, u32) {
    if i < 18 {
        ((i as u32) * 200, 0, 0)
    } else if i < 32 {
        ((i as u32 - 14) * 200, 3600, 0)
    } else if i < 50 {
        ((i as u32 - 32) * 200, 0, 1800)
    } else {
        ((i as u32 - 46) * 200, 3600, 1800)
    }
}

#[test]
fn sensor_boxes() {
    let cube = CubeDescriptor::default();
    let b = cube.ball_sensor_box();
    assert_eq!((b.max_x, b.max_y, b.max_z), (136700, 242490, 25000));
    let s = cube.slide_sensor_box();
    assert_eq!((s.max_x, s.max_y, s.max_z), (73300, 120000, 95000));
    let r = cube.rotate_sensor_box();
    assert_eq!((r.max_x, r.max_y, r.max_z), (150000, 60000, 100000));
    assert_eq!(b.min_x, -b.max_x);
}

#[test]
fn sensor_box_membership() {
    let b = SensorBox::new(200, 200, 200);
    let s = ball_cube::component::BallSensor::new(b, 4);
    assert!(s.intersect_point(Vec3::new(0, 0, 0)));
    assert!(s.intersect_point(Vec3::new(100, -100, 100)));
    assert!(!s.intersect_point(Vec3::new(101, 0, 0)));
    assert!(!s.intersect_point(Vec3::new(0, 0, -101)));
}

#[test]
fn path_sign_quadrants() {
    let cube = CubeDescriptor::default();
    let down_drag = Vec2::new(0, 1000);
    let right_drag = Vec2::new(1000, 0);
    let right_o = Vec3::new(100000, 0, 0);
    let left_o = Vec3::new(-100000, 0, 0);
    // vertical drags pick the vertical rule, keyed on which side of the
    // symmetry plane the hit point sits
    assert_eq!(cube.path_sign(right_o, Vec3::new(0, 0, 0), down_drag), -1000);
    assert_eq!(cube.path_sign(right_o, Vec3::new(200000, 0, 0), down_drag), 1000);
    assert_eq!(cube.path_sign(left_o, Vec3::new(-200000, 0, 0), down_drag), 1000);
    assert_eq!(cube.path_sign(left_o, Vec3::new(0, 0, 0), down_drag), -1000);
    // horizontal drags pick the horizontal rule, keyed on the hit
    // point's height and flipped between the two tracks
    assert_eq!(cube.path_sign(right_o, Vec3::new(0, 50000, 0), right_drag), 1000);
    assert_eq!(cube.path_sign(right_o, Vec3::new(0, -50000, 0), right_drag), -1000);
    assert_eq!(cube.path_sign(left_o, Vec3::new(0, 50000, 0), right_drag), -1000);
    assert_eq!(cube.path_sign(left_o, Vec3::new(0, -50000, 0), right_drag), 1000);
}

#[test]
fn isqrt_values() {
    assert_eq!(isqrt(0), 0);
    assert_eq!(isqrt(1), 1);
    assert_eq!(isqrt(3), 1);
    assert_eq!(isqrt(4), 2);
    assert_eq!(isqrt(999999), 999);
    assert_eq!(isqrt(1000000), 1000);
    assert_eq!(isqrt(u64::MAX), 4294967295);
}

#[test]
fn rotate_path_turns() {
    let cube = CubeDescriptor::default();
    assert_eq!(cube.rotate_path.evaluate(ball_cube::component::RotateHandle::up()), 0);
    assert_eq!(cube.rotate_path.evaluate(ball_cube::component::RotateHandle::down()), 1800);
}

#[test]
fn slide_path_offsets() {
    let cube = CubeDescriptor::default();
    let left = cube.slide_path.evaluate(ball_cube::component::SlideHandle::left());
    let right = cube.slide_path.evaluate(ball_cube::component::SlideHandle::right());
    assert_eq!(left, Vec3::new(-43300, 0, 0));
    assert_eq!(right, Vec3::new(43300, 0, 0));
}

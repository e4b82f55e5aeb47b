use ball_cube::cube::{World, TickInput, initial_colors};
use ball_cube::component::{BallColor, MovementKind, GrabbingSensor, Movement, SensorLabel};
use ball_cube::geom::{Vec2, Vec3};
use ball_cube::input::{grab, drag, key, apply_movement, reset, is_permutation, KeyPresses,
    cube_rotate};
use ball_cube::AppState;

/// The up translation rotated by a rotate handle, computed with the
/// host-side trigonometry the library leaves outside.
fn up_of(rotate_units: u32) -> Vec3 {
    let theta = rotate_units as f64 / 3600.0 * std::f64::consts::TAU;
    Vec3::new(
        (60000.0 * theta.sin()).round() as i64,
        0,
        (60000.0 * theta.cos()).round() as i64,
    )
}

fn ups_for(w: &World) -> Vec<Vec3> {
    w.balls.iter().map(|b| up_of(b.rotate.t.value())).collect()
}

fn no_keys() -> KeyPresses {
    KeyPresses {
        forward: false,
        backward: false,
        slide_left: false,
        slide_right: false,
        rotate_forward: false,
        rotate_backward: false,
        flip_face: false,
        shuffle: false,
        restore: false,
    }
}

fn quiet_input(w: &World) -> TickInput {
    TickInput {
        delta_ms: 16,
        mouse_pressed: false,
        mouse_just_pressed: false,
        mouse_just_released: false,
        motion: Vec2::new(0, 0),
        pick: None,
        cursor_pos: None,
        keys: no_keys(),
        ups: ups_for(w),
    }
}

#[test]
fn startup_group_a_is_complete() {
    let mut w = World::new();
    let input = quiet_input(&w);
    w.tick(&input);
    let s = &w.sensors[0].sensor;
    assert_eq!(w.sensors[0].label, SensorLabel::GroupA);
    assert!(s.is_full());
    assert_eq!(s.detail.len(), 18);
    for (rank, entry) in s.detail.iter().enumerate() {
        assert_eq!(entry.2, rank as u32 * 200);
    }
    // the slide and rotate block groups are complete at startup too
    assert!(w.sensors[4].sensor.is_full());
    assert_eq!(w.sensors[4].sensor.detail.len(), 8);
    assert!(w.sensors[5].sensor.is_full());
    assert_eq!(w.sensors[5].sensor.detail.len(), 4);
}

#[test]
fn incomplete_grab_is_inert() {
    let mut w = World::new();
    // before any rescan every sensor is empty, so no group is complete
    let before = w.grab.grabbing;
    let taken = grab(
        true,
        false,
        Some((0, Vec3::new(-150000, 0, 60000))),
        &w.sensors,
        &mut w.grab,
        &mut w.snap_events,
    );
    assert!(!taken);
    assert_eq!(w.grab.grabbing.is_some(), before.is_some());
    assert!(w.grab.grabbing.is_none());
    assert_eq!(w.snap_events.len(), 0);
}

#[test]
fn grab_out_of_range_pick_is_inert() {
    let mut w = World::new();
    let taken = grab(true, false, Some((99, Vec3::new(0, 0, 0))), &w.sensors, &mut w.grab,
        &mut w.snap_events);
    assert!(!taken);
    assert!(w.grab.grabbing.is_none());
}

#[test]
fn end_to_end_drag_and_snap() {
    let mut w = World::new();
    let input = quiet_input(&w);
    w.tick(&input);
    assert!(w.sensors[0].sensor.is_full());

    // press on the complete group.a sensor
    let mut press = quiet_input(&w);
    press.mouse_just_pressed = true;
    press.pick = Some((0, Vec3::new(-150000, 0, 60000)));
    w.tick(&press);
    let g = w.grab.grabbing.expect("grab taken");
    assert_eq!(g.kind, MovementKind::Path);
    assert_eq!(g.entity, 0);

    // drag every member forward by one ball step
    let members: Vec<usize> = w.sensors[0].sensor.detail.iter().map(|e| e.0).collect();
    let before: Vec<u32> = members.iter().map(|&e| w.balls[e].path.t.value()).collect();
    let m = Movement { grabbing: g, movement: 200 };
    apply_movement(Some(m), &w.sensors, &mut w.balls, &mut w.slide_block,
        &mut w.rotate_block_slide, &mut w.rotate_block);
    for (k, &e) in members.iter().enumerate() {
        assert_eq!(w.balls[e].path.t.value(), (before[k] + 200) % 3600);
    }

    // release: the snap event resolves in the same tick
    let mut release = quiet_input(&w);
    release.mouse_just_released = true;
    w.tick(&release);
    assert!(w.grab.grabbing.is_none());
    assert_eq!(w.state, AppState::Pause);
    assert_eq!(w.animations.len(), 18);
    // every member was already on a canonical step, so every animation
    // has zero net movement
    for rec in w.animations.iter() {
        assert_eq!(rec.animation.movement, 0);
    }

    // the animations complete and the world resumes interaction
    let mut finish = quiet_input(&w);
    finish.delta_ms = 200;
    w.tick(&finish);
    assert_eq!(w.animations.len(), 0);
    w.tick(&quiet_input(&w));
    assert_eq!(w.state, AppState::InGame);
    for (k, &e) in members.iter().enumerate() {
        assert_eq!(w.balls[e].path.t.value(), (before[k] + 200) % 3600);
    }
}

#[test]
fn reset_restores_canonical_slots() {
    let mut w = World::new();
    // shuffle scrambles the slot assignment
    reset(true, false, &w.cube, &mut w.balls, &mut w.slide_block, &mut w.rotate_block_slide,
        &mut w.rotate_block);
    // move the blocks away from home too
    w.slide_block.t.add(900);
    w.rotate_block.t.add(900);
    // reset restores every ball's exact canonical triple
    reset(false, true, &w.cube, &mut w.balls, &mut w.slide_block, &mut w.rotate_block_slide,
        &mut w.rotate_block);
    for i in 0..64usize {
        let (path, slide, rotate) = expected_slot(i);
        assert_eq!(w.balls[i].path.t.value(), path, "slot {}", i);
        assert_eq!(w.balls[i].slide.t.value(), slide, "slot {}", i);
        assert_eq!(w.balls[i].rotate.t.value(), rotate, "slot {}", i);
    }
    assert_eq!(w.slide_block.t.value(), 0);
    assert_eq!(w.rotate_block_slide.t.value(), 0);
    assert_eq!(w.rotate_block.t.value(), 0);
}

fn expected_slot(i: usize) -> (u32, u32, u32) {
    if i < 18 {
        ((i as u32) * 200, 0, 0)
    } else if i < 32 {
        ((i as u32 - 14) * 200, 3600, 0)
    } else if i < 50 {
        ((i as u32 - 32) * 200, 0, 1800)
    } else {
        ((i as u32 - 46) * 200, 3600, 1800)
    }
}

#[test]
fn shuffle_keeps_every_canonical_slot_occupied() {
    let mut w = World::new();
    reset(true, false, &w.cube, &mut w.balls, &mut w.slide_block, &mut w.rotate_block_slide,
        &mut w.rotate_block);
    let mut seen = vec![false; 64];
    for i in 0..64usize {
        let triple = (
            w.balls[i].path.t.value(),
            w.balls[i].slide.t.value(),
            w.balls[i].rotate.t.value(),
        );
        let slot = (0..64usize).find(|&j| expected_slot(j) == triple).expect("canonical slot");
        assert!(!seen[slot], "slot occupied twice");
        seen[slot] = true;
    }
}

#[test]
fn initial_colors_are_balanced() {
    let colors = initial_colors();
    assert_eq!(colors.len(), 64);
    for c in [BallColor::A, BallColor::B, BallColor::C, BallColor::D] {
        assert_eq!(colors.iter().filter(|&&x| x == c).count(), 16);
    }
}

#[test]
fn permutation_check() {
    assert!(is_permutation(&vec![0, 1, 2, 3], 4));
    assert!(is_permutation(&vec![3, 1, 0, 2], 4));
    assert!(!is_permutation(&vec![0, 1, 2], 4));
    assert!(!is_permutation(&vec![0, 1, 2, 2], 4));
    assert!(!is_permutation(&vec![0, 1, 2, 4], 4));
}

#[test]
fn drag_resolves_slide_movement() {
    let mut w = World::new();
    w.tick(&quiet_input(&w));
    w.grab.grabbing = Some(GrabbingSensor { kind: MovementKind::Slide, entity: 4 });
    // a rightward drag of one pixel (1000 milli-pixels) moves a slide
    // group by 36 units
    let m = drag(&w.cube, &w.grab, &w.rotation, Vec2::new(1000, 0), Some(Vec3::new(0, 0, 0)));
    let m = m.expect("movement");
    assert_eq!(m.grabbing.entity, 4);
    assert_eq!(m.movement, 36);
    // a leftward drag moves it the other way
    let m2 = drag(&w.cube, &w.grab, &w.rotation, Vec2::new(-1000, 0), Some(Vec3::new(0, 0, 0)));
    assert_eq!(m2.expect("movement").movement, -36);
    // without a drag-plane hit nothing moves
    assert!(drag(&w.cube, &w.grab, &w.rotation, Vec2::new(1000, 0), None).is_none());
}

#[test]
fn key_moves_the_facing_group() {
    let mut w = World::new();
    w.tick(&quiet_input(&w));
    let mut keys = no_keys();
    keys.forward = true;
    let m = key(keys, &w.cube, &mut w.rotation, &w.slide_block, &w.sensors)
        .expect("movement");
    // front face, slide block on the left: group.a moves forward
    assert_eq!(m.grabbing.kind, MovementKind::Path);
    assert_eq!(m.grabbing.entity, 0);
    assert_eq!(m.movement, 200);
}

#[test]
fn flip_face_key_toggles_pitch() {
    let mut w = World::new();
    let mut keys = no_keys();
    keys.flip_face = true;
    // startup pitch shows the front; the flip turns the cube over
    let r = key(keys, &w.cube, &mut w.rotation, &w.slide_block, &w.sensors);
    assert!(r.is_none());
    assert_eq!(w.rotation.pitch.value(), 1620);
    assert!(w.rotation.is_face_back());
    key(keys, &w.cube, &mut w.rotation, &w.slide_block, &w.sensors);
    assert_eq!(w.rotation.pitch.value(), 3420);
    assert!(!w.rotation.is_face_back());
}

#[test]
fn free_look_rotation() {
    let mut w = World::new();
    let yaw0 = w.rotation.yaw.value();
    cube_rotate(false, true, Vec2::new(100000, 50000), &mut w.rotation);
    // yaw moves by x / 100 of the range, pitch by y / 200
    assert_eq!(w.rotation.yaw.value(), (yaw0 + 3600).min(3600));
    // while grabbing, the free look is inert
    let pitch = w.rotation.pitch.value();
    cube_rotate(true, true, Vec2::new(100000, 50000), &mut w.rotation);
    assert_eq!(w.rotation.pitch.value(), pitch);
}

#[test]
fn slide_snap_returns_to_a_lattice_stop() {
    let mut w = World::new();
    w.tick(&quiet_input(&w));
    assert!(w.sensors[4].sensor.is_full());
    // drag the slide group a quarter of the way
    let g = GrabbingSensor { kind: MovementKind::Slide, entity: 4 };
    apply_movement(Some(Movement { grabbing: g, movement: 900 }), &w.sensors, &mut w.balls,
        &mut w.slide_block, &mut w.rotate_block_slide, &mut w.rotate_block);
    assert_eq!(w.slide_block.t.value(), 900);
    assert_eq!(w.rotate_block_slide.t.value(), 900);
    // a release while complete snaps everything to the middle stop
    w.snap_events.push(ball_cube::component::SnapEvent(g));
    let members: Vec<usize> = w.sensors[4].sensor.detail.iter().map(|e| e.0).collect();
    w.snap();
    assert_eq!(w.state, AppState::Pause);
    assert_eq!(w.animations.len(), 2 + members.len());
    for rec in w.animations.iter() {
        assert_eq!(rec.animation.movement, 900);
        assert_eq!(rec.animation.base, 900);
    }
    w.animation(200);
    assert_eq!(w.animations.len(), 0);
    assert_eq!(w.slide_block.t.value(), 1800);
    assert_eq!(w.rotate_block_slide.t.value(), 1800);
    for &e in members.iter() {
        assert_eq!(w.balls[e].slide.t.value(), 1800);
    }
}

#[test]
fn path_animation_wraps_around_the_ring() {
    let mut w = World::new();
    w.state = AppState::Pause;
    w.animations.push(ball_cube::component::AnimRecord {
        target: ball_cube::component::AnimTarget::Ball(0),
        animation: ball_cube::component::Animation {
            kind: MovementKind::Path,
            movement: 400,
            base: 3400,
        },
        timer: ball_cube::component::Timer::from_millis(200),
    });
    // halfway through, the handle sits halfway along the movement
    w.animation(100);
    assert_eq!(w.balls[0].path.t.value(), 0);
    assert_eq!(w.animations.len(), 1);
    // at completion it has wrapped past the ring's end
    w.animation(100);
    assert_eq!(w.balls[0].path.t.value(), 200);
    assert_eq!(w.animations.len(), 0);
    // with no records left, the next pass resumes interaction
    w.animation(16);
    assert_eq!(w.state, AppState::InGame);
}

#[test]
fn sensor_member_listing() {
    let mut w = World::new();
    w.tick(&quiet_input(&w));
    let ids = w.sensors[0].sensor.entities();
    assert_eq!(ids.len(), 18);
    for (k, &e) in ids.iter().enumerate() {
        assert_eq!(e, w.sensors[0].sensor.detail[k].0);
    }
}

#[test]
fn color_letters() {
    assert_eq!(BallColor::A.to_char(), 'A');
    assert_eq!(BallColor::B.to_char(), 'B');
    assert_eq!(BallColor::C.to_char(), 'C');
    assert_eq!(BallColor::D.to_char(), 'D');
}

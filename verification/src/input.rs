//! Resolution of per-tick inputs into grabs, drags and handle movements.
//!
//! Every function here is a pure step of the interaction state machine:
//! it takes the tick's sampled inputs and the parts of the world it may
//! touch, and leaves everything else alone. The host samples devices and
//! resolves picking; this module decides.

use vstd::prelude::*;
use crate::range01::{UNIT, HALF_UNIT, wrap_unit, clamp_unit, WrappingUnit};
use crate::geom::{Vec2, Vec3};
use crate::component::{Ball, BallColor, SensorEntry, BallSensor, GrabStatus, GrabbingSensor,
    SnapEvent, Movement, MovementKind, SensorLabel, CubeRotation, SlideHandle, RotateHandle,
    members_ok, is_member};
use crate::descriptor::{CubeDescriptor, BALL_STEP, init_path_units, init_slide_units,
    init_rotate_units};

verus! {

/// Bound on the screen-space motion a tick may carry, in milli-pixels;
/// keeps the damping arithmetic within machine range.
pub const MOTION_LIMIT: i64 = 1000000000;

/// `r` is the whole-number square root of `n`.
pub open spec fn is_isqrt(n: int, r: int) -> bool {
    r >= 0 && r * r <= n < (r + 1) * (r + 1)
}

/// The whole-number square root, as a function.
pub open spec fn isqrt_spec(n: int) -> int {
    choose|r: int| is_isqrt(n, r)
}

/// The whole-number square root is unique.
pub proof fn lemma_isqrt_unique(n: int, a: int, b: int)
    requires
        is_isqrt(n, a),
        is_isqrt(n, b),
    ensures
        a == b,
{
    assert(a == b) by (nonlinear_arith)
        requires
            a >= 0 && a * a <= n < (a + 1) * (a + 1),
            b >= 0 && b * b <= n < (b + 1) * (b + 1),
    ;
}

/// The whole-number square root of a machine word, by binary search.
pub fn isqrt(n: u64) -> (r: u64)
    ensures
        is_isqrt(n as int, r as int),
        r == isqrt_spec(n as int),
{
    let mut lo: u64 = 0;
    let mut hi: u64 = 4294967296;
    proof {
        assert((n as int) < 4294967296 * 4294967296) by (nonlinear_arith)
            requires n <= 0xffff_ffff_ffff_ffffu64;
    }
    while hi - lo > 1
        invariant
            lo < hi <= 4294967296,
            lo * lo <= n,
            (n as int) < (hi as int) * (hi as int),
        decreases hi - lo,
    {
        let mid = lo + (hi - lo) / 2;
        proof {
            assert((mid as int) * (mid as int) < 4294967296 * 4294967296) by (nonlinear_arith)
                requires 0 <= mid as int && (mid as int) < 4294967296;
            assert((lo as int) * (lo as int) <= (mid as int) * (mid as int)
                && (mid as int) * (mid as int) <= 4294967295 * 4294967295) by (nonlinear_arith)
                requires 0 <= lo as int <= mid as int <= 4294967295;
        }
        let sq: u64 = mid * mid;
        if sq <= n {
            lo = mid;
        } else {
            hi = mid;
        }
    }
    proof {
        assert(hi == lo + 1);
        assert(is_isqrt(n as int, lo as int));
        lemma_isqrt_unique(n as int, lo as int, isqrt_spec(n as int));
    }
    lo
}

/// Euclidean division by the milli-pixel scale.
fn div_milli(x: i64) -> (r: i64)
    ensures
        r == (x as int) / 1000,
{
    match x.checked_div_euclid(1000) {
        Some(q) => q,
        None => {
            proof {
                assert(false);
            }
            0
        }
    }
}

/// A damped drag magnitude: a milli-pixel length scaled into handle
/// units, floor-divided back to whole units.
pub open spec fn damped(len: int, mult: int) -> int {
    (len * mult) / 1000
}

/// A damped magnitude carrying the sign of its selector: nonnegative
/// selectors move forward, negative ones backward.
pub open spec fn signed_damped(s: int, len: int, mult: int) -> int {
    if s >= 0 {
        damped(len, mult)
    } else {
        -damped(len, mult)
    }
}

/// The euclidean length of a tick's motion vector, in milli-pixels.
pub open spec fn motion_len(v: Vec2) -> int {
    isqrt_spec(v.x * v.x + v.y * v.y)
}

/// Which keys the host saw pressed this tick.
#[derive(Clone, Copy, Debug, PartialEq, Eq, Structural)]
pub struct KeyPresses {
    pub forward: bool,
    pub backward: bool,
    pub slide_left: bool,
    pub slide_right: bool,
    pub rotate_forward: bool,
    pub rotate_backward: bool,
    pub flip_face: bool,
    pub shuffle: bool,
    pub restore: bool,
}

/// The movement command a set of key presses asks for, if any: a kind
/// and a raw signed handle delta, before any face-dependent sign flip.
/// When several keys land in one tick the later-checked one wins, and
/// the face-flip key cancels them all.
pub open spec fn key_command(k: KeyPresses) -> Option<(MovementKind, int)> {
    if k.flip_face {
        None
    } else if k.rotate_backward {
        Some((MovementKind::Rotate, -(HALF_UNIT as int)))
    } else if k.rotate_forward {
        Some((MovementKind::Rotate, HALF_UNIT as int))
    } else if k.slide_right {
        Some((MovementKind::Slide, UNIT as int))
    } else if k.slide_left {
        Some((MovementKind::Slide, -(UNIT as int)))
    } else if k.backward {
        Some((MovementKind::Path, -(BALL_STEP as int)))
    } else if k.forward {
        Some((MovementKind::Path, BALL_STEP as int))
    } else {
        None
    }
}

/// What the grab state looks like after the press phase: a press on a
/// complete sensor takes the grab, anything else leaves it alone.
pub open spec fn grab_after_press(
    just_pressed: bool,
    pick: Option<(usize, Vec3)>,
    sensors: Seq<SensorEntry>,
    g: GrabStatus,
) -> GrabStatus {
    if just_pressed {
        match pick {
            Some((si, point)) => {
                if si < sensors.len() && sensors[si as int].sensor.is_full_spec() {
                    GrabStatus {
                        grabbing: Some(GrabbingSensor {
                            kind: sensors[si as int].kind,
                            entity: si,
                        }),
                        origin: point,
                    }
                } else {
                    g
                }
            },
            None => g,
        }
    } else {
        g
    }
}

/// The press phase gives up early — leaving release handling to a later
/// tick — when the press hits nothing that resolves to a sensor.
pub open spec fn grab_aborts(
    just_pressed: bool,
    pick: Option<(usize, Vec3)>,
    sensors: Seq<SensorEntry>,
) -> bool {
    just_pressed && match pick {
        Some((si, _)) => si >= sensors.len(),
        None => true,
    }
}

/// A grab attempt on an incomplete group never changes the grab state.
pub proof fn lemma_incomplete_grab_inert(
    pick: Option<(usize, Vec3)>,
    sensors: Seq<SensorEntry>,
    g: GrabStatus,
)
    requires
        pick matches Some((si, _)) && si < sensors.len()
            && !sensors[si as int].sensor.is_full_spec(),
    ensures
        grab_after_press(true, pick, sensors, g) == g,
{
}

/// The grab/release edge handler: a press on a complete sensor takes the
/// single grab slot; a release turns the held grab into a snap event.
/// Returns whether a grab is held when it is done.
pub fn grab(
    just_pressed: bool,
    just_released: bool,
    pick: Option<(usize, Vec3)>,
    sensors: &Vec<SensorEntry>,
    grab_status: &mut GrabStatus,
    snap_events: &mut Vec<SnapEvent>,
) -> (is_grabbing: bool)
    ensures
        grab_aborts(just_pressed, pick, sensors@) ==> *final(grab_status) == *old(grab_status)
            && final(snap_events)@ == old(snap_events)@ && !is_grabbing,
        !grab_aborts(just_pressed, pick, sensors@) ==> ({
            let g1 = grab_after_press(just_pressed, pick, sensors@, *old(grab_status));
            match g1.grabbing {
                Some(held) => {
                    if just_released {
                        &&& final(grab_status).grabbing is None
                        &&& final(grab_status).origin == g1.origin
                        &&& final(snap_events)@ == old(snap_events)@.push(SnapEvent(held))
                        &&& !is_grabbing
                    } else {
                        &&& *final(grab_status) == g1
                        &&& final(snap_events)@ == old(snap_events)@
                        &&& is_grabbing
                    }
                },
                None => {
                    &&& *final(grab_status) == g1
                    &&& final(snap_events)@ == old(snap_events)@
                    &&& !is_grabbing
                },
            }
        }),
{
    if just_pressed {
        let (si, point) = match pick {
            Some(p) => p,
            None => {
                return false;
            }
        };
        if si >= sensors.len() {
            return false;
        }
        let entry = &sensors[si];
        if entry.sensor.is_full() {
            grab_status.grabbing = Some(GrabbingSensor { kind: entry.kind, entity: si });
            grab_status.origin = point;
        }
    }
    if just_released {
        let held = grab_status.grabbing;
        if let Some(g) = held {
            grab_status.grabbing = None;
            snap_events.push(SnapEvent(g));
        }
    }
    grab_status.grabbing.is_some()
}

/// Free-look rotation of the whole cube: while no grab is held and the
/// button is down, the tick's motion turns into yaw and pitch deltas,
/// with their own damping.
pub fn cube_rotate(
    is_grabbing: bool,
    mouse_pressed: bool,
    motion: Vec2,
    rotation: &mut CubeRotation,
)
    requires
        -MOTION_LIMIT <= motion.x <= MOTION_LIMIT,
        -MOTION_LIMIT <= motion.y <= MOTION_LIMIT,
    ensures
        is_grabbing || !mouse_pressed ==> *final(rotation) == *old(rotation),
        !is_grabbing && mouse_pressed ==> ({
            &&& final(rotation).yaw.value_spec()
                == clamp_unit(old(rotation).yaw.value_spec() + damped(motion.x as int, 36))
            &&& final(rotation).pitch.value_spec()
                == wrap_unit(old(rotation).pitch.value_spec() + damped(motion.y as int, 18))
        }),
{
    if is_grabbing {
        return ;
    }
    if mouse_pressed {
        rotation.yaw.add(div_milli(motion.x * 36));
        rotation.pitch.add(div_milli(motion.y * 18));
    }
}

/// The signed handle delta a drag resolves to, given the grab kind, the
/// grab origin, the cursor's world hit point and the tick's screen
/// motion: the motion's length, damped per kind, carrying the sign of
/// the kind's selector — the quadrant table for a path, the horizontal
/// component for a slide or a rotation — flipped when the back face
/// shows.
pub open spec fn drag_movement(
    cube: CubeDescriptor,
    rotation: CubeRotation,
    origin: Vec3,
    cp: Vec3,
    v: Vec2,
    kind: MovementKind,
) -> int {
    let len = motion_len(v);
    match kind {
        MovementKind::Path => {
            let s0 = CubeDescriptor::path_sign_spec(origin, cp, v);
            let s = if rotation.is_face_back_spec() {
                -s0
            } else {
                s0
            };
            signed_damped(s, len, 6)
        },
        MovementKind::Slide => signed_damped(v.x as int, len, 36),
        MovementKind::Rotate => {
            let s = if rotation.is_face_back_spec() {
                -(v.x as int)
            } else {
                v.x as int
            };
            signed_damped(s, len, 18)
        },
    }
}

/// Resolve a drag frame: while a grab is held and the pointer ray still
/// meets the drag plane, the tick's motion becomes a movement of the
/// grabbed group.
pub fn drag(
    cube: &CubeDescriptor,
    grab_status: &GrabStatus,
    rotation: &CubeRotation,
    motion: Vec2,
    cursor_pos: Option<Vec3>,
) -> (r: Option<Movement>)
    requires
        -MOTION_LIMIT <= motion.x <= MOTION_LIMIT,
        -MOTION_LIMIT <= motion.y <= MOTION_LIMIT,
    ensures
        grab_status.grabbing is None ==> r is None,
        grab_status.grabbing matches Some(g) ==> match cursor_pos {
            Some(cp) => r matches Some(m) && m.grabbing == g && m.movement
                == drag_movement(*cube, *rotation, grab_status.origin, cp, motion, g.kind),
            None => r is None,
        },
{
    let g = match grab_status.grabbing {
        Some(g) => g,
        None => {
            return None;
        }
    };
    let cp = match cursor_pos {
        Some(c) => c,
        None => {
            return None;
        }
    };
    proof {
        assert(motion.x * motion.x <= MOTION_LIMIT * MOTION_LIMIT
            && motion.y * motion.y <= MOTION_LIMIT * MOTION_LIMIT
            && motion.x * motion.x >= 0 && motion.y * motion.y >= 0) by (nonlinear_arith)
            requires
                -MOTION_LIMIT <= motion.x <= MOTION_LIMIT,
                -MOTION_LIMIT <= motion.y <= MOTION_LIMIT,
        ;
    }
    let n: u64 = (motion.x * motion.x) as u64 + (motion.y * motion.y) as u64;
    let len_u = isqrt(n);
    proof {
        assert((len_u as int) <= 2000000000) by (nonlinear_arith)
            requires
                is_isqrt(n as int, len_u as int),
                n as int <= 2 * (MOTION_LIMIT as int) * (MOTION_LIMIT as int),
                MOTION_LIMIT == 1000000000,
        ;
    }
    let len = len_u as i64;
    let movement: i64 = match g.kind {
        MovementKind::Path => {
            let s0 = cube.path_sign(grab_status.origin, cp, motion);
            let s = if rotation.is_face_back() {
                -s0
            } else {
                s0
            };
            let mag = div_milli(len * 6);
            if s >= 0 {
                mag
            } else {
                -mag
            }
        },
        MovementKind::Slide => {
            let mag = div_milli(len * 36);
            if motion.x >= 0 {
                mag
            } else {
                -mag
            }
        },
        MovementKind::Rotate => {
            let s = if rotation.is_face_back() {
                -motion.x
            } else {
                motion.x
            };
            let mag = div_milli(len * 18);
            if s >= 0 {
                mag
            } else {
                -mag
            }
        },
    };
    Some(Movement { grabbing: g, movement })
}

/// `si` is the first index in the sensor list that carries the label.
pub open spec fn first_label_at(s: Seq<SensorEntry>, l: SensorLabel, si: int) -> bool {
    &&& 0 <= si < s.len()
    &&& s[si].label == l
    &&& forall|j: int| 0 <= j < si ==> (#[trigger] s[j]).label != l
}

/// Some sensor in the list carries the label.
pub open spec fn has_label(s: Seq<SensorEntry>, l: SensorLabel) -> bool {
    exists|si: int| 0 <= si < s.len() && (#[trigger] s[si]).label == l
}

/// Every grouping the key commands may address has a sensor.
pub open spec fn labels_present(s: Seq<SensorEntry>) -> bool {
    &&& has_label(s, SensorLabel::GroupA)
    &&& has_label(s, SensorLabel::GroupB)
    &&& has_label(s, SensorLabel::GroupC)
    &&& has_label(s, SensorLabel::GroupD)
    &&& has_label(s, SensorLabel::BlockSlide)
    &&& has_label(s, SensorLabel::BlockRotate)
}

/// Which arrangement group a path command addresses: the visible face
/// crossed with the side the slide block sits on.
pub open spec fn path_group_label(back: bool, slide_left: bool) -> SensorLabel {
    if !back && slide_left {
        SensorLabel::GroupA
    } else if !back {
        SensorLabel::GroupB
    } else if slide_left {
        SensorLabel::GroupC
    } else {
        SensorLabel::GroupD
    }
}

/// Find the first sensor carrying a label.
fn find_label(sensors: &Vec<SensorEntry>, l: SensorLabel) -> (r: usize)
    requires
        has_label(sensors@, l),
    ensures
        first_label_at(sensors@, l, r as int),
{
    let mut i: usize = 0;
    while i < sensors.len()
        invariant
            i <= sensors@.len(),
            has_label(sensors@, l),
            forall|j: int| 0 <= j < i ==> (#[trigger] sensors@[j]).label != l,
        decreases sensors@.len() - i,
    {
        if sensors[i].label == l {
            return i;
        }
        i = i + 1;
    }
    proof {
        assert(false);
    }
    0
}

/// The keyboard command handler: movement keys address a group — for
/// path movement, the group facing the user on the slide block's side —
/// and move it one discrete stop, sign-flipped when the back face shows;
/// the face-flip key turns the cube over instead. A command lands only
/// on a complete group.
#[verifier::rlimit(50)]
pub fn key(
    keys: KeyPresses,
    cube: &CubeDescriptor,
    rotation: &mut CubeRotation,
    slide_block: &SlideHandle,
    sensors: &Vec<SensorEntry>,
) -> (r: Option<Movement>)
    requires
        labels_present(sensors@),
    ensures
        keys.flip_face ==> final(rotation).yaw == old(rotation).yaw
            && final(rotation).pitch.value_spec() == (if old(rotation).is_face_back_spec() {
                wrap_unit(-180)
            } else {
                wrap_unit(1620)
            }),
        !keys.flip_face ==> *final(rotation) == *old(rotation),
        key_command(keys) is None ==> r is None,
        r matches Some(m) ==> key_command(keys) matches Some(cmd) && ({
            let back = final(rotation).is_face_back_spec();
            let label = match cmd.0 {
                MovementKind::Path => path_group_label(back,
                    slide_block.t.value_spec() < HALF_UNIT),
                MovementKind::Slide => SensorLabel::BlockSlide,
                MovementKind::Rotate => SensorLabel::BlockRotate,
            };
            let mv = match cmd.0 {
                MovementKind::Path => if back { -cmd.1 } else { cmd.1 },
                MovementKind::Slide => cmd.1,
                MovementKind::Rotate => if back { -cmd.1 } else { cmd.1 },
            };
            &&& m.grabbing.kind == cmd.0
            &&& first_label_at(sensors@, label, m.grabbing.entity as int)
            &&& sensors@[m.grabbing.entity as int].sensor.is_full_spec()
            &&& m.movement == mv
        }),
        key_command(keys) matches Some(cmd) ==> r is Some || ({
            let back = final(rotation).is_face_back_spec();
            let label = match cmd.0 {
                MovementKind::Path => path_group_label(back,
                    slide_block.t.value_spec() < HALF_UNIT),
                MovementKind::Slide => SensorLabel::BlockSlide,
                MovementKind::Rotate => SensorLabel::BlockRotate,
            };
            forall|si: int| #[trigger] first_label_at(sensors@, label, si)
                ==> !sensors@[si].sensor.is_full_spec()
        }),
{
    let mut cmd: Option<(MovementKind, i64)> = None;
    if keys.forward {
        cmd = Some((MovementKind::Path, BALL_STEP as i64));
    }
    if keys.backward {
        cmd = Some((MovementKind::Path, -(BALL_STEP as i64)));
    }
    if keys.slide_left {
        cmd = Some((MovementKind::Slide, -(UNIT as i64)));
    }
    if keys.slide_right {
        cmd = Some((MovementKind::Slide, UNIT as i64));
    }
    if keys.rotate_forward {
        cmd = Some((MovementKind::Rotate, HALF_UNIT as i64));
    }
    if keys.rotate_backward {
        cmd = Some((MovementKind::Rotate, -(HALF_UNIT as i64)));
    }
    if keys.flip_face {
        if rotation.is_face_back() {
            rotation.pitch = WrappingUnit::new(-180);
        } else {
            rotation.pitch = WrappingUnit::new(1620);
        }
        cmd = None;
    }
    let (kind, mv0) = match cmd {
        Some(c) => c,
        None => {
            return None;
        }
    };
    let back = rotation.is_face_back();
    let label: SensorLabel;
    let mv: i64;
    match kind {
        MovementKind::Path => {
            let is_slide_left = slide_block.t.value() < HALF_UNIT;
            label = if !back && is_slide_left {
                SensorLabel::GroupA
            } else if !back {
                SensorLabel::GroupB
            } else if is_slide_left {
                SensorLabel::GroupC
            } else {
                SensorLabel::GroupD
            };
            mv = if back {
                -mv0
            } else {
                mv0
            };
        },
        MovementKind::Slide => {
            label = SensorLabel::BlockSlide;
            mv = mv0;
        },
        MovementKind::Rotate => {
            label = SensorLabel::BlockRotate;
            mv = if back {
                -mv0
            } else {
                mv0
            };
        },
    }
    let si = find_label(sensors, label);
    proof {
        assert(key_command(keys) matches Some(c) && c.0 == kind && c.1 == mv0 as int);
    }
    if sensors[si].sensor.is_full() {
        Some(Movement { grabbing: GrabbingSensor { kind, entity: si }, movement: mv })
    } else {
        proof {
            assert forall|si2: int| first_label_at(sensors@, label, si2)
                implies !sensors@[si2].sensor.is_full_spec() by {
                lemma_first_label_unique(sensors@, label, si2, si as int);
            }
        }
        None
    }
}

/// Only one index can be the first occurrence of a label.
pub proof fn lemma_first_label_unique(s: Seq<SensorEntry>, l: SensorLabel, a: int, b: int)
    requires
        first_label_at(s, l, a),
        first_label_at(s, l, b),
    ensures
        a == b,
{
    if a < b {
        assert(s[a].label != l);
    } else if b < a {
        assert(s[b].label != l);
    }
}

/// The member balls of a group moved along their tracks by a common
/// delta, everything else exactly as it was.
pub open spec fn path_moved(ob: Seq<Ball>, nb: Seq<Ball>, detail: Seq<(usize, BallColor, u32)>,
    mv: int) -> bool {
    &&& nb.len() == ob.len()
    &&& forall|i: int| 0 <= i < ob.len() && is_member(detail, i) ==> {
        let o = ob[i];
        let n = #[trigger] nb[i];
        n.path.t.value_spec() == wrap_unit(o.path.t.value_spec() + mv)
            && n.color == o.color && n.slide == o.slide && n.rotate == o.rotate
            && n.translation == o.translation
    }
    &&& forall|i: int| 0 <= i < ob.len() && !is_member(detail, i) ==> (#[trigger] nb[i]) == ob[i]
}

/// The member balls of a group slid by a common delta, everything else
/// exactly as it was.
pub open spec fn slide_moved(ob: Seq<Ball>, nb: Seq<Ball>, detail: Seq<(usize, BallColor, u32)>,
    mv: int) -> bool {
    &&& nb.len() == ob.len()
    &&& forall|i: int| 0 <= i < ob.len() && is_member(detail, i) ==> {
        let o = ob[i];
        let n = #[trigger] nb[i];
        n.slide.t.value_spec() == clamp_unit(o.slide.t.value_spec() + mv)
            && n.color == o.color && n.path == o.path && n.rotate == o.rotate
            && n.translation == o.translation
    }
    &&& forall|i: int| 0 <= i < ob.len() && !is_member(detail, i) ==> (#[trigger] nb[i]) == ob[i]
}

/// The member balls of a group rotated by a common delta, everything
/// else exactly as it was.
pub open spec fn rotate_moved(ob: Seq<Ball>, nb: Seq<Ball>, detail: Seq<(usize, BallColor, u32)>,
    mv: int) -> bool {
    &&& nb.len() == ob.len()
    &&& forall|i: int| 0 <= i < ob.len() && is_member(detail, i) ==> {
        let o = ob[i];
        let n = #[trigger] nb[i];
        n.rotate.t.value_spec() == wrap_unit(o.rotate.t.value_spec() + mv)
            && n.color == o.color && n.path == o.path && n.slide == o.slide
            && n.translation == o.translation
    }
    &&& forall|i: int| 0 <= i < ob.len() && !is_member(detail, i) ==> (#[trigger] nb[i]) == ob[i]
}

/// Move every member of a group along its track.
fn path(movement: i64, sensor: &BallSensor, balls: &mut Vec<Ball>)
    requires
        members_ok(sensor.detail@, old(balls)@.len() as int),
    ensures
        path_moved(old(balls)@, final(balls)@, sensor.detail@, movement as int),
{
    let ghost detail = sensor.detail@;
    let mut k: usize = 0;
    while k < sensor.detail.len()
        invariant
            members_ok(detail, old(balls)@.len() as int),
            detail == sensor.detail@,
            k <= detail.len(),
            balls@.len() == old(balls)@.len(),
            path_moved(old(balls)@, balls@, detail.subrange(0, k as int), movement as int),
        decreases detail.len() - k,
    {
        let e = sensor.detail[k].0;
        let mut b = balls[e];
        b.path.t.add(movement);
        balls[e] = b;
        proof {
            assert(detail.subrange(0, k + 1 as int)
                =~= detail.subrange(0, k as int).push(detail[k as int]));
            lemma_member_prefix_push(detail, k as int, old(balls)@.len() as int);
        }
        k = k + 1;
    }
    proof {
        assert(detail.subrange(0, detail.len() as int) =~= detail);
    }
}

/// A member of one more prefix entry is a member of the shorter prefix
/// or exactly the new entry's ball — and, with well-formed members, the
/// new entry's ball is not in the shorter prefix.
proof fn lemma_member_prefix_push(detail: Seq<(usize, BallColor, u32)>, k: int, n: int)
    requires
        members_ok(detail, n),
        0 <= k < detail.len(),
    ensures
        forall|i: int| is_member(detail.subrange(0, k + 1), i)
            <==> (is_member(#[trigger] detail.subrange(0, k), i) || i == detail[k].0),
        !is_member(detail.subrange(0, k), detail[k].0 as int),
{
    assert(detail.subrange(0, k + 1) =~= detail.subrange(0, k).push(detail[k]));
    assert forall|i: int| is_member(detail.subrange(0, k + 1), i)
        implies (is_member(#[trigger] detail.subrange(0, k), i) || i == detail[k].0) by {
        let j = choose|j: int| 0 <= j < detail.subrange(0, k + 1).len()
            && (#[trigger] detail.subrange(0, k + 1)[j]).0 == i;
        if j < k {
            assert(detail.subrange(0, k)[j].0 == i);
        }
    }
    assert forall|i: int| (is_member(detail.subrange(0, k), i) || i == detail[k].0)
        implies is_member(#[trigger] detail.subrange(0, k + 1), i) by {
        if is_member(detail.subrange(0, k), i) {
            let j = choose|j: int| 0 <= j < detail.subrange(0, k).len()
                && (#[trigger] detail.subrange(0, k)[j]).0 == i;
            assert(detail.subrange(0, k + 1)[j].0 == i);
        } else {
            assert(detail.subrange(0, k + 1)[k].0 == i);
        }
    }
    if is_member(detail.subrange(0, k), detail[k].0 as int) {
        let j = choose|j: int| 0 <= j < detail.subrange(0, k).len()
            && (#[trigger] detail.subrange(0, k)[j]).0 == detail[k].0 as int;
        assert(detail[j].0 == detail[k].0);
        assert(false);
    }
}

/// Slide every member of a group.
fn slide(movement: i64, sensor: &BallSensor, balls: &mut Vec<Ball>)
    requires
        members_ok(sensor.detail@, old(balls)@.len() as int),
    ensures
        slide_moved(old(balls)@, final(balls)@, sensor.detail@, movement as int),
{
    let ghost detail = sensor.detail@;
    let mut k: usize = 0;
    while k < sensor.detail.len()
        invariant
            members_ok(detail, old(balls)@.len() as int),
            detail == sensor.detail@,
            k <= detail.len(),
            balls@.len() == old(balls)@.len(),
            slide_moved(old(balls)@, balls@, detail.subrange(0, k as int), movement as int),
        decreases detail.len() - k,
    {
        let e = sensor.detail[k].0;
        let mut b = balls[e];
        b.slide.t.add(movement);
        balls[e] = b;
        proof {
            assert(detail.subrange(0, k + 1 as int)
                =~= detail.subrange(0, k as int).push(detail[k as int]));
            lemma_member_prefix_push(detail, k as int, old(balls)@.len() as int);
        }
        k = k + 1;
    }
    proof {
        assert(detail.subrange(0, detail.len() as int) =~= detail);
    }
}

/// Rotate every member of a group.
fn rotate(movement: i64, sensor: &BallSensor, balls: &mut Vec<Ball>)
    requires
        members_ok(sensor.detail@, old(balls)@.len() as int),
    ensures
        rotate_moved(old(balls)@, final(balls)@, sensor.detail@, movement as int),
{
    let ghost detail = sensor.detail@;
    let mut k: usize = 0;
    while k < sensor.detail.len()
        invariant
            members_ok(detail, old(balls)@.len() as int),
            detail == sensor.detail@,
            k <= detail.len(),
            balls@.len() == old(balls)@.len(),
            rotate_moved(old(balls)@, balls@, detail.subrange(0, k as int), movement as int),
        decreases detail.len() - k,
    {
        let e = sensor.detail[k].0;
        let mut b = balls[e];
        b.rotate.t.add(movement);
        balls[e] = b;
        proof {
            assert(detail.subrange(0, k + 1 as int)
                =~= detail.subrange(0, k as int).push(detail[k as int]));
            lemma_member_prefix_push(detail, k as int, old(balls)@.len() as int);
        }
        k = k + 1;
    }
    proof {
        assert(detail.subrange(0, detail.len() as int) =~= detail);
    }
}

/// Apply a resolved movement to the grabbed group: every member's
/// relevant handle moves by the delta — for slide and rotate movements
/// the block handles move too. A group that stopped being complete is
/// skipped for the tick, not an error.
pub fn apply_movement(
    m: Option<Movement>,
    sensors: &Vec<SensorEntry>,
    balls: &mut Vec<Ball>,
    slide_block: &mut SlideHandle,
    rotate_block_slide: &mut SlideHandle,
    rotate_block: &mut RotateHandle,
)
    requires
        m matches Some(mm) ==> mm.grabbing.entity < sensors@.len()
            && members_ok(sensors@[mm.grabbing.entity as int].sensor.detail@,
                old(balls)@.len() as int),
    ensures
        ({
            let unchanged = final(balls)@ == old(balls)@
                && *final(slide_block) == *old(slide_block)
                && *final(rotate_block_slide) == *old(rotate_block_slide)
                && *final(rotate_block) == *old(rotate_block);
            match m {
                None => unchanged,
                Some(mm) => {
                    let entry = sensors@[mm.grabbing.entity as int];
                    if !entry.sensor.is_full_spec() {
                        unchanged
                    } else {
                        match mm.grabbing.kind {
                            MovementKind::Path => {
                                &&& path_moved(old(balls)@, final(balls)@,
                                    entry.sensor.detail@, mm.movement as int)
                                &&& *final(slide_block) == *old(slide_block)
                                &&& *final(rotate_block_slide) == *old(rotate_block_slide)
                                &&& *final(rotate_block) == *old(rotate_block)
                            },
                            MovementKind::Slide => {
                                &&& slide_moved(old(balls)@, final(balls)@,
                                    entry.sensor.detail@, mm.movement as int)
                                &&& final(slide_block).t.value_spec() == clamp_unit(
                                    old(slide_block).t.value_spec() + mm.movement)
                                &&& final(rotate_block_slide).t.value_spec() == clamp_unit(
                                    old(rotate_block_slide).t.value_spec() + mm.movement)
                                &&& *final(rotate_block) == *old(rotate_block)
                            },
                            MovementKind::Rotate => {
                                &&& rotate_moved(old(balls)@, final(balls)@,
                                    entry.sensor.detail@, mm.movement as int)
                                &&& *final(slide_block) == *old(slide_block)
                                &&& *final(rotate_block_slide) == *old(rotate_block_slide)
                                &&& final(rotate_block).t.value_spec() == wrap_unit(
                                    old(rotate_block).t.value_spec() + mm.movement)
                            },
                        }
                    }
                },
            }
        }),
{
    let mm = match m {
        Some(mm) => mm,
        None => {
            return ;
        }
    };
    let entry = &sensors[mm.grabbing.entity];
    if !entry.sensor.is_full() {
        return ;
    }
    match mm.grabbing.kind {
        MovementKind::Path => {
            path(mm.movement, &entry.sensor, balls);
        },
        MovementKind::Slide => {
            slide_block.t.add(mm.movement);
            rotate_block_slide.t.add(mm.movement);
            slide(mm.movement, &entry.sensor, balls);
        },
        MovementKind::Rotate => {
            rotate_block.t.add(mm.movement);
            rotate(mm.movement, &entry.sensor, balls);
        },
    }
}

/// A sequence of indices is a permutation of `0 .. n`: right length,
/// all in range, none repeated.
pub open spec fn is_perm_seq(s: Seq<usize>, n: int) -> bool {
    &&& s.len() == n
    &&& forall|j: int| 0 <= j < s.len() ==> (#[trigger] s[j]) < n
    &&& forall|j1: int, j2: int| 0 <= j1 < j2 < s.len()
        ==> (#[trigger] s[j1]) != (#[trigger] s[j2])
}

/// The identity order on `0 .. n`.
fn identity_order(n: usize) -> (r: Vec<usize>)
    ensures
        r@.len() == n,
        forall|j: int| 0 <= j < n ==> (#[trigger] r@[j]) == j,
{
    let mut out: Vec<usize> = Vec::new();
    let mut i: usize = 0;
    while i < n
        invariant
            i <= n,
            out@.len() == i,
            forall|j: int| 0 <= j < i ==> (#[trigger] out@[j]) == j,
        decreases n - i,
    {
        out.push(i);
        i = i + 1;
    }
    out
}

/// Decide whether a list of indices is a permutation of `0 .. n`.
pub fn is_permutation(v: &Vec<usize>, n: usize) -> (r: bool)
    ensures
        r == is_perm_seq(v@, n as int),
{
    if v.len() != n {
        return false;
    }
    let mut seen: Vec<bool> = Vec::new();
    let mut i: usize = 0;
    while i < n
        invariant
            i <= n,
            seen@.len() == i,
            forall|x: int| 0 <= x < i ==> !(#[trigger] seen@[x]),
        decreases n - i,
    {
        seen.push(false);
        i = i + 1;
    }
    let mut k: usize = 0;
    while k < n
        invariant
            k <= n,
            v@.len() == n,
            seen@.len() == n,
            forall|j: int| 0 <= j < k ==> (#[trigger] v@[j]) < n,
            forall|j1: int, j2: int| 0 <= j1 < j2 < k
                ==> (#[trigger] v@[j1]) != (#[trigger] v@[j2]),
            forall|x: int| 0 <= x < n ==> ((#[trigger] seen@[x])
                <==> exists|j: int| 0 <= j < k && (#[trigger] v@[j]) == x),
        decreases n - k,
    {
        let e = v[k];
        if e >= n {
            return false;
        }
        if seen[e] {
            proof {
                let j = choose|j: int| 0 <= j < k && (#[trigger] v@[j]) == e as int;
                assert(v@[j] == v@[k as int]);
            }
            return false;
        }
        seen[e] = true;
        proof {
            assert forall|x: int| 0 <= x < n implies ((#[trigger] seen@[x])
                <==> exists|j: int| 0 <= j < k + 1 && (#[trigger] v@[j]) == x) by {
                if x == e as int {
                    assert(v@[k as int] == x);
                } else {
                    if exists|j: int| 0 <= j < k + 1 && (#[trigger] v@[j]) == x {
                        let j = choose|j: int| 0 <= j < k + 1 && (#[trigger] v@[j]) == x;
                        assert(j != k);
                    }
                }
            }
        }
        k = k + 1;
    }
    true
}

/// A ball that has been put back on the canonical triple of slot `j`,
/// everything but its handles untouched.
pub open spec fn ball_reset_to(ob: Ball, nb: Ball, j: int) -> bool {
    &&& nb.path.t.value_spec() == init_path_units(j)
    &&& nb.slide.t.value_spec() == init_slide_units(j)
    &&& nb.rotate.t.value_spec() == init_rotate_units(j)
    &&& nb.color == ob.color
    &&& nb.translation == ob.translation
}

/// The reset and shuffle commands: on either, every ball is reassigned a
/// canonical startup slot — in ball order for a reset, so the solved
/// state returns exactly; in a random permutation for a shuffle — and
/// both block handles go back to their home positions. The shuffle
/// command wins when both land in one tick.
pub fn reset(
    shuffle_pressed: bool,
    reset_pressed: bool,
    cube: &CubeDescriptor,
    balls: &mut Vec<Ball>,
    slide_block: &mut SlideHandle,
    rotate_block_slide: &mut SlideHandle,
    rotate_block: &mut RotateHandle,
)
    requires
        old(balls)@.len() == 64,
    ensures
        !shuffle_pressed && !reset_pressed ==> final(balls)@ == old(balls)@
            && *final(slide_block) == *old(slide_block)
            && *final(rotate_block_slide) == *old(rotate_block_slide)
            && *final(rotate_block) == *old(rotate_block),
        shuffle_pressed || reset_pressed ==> ({
            &&& final(balls)@.len() == 64
            &&& final(slide_block).t.value_spec() == 0
            &&& final(rotate_block_slide).t.value_spec() == 0
            &&& final(rotate_block).t.value_spec() == 0
            &&& exists|ord: Seq<usize>| #[trigger] is_perm_seq(ord, 64)
                && (forall|j: int| 0 <= j < 64 ==> ball_reset_to(
                    old(balls)@[#[trigger] ord[j] as int], final(balls)@[ord[j] as int], j))
        }),
        !shuffle_pressed && reset_pressed ==> forall|j: int| 0 <= j < 64
            ==> ball_reset_to(old(balls)@[j], (#[trigger] final(balls)@[j]), j),
{
    if !(shuffle_pressed || reset_pressed) {
        return ;
    }
    let mut ord = identity_order(64);
    if shuffle_pressed {
        fastrand::shuffle(ord.as_mut_slice());
        if !is_permutation(&ord, 64) {
            ord = identity_order(64);
        }
    }
    proof {
        assert(is_perm_seq(ord@, 64));
    }
    let inits = cube.ball_init_handles();
    let mut j: usize = 0;
    while j < 64
        invariant
            j <= 64,
            is_perm_seq(ord@, 64),
            balls@.len() == 64,
            old(balls)@.len() == 64,
            inits@.len() == 64,
            forall|i: int| 0 <= i < 64 ==> crate::descriptor::init_bundle_ok(
                #[trigger] inits@[i], i),
            forall|t: int| 0 <= t < j ==> ball_reset_to(old(balls)@[#[trigger] ord@[t] as int],
                balls@[ord@[t] as int], t),
            forall|b: int| 0 <= b < 64
                && !(exists|t: int| 0 <= t < j && (#[trigger] ord@[t]) == b)
                ==> balls@[b] == old(balls)@[b],
        decreases 64 - j,
    {
        let e = ord[j];
        let init = inits[j];
        let mut b = balls[e];
        proof {
            assert(!(exists|t: int| 0 <= t < j && (#[trigger] ord@[t]) == e as int));
        }
        b.path = init.path;
        b.slide = init.slide;
        b.rotate = init.rotate;
        balls[e] = b;
        proof {
            assert forall|t: int| 0 <= t < j + 1 implies ball_reset_to(
                old(balls)@[#[trigger] ord@[t] as int], balls@[ord@[t] as int], t) by {
                if t < j {
                    assert(ord@[t] != ord@[j as int]);
                }
            }
            assert forall|bi: int| 0 <= bi < 64
                && !(exists|t: int| 0 <= t < j + 1 && (#[trigger] ord@[t]) == bi)
                implies balls@[bi] == old(balls)@[bi] by {
                assert(ord@[j as int] != bi);
            }
        }
        j = j + 1;
    }
    *slide_block = SlideHandle::left();
    *rotate_block_slide = SlideHandle::left();
    *rotate_block = RotateHandle::up();
    proof {
        assert(is_perm_seq(ord@, 64)
            && (forall|t: int| 0 <= t < 64 ==> ball_reset_to(
                old(balls)@[#[trigger] ord@[t] as int], balls@[ord@[t] as int], t)));
        if !shuffle_pressed {
            assert forall|t: int| 0 <= t < 64 implies ball_reset_to(old(balls)@[t],
                (#[trigger] balls@[t]), t) by {
                assert(ord@[t] == t);
            }
        }
    }
}

} // verus!

//! The live world of one running puzzle and its per-tick pipeline.
//!
//! The world owns the descriptor, every ball's handles and last-known
//! translation, the block handles, the six group sensors, the single
//! grab slot, the pending snap events and the in-flight animations. The
//! tick pipeline runs its phases in a fixed order: input resolution,
//! handle mutation, transform resynchronization, sensor rescan, snap
//! resolution — so transforms always reflect the tick's own input before
//! sensors and snaps read them.

use vstd::prelude::*;
use crate::AppState;
use crate::range01::{UNIT, wrap_unit, clamp_unit};
use crate::geom::{Vec3, Vec2, SensorBox};
use crate::bezier::linear_val;
use crate::component::{Ball, BallColor, BallHandleBundle, SensorEntry, BallSensor, SensorLabel,
    MovementKind, GrabStatus, SnapEvent, AnimRecord, AnimTarget, Animation, Timer, CubeRotation,
    PathHandle, SlideHandle, RotateHandle, members_ok, is_member};
use crate::descriptor::{CubeDescriptor, init_bundle_ok, BALL_STEP};
use crate::input::{labels_present, has_label};

verus! {

/// The canonical color layout: sixteen balls of each color, color by
/// color.
pub open spec fn canonical_colors() -> Seq<BallColor> {
    Seq::new(64, |i: int| if i < 16 {
        BallColor::A
    } else if i < 32 {
        BallColor::B
    } else if i < 48 {
        BallColor::C
    } else {
        BallColor::D
    })
}

/// The startup colors: sixteen of each color, in a random arrangement.
pub fn initial_colors() -> (r: Vec<BallColor>)
    ensures
        r@.len() == 64,
        r@.to_multiset() == canonical_colors().to_multiset(),
{
    let mut out: Vec<BallColor> = Vec::new();
    let mut i: usize = 0;
    while i < 64
        invariant
            i <= 64,
            out@.len() == i,
            forall|j: int| 0 <= j < i ==> (#[trigger] out@[j]) == canonical_colors()[j],
        decreases 64 - i,
    {
        let c = if i < 16 {
            BallColor::A
        } else if i < 32 {
            BallColor::B
        } else if i < 48 {
            BallColor::C
        } else {
            BallColor::D
        };
        out.push(c);
        i = i + 1;
    }
    proof {
        assert(out@ =~= canonical_colors());
    }
    fastrand::shuffle(out.as_mut_slice());
    out
}

/// One in-flight animation record is sound: its target exists and fits
/// its kind, and its numbers are within the snap machinery's ranges.
pub open spec fn record_wf(r: AnimRecord) -> bool {
    &&& match r.target {
        AnimTarget::Ball(i) => i < 64,
        AnimTarget::SlideBlock => r.animation.kind is Slide,
        AnimTarget::RotateBlock => r.animation.kind is Slide || r.animation.kind is Rotate,
    }
    &&& -2 * (UNIT as int) <= r.animation.movement <= 2 * (UNIT as int)
    &&& r.animation.base <= UNIT
}

/// The animation list is sound: every record is, and no two drive the
/// same target.
pub open spec fn records_wf(s: Seq<AnimRecord>) -> bool {
    &&& forall|k: int| 0 <= k < s.len() ==> record_wf(#[trigger] s[k])
    &&& forall|k1: int, k2: int| 0 <= k1 < k2 < s.len()
        ==> (#[trigger] s[k1]).target != (#[trigger] s[k2]).target
}

/// The whole live state of one running puzzle.
pub struct World {
    pub cube: CubeDescriptor,
    pub rotation: CubeRotation,
    pub balls: Vec<Ball>,
    pub slide_block: SlideHandle,
    pub rotate_block_slide: SlideHandle,
    pub rotate_block: RotateHandle,
    pub slide_block_x: i64,
    pub rotate_block_turn: u32,
    pub sensors: Vec<SensorEntry>,
    pub grab: GrabStatus,
    pub snap_events: Vec<SnapEvent>,
    pub animations: Vec<AnimRecord>,
    pub state: AppState,
}

/// All ball translations within the world-space bound.
pub open spec fn positions_bounded(balls: Seq<Ball>) -> bool {
    forall|i: int| 0 <= i < balls.len() ==> (#[trigger] balls[i]).translation.in_world()
}

impl World {
    /// The world's structural invariant: a well-formed descriptor, the
    /// full set of balls, the six sensors with sound member lists, and
    /// sound grab, event and animation bookkeeping.
    pub open spec fn wf(self) -> bool {
        &&& self.cube.wf()
        &&& self.balls@.len() == 64
        &&& self.sensors@.len() == 6
        &&& labels_present(self.sensors@)
        &&& forall|si: int| 0 <= si < self.sensors@.len() ==> ({
            &&& members_ok((#[trigger] self.sensors@[si]).sensor.detail@, 64)
            &&& 1 <= self.sensors@[si].sensor.capacity <= 18
            &&& self.sensors@[si].origin.in_limit()
        })
        &&& positions_bounded(self.balls@)
        &&& records_wf(self.animations@)
        &&& (self.state is InGame ==> self.animations@.len() == 0)
        &&& (self.grab.grabbing matches Some(g) ==> g.entity < 6)
        &&& forall|k: int| 0 <= k < self.snap_events@.len()
            ==> (#[trigger] self.snap_events@[k]).0.entity < 6
    }

    /// Build the canonical startup world: every ball on its canonical
    /// slot with a randomly arranged color, the blocks home, the four
    /// group sensors on their anchors and the block sensors across the
    /// cube's middle, nothing grabbed, nothing pending, interactive.
    pub fn new() -> (r: Self)
        ensures
            r.wf(),
            r.state is InGame,
            r.grab.grabbing is None,
            r.snap_events@.len() == 0,
            r.animations@.len() == 0,
            r.slide_block.t.value_spec() == 0,
            r.rotate_block_slide.t.value_spec() == 0,
            r.rotate_block.t.value_spec() == 0,
            forall|i: int| 0 <= i < 64 ==> init_bundle_ok(ball_bundle(#[trigger] r.balls@[i]), i),
            r.balls@.map_values(|b: Ball| b.color).to_multiset()
                == canonical_colors().to_multiset(),
            forall|si: int| 0 <= si < 6
                ==> (#[trigger] r.sensors@[si]).sensor.detail@.len() == 0,
            r.sensors@[0].label is GroupA && r.sensors@[1].label is GroupB
                && r.sensors@[2].label is GroupC && r.sensors@[3].label is GroupD
                && r.sensors@[4].label is BlockSlide && r.sensors@[5].label is BlockRotate,
            r.sensors@[4].kind is Slide && r.sensors@[5].kind is Rotate,
            forall|si: int| 0 <= si < 4 ==> (#[trigger] r.sensors@[si]).kind is Path
                && r.sensors@[si].sensor.capacity == 18,
            r.sensors@[4].sensor.capacity == 8 && r.sensors@[5].sensor.capacity == 4,
    {
        let cube = CubeDescriptor::default();
        let handles = cube.ball_init_handles();
        let colors = initial_colors();
        let mut balls: Vec<Ball> = Vec::new();
        let mut i: usize = 0;
        while i < 64
            invariant
                i <= 64,
                balls@.len() == i,
                handles@.len() == 64,
                colors@.len() == 64,
                forall|j: int| 0 <= j < 64 ==> init_bundle_ok(#[trigger] handles@[j], j),
                forall|j: int| 0 <= j < i
                    ==> init_bundle_ok(ball_bundle(#[trigger] balls@[j]), j),
                forall|j: int| 0 <= j < i ==> (#[trigger] balls@[j]).color == colors@[j],
                forall|j: int| 0 <= j < i
                    ==> (#[trigger] balls@[j]).translation == (Vec3 { x: 0, y: 0, z: 0 }),
            decreases 64 - i,
        {
            let h = handles[i];
            balls.push(Ball {
                color: colors[i],
                path: h.path,
                slide: h.slide,
                rotate: h.rotate,
                translation: Vec3 { x: 0, y: 0, z: 0 },
            });
            i = i + 1;
        }
        proof {
            assert(balls@.map_values(|b: Ball| b.color) =~= colors@);
        }
        let mut sensors: Vec<SensorEntry> = Vec::new();
        let group_box = cube.ball_sensor_box();
        let origins = cube.group_origins();
        let mut gi: usize = 0;
        while gi < 4
            invariant
                gi <= 4,
                sensors@.len() == gi,
                origins@.len() == 4,
                origins@[0].0 is GroupA && origins@[1].0 is GroupB && origins@[2].0 is GroupC
                    && origins@[3].0 is GroupD,
                forall|j: int| 0 <= j < 4 ==> (#[trigger] origins@[j]).1.in_limit(),
                forall|j: int| 0 <= j < gi ==> ({
                    &&& (#[trigger] sensors@[j]).label == origins@[j].0
                    &&& sensors@[j].kind is Path
                    &&& sensors@[j].origin == origins@[j].1
                    &&& sensors@[j].sensor.capacity == 18
                    &&& sensors@[j].sensor.detail@.len() == 0
                }),
            decreases 4 - gi,
        {
            let (label, origin) = origins[gi];
            sensors.push(SensorEntry {
                label,
                kind: MovementKind::Path,
                origin,
                sensor: BallSensor::new(group_box, cube.group_capacity()),
            });
            gi = gi + 1;
        }
        sensors.push(SensorEntry {
            label: SensorLabel::BlockSlide,
            kind: MovementKind::Slide,
            origin: Vec3 { x: 0, y: 0, z: 0 },
            sensor: BallSensor::new(cube.slide_sensor_box(), cube.slide_capacity()),
        });
        sensors.push(SensorEntry {
            label: SensorLabel::BlockRotate,
            kind: MovementKind::Rotate,
            origin: Vec3 { x: 0, y: 0, z: 0 },
            sensor: BallSensor::new(cube.rotate_sensor_box(), cube.rotate_capacity()),
        });
        let world = World {
            cube,
            rotation: CubeRotation::new(1800, -180),
            balls,
            slide_block: SlideHandle::left(),
            rotate_block_slide: SlideHandle::left(),
            rotate_block: RotateHandle::up(),
            slide_block_x: 0,
            rotate_block_turn: 0,
            sensors,
            grab: GrabStatus::default(),
            snap_events: Vec::new(),
            animations: Vec::new(),
            state: AppState::InGame,
        };
        proof {
            assert(world.sensors@[0].label is GroupA);
            assert(world.sensors@[1].label is GroupB);
            assert(world.sensors@[2].label is GroupC);
            assert(world.sensors@[3].label is GroupD);
            assert(world.sensors@[4].label is BlockSlide);
            assert(world.sensors@[5].label is BlockRotate);
            assert(has_label(world.sensors@, SensorLabel::GroupA));
            assert(has_label(world.sensors@, SensorLabel::GroupB));
            assert(has_label(world.sensors@, SensorLabel::GroupC));
            assert(has_label(world.sensors@, SensorLabel::GroupD));
            assert(has_label(world.sensors@, SensorLabel::BlockSlide));
            assert(has_label(world.sensors@, SensorLabel::BlockRotate));
        }
        world
    }

    /// Recompute every ball's position out of its current handles; the
    /// host supplies, for each ball, the up translation rotated by the
    /// ball's rotate handle, which takes trigonometry this crate leaves
    /// outside.
    pub fn sync_ball_transforms(&mut self, ups: &Vec<Vec3>)
        requires
            old(self).cube.wf(),
            ups@.len() == old(self).balls@.len(),
            forall|i: int| 0 <= i < ups@.len() ==> (#[trigger] ups@[i]).in_limit(),
        ensures
            *final(self) == (World { balls: final(self).balls, ..(*old(self)) }),
            final(self).balls@.len() == old(self).balls@.len(),
            forall|i: int| 0 <= i < old(self).balls@.len() ==> ({
                let ob = old(self).balls@[i];
                let nb = #[trigger] final(self).balls@[i];
                &&& nb.color == ob.color
                &&& nb.path == ob.path
                &&& nb.slide == ob.slide
                &&& nb.rotate == ob.rotate
                &&& nb.translation.x
                    == old(self).cube.ball_translation_x(ball_bundle(ob), ups@[i])
                &&& nb.translation.y
                    == old(self).cube.ball_translation_y(ball_bundle(ob), ups@[i])
                &&& nb.translation.z
                    == old(self).cube.ball_translation_z(ball_bundle(ob), ups@[i])
                &&& nb.translation.in_world()
            }),
    {
        let n = self.balls.len();
        let mut i: usize = 0;
        while i < n
            invariant
                i <= n,
                self.cube == old(self).cube,
                *self == (World { balls: self.balls, ..(*old(self)) }),
                self.cube.wf(),
                n == self.balls@.len(),
                old(self).balls@.len() == n,
                ups@.len() == n,
                forall|j: int| 0 <= j < ups@.len() ==> (#[trigger] ups@[j]).in_limit(),
                forall|j: int| i <= j < n
                    ==> (#[trigger] self.balls@[j]) == old(self).balls@[j],
                forall|j: int| 0 <= j < i ==> ({
                    let ob = old(self).balls@[j];
                    let nb = #[trigger] self.balls@[j];
                    &&& nb.color == ob.color
                    &&& nb.path == ob.path
                    &&& nb.slide == ob.slide
                    &&& nb.rotate == ob.rotate
                    &&& nb.translation.x
                        == old(self).cube.ball_translation_x(ball_bundle(ob), ups@[j])
                    &&& nb.translation.y
                        == old(self).cube.ball_translation_y(ball_bundle(ob), ups@[j])
                    &&& nb.translation.z
                        == old(self).cube.ball_translation_z(ball_bundle(ob), ups@[j])
                    &&& nb.translation.in_world()
                }),
            decreases n - i,
        {
            let mut b = self.balls[i];
            let bundle = BallHandleBundle { path: b.path, slide: b.slide, rotate: b.rotate };
            let v = self.cube.get_ball_transform(&bundle, ups[i]);
            b.translation = v;
            self.balls[i] = b;
            i = i + 1;
        }
    }

    /// Recompute the slide block's x position out of its handle.
    pub fn slide_block_transform(&mut self)
        requires
            old(self).cube.wf(),
        ensures
            *final(self) == (World { slide_block_x: final(self).slide_block_x, ..(*old(self)) }),
            final(self).slide_block_x == linear_val(old(self).cube.slide_path.p1 as int,
                old(self).cube.slide_path.p2 as int, old(self).slide_block.t.value_spec()),
    {
        let v = self.cube.slide_path.evaluate(self.slide_block);
        self.slide_block_x = v.x;
    }

    /// Recompute the rotate block's turn fraction from its handle.
    pub fn rotate_block_transform(&mut self)
        requires
            old(self).cube.wf(),
        ensures
            *final(self) == (World {
                rotate_block_turn: final(self).rotate_block_turn,
                ..(*old(self))
            }),
            final(self).rotate_block_turn == linear_val(old(self).cube.rotate_path.p1 as int,
                old(self).cube.rotate_path.p2 as int, old(self).rotate_block.t.value_spec()),
    {
        self.rotate_block_turn = self.cube.rotate_path.evaluate(self.rotate_block);
    }
}

/// The handle bundle a ball currently carries.
pub open spec fn ball_bundle(b: Ball) -> BallHandleBundle {
    BallHandleBundle { path: b.path, slide: b.slide, rotate: b.rotate }
}

/// A ball sits inside a sensor's box, relative to the sensor's anchor.
pub open spec fn in_sensor(shape: SensorBox, origin: Vec3, b: Ball) -> bool {
    &&& shape.min_x <= b.translation.x - origin.x <= shape.max_x
    &&& shape.min_y <= b.translation.y - origin.y <= shape.max_y
    &&& shape.min_z <= b.translation.z - origin.z <= shape.max_z
}

/// A member list in ascending track-parameter order.
pub open spec fn sorted_by_t(s: Seq<(usize, BallColor, u32)>) -> bool {
    forall|k1: int, k2: int| 0 <= k1 < k2 < s.len()
        ==> (#[trigger] s[k1]).2 <= (#[trigger] s[k2]).2
}

/// A member list is the correct scan of the balls against a sensor box:
/// every entry is a ball inside the box with its own color and track
/// parameter, every ball inside the box occurs, no ball occurs twice,
/// and the list ascends by track parameter.
pub open spec fn detail_ok(shape: SensorBox, origin: Vec3, balls: Seq<Ball>,
    detail: Seq<(usize, BallColor, u32)>) -> bool {
    &&& forall|k: int| 0 <= k < detail.len() ==> ({
        let e = (#[trigger] detail[k]).0 as int;
        &&& e < balls.len()
        &&& in_sensor(shape, origin, balls[e])
        &&& detail[k].1 == balls[e].color
        &&& detail[k].2 as int == balls[e].path.t.value_spec()
    })
    &&& forall|b: int| 0 <= b < balls.len() && in_sensor(shape, origin, #[trigger] balls[b])
        ==> is_member(detail, b)
    &&& members_ok(detail, balls.len() as int)
    &&& sorted_by_t(detail)
}

/// Scan all balls against one sensor: collect every ball whose
/// translation, relative to the sensor's anchor, falls inside the box,
/// in ascending track-parameter order.
fn recompute_detail(sensor: &BallSensor, origin: Vec3, balls: &Vec<Ball>)
    -> (r: Vec<(usize, BallColor, u32)>)
    requires
        origin.in_limit(),
        positions_bounded(balls@),
    ensures
        detail_ok(sensor.shape, origin, balls@, r@),
{
    let ghost shape = sensor.shape;
    let mut out: Vec<(usize, BallColor, u32)> = Vec::new();
    let mut b: usize = 0;
    while b < balls.len()
        invariant
            b <= balls@.len(),
            origin.in_limit(),
            positions_bounded(balls@),
            shape == sensor.shape,
            forall|k: int| 0 <= k < out@.len() ==> ({
                let e = (#[trigger] out@[k]).0 as int;
                &&& e < b
                &&& in_sensor(shape, origin, balls@[e])
                &&& out@[k].1 == balls@[e].color
                &&& out@[k].2 as int == balls@[e].path.t.value_spec()
            }),
            forall|bb: int| 0 <= bb < b && in_sensor(shape, origin, #[trigger] balls@[bb])
                ==> is_member(out@, bb),
            forall|k1: int, k2: int| 0 <= k1 < k2 < out@.len()
                ==> (#[trigger] out@[k1]).0 != (#[trigger] out@[k2]).0,
            sorted_by_t(out@),
        decreases balls@.len() - b,
    {
        let ball = balls[b];
        let rel = ball.translation.minus(origin);
        if sensor.intersect_point(rel) {
            let t = ball.path.t.value();
            let x = (b, ball.color, t);
            let ghost out0 = out@;
            let mut p: usize = 0;
            while p < out.len() && out[p].2 <= t
                invariant
                    p <= out@.len(),
                    out@ == out0,
                    forall|q: int| 0 <= q < p ==> (#[trigger] out@[q]).2 <= t,
                decreases out@.len() - p,
            {
                p = p + 1;
            }
            out.insert(p, x);
            proof {
                assert forall|bb: int| 0 <= bb < b + 1
                    && in_sensor(shape, origin, #[trigger] balls@[bb])
                    implies is_member(out@, bb) by {
                    if bb == b {
                        assert(out@[p as int].0 == bb);
                    } else {
                        let k = choose|k: int| 0 <= k < out0.len()
                            && (#[trigger] out0[k]).0 == bb;
                        if k < p {
                            assert(out@[k].0 == bb);
                        } else {
                            assert(out@[k + 1].0 == bb);
                        }
                    }
                }
                assert forall|k1: int, k2: int| 0 <= k1 < k2 < out@.len()
                    implies (#[trigger] out@[k1]).2 <= (#[trigger] out@[k2]).2 by {
                    if k2 < p {
                        assert(out@[k1] == out0[k1] && out@[k2] == out0[k2]);
                    } else if k1 > p {
                        assert(out@[k1] == out0[k1 - 1] && out@[k2] == out0[k2 - 1]);
                    } else if k1 == p {
                        assert(out@[k2] == out0[k2 - 1]);
                        if p < out0.len() {
                            assert(out0[p as int].2 > t);
                        }
                    } else if k2 == p {
                        assert(out@[k1] == out0[k1]);
                    } else {
                        assert(out@[k1] == out0[k1] && out@[k2] == out0[k2 - 1]);
                        if p < out0.len() {
                            assert(out0[p as int].2 > t);
                        }
                    }
                }
            }
        }
        b = b + 1;
    }
    out
}

impl World {
    /// The sensor rescan phase: recompute every sensor's member list
    /// from scratch against the balls' current translations. No
    /// incremental update — balls move continuously during drags.
    pub fn trace_ball(&mut self)
        requires
            positions_bounded(old(self).balls@),
            forall|si: int| 0 <= si < old(self).sensors@.len()
                ==> (#[trigger] old(self).sensors@[si]).origin.in_limit(),
        ensures
            *final(self) == (World { sensors: final(self).sensors, ..(*old(self)) }),
            final(self).sensors@.len() == old(self).sensors@.len(),
            forall|si: int| 0 <= si < old(self).sensors@.len() ==> ({
                let os = old(self).sensors@[si];
                let ns = #[trigger] final(self).sensors@[si];
                &&& ns.label == os.label
                &&& ns.kind == os.kind
                &&& ns.origin == os.origin
                &&& ns.sensor.shape == os.sensor.shape
                &&& ns.sensor.capacity == os.sensor.capacity
                &&& detail_ok(os.sensor.shape, os.origin, old(self).balls@, ns.sensor.detail@)
            }),
    {
        let n = self.sensors.len();
        let mut si: usize = 0;
        while si < n
            invariant
                si <= n,
                *self == (World { sensors: self.sensors, ..(*old(self)) }),
                n == self.sensors@.len(),
                old(self).sensors@.len() == n,
                positions_bounded(old(self).balls@),
                forall|j: int| 0 <= j < n
                    ==> (#[trigger] old(self).sensors@[j]).origin.in_limit(),
                forall|j: int| si <= j < n
                    ==> (#[trigger] self.sensors@[j]) == old(self).sensors@[j],
                forall|j: int| 0 <= j < si ==> ({
                    let os = old(self).sensors@[j];
                    let ns = #[trigger] self.sensors@[j];
                    &&& ns.label == os.label
                    &&& ns.kind == os.kind
                    &&& ns.origin == os.origin
                    &&& ns.sensor.shape == os.sensor.shape
                    &&& ns.sensor.capacity == os.sensor.capacity
                    &&& detail_ok(os.sensor.shape, os.origin, old(self).balls@,
                        ns.sensor.detail@)
                }),
            decreases n - si,
        {
            let origin = self.sensors[si].origin;
            let detail = recompute_detail(&self.sensors[si].sensor, origin, &self.balls);
            self.sensors[si].sensor.detail = detail;
            si = si + 1;
        }
    }
}

/// The target a path-group member of rank `k` snaps to: the lead ball's
/// target plus one ball step per rank.
pub open spec fn path_target(first_t: int, k: int) -> int {
    CubeDescriptor::path_snap_first_spec(first_t) + k * (BALL_STEP as int)
}

/// The animation records a path snap creates: one per member, in member
/// order, each running from the member's current track position to its
/// ranked target over the snap duration.
pub open spec fn path_snap_records(detail: Seq<(usize, BallColor, u32)>, balls: Seq<Ball>)
    -> Seq<AnimRecord> {
    Seq::new(detail.len(), |k: int| AnimRecord {
        target: AnimTarget::Ball(detail[k].0),
        animation: Animation {
            kind: MovementKind::Path,
            movement: (path_target(balls[detail[0].0 as int].path.t.value_spec(), k)
                - balls[detail[k].0 as int].path.t.value_spec()) as i64,
            base: balls[detail[k].0 as int].path.t.value_spec() as u32,
        },
        timer: Timer { elapsed: 0, duration: 200 },
    })
}

/// One ternary-snap animation record: from a current handle value to its
/// nearest lattice stop.
pub open spec fn snap3_record(target: AnimTarget, kind: MovementKind, from: int) -> AnimRecord {
    AnimRecord {
        target,
        animation: Animation {
            kind,
            movement: (crate::descriptor::snap3_spec(from) - from) as i64,
            base: from as u32,
        },
        timer: Timer { elapsed: 0, duration: 200 },
    }
}

/// The member records of a slide snap, in member order.
pub open spec fn slide_member_records(detail: Seq<(usize, BallColor, u32)>, balls: Seq<Ball>)
    -> Seq<AnimRecord> {
    Seq::new(detail.len(), |k: int| snap3_record(AnimTarget::Ball(detail[k].0),
        MovementKind::Slide, balls[detail[k].0 as int].slide.t.value_spec()))
}

/// The member records of a rotate snap, in member order.
pub open spec fn rotate_member_records(detail: Seq<(usize, BallColor, u32)>, balls: Seq<Ball>)
    -> Seq<AnimRecord> {
    Seq::new(detail.len(), |k: int| snap3_record(AnimTarget::Ball(detail[k].0),
        MovementKind::Rotate, balls[detail[k].0 as int].rotate.t.value_spec()))
}

/// All animation records a snap of the given kind creates for a sensor:
/// for slide and rotate snaps the block handles snap too.
pub open spec fn snap_records(kind: MovementKind, entry: SensorEntry, balls: Seq<Ball>,
    slide_block: SlideHandle, rotate_block_slide: SlideHandle, rotate_block: RotateHandle)
    -> Seq<AnimRecord> {
    match kind {
        MovementKind::Path => path_snap_records(entry.sensor.detail@, balls),
        MovementKind::Slide => seq![
            snap3_record(AnimTarget::SlideBlock, MovementKind::Slide,
                slide_block.t.value_spec()),
            snap3_record(AnimTarget::RotateBlock, MovementKind::Slide,
                rotate_block_slide.t.value_spec()),
        ] + slide_member_records(entry.sensor.detail@, balls),
        MovementKind::Rotate => seq![
            snap3_record(AnimTarget::RotateBlock, MovementKind::Rotate,
                rotate_block.t.value_spec()),
        ] + rotate_member_records(entry.sensor.detail@, balls),
    }
}

impl World {
    /// The snap resolution phase: consume the first pending snap event;
    /// if its group is still complete, create one animation record per
    /// member — and per associated block — toward the group's discrete
    /// targets, and pause interaction for the animation's duration. An
    /// incomplete group just consumes the event.
    pub fn snap(&mut self)
        requires
            old(self).wf(),
            old(self).state is InGame,
        ensures
            final(self).wf(),
            old(self).snap_events@.len() == 0 ==> *final(self) == *old(self),
            old(self).snap_events@.len() > 0 ==> ({
                let ev = old(self).snap_events@[0];
                let entry = old(self).sensors@[ev.0.entity as int];
                &&& final(self).snap_events@ == old(self).snap_events@.subrange(1,
                    old(self).snap_events@.len() as int)
                &&& if !entry.sensor.is_full_spec() {
                    *final(self) == (World {
                        snap_events: final(self).snap_events,
                        ..(*old(self))
                    })
                } else {
                    &&& *final(self) == (World {
                        snap_events: final(self).snap_events,
                        animations: final(self).animations,
                        state: final(self).state,
                        ..(*old(self))
                    })
                    &&& final(self).state is Pause
                    &&& final(self).animations@ == old(self).animations@ + snap_records(
                        ev.0.kind, entry, old(self).balls@, old(self).slide_block,
                        old(self).rotate_block_slide, old(self).rotate_block)
                }
            }),
    {
        if self.snap_events.len() == 0 {
            return ;
        }
        let ev = self.snap_events.remove(0);
        let kind = ev.0.kind;
        let ent = ev.0.entity;
        if !self.sensors[ent].sensor.is_full() {
            return ;
        }
        let ghost anims0 = self.animations@;
        let detail_len = self.sensors[ent].sensor.detail.len();
        proof {
            assert(detail_len <= 18);
            assert(anims0.len() == 0);
        }
        match kind {
            MovementKind::Path => {
                let first = self.sensors[ent].sensor.detail[0].0;
                let first_t = self.balls[first].path.t.value();
                let first_target = self.cube.path_snap_first(first_t);
                let mut k: usize = 0;
                while k < detail_len
                    invariant
                        k <= detail_len,
                        *self == (World { animations: self.animations, snap_events: self.snap_events, ..(*old(self)) }),
                        self.snap_events@ == old(self).snap_events@.subrange(1,
                            old(self).snap_events@.len() as int),
                        old(self).wf(),
                        ent < 6,
                        kind is Path,
                        detail_len == self.sensors@[ent as int].sensor.detail@.len(),
                        detail_len <= 18,
                        anims0.len() == 0,
                        records_wf(self.animations@),
                        members_ok(self.sensors@[ent as int].sensor.detail@, 64),
                        first_t == self.balls@[self.sensors@[ent as int].sensor.detail@[0].0
                            as int].path.t.value_spec(),
                        first_t < UNIT,
                        first_target
                            == CubeDescriptor::path_snap_first_spec(first_t as int),
                        self.animations@ == anims0 + path_snap_records(
                            self.sensors@[ent as int].sensor.detail@, self.balls@).subrange(0,
                            k as int),
                    decreases detail_len - k,
                {
                    let e = self.sensors[ent].sensor.detail[k].0;
                    let from = self.balls[e].path.t.value();
                    let to: i64 = first_target as i64 + (k as i64) * (BALL_STEP as i64);
                    self.animations.push(AnimRecord {
                        target: AnimTarget::Ball(e),
                        animation: Animation { kind, movement: to - from as i64, base: from },
                        timer: Timer::from_millis(200),
                    });
                    proof {
                        let d = self.sensors@[ent as int].sensor.detail@;
                        assert(path_snap_records(d, self.balls@).subrange(0, k + 1)
                            =~= path_snap_records(d, self.balls@).subrange(0, k as int)
                                .push(path_snap_records(d, self.balls@)[k as int]));
                        assert(self.animations@ =~= anims0 + path_snap_records(d,
                            self.balls@).subrange(0, k + 1));
                        assert forall|j1: int, j2: int| 0 <= j1 < j2 < self.animations@.len()
                            implies (#[trigger] self.animations@[j1]).target
                                != (#[trigger] self.animations@[j2]).target by {
                            if j2 == self.animations@.len() - 1 {
                                assert(self.animations@[j1].target == AnimTarget::Ball(d[j1].0));
                                assert(d[j1].0 != d[k as int].0);
                            }
                        }
                    }
                    k = k + 1;
                }
                proof {
                    let d = self.sensors@[ent as int].sensor.detail@;
                    assert(path_snap_records(d, self.balls@).subrange(0, detail_len as int)
                        =~= path_snap_records(d, self.balls@));
                }
            },
            MovementKind::Slide => {
                let from1 = self.slide_block.t.value();
                let to1 = crate::descriptor::snap3(from1);
                self.animations.push(AnimRecord {
                    target: AnimTarget::SlideBlock,
                    animation: Animation {
                        kind,
                        movement: to1 as i64 - from1 as i64,
                        base: from1,
                    },
                    timer: Timer::from_millis(200),
                });
                let from2 = self.rotate_block_slide.t.value();
                let to2 = crate::descriptor::snap3(from2);
                self.animations.push(AnimRecord {
                    target: AnimTarget::RotateBlock,
                    animation: Animation {
                        kind,
                        movement: to2 as i64 - from2 as i64,
                        base: from2,
                    },
                    timer: Timer::from_millis(200),
                });
                let ghost head = self.animations@;
                proof {
                    assert(head =~= anims0 + seq![
                        snap3_record(AnimTarget::SlideBlock, MovementKind::Slide,
                            old(self).slide_block.t.value_spec()),
                        snap3_record(AnimTarget::RotateBlock, MovementKind::Slide,
                            old(self).rotate_block_slide.t.value_spec()),
                    ]);
                }
                let mut k: usize = 0;
                while k < detail_len
                    invariant
                        k <= detail_len,
                        *self == (World { animations: self.animations, snap_events: self.snap_events, ..(*old(self)) }),
                        self.snap_events@ == old(self).snap_events@.subrange(1,
                            old(self).snap_events@.len() as int),
                        old(self).wf(),
                        ent < 6,
                        kind is Slide,
                        detail_len == self.sensors@[ent as int].sensor.detail@.len(),
                        detail_len <= 18,
                        records_wf(self.animations@),
                        members_ok(self.sensors@[ent as int].sensor.detail@, 64),
                        anims0.len() == 0,
                        head == anims0 + seq![
                            snap3_record(AnimTarget::SlideBlock, MovementKind::Slide,
                                old(self).slide_block.t.value_spec()),
                            snap3_record(AnimTarget::RotateBlock, MovementKind::Slide,
                                old(self).rotate_block_slide.t.value_spec()),
                        ],
                        self.animations@ == head + slide_member_records(
                            self.sensors@[ent as int].sensor.detail@, self.balls@).subrange(0,
                            k as int),
                    decreases detail_len - k,
                {
                    let e = self.sensors[ent].sensor.detail[k].0;
                    let from = self.balls[e].slide.t.value();
                    let to = crate::descriptor::snap3(from);
                    self.animations.push(AnimRecord {
                        target: AnimTarget::Ball(e),
                        animation: Animation {
                            kind,
                            movement: to as i64 - from as i64,
                            base: from,
                        },
                        timer: Timer::from_millis(200),
                    });
                    proof {
                        let d = self.sensors@[ent as int].sensor.detail@;
                        assert(slide_member_records(d, self.balls@).subrange(0, k + 1)
                            =~= slide_member_records(d, self.balls@).subrange(0, k as int)
                                .push(slide_member_records(d, self.balls@)[k as int]));
                        assert(self.animations@ =~= head + slide_member_records(d,
                            self.balls@).subrange(0, k + 1));
                        assert forall|j1: int, j2: int| 0 <= j1 < j2 < self.animations@.len()
                            implies (#[trigger] self.animations@[j1]).target
                                != (#[trigger] self.animations@[j2]).target by {
                            if j2 == self.animations@.len() - 1 {
                                if j1 >= 2 {
                                    assert(self.animations@[j1].target
                                        == AnimTarget::Ball(d[j1 - 2].0));
                                    assert(d[j1 - 2].0 != d[k as int].0);
                                }
                            }
                        }
                    }
                    k = k + 1;
                }
                proof {
                    let d = self.sensors@[ent as int].sensor.detail@;
                    assert(slide_member_records(d, self.balls@).subrange(0, detail_len as int)
                        =~= slide_member_records(d, self.balls@));
                    assert(self.animations@ =~= anims0 + snap_records(kind,
                        self.sensors@[ent as int], self.balls@, old(self).slide_block,
                        old(self).rotate_block_slide, old(self).rotate_block));
                }
            },
            MovementKind::Rotate => {
                let from1 = self.rotate_block.t.value();
                let to1 = crate::descriptor::snap3(from1);
                self.animations.push(AnimRecord {
                    target: AnimTarget::RotateBlock,
                    animation: Animation {
                        kind,
                        movement: to1 as i64 - from1 as i64,
                        base: from1,
                    },
                    timer: Timer::from_millis(200),
                });
                let ghost head = self.animations@;
                proof {
                    assert(head =~= anims0 + seq![
                        snap3_record(AnimTarget::RotateBlock, MovementKind::Rotate,
                            old(self).rotate_block.t.value_spec()),
                    ]);
                }
                let mut k: usize = 0;
                while k < detail_len
                    invariant
                        k <= detail_len,
                        *self == (World { animations: self.animations, snap_events: self.snap_events, ..(*old(self)) }),
                        self.snap_events@ == old(self).snap_events@.subrange(1,
                            old(self).snap_events@.len() as int),
                        old(self).wf(),
                        ent < 6,
                        kind is Rotate,
                        detail_len == self.sensors@[ent as int].sensor.detail@.len(),
                        detail_len <= 18,
                        records_wf(self.animations@),
                        members_ok(self.sensors@[ent as int].sensor.detail@, 64),
                        anims0.len() == 0,
                        head == anims0 + seq![
                            snap3_record(AnimTarget::RotateBlock, MovementKind::Rotate,
                                old(self).rotate_block.t.value_spec()),
                        ],
                        self.animations@ == head + rotate_member_records(
                            self.sensors@[ent as int].sensor.detail@, self.balls@).subrange(0,
                            k as int),
                    decreases detail_len - k,
                {
                    let e = self.sensors[ent].sensor.detail[k].0;
                    let from = self.balls[e].rotate.t.value();
                    let to = crate::descriptor::snap3(from);
                    self.animations.push(AnimRecord {
                        target: AnimTarget::Ball(e),
                        animation: Animation {
                            kind,
                            movement: to as i64 - from as i64,
                            base: from,
                        },
                        timer: Timer::from_millis(200),
                    });
                    proof {
                        let d = self.sensors@[ent as int].sensor.detail@;
                        assert(rotate_member_records(d, self.balls@).subrange(0, k + 1)
                            =~= rotate_member_records(d, self.balls@).subrange(0, k as int)
                                .push(rotate_member_records(d, self.balls@)[k as int]));
                        assert(self.animations@ =~= head + rotate_member_records(d,
                            self.balls@).subrange(0, k + 1));
                        assert forall|j1: int, j2: int| 0 <= j1 < j2 < self.animations@.len()
                            implies (#[trigger] self.animations@[j1]).target
                                != (#[trigger] self.animations@[j2]).target by {
                            if j2 == self.animations@.len() - 1 {
                                if j1 >= 1 {
                                    assert(self.animations@[j1].target
                                        == AnimTarget::Ball(d[j1 - 1].0));
                                    assert(d[j1 - 1].0 != d[k as int].0);
                                }
                            }
                        }
                    }
                    k = k + 1;
                }
                proof {
                    let d = self.sensors@[ent as int].sensor.detail@;
                    assert(rotate_member_records(d, self.balls@).subrange(0, detail_len as int)
                        =~= rotate_member_records(d, self.balls@));
                    assert(self.animations@ =~= anims0 + snap_records(kind,
                        self.sensors@[ent as int], self.balls@, old(self).slide_block,
                        old(self).rotate_block_slide, old(self).rotate_block));
                }
            },
        }
        self.state = AppState::Pause;
    }
}

/// A timer advanced by a time slice, capping at its duration.
pub open spec fn tick_timer(t: Timer, delta: int) -> Timer {
    Timer {
        elapsed: if t.elapsed + delta > t.duration {
            t.duration
        } else {
            (t.elapsed + delta) as u32
        },
        duration: t.duration,
    }
}

/// A record with its timer advanced by a time slice.
pub open spec fn ticked_rec(r: AnimRecord, delta: int) -> AnimRecord {
    AnimRecord { timer: tick_timer(r.timer, delta), ..r }
}

/// The scalar an animation drives its handle to at a timer position:
/// linear in elapsed time, not eased.
pub open spec fn anim_scalar(a: Animation, t: Timer) -> int {
    a.base + (a.movement * t.percent_spec()) / (UNIT as int)
}

/// The records still in flight after a time slice: each advanced, the
/// completed ones dropped.
pub open spec fn advance_records(s: Seq<AnimRecord>, delta: int) -> Seq<AnimRecord>
    decreases s.len(),
{
    if s.len() == 0 {
        s
    } else {
        let rest = advance_records(s.drop_last(), delta);
        let r = ticked_rec(s.last(), delta);
        if r.timer.finished_spec() {
            rest
        } else {
            rest.push(r)
        }
    }
}

/// Advancing a sound record list yields a sound record list.
#[verifier::rlimit(100)]
proof fn lemma_advance_records_wf(s: Seq<AnimRecord>, delta: int)
    requires
        records_wf(s),
    ensures
        records_wf(advance_records(s, delta)),
        forall|k: int| 0 <= k < advance_records(s, delta).len()
            ==> exists|j: int| 0 <= j < s.len()
                && (#[trigger] advance_records(s, delta)[k]) == ticked_rec(s[j], delta),
    decreases s.len(),
{
    if s.len() > 0 {
        assert(records_wf(s.drop_last()));
        lemma_advance_records_wf(s.drop_last(), delta);
        let rest = advance_records(s.drop_last(), delta);
        let r = ticked_rec(s.last(), delta);
        assert forall|k: int| 0 <= k < advance_records(s, delta).len()
            implies exists|j: int| 0 <= j < s.len()
                && (#[trigger] advance_records(s, delta)[k]) == ticked_rec(s[j], delta) by {
            if k < rest.len() {
                let j = choose|j: int| 0 <= j < s.drop_last().len()
                    && (#[trigger] rest[k]) == ticked_rec(s.drop_last()[j], delta);
                assert(advance_records(s, delta)[k] == ticked_rec(s[j], delta));
            } else {
                assert(advance_records(s, delta)[k] == ticked_rec(s[s.len() - 1], delta));
            }
        }
        if !r.timer.finished_spec() {
            assert forall|k1: int, k2: int| 0 <= k1 < k2 < advance_records(s, delta).len()
                implies (#[trigger] advance_records(s, delta)[k1]).target
                    != (#[trigger] advance_records(s, delta)[k2]).target by {
                if k2 == advance_records(s, delta).len() - 1 {
                    let j = choose|j: int| 0 <= j < s.drop_last().len()
                        && (#[trigger] rest[k1]) == ticked_rec(s.drop_last()[j], delta);
                    assert(s[j].target != s[s.len() - 1].target);
                }
            }
        }
    }
}

/// A record list targets a ball.
pub open spec fn targets_ball(s: Seq<AnimRecord>, i: usize) -> bool {
    exists|k: int| 0 <= k < s.len() && (#[trigger] s[k]).target == AnimTarget::Ball(i)
}

/// A record list targets the slide block.
pub open spec fn targets_slide_block(s: Seq<AnimRecord>) -> bool {
    exists|k: int| 0 <= k < s.len() && (#[trigger] s[k]).target is SlideBlock
}

/// A record list targets the rotate block's slide handle.
pub open spec fn targets_rotate_block_slide(s: Seq<AnimRecord>) -> bool {
    exists|k: int| 0 <= k < s.len() && (#[trigger] s[k]).target is RotateBlock
        && s[k].animation.kind is Slide
}

/// A record list targets the rotate block's rotate handle.
pub open spec fn targets_rotate_block(s: Seq<AnimRecord>) -> bool {
    exists|k: int| 0 <= k < s.len() && (#[trigger] s[k]).target is RotateBlock
        && s[k].animation.kind is Rotate
}

/// One record's effect took place between two world states: the targeted
/// handle sits at the animation's scalar for the advanced timer,
/// renormalized by its own handle type; nothing else of the target
/// changed.
pub open spec fn record_applied(w0: World, w1: World, rec: AnimRecord, delta: int) -> bool {
    let t1 = tick_timer(rec.timer, delta);
    let v = anim_scalar(rec.animation, t1);
    match rec.target {
        AnimTarget::Ball(i) => {
            let ob = w0.balls@[i as int];
            let nb = w1.balls@[i as int];
            &&& nb.color == ob.color
            &&& nb.translation == ob.translation
            &&& match rec.animation.kind {
                MovementKind::Path => nb.path.t.value_spec() == wrap_unit(v)
                    && nb.slide == ob.slide && nb.rotate == ob.rotate,
                MovementKind::Slide => nb.slide.t.value_spec() == clamp_unit(v)
                    && nb.path == ob.path && nb.rotate == ob.rotate,
                MovementKind::Rotate => nb.rotate.t.value_spec() == wrap_unit(v)
                    && nb.path == ob.path && nb.slide == ob.slide,
            }
        },
        AnimTarget::SlideBlock => w1.slide_block.t.value_spec() == clamp_unit(v),
        AnimTarget::RotateBlock => match rec.animation.kind {
            MovementKind::Slide => w1.rotate_block_slide.t.value_spec() == clamp_unit(v),
            MovementKind::Rotate => w1.rotate_block.t.value_spec() == wrap_unit(v),
            MovementKind::Path => true,
        },
    }
}

/// Floor division of an animation numerator by the full range.
fn div_unit(num: i64) -> (r: i64)
    ensures
        r == (num as int) / (UNIT as int),
{
    match num.checked_div_euclid(UNIT as i64) {
        Some(q) => q,
        None => {
            proof {
                assert(false);
            }
            0
        }
    }
}

impl World {
    /// The animation phase: every in-flight record advances its timer
    /// and writes its handle — base plus the movement's elapsed share —
    /// through the handle's own renormalization; completed records are
    /// dropped, and once none were in flight the world resumes
    /// interaction.
    #[verifier::rlimit(100)]
    pub fn animation(&mut self, delta_ms: u32)
        requires
            old(self).wf(),
        ensures
            final(self).wf(),
            *final(self) == (World {
                balls: final(self).balls,
                slide_block: final(self).slide_block,
                rotate_block_slide: final(self).rotate_block_slide,
                rotate_block: final(self).rotate_block,
                animations: final(self).animations,
                state: final(self).state,
                ..(*old(self))
            }),
            final(self).animations@ == advance_records(old(self).animations@, delta_ms as int),
            final(self).state == if old(self).animations@.len() == 0 {
                AppState::InGame
            } else {
                old(self).state
            },
            forall|j: int| 0 <= j < old(self).animations@.len() ==> record_applied(*old(self),
                *final(self), #[trigger] old(self).animations@[j], delta_ms as int),
            forall|i: usize| i < 64 && !targets_ball(old(self).animations@, i)
                ==> final(self).balls@[i as int] == old(self).balls@[i as int],
            !targets_slide_block(old(self).animations@)
                ==> final(self).slide_block == old(self).slide_block,
            !targets_rotate_block_slide(old(self).animations@)
                ==> final(self).rotate_block_slide == old(self).rotate_block_slide,
            !targets_rotate_block(old(self).animations@)
                ==> final(self).rotate_block == old(self).rotate_block,
    {
        let n = self.animations.len();
        let mut remaining: Vec<AnimRecord> = Vec::new();
        let mut k: usize = 0;
        while k < n
            invariant
                k <= n,
                old(self).wf(),
                n == old(self).animations@.len(),
                self.animations@ == old(self).animations@,
                *self == (World {
                    balls: self.balls,
                    slide_block: self.slide_block,
                    rotate_block_slide: self.rotate_block_slide,
                    rotate_block: self.rotate_block,
                    ..(*old(self))
                }),
                self.balls@.len() == 64,
                remaining@ == advance_records(old(self).animations@.subrange(0, k as int),
                    delta_ms as int),
                forall|j: int| 0 <= j < k ==> record_applied(*old(self), *self,
                    #[trigger] old(self).animations@[j], delta_ms as int),
                forall|i: usize| i < 64
                    && !targets_ball(old(self).animations@.subrange(0, k as int), i)
                    ==> self.balls@[i as int] == old(self).balls@[i as int],
                !targets_slide_block(old(self).animations@.subrange(0, k as int))
                    ==> self.slide_block == old(self).slide_block,
                !targets_rotate_block_slide(old(self).animations@.subrange(0, k as int))
                    ==> self.rotate_block_slide == old(self).rotate_block_slide,
                !targets_rotate_block(old(self).animations@.subrange(0, k as int))
                    ==> self.rotate_block == old(self).rotate_block,
            decreases n - k,
        {
            let ghost pre = *self;
            let rec0 = self.animations[k];
            let mut timer = rec0.timer;
            timer.tick(delta_ms);
            let p = timer.percent();
            proof {
                assert(record_wf(old(self).animations@[k as int]));
                assert(-2 * (UNIT as int) * (UNIT as int)
                    <= (rec0.animation.movement as int) * (p as int)
                    <= 2 * (UNIT as int) * (UNIT as int)) by (nonlinear_arith)
                    requires
                        -2 * (UNIT as int) <= rec0.animation.movement as int
                            <= 2 * (UNIT as int),
                        0 <= p as int <= UNIT as int,
                ;
            }
            let num: i64 = rec0.animation.movement * (p as i64);
            let v: i64 = rec0.animation.base as i64 + div_unit(num);
            match rec0.target {
                AnimTarget::Ball(i) => {
                    let mut b = self.balls[i];
                    match rec0.animation.kind {
                        MovementKind::Path => {
                            b.path = PathHandle::new(v);
                        },
                        MovementKind::Slide => {
                            b.slide = SlideHandle::new(v);
                        },
                        MovementKind::Rotate => {
                            b.rotate = RotateHandle::new(v);
                        },
                    }
                    self.balls[i] = b;
                },
                AnimTarget::SlideBlock => {
                    self.slide_block = SlideHandle::new(v);
                },
                AnimTarget::RotateBlock => {
                    match rec0.animation.kind {
                        MovementKind::Slide => {
                            self.rotate_block_slide = SlideHandle::new(v);
                        },
                        MovementKind::Rotate => {
                            self.rotate_block = RotateHandle::new(v);
                        },
                        MovementKind::Path => {
                            proof {
                                assert(false);
                            }
                        },
                    }
                },
            }
            if !timer.finished() {
                remaining.push(AnimRecord {
                    target: rec0.target,
                    animation: rec0.animation,
                    timer,
                });
            }
            proof {
                let anims = old(self).animations@;
                let sub1 = anims.subrange(0, k + 1);
                assert(sub1.drop_last() =~= anims.subrange(0, k as int));
                assert(sub1.last() == anims[k as int]);
                assert(timer == tick_timer(anims[k as int].timer, delta_ms as int));
                assert(v as int == anim_scalar(anims[k as int].animation,
                    tick_timer(anims[k as int].timer, delta_ms as int)));
                assert(remaining@ == advance_records(sub1, delta_ms as int));
                assert(record_applied(*old(self), *self, anims[k as int], delta_ms as int));
                assert forall|j: int| 0 <= j < k + 1 implies record_applied(*old(self), *self,
                    #[trigger] anims[j], delta_ms as int) by {
                    if j < k {
                        assert(anims[j].target != anims[k as int].target);
                        assert(record_applied(*old(self), pre, anims[j], delta_ms as int));
                    }
                }
                assert forall|i: usize| i < 64 && !targets_ball(sub1, i)
                    implies self.balls@[i as int] == old(self).balls@[i as int] by {
                    assert(!(anims[k as int].target == AnimTarget::Ball(i)));
                    if targets_ball(anims.subrange(0, k as int), i) {
                        let j = choose|j: int| 0 <= j < k
                            && (#[trigger] anims.subrange(0, k as int)[j]).target
                                == AnimTarget::Ball(i);
                        assert(sub1[j].target == AnimTarget::Ball(i));
                    }
                }
                assert(!targets_slide_block(sub1) ==> self.slide_block
                    == old(self).slide_block) by {
                    if targets_slide_block(anims.subrange(0, k as int)) {
                        let j = choose|j: int| 0 <= j < k
                            && (#[trigger] anims.subrange(0, k as int)[j]).target
                                is SlideBlock;
                        assert(sub1[j].target is SlideBlock);
                    }
                }
                assert(!targets_rotate_block_slide(sub1) ==> self.rotate_block_slide
                    == old(self).rotate_block_slide) by {
                    if targets_rotate_block_slide(anims.subrange(0, k as int)) {
                        let j = choose|j: int| 0 <= j < k
                            && (#[trigger] anims.subrange(0, k as int)[j]).target
                                is RotateBlock
                            && anims.subrange(0, k as int)[j].animation.kind is Slide;
                        assert(sub1[j].target is RotateBlock
                            && sub1[j].animation.kind is Slide);
                    }
                }
                assert(!targets_rotate_block(sub1) ==> self.rotate_block
                    == old(self).rotate_block) by {
                    if targets_rotate_block(anims.subrange(0, k as int)) {
                        let j = choose|j: int| 0 <= j < k
                            && (#[trigger] anims.subrange(0, k as int)[j]).target
                                is RotateBlock
                            && anims.subrange(0, k as int)[j].animation.kind is Rotate;
                        assert(sub1[j].target is RotateBlock
                            && sub1[j].animation.kind is Rotate);
                    }
                }
            }
            k = k + 1;
        }
        proof {
            assert(old(self).animations@.subrange(0, n as int) =~= old(self).animations@);
        }
        self.animations = remaining;
        if n == 0 {
            self.state = AppState::InGame;
        }
        proof {
            lemma_advance_records_wf(old(self).animations@, delta_ms as int);
        }
    }
}

/// Everything the host samples for one tick: elapsed time, pointer edges
/// and accumulated motion, the resolved pick and drag-plane hit, the key
/// presses, and the per-ball rotated up translations (the one quantity
/// that takes trigonometry).
pub struct TickInput {
    pub delta_ms: u32,
    pub mouse_pressed: bool,
    pub mouse_just_pressed: bool,
    pub mouse_just_released: bool,
    pub motion: Vec2,
    pub pick: Option<(usize, Vec3)>,
    pub cursor_pos: Option<Vec3>,
    pub keys: crate::input::KeyPresses,
    pub ups: Vec<Vec3>,
}

impl World {
    /// One tick of the puzzle, with its phases in their fixed order:
    /// in-flight animations advance first while paused; the grab edges
    /// and free-look rotation resolve next; then drag, keyboard and
    /// reset commands mutate handles; transforms resynchronize from the
    /// handles; the sensors rescan the fresh transforms; and a pending
    /// snap resolves last. The world's invariant survives every tick.
    #[verifier::rlimit(100)]
    pub fn tick(&mut self, input: &TickInput)
        requires
            old(self).wf(),
            old(self).state is InGame || old(self).state is Pause,
            input.ups@.len() == 64,
            forall|i: int| 0 <= i < input.ups@.len() ==> (#[trigger] input.ups@[i]).in_limit(),
            -crate::input::MOTION_LIMIT <= input.motion.x <= crate::input::MOTION_LIMIT,
            -crate::input::MOTION_LIMIT <= input.motion.y <= crate::input::MOTION_LIMIT,
        ensures
            final(self).wf(),
            final(self).state is InGame || final(self).state is Pause,
            forall|si: int| 0 <= si < final(self).sensors@.len() ==> ({
                let s = #[trigger] final(self).sensors@[si];
                detail_ok(s.sensor.shape, s.origin, final(self).balls@, s.sensor.detail@)
            }),
    {
        let state_in_game = match self.state {
            AppState::InGame => true,
            _ => false,
        };
        if !state_in_game {
            self.animation(input.delta_ms);
        }
        let is_grabbing = crate::input::grab(input.mouse_just_pressed,
            input.mouse_just_released, input.pick, &self.sensors, &mut self.grab,
            &mut self.snap_events);
        crate::input::cube_rotate(is_grabbing, input.mouse_pressed, input.motion,
            &mut self.rotation);
        if state_in_game {
            let m = crate::input::drag(&self.cube, &self.grab, &self.rotation, input.motion,
                input.cursor_pos);
            crate::input::apply_movement(m, &self.sensors, &mut self.balls,
                &mut self.slide_block, &mut self.rotate_block_slide, &mut self.rotate_block);
            let m2 = crate::input::key(input.keys, &self.cube, &mut self.rotation,
                &self.slide_block, &self.sensors);
            crate::input::apply_movement(m2, &self.sensors, &mut self.balls,
                &mut self.slide_block, &mut self.rotate_block_slide, &mut self.rotate_block);
            crate::input::reset(input.keys.shuffle, input.keys.restore, &self.cube,
                &mut self.balls, &mut self.slide_block, &mut self.rotate_block_slide,
                &mut self.rotate_block);
        }
        self.sync_ball_transforms(&input.ups);
        self.slide_block_transform();
        self.rotate_block_transform();
        self.trace_ball();
        proof {
            assert(labels_present(self.sensors@)) by {
                assert forall|l: SensorLabel| has_label(old(self).sensors@, l)
                    implies has_label(self.sensors@, l) by {
                    let si = choose|si: int| 0 <= si < old(self).sensors@.len()
                        && (#[trigger] old(self).sensors@[si]).label == l;
                    assert(self.sensors@[si].label == l);
                }
            }
        }
        if state_in_game {
            self.snap();
        }
    }
}

} // verus!

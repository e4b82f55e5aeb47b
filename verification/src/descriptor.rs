//! The static geometric descriptor of the cube.
//!
//! Two mirrored ball tracks, one linear slide path, one rotation path,
//! and the derived quantities: ball step size, group capacities, sensor
//! boxes, canonical startup handles, snap targets and the drag sign
//! table. One instance per running puzzle, immutable after construction.
//!
//! Coordinates are fixed-point integers on the `COORD_ONE` scale; handle
//! parameters are on the `UNIT` scale.

use vstd::prelude::*;
use vstd::arithmetic::div_mod::lemma_small_mod;
use crate::range01::{UNIT, HALF_UNIT};
use crate::geom::{Vec3, Vec2, SensorBox, COORD_LIMIT};
use crate::bezier::{Path, ControlPoint, path_wf, path_eval_x, path_eval_y, path_eval_z,
    reverse_spec, linear_val, linear};
use crate::component::{BallHandleBundle, PathHandle, SlideHandle, RotateHandle, SensorLabel};

verus! {

/// Number of balls that fill one arrangement group.
pub const N_BALLS: usize = 18;

/// Balls per side caught by the slide block.
pub const SLIDE_N_BALLS: usize = 4;

/// Balls per side caught by the rotate block.
pub const ROTATE_N_BALLS: usize = 2;

/// Ball radius, on the coordinate scale.
pub const BALL_RADIANS: i64 = 30000;

/// One ball step along a track: `UNIT / N_BALLS`.
pub const BALL_STEP: u32 = 200;

/// X of a track's outer rim control points.
pub const PATH_OUTSIDE_ORIGIN_X: i64 = -106700;

/// X of the backward tangents at the outer rim.
pub const PATH_OUTSIDE_BACKWARD_X: i64 = -106700;

/// X of the forward tangents at the outer rim.
pub const PATH_OUTSIDE_FORWARD_X: i64 = -112986;

/// Y of the side control points.
pub const PATH_SIDE_ORIGIN_Y: i64 = 90000;

/// Y of the backward tangents at the sides.
pub const PATH_SIDE_BACKWARD_Y: i64 = 30000;

/// Y of the forward tangents at the sides.
pub const PATH_SIDE_FORWARD_Y: i64 = 155670;

/// X of the top and bottom control points.
pub const PATH_TOP_ORIGIN_X: i64 = 0;

/// X of the backward tangents at top and bottom.
pub const PATH_TOP_BACKWARD_X: i64 = -68989;

/// Y of the top control point.
pub const PATH_TOP_ORIGIN_Y: i64 = 212490;

/// Y of the tangents at top and bottom.
pub const PATH_TOP_BACKWARD_Y: i64 = 201710;

/// X of the left group origin.
pub const GROUP_LEFT_OX: i64 = -150000;

/// Y of every group origin.
pub const GROUP_OY: i64 = 0;

/// Z of the upper group origins: floor height plus ball radius.
pub const GROUP_UP_Z: i64 = 60000;

/// X offset from a group origin to its track center:
/// `GROUP_LEFT_OX - PATH_OUTSIDE_ORIGIN_X`.
pub const PATH_INSIDE_OX: i64 = -43300;

/// The ternary snap lattice for slide and rotate handles: a released
/// handle snaps to 0 below the first quarter, to the full range above
/// the last quarter, and to the middle stop between them.
pub open spec fn snap3_spec(t: int) -> int {
    if t < (UNIT as int) / 4 {
        0
    } else if t > 3 * (UNIT as int) / 4 {
        UNIT as int
    } else {
        HALF_UNIT as int
    }
}

/// Compute the ternary snap target of a slide or rotate handle value.
pub fn snap3(t: u32) -> (r: u32)
    ensures
        r == snap3_spec(t as int),
{
    if t < UNIT / 4 {
        0
    } else if t > 3 * UNIT / 4 {
        UNIT
    } else {
        HALF_UNIT
    }
}

/// Applying the ternary snap to an already snapped value returns it
/// unchanged: the three stops are fixed points of the snap.
pub proof fn lemma_snap3_idempotent(t: int)
    ensures
        snap3_spec(snap3_spec(t)) == snap3_spec(t),
{
}

/// The canonical path handle of startup slot `i`, in `UNIT`-scale units:
/// each group's balls sit on consecutive ball steps, the right-side
/// groups starting past the slots their slide block occupies.
pub open spec fn init_path_units(i: int) -> int {
    if i < 18 {
        i * 200
    } else if i < 32 {
        (i - 18 + 4) * 200
    } else if i < 50 {
        (i - 32) * 200
    } else {
        (i - 50 + 4) * 200
    }
}

/// The canonical slide handle of startup slot `i`: the first and third
/// groups sit on the left side, the others on the right.
pub open spec fn init_slide_units(i: int) -> int {
    if i < 18 {
        0
    } else if i < 32 {
        UNIT as int
    } else if i < 50 {
        0
    } else {
        UNIT as int
    }
}

/// The canonical rotate handle of startup slot `i`: the first two groups
/// point up, the last two down.
pub open spec fn init_rotate_units(i: int) -> int {
    if i < 32 {
        0
    } else {
        HALF_UNIT as int
    }
}

/// A handle bundle carries exactly the canonical triple of slot `i`.
pub open spec fn init_bundle_ok(b: BallHandleBundle, i: int) -> bool {
    &&& b.path.t.value_spec() == init_path_units(i)
    &&& b.slide.t.value_spec() == init_slide_units(i)
    &&& b.rotate.t.value_spec() == init_rotate_units(i)
}

/// A mirrored pair of closed ball tracks; see [`BallPath::right`] for the
/// control point table.
#[derive(Clone, Debug)]
pub struct BallPath(pub Path);

/// The control points of the right-hand track: a rounded loop symmetric
/// about both axes of its plane, all in the z = 0 plane.
pub open spec fn right_path_spec() -> Seq<ControlPoint> {
    seq![
        ControlPoint {
            backward: Vec3 { x: PATH_OUTSIDE_FORWARD_X as i64, y: -PATH_SIDE_FORWARD_Y as i64, z: 0 },
            origin: Vec3 { x: PATH_OUTSIDE_ORIGIN_X as i64, y: -PATH_SIDE_ORIGIN_Y as i64, z: 0 },
            forward: Vec3 { x: PATH_OUTSIDE_BACKWARD_X as i64, y: -PATH_SIDE_BACKWARD_Y as i64, z: 0 },
        },
        ControlPoint {
            backward: Vec3 { x: PATH_OUTSIDE_BACKWARD_X as i64, y: PATH_SIDE_BACKWARD_Y as i64, z: 0 },
            origin: Vec3 { x: PATH_OUTSIDE_ORIGIN_X as i64, y: PATH_SIDE_ORIGIN_Y as i64, z: 0 },
            forward: Vec3 { x: PATH_OUTSIDE_FORWARD_X as i64, y: PATH_SIDE_FORWARD_Y as i64, z: 0 },
        },
        ControlPoint {
            backward: Vec3 { x: PATH_TOP_BACKWARD_X as i64, y: PATH_TOP_BACKWARD_Y as i64, z: 0 },
            origin: Vec3 { x: PATH_TOP_ORIGIN_X as i64, y: PATH_TOP_ORIGIN_Y as i64, z: 0 },
            forward: Vec3 { x: -PATH_TOP_BACKWARD_X as i64, y: PATH_TOP_BACKWARD_Y as i64, z: 0 },
        },
        ControlPoint {
            backward: Vec3 { x: -PATH_OUTSIDE_FORWARD_X as i64, y: PATH_SIDE_FORWARD_Y as i64, z: 0 },
            origin: Vec3 { x: -PATH_OUTSIDE_ORIGIN_X as i64, y: PATH_SIDE_ORIGIN_Y as i64, z: 0 },
            forward: Vec3 { x: -PATH_OUTSIDE_BACKWARD_X as i64, y: PATH_SIDE_BACKWARD_Y as i64, z: 0 },
        },
        ControlPoint {
            backward: Vec3 { x: -PATH_OUTSIDE_BACKWARD_X as i64, y: -PATH_SIDE_BACKWARD_Y as i64, z: 0 },
            origin: Vec3 { x: -PATH_OUTSIDE_ORIGIN_X as i64, y: -PATH_SIDE_ORIGIN_Y as i64, z: 0 },
            forward: Vec3 { x: -PATH_OUTSIDE_FORWARD_X as i64, y: -PATH_SIDE_FORWARD_Y as i64, z: 0 },
        },
        ControlPoint {
            backward: Vec3 { x: -PATH_TOP_BACKWARD_X as i64, y: -PATH_TOP_BACKWARD_Y as i64, z: 0 },
            origin: Vec3 { x: PATH_TOP_ORIGIN_X as i64, y: -PATH_TOP_ORIGIN_Y as i64, z: 0 },
            forward: Vec3 { x: PATH_TOP_BACKWARD_X as i64, y: -PATH_TOP_BACKWARD_Y as i64, z: 0 },
        },
    ]
}

/// The control points of the left-hand track: the reversed right track,
/// rotated one slot so its first point faces the same corner.
pub open spec fn left_path_spec() -> Seq<ControlPoint> {
    let rev = reverse_spec(right_path_spec());
    rev.remove(0).push(rev[0])
}

impl BallPath {
    /// Build the right-hand track from its control point table.
    pub fn right() -> (r: Self)
        ensures
            r.0.cp@ == right_path_spec(),
            path_wf(r.0.cp@),
    {
        let mut cp: Vec<ControlPoint> = Vec::new();
        cp.push(ControlPoint {
            backward: Vec3 { x: PATH_OUTSIDE_FORWARD_X, y: -PATH_SIDE_FORWARD_Y, z: 0 },
            origin: Vec3 { x: PATH_OUTSIDE_ORIGIN_X, y: -PATH_SIDE_ORIGIN_Y, z: 0 },
            forward: Vec3 { x: PATH_OUTSIDE_BACKWARD_X, y: -PATH_SIDE_BACKWARD_Y, z: 0 },
        });
        cp.push(ControlPoint {
            backward: Vec3 { x: PATH_OUTSIDE_BACKWARD_X, y: PATH_SIDE_BACKWARD_Y, z: 0 },
            origin: Vec3 { x: PATH_OUTSIDE_ORIGIN_X, y: PATH_SIDE_ORIGIN_Y, z: 0 },
            forward: Vec3 { x: PATH_OUTSIDE_FORWARD_X, y: PATH_SIDE_FORWARD_Y, z: 0 },
        });
        cp.push(ControlPoint {
            backward: Vec3 { x: PATH_TOP_BACKWARD_X, y: PATH_TOP_BACKWARD_Y, z: 0 },
            origin: Vec3 { x: PATH_TOP_ORIGIN_X, y: PATH_TOP_ORIGIN_Y, z: 0 },
            forward: Vec3 { x: -PATH_TOP_BACKWARD_X, y: PATH_TOP_BACKWARD_Y, z: 0 },
        });
        cp.push(ControlPoint {
            backward: Vec3 { x: -PATH_OUTSIDE_FORWARD_X, y: PATH_SIDE_FORWARD_Y, z: 0 },
            origin: Vec3 { x: -PATH_OUTSIDE_ORIGIN_X, y: PATH_SIDE_ORIGIN_Y, z: 0 },
            forward: Vec3 { x: -PATH_OUTSIDE_BACKWARD_X, y: PATH_SIDE_BACKWARD_Y, z: 0 },
        });
        cp.push(ControlPoint {
            backward: Vec3 { x: -PATH_OUTSIDE_BACKWARD_X, y: -PATH_SIDE_BACKWARD_Y, z: 0 },
            origin: Vec3 { x: -PATH_OUTSIDE_ORIGIN_X, y: -PATH_SIDE_ORIGIN_Y, z: 0 },
            forward: Vec3 { x: -PATH_OUTSIDE_FORWARD_X, y: -PATH_SIDE_FORWARD_Y, z: 0 },
        });
        cp.push(ControlPoint {
            backward: Vec3 { x: -PATH_TOP_BACKWARD_X, y: -PATH_TOP_BACKWARD_Y, z: 0 },
            origin: Vec3 { x: PATH_TOP_ORIGIN_X, y: -PATH_TOP_ORIGIN_Y, z: 0 },
            forward: Vec3 { x: PATH_TOP_BACKWARD_X, y: -PATH_TOP_BACKWARD_Y, z: 0 },
        });
        proof {
            assert(cp@ =~= right_path_spec());
        }
        BallPath(Path { cp })
    }

    /// Derive the left-hand track by reversing the right one and turning
    /// its point order one slot.
    pub fn left() -> (r: Self)
        ensures
            r.0.cp@ == left_path_spec(),
            path_wf(r.0.cp@),
    {
        let mut p = BallPath::right();
        p.0.reverse();
        let first = p.0.cp[0];
        let mut cp = p.0.cp;
        cp.remove(0);
        cp.push(first);
        proof {
            assert(cp@ =~= left_path_spec());
            assert forall|i: int| 0 <= i < cp@.len() implies (#[trigger] cp@[i]).in_limit() by {
                assert(path_wf(right_path_spec()));
            }
        }
        BallPath(Path { cp })
    }

    /// Evaluate the track at a path handle.
    pub fn evaluate(&self, h: PathHandle) -> (r: Vec3)
        requires
            path_wf(self.0.cp@),
        ensures
            r.x == path_eval_x(self.0.cp@, h.t.value_spec()),
            r.y == path_eval_y(self.0.cp@, h.t.value_spec()),
            r.z == path_eval_z(self.0.cp@, h.t.value_spec()),
            r.in_limit(),
    {
        self.0.evaluate(h.t.value())
    }
}

/// The straight path the slide block moves along: two x coordinates,
/// linearly interpolated.
#[derive(Clone, Copy, Debug)]
pub struct SlicePath {
    pub p1: i64,
    pub p2: i64,
}

impl Default for SlicePath {
    /// From the inner track offset on the left to its mirror on the
    /// right.
    fn default() -> (r: Self)
        ensures
            r.p1 == PATH_INSIDE_OX,
            r.p2 == -PATH_INSIDE_OX,
    {
        SlicePath { p1: PATH_INSIDE_OX, p2: -PATH_INSIDE_OX }
    }
}

impl SlicePath {
    /// Both endpoints within the coordinate bound.
    pub open spec fn wf(self) -> bool {
        &&& -COORD_LIMIT <= self.p1 <= COORD_LIMIT
        &&& -COORD_LIMIT <= self.p2 <= COORD_LIMIT
    }

    /// The x offset of the slide at a handle position, as a
    /// translation along the x axis.
    pub fn evaluate(&self, h: SlideHandle) -> (r: Vec3)
        requires
            self.wf(),
        ensures
            r.x == linear_val(self.p1 as int, self.p2 as int, h.t.value_spec()),
            -COORD_LIMIT <= r.x <= COORD_LIMIT,
            r.y == 0,
            r.z == 0,
    {
        let x = linear(self.p1, self.p2, h.t.value());
        Vec3 { x, y: 0, z: 0 }
    }
}

/// The rotation path of the rotate block: two angles on the `UNIT`
/// turn scale, linearly interpolated. The host turns the resulting turn
/// fraction into a rotation about the vertical axis.
#[derive(Clone, Copy, Debug)]
pub struct RotatePath {
    pub p1: u32,
    pub p2: u32,
}

impl Default for RotatePath {
    /// A full turn: from angle 0 to the whole range.
    fn default() -> (r: Self)
        ensures
            r.p1 == 0,
            r.p2 == UNIT,
    {
        RotatePath { p1: 0, p2: UNIT }
    }
}

impl RotatePath {
    /// Both endpoints within the turn range.
    pub open spec fn wf(self) -> bool {
        self.p1 <= UNIT && self.p2 <= UNIT
    }

    /// The interpolated rotation at a handle position, as a turn
    /// fraction on the `UNIT` scale.
    pub fn evaluate(&self, h: RotateHandle) -> (r: u32)
        requires
            self.wf(),
        ensures
            r == linear_val(self.p1 as int, self.p2 as int, h.t.value_spec()),
            r <= UNIT,
    {
        let v = linear(self.p1 as i64, self.p2 as i64, h.t.value());
        proof {
            crate::bezier::lemma_linear_val_range(self.p1 as int, self.p2 as int,
                h.t.value_spec());
        }
        v as u32
    }
}

/// The whole static geometric descriptor: the two mirrored ball tracks,
/// the slide path and the rotation path.
#[derive(Clone, Debug)]
pub struct CubeDescriptor {
    pub left_path: BallPath,
    pub right_path: BallPath,
    pub slide_path: SlicePath,
    pub rotate_path: RotatePath,
}

impl Default for CubeDescriptor {
    /// The canonical cube: mirrored tracks, full slide and rotation
    /// ranges.
    fn default() -> (r: Self)
        ensures
            r.left_path.0.cp@ == left_path_spec(),
            r.right_path.0.cp@ == right_path_spec(),
            r.slide_path.p1 == PATH_INSIDE_OX && r.slide_path.p2 == -PATH_INSIDE_OX,
            r.rotate_path.p1 == 0 && r.rotate_path.p2 == UNIT,
            r.wf(),
    {
        CubeDescriptor {
            left_path: BallPath::left(),
            right_path: BallPath::right(),
            slide_path: SlicePath::default(),
            rotate_path: RotatePath::default(),
        }
    }
}

impl CubeDescriptor {
    /// Everything the evaluators need of a descriptor: well-formed
    /// tracks and in-range path endpoints.
    pub open spec fn wf(self) -> bool {
        &&& path_wf(self.left_path.0.cp@)
        &&& path_wf(self.right_path.0.cp@)
        &&& self.slide_path.wf()
        &&& self.rotate_path.wf()
    }

    /// The four ball-group anchors: left/right side crossed with the
    /// upper/lower face.
    pub fn group_origins(&self) -> (r: Vec<(SensorLabel, Vec3)>)
        ensures
            r@.len() == 4,
            r@[0] == (SensorLabel::GroupA, (Vec3 { x: GROUP_LEFT_OX, y: GROUP_OY, z: GROUP_UP_Z })),
            r@[1] == (SensorLabel::GroupB, (Vec3 { x: 150000i64, y: GROUP_OY, z: GROUP_UP_Z })),
            r@[2] == (SensorLabel::GroupC, (Vec3 { x: GROUP_LEFT_OX, y: GROUP_OY, z: -60000i64 })),
            r@[3] == (SensorLabel::GroupD, (Vec3 { x: 150000i64, y: GROUP_OY, z: -60000i64 })),
    {
        let mut out: Vec<(SensorLabel, Vec3)> = Vec::new();
        out.push((SensorLabel::GroupA, Vec3 { x: GROUP_LEFT_OX, y: GROUP_OY, z: GROUP_UP_Z }));
        out.push((SensorLabel::GroupB, Vec3 { x: -GROUP_LEFT_OX, y: GROUP_OY, z: GROUP_UP_Z }));
        out.push((SensorLabel::GroupC, Vec3 { x: GROUP_LEFT_OX, y: GROUP_OY, z: -GROUP_UP_Z }));
        out.push((SensorLabel::GroupD, Vec3 { x: -GROUP_LEFT_OX, y: GROUP_OY, z: -GROUP_UP_Z }));
        out
    }

    /// How many balls fill one arrangement group.
    pub fn group_capacity(&self) -> (r: usize)
        ensures
            r == N_BALLS,
    {
        N_BALLS
    }

    /// How many balls fill the slide block group, both sides together.
    pub fn slide_capacity(&self) -> (r: usize)
        ensures
            r == 2 * SLIDE_N_BALLS,
    {
        SLIDE_N_BALLS * 2
    }

    /// How many balls fill the rotate block group, both sides together.
    pub fn rotate_capacity(&self) -> (r: usize)
        ensures
            r == 2 * ROTATE_N_BALLS,
    {
        ROTATE_N_BALLS * 2
    }

    /// How many balls of each color the puzzle holds.
    pub fn balls_per_color(&self) -> (r: usize)
        ensures
            r == N_BALLS - 2,
    {
        N_BALLS - 2
    }

    /// The ball radius, on the coordinate scale.
    pub fn ball_radians(&self) -> (r: i64)
        ensures
            r == BALL_RADIANS,
    {
        BALL_RADIANS
    }

    /// One ball step along a track: the full range split into one slot
    /// per group member.
    pub fn ball_step(&self) -> (r: u32)
        ensures
            r == BALL_STEP,
            18 * r == UNIT,
    {
        BALL_STEP
    }

    /// The canonical startup handle bundle for every ball slot, in slot
    /// order: four groups of consecutive track steps, the right-side
    /// groups starting past the slots their slide block occupies.
    pub fn ball_init_handles(&self) -> (r: Vec<BallHandleBundle>)
        ensures
            r@.len() == 64,
            forall|i: int| 0 <= i < 64 ==> init_bundle_ok(#[trigger] r@[i], i),
    {
        let mut out: Vec<BallHandleBundle> = Vec::new();
        let mut i: usize = 0;
        while i < 64
            invariant
                i <= 64,
                out@.len() == i,
                forall|j: int| 0 <= j < i ==> init_bundle_ok(#[trigger] out@[j], j),
            decreases 64 - i,
        {
            let path_units: u32 = if i < 18 {
                (i as u32) * 200
            } else if i < 32 {
                ((i - 14) as u32) * 200
            } else if i < 50 {
                ((i - 32) as u32) * 200
            } else {
                ((i - 46) as u32) * 200
            };
            proof {
                lemma_small_mod(path_units as nat, UNIT as nat);
            }
            let path = PathHandle::new(path_units as i64);
            let slide = if i < 18 || (i >= 32 && i < 50) {
                SlideHandle::left()
            } else {
                SlideHandle::right()
            };
            let rotate = if i < 32 {
                RotateHandle::up()
            } else {
                RotateHandle::down()
            };
            out.push(BallHandleBundle { path, slide, rotate });
            i = i + 1;
        }
        out
    }

    /// The track a ball currently rides: the cube's left track when its
    /// slide handle sits below the middle, the right track otherwise.
    pub open spec fn chosen_track(self, b: BallHandleBundle) -> Seq<ControlPoint> {
        if b.slide.t.value_spec() < HALF_UNIT {
            self.left_path.0.cp@
        } else {
            self.right_path.0.cp@
        }
    }

    /// The x offset from the cube's center to the chosen track's center.
    pub open spec fn side_offset_x(b: BallHandleBundle) -> int {
        if b.slide.t.value_spec() < HALF_UNIT {
            PATH_OUTSIDE_ORIGIN_X as int
        } else {
            -(PATH_OUTSIDE_ORIGIN_X as int)
        }
    }

    /// X of a ball's translation: track point, slide offset, side
    /// offset, and the host-rotated up vector.
    pub open spec fn ball_translation_x(self, b: BallHandleBundle, up: Vec3) -> int {
        path_eval_x(self.chosen_track(b), b.path.t.value_spec())
            + linear_val(self.slide_path.p1 as int, self.slide_path.p2 as int,
                b.slide.t.value_spec())
            + Self::side_offset_x(b) + up.x
    }

    /// Y of a ball's translation.
    pub open spec fn ball_translation_y(self, b: BallHandleBundle, up: Vec3) -> int {
        path_eval_y(self.chosen_track(b), b.path.t.value_spec()) + up.y
    }

    /// Z of a ball's translation.
    pub open spec fn ball_translation_z(self, b: BallHandleBundle, up: Vec3) -> int {
        path_eval_z(self.chosen_track(b), b.path.t.value_spec()) + up.z
    }

    /// The full translation of a ball: evaluate the chosen track at the
    /// path handle, add the slide path's x offset, the track side's
    /// offset, and the up translation as rotated by the host for the
    /// ball's rotate handle.
    pub fn get_ball_transform(&self, handle: &BallHandleBundle, rotated_up: Vec3) -> (r: Vec3)
        requires
            self.wf(),
            rotated_up.in_limit(),
        ensures
            r.x == self.ball_translation_x(*handle, rotated_up),
            r.y == self.ball_translation_y(*handle, rotated_up),
            r.z == self.ball_translation_z(*handle, rotated_up),
            r.in_world(),
    {
        let slide_t = handle.slide.t.value();
        let path_v: Vec3;
        let outside_x: i64;
        if slide_t < HALF_UNIT {
            path_v = self.left_path.evaluate(handle.path);
            outside_x = PATH_OUTSIDE_ORIGIN_X;
        } else {
            path_v = self.right_path.evaluate(handle.path);
            outside_x = -PATH_OUTSIDE_ORIGIN_X;
        }
        let slide_v = self.slide_path.evaluate(handle.slide);
        Vec3 {
            x: path_v.x + slide_v.x + outside_x + rotated_up.x,
            y: path_v.y + rotated_up.y,
            z: path_v.z + rotated_up.z,
        }
    }

    /// The unrotated up translation a ball sits away from the track
    /// plane.
    pub fn ball_up_translation(&self) -> (r: Vec3)
        ensures
            r == (Vec3 { x: 0, y: 0, z: GROUP_UP_Z }),
    {
        Vec3 { x: 0, y: 0, z: GROUP_UP_Z }
    }

    /// The sign table for path-kind drags: depending on which quadrant
    /// the hit point falls in — outside-left or outside-right of the
    /// grabbed track, above or below the side plane — a drag component
    /// moves the group forward or backward; whichever axis of the drag
    /// vector dominates picks the component.
    pub open spec fn path_sign_spec(o: Vec3, cp: Vec3, v: Vec2) -> int {
        let sy = if cp.y > 0 {
            v.x as int
        } else {
            -(v.x as int)
        };
        let sx = if o.x > 0 {
            if cp.x < -(GROUP_LEFT_OX as int) {
                -(v.y as int)
            } else {
                v.y as int
            }
        } else {
            if cp.x < GROUP_LEFT_OX {
                v.y as int
            } else {
                -(v.y as int)
            }
        };
        let sy2 = if o.x > 0 {
            sy
        } else {
            -sy
        };
        if vstd::math::abs(v.y as int) > vstd::math::abs(v.x as int) {
            sx
        } else {
            sy2
        }
    }

    /// Convert a screen-space drag at a hit point into the signed value
    /// whose sign moves a path group, following the documented quadrant
    /// table exactly.
    pub fn path_sign(&self, o: Vec3, cp: Vec3, v: Vec2) -> (r: i64)
        requires
            v.x != i64::MIN,
            v.y != i64::MIN,
        ensures
            r == Self::path_sign_spec(o, cp, v),
    {
        let sy: i64 = if cp.y > 0 {
            v.x
        } else {
            -v.x
        };
        let sx: i64;
        let sy2: i64;
        if o.x > 0 {
            sx = if cp.x < -GROUP_LEFT_OX {
                -v.y
            } else {
                v.y
            };
            sy2 = sy;
        } else {
            sx = if cp.x < GROUP_LEFT_OX {
                v.y
            } else {
                -v.y
            };
            sy2 = -sy;
        }
        let ay: i64 = if v.y >= 0 {
            v.y
        } else {
            -v.y
        };
        let ax: i64 = if v.x >= 0 {
            v.x
        } else {
            -v.x
        };
        if ay > ax {
            sx
        } else {
            sy2
        }
    }

    /// Where the lead ball of a released path group snaps: back to the
    /// track origin when at most half a step along, else one full step
    /// forward; the other members follow at consecutive steps.
    pub open spec fn path_snap_first_spec(t: int) -> int {
        if t > (BALL_STEP as int) / 2 {
            BALL_STEP as int
        } else {
            0
        }
    }

    /// Compute the lead ball's snap target.
    pub fn path_snap_first(&self, t: u32) -> (r: u32)
        ensures
            r == Self::path_snap_first_spec(t as int),
    {
        if t > BALL_STEP / 2 {
            BALL_STEP
        } else {
            0
        }
    }

    /// The membership box of a ball-group sensor: the whole track plus a
    /// ball radius, one face deep.
    pub fn ball_sensor_box(&self) -> (r: SensorBox)
        ensures
            r == (SensorBox {
                min_x: -136700i64, max_x: 136700,
                min_y: -242490i64, max_y: 242490,
                min_z: -25000i64, max_z: 25000,
            }),
    {
        let hx = -PATH_OUTSIDE_ORIGIN_X + BALL_RADIANS;
        let hy = PATH_TOP_ORIGIN_Y + BALL_RADIANS;
        let hz = BALL_RADIANS / 2 + 10000;
        SensorBox::new(hx * 2, hy * 2, hz * 2)
    }

    /// The membership box of the slide block sensor: the inner span plus
    /// a ball radius, four balls tall, both faces deep.
    pub fn slide_sensor_box(&self) -> (r: SensorBox)
        ensures
            r == (SensorBox {
                min_x: -73300i64, max_x: 73300,
                min_y: -120000i64, max_y: 120000,
                min_z: -95000i64, max_z: 95000,
            }),
    {
        let hx = -PATH_INSIDE_OX + BALL_RADIANS;
        let hy = BALL_RADIANS * 4;
        let hz = GROUP_UP_Z + BALL_RADIANS + 5000;
        SensorBox::new(hx * 2, hy * 2, hz * 2)
    }

    /// The membership box of the rotate block sensor: half the cube
    /// wide, two balls tall, both faces deep.
    pub fn rotate_sensor_box(&self) -> (r: SensorBox)
        ensures
            r == (SensorBox {
                min_x: -150000i64, max_x: 150000,
                min_y: -60000i64, max_y: 60000,
                min_z: -100000i64, max_z: 100000,
            }),
    {
        let hx = -GROUP_LEFT_OX;
        let hy = BALL_RADIANS * 2;
        let hz = GROUP_UP_Z + BALL_RADIANS + 10000;
        SensorBox::new(hx * 2, hy * 2, hz * 2)
    }
}

} // verus!

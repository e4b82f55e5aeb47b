//! The data model of the puzzle: handle components, colors, sensors and
//! the transient records of the interaction state machine.
//!
//! Entities are plain indices into the world's ball list; blocks and
//! sensors are referenced by their own indices. Each ball owns one handle
//! of each kind; each block owns the handles relevant to its kind.

use vstd::prelude::*;
use crate::range01::{WrappingUnit, SaturatingUnit, UNIT, HALF_UNIT, wrap_unit, clamp_unit};
use crate::geom::{Vec3, SensorBox};

verus! {

/// Whole-cube free-look rotation, decoupled from the puzzle mechanism:
/// yaw on a clamped slider, pitch on a ring.
#[derive(Clone, Copy, Debug)]
pub struct CubeRotation {
    pub yaw: SaturatingUnit,
    pub pitch: WrappingUnit,
}

impl CubeRotation {
    /// Build a rotation from raw scalars, normalizing both.
    pub fn new(yaw: i64, pitch: i64) -> (r: Self)
        ensures
            r.yaw.value_spec() == clamp_unit(yaw as int),
            r.pitch.value_spec() == wrap_unit(pitch as int),
    {
        CubeRotation { yaw: SaturatingUnit::new(yaw), pitch: WrappingUnit::new(pitch) }
    }

    /// The cube shows its back face when the pitch sits in the middle
    /// band of the ring, a quarter turn on either side of the bottom.
    pub open spec fn is_face_back_spec(self) -> bool {
        (UNIT as int) / 4 <= self.pitch.value_spec() <= 3 * (UNIT as int) / 4
    }

    /// Whether the back face is currently showing; drag sign conventions
    /// flip with it.
    pub fn is_face_back(&self) -> (r: bool)
        ensures
            r == self.is_face_back_spec(),
    {
        let pitch = self.pitch.value();
        pitch >= UNIT / 4 && pitch <= 3 * UNIT / 4
    }
}

/// Color group of a ball.
#[derive(Clone, Copy, Debug, PartialEq, Eq, Structural)]
pub enum BallColor {
    A,
    B,
    C,
    D,
}

impl BallColor {
    /// The letter that names the color.
    pub open spec fn to_char_spec(self) -> char {
        match self {
            BallColor::A => 'A',
            BallColor::B => 'B',
            BallColor::C => 'C',
            BallColor::D => 'D',
        }
    }

    /// The letter that names the color.
    pub fn to_char(&self) -> (r: char)
        ensures
            r == self.to_char_spec(),
    {
        match self {
            BallColor::A => 'A',
            BallColor::B => 'B',
            BallColor::C => 'C',
            BallColor::D => 'D',
        }
    }
}

/// Position of a ball along its closed track, on a ring.
#[derive(Clone, Copy, Debug)]
pub struct PathHandle {
    pub t: WrappingUnit,
}

impl PathHandle {
    /// Normalize a raw scalar onto the track ring.
    pub fn new(t: i64) -> (r: Self)
        ensures
            r.t.value_spec() == wrap_unit(t as int),
    {
        PathHandle { t: WrappingUnit::new(t) }
    }
}

/// Position of a slidable thing along the slide axis: 0 is the left
/// bound, the full range the right bound.
#[derive(Clone, Copy, Debug)]
pub struct SlideHandle {
    pub t: SaturatingUnit,
}

impl SlideHandle {
    /// Clamp a raw scalar onto the slide axis.
    pub fn new(t: i64) -> (r: Self)
        ensures
            r.t.value_spec() == clamp_unit(t as int),
    {
        SlideHandle { t: SaturatingUnit::new(t) }
    }

    /// The handle at the left bound.
    pub fn left() -> (r: Self)
        ensures
            r.t.value_spec() == 0,
    {
        SlideHandle::new(0)
    }

    /// The handle at the right bound.
    pub fn right() -> (r: Self)
        ensures
            r.t.value_spec() == UNIT,
    {
        SlideHandle::new(UNIT as i64)
    }
}

/// Position of a rotatable thing around its axis: 0 is up, half the
/// range is down.
#[derive(Clone, Copy, Debug)]
pub struct RotateHandle {
    pub t: WrappingUnit,
}

impl RotateHandle {
    /// Normalize a raw scalar onto the rotation ring.
    pub fn new(t: i64) -> (r: Self)
        ensures
            r.t.value_spec() == wrap_unit(t as int),
    {
        RotateHandle { t: WrappingUnit::new(t) }
    }

    /// The handle pointing up.
    pub fn up() -> (r: Self)
        ensures
            r.t.value_spec() == 0,
    {
        RotateHandle::new(0)
    }

    /// The handle pointing down.
    pub fn down() -> (r: Self)
        ensures
            r.t.value_spec() == HALF_UNIT,
    {
        RotateHandle::new(HALF_UNIT as i64)
    }
}

/// The three handles a ball owns at once; its position combines all of
/// them.
#[derive(Clone, Copy, Debug)]
pub struct BallHandleBundle {
    pub path: PathHandle,
    pub slide: SlideHandle,
    pub rotate: RotateHandle,
}

/// The kind of movement a grabbable group performs.
#[derive(Clone, Copy, Debug, PartialEq, Eq, Structural)]
pub enum MovementKind {
    Path,
    Slide,
    Rotate,
}

/// Which movable grouping a sensor watches: one of the four
/// ball-arrangement groups (keyed by face and slide side), the slide
/// block group, or the rotate block group.
#[derive(Clone, Copy, Debug, PartialEq, Eq, Structural)]
pub enum SensorLabel {
    GroupA,
    GroupB,
    GroupC,
    GroupD,
    BlockSlide,
    BlockRotate,
}

/// A spatial sensor that watches which balls currently occupy a movable
/// group, with its live ranked member list.
#[derive(Clone, Debug)]
pub struct BallSensor {
    pub shape: SensorBox,
    pub capacity: usize,
    /// The current members: ball index, color, and track parameter, in
    /// ascending track-parameter order. Fully recomputed every frame.
    pub detail: Vec<(usize, BallColor, u32)>,
}

impl BallSensor {
    /// The group is complete exactly when the member count meets the
    /// capacity.
    pub open spec fn is_full_spec(self) -> bool {
        self.detail@.len() == self.capacity
    }

    /// Build a sensor from its box and capacity, with no members yet.
    pub fn new(shape: SensorBox, capacity: usize) -> (r: Self)
        ensures
            r.shape == shape,
            r.capacity == capacity,
            r.detail@.len() == 0,
    {
        BallSensor { shape, capacity, detail: Vec::new() }
    }

    /// Whether a point, relative to the sensor's anchor, lies within the
    /// sensor's box on all three axes.
    pub fn intersect_point(&self, point: Vec3) -> (r: bool)
        ensures
            r == self.shape.contains(point),
    {
        let x = point.x >= self.shape.min_x && point.x <= self.shape.max_x;
        let y = point.y >= self.shape.min_y && point.y <= self.shape.max_y;
        let z = point.z >= self.shape.min_z && point.z <= self.shape.max_z;
        x && y && z
    }

    /// The member ball indices, in member order.
    pub fn entities(&self) -> (r: Vec<usize>)
        ensures
            r@.len() == self.detail@.len(),
            forall|k: int| 0 <= k < r@.len() ==> r@[k] == (#[trigger] self.detail@[k]).0,
    {
        let mut out: Vec<usize> = Vec::new();
        let mut k: usize = 0;
        while k < self.detail.len()
            invariant
                k <= self.detail@.len(),
                out@.len() == k,
                forall|j: int| 0 <= j < out@.len() ==> out@[j] == (#[trigger] self.detail@[j]).0,
            decreases self.detail@.len() - k,
        {
            let (e, _, _) = self.detail[k];
            out.push(e);
            k = k + 1;
        }
        out
    }

    /// Whether the group is complete.
    pub fn is_full(&self) -> (r: bool)
        ensures
            r == self.is_full_spec(),
    {
        self.detail.len() == self.capacity
    }
}

/// One ball entity: its color, its three handles, and its translation as
/// last synchronized from the handles.
#[derive(Clone, Copy, Debug)]
pub struct Ball {
    pub color: BallColor,
    pub path: PathHandle,
    pub slide: SlideHandle,
    pub rotate: RotateHandle,
    pub translation: Vec3,
}

/// One sensor of the world: which grouping it watches, the movement kind
/// a grab of it performs, its world-space anchor, and its live
/// membership.
#[derive(Clone, Debug)]
pub struct SensorEntry {
    pub label: SensorLabel,
    pub kind: MovementKind,
    pub origin: Vec3,
    pub sensor: BallSensor,
}

/// A member list is well formed against a ball count when every entry
/// points at a real ball and no ball appears twice.
pub open spec fn members_ok(detail: Seq<(usize, BallColor, u32)>, n: int) -> bool {
    &&& forall|k: int| 0 <= k < detail.len() ==> (#[trigger] detail[k]).0 < n
    &&& forall|k1: int, k2: int| 0 <= k1 < k2 < detail.len()
        ==> (#[trigger] detail[k1]).0 != (#[trigger] detail[k2]).0
}

/// A ball index occurs in a member list.
pub open spec fn is_member(detail: Seq<(usize, BallColor, u32)>, b: int) -> bool {
    exists|k: int| 0 <= k < detail.len() && (#[trigger] detail[k]).0 == b
}

/// The sensor a grab currently holds: its movement kind and its index in
/// the world's sensor list.
#[derive(Clone, Copy, Debug, PartialEq, Eq, Structural)]
pub struct GrabbingSensor {
    pub kind: MovementKind,
    pub entity: usize,
}

/// A resolved movement: which grabbed group moves, and the signed handle
/// delta to apply to every member this tick.
#[derive(Clone, Copy, Debug)]
pub struct Movement {
    pub grabbing: GrabbingSensor,
    pub movement: i64,
}

/// A snap animation in flight for one entity: the handle runs linearly
/// from `base` over a total signed `movement` as the timer advances.
#[derive(Clone, Copy, Debug)]
pub struct Animation {
    pub kind: MovementKind,
    pub movement: i64,
    pub base: u32,
}

/// What an animation record drives: one ball's handle, or a block's.
#[derive(Clone, Copy, Debug, PartialEq, Eq, Structural)]
pub enum AnimTarget {
    Ball(usize),
    SlideBlock,
    RotateBlock,
}

/// One in-flight snap animation: what it drives, the movement it
/// performs, and its countdown.
#[derive(Clone, Copy, Debug)]
pub struct AnimRecord {
    pub target: AnimTarget,
    pub animation: Animation,
    pub timer: Timer,
}

/// The single-slot grab state of the whole system: at most one group may
/// be grabbed at a time, with the world-space point it was grabbed at.
#[derive(Clone, Copy, Debug)]
pub struct GrabStatus {
    pub grabbing: Option<GrabbingSensor>,
    pub origin: Vec3,
}

impl Default for GrabStatus {
    /// No grab held, origin at rest.
    fn default() -> (r: Self)
        ensures
            r.grabbing is None,
            r.origin == (Vec3 { x: 0, y: 0, z: 0 }),
    {
        GrabStatus { grabbing: None, origin: Vec3 { x: 0, y: 0, z: 0 } }
    }
}

/// The event raised when a complete group is released and must snap.
#[derive(Clone, Copy, Debug)]
pub struct SnapEvent(pub GrabbingSensor);

/// A countdown driving one snap animation, in whole milliseconds.
#[derive(Clone, Copy, Debug)]
pub struct Timer {
    pub elapsed: u32,
    pub duration: u32,
}

impl Timer {
    /// Fraction of the countdown that has passed, on the `UNIT` scale;
    /// saturates at the full range once the countdown is over.
    pub open spec fn percent_spec(self) -> int {
        if self.duration == 0 || self.elapsed >= self.duration {
            UNIT as int
        } else {
            (self.elapsed * UNIT) / (self.duration as int)
        }
    }

    /// Whether the countdown is over.
    pub open spec fn finished_spec(self) -> bool {
        self.elapsed >= self.duration
    }

    /// Start a countdown of the given length.
    pub fn from_millis(duration: u32) -> (r: Self)
        ensures
            r.elapsed == 0,
            r.duration == duration,
    {
        Timer { elapsed: 0, duration }
    }

    /// Advance the countdown by an elapsed-time slice, capping at its
    /// length.
    pub fn tick(&mut self, delta: u32)
        ensures
            final(self).duration == old(self).duration,
            final(self).elapsed == if old(self).elapsed + delta > old(self).duration {
                old(self).duration as int
            } else {
                old(self).elapsed + delta
            },
    {
        if delta > self.duration || self.elapsed > self.duration - delta {
            self.elapsed = self.duration;
        } else {
            self.elapsed = self.elapsed + delta;
        }
    }

    /// Current progress on the `UNIT` scale.
    pub fn percent(&self) -> (r: u32)
        ensures
            r == self.percent_spec(),
            r <= UNIT,
    {
        if self.duration == 0 || self.elapsed >= self.duration {
            UNIT
        } else {
            proof {
                vstd::arithmetic::div_mod::lemma_div_is_ordered(
                    (self.elapsed as int) * (UNIT as int),
                    (self.duration as int) * (UNIT as int),
                    self.duration as int,
                );
                vstd::arithmetic::div_mod::lemma_div_multiples_vanish(
                    UNIT as int,
                    self.duration as int,
                );
                assert((self.elapsed as int) * (UNIT as int)
                    <= (self.duration as int) * (UNIT as int)) by (nonlinear_arith)
                    requires 0 <= self.elapsed as int <= self.duration as int;
            }
            ((self.elapsed as u64 * UNIT as u64) / self.duration as u64) as u32
        }
    }

    /// Whether the countdown is over.
    pub fn finished(&self) -> (r: bool)
        ensures
            r == self.finished_spec(),
    {
        self.elapsed >= self.duration
    }
}

} // verus!

//! Range-bounded scalar handles over the unit interval.
//!
//! A handle is a fixed-point scalar: `UNIT` units stand for the value `1.0`.
//! `WrappingUnit` lives on a ring (values wrap modulo `UNIT`, so it stays in
//! `[0, UNIT)`), `SaturatingUnit` on a bounded slider (values clamp into
//! `[0, UNIT]`). Every mutation renormalizes, so an out-of-range value can
//! never be observed.

use vstd::prelude::*;

verus! {

/// Number of fixed-point units that make up the scalar value `1.0`.
///
/// `3600` is divisible by the ball step denominator (18), the half step
/// denominator (36), the ternary snap lattice denominator (4) and all the
/// drag damping divisors (600, 100, 200), so every quantity the puzzle
/// rules speak of is exact in these units.
pub const UNIT: u32 = 3600;

/// Half of the full range, the middle stop of the ternary snap lattice.
pub const HALF_UNIT: u32 = 1800;

/// Wrap an arbitrary scalar into `[0, UNIT)`, ring topology.
pub open spec fn wrap_unit(t: int) -> int {
    t % (UNIT as int)
}

/// Clamp an arbitrary scalar into `[0, UNIT]`, bounded-slider topology.
pub open spec fn clamp_unit(t: int) -> int {
    if t < 0 {
        0
    } else if t > UNIT {
        UNIT as int
    } else {
        t
    }
}

/// A scalar handle on a ring: always in `[0, UNIT)`, movement past the
/// bounds reappears at the other side.
#[derive(Clone, Copy, Debug)]
pub struct WrappingUnit {
    t: u32,
}

impl WrappingUnit {
    /// The handle's current position, in fixed-point units.
    pub closed spec fn value_spec(self) -> int {
        self.t as int
    }

    #[verifier::type_invariant]
    pub closed spec fn inv(self) -> bool {
        self.t < UNIT
    }

    /// Normalize an arbitrary scalar onto the ring.
    pub fn new(t: i64) -> (r: Self)
        ensures
            r.value_spec() == wrap_unit(t as int),
    {
        Self { t: rem_unit(t) }
    }

    /// Read the position back as a plain integer in `[0, UNIT)`.
    pub fn value(&self) -> (r: u32)
        ensures
            r == self.value_spec(),
            r < UNIT,
    {
        proof {
            use_type_invariant(self);
        }
        self.t
    }

    /// Move by a signed delta, wrapping around the ring.
    pub fn add(&mut self, delta: i64)
        ensures
            final(self).value_spec() == wrap_unit(old(self).value_spec() + delta),
    {
        let sum: i128 = self.t as i128 + delta as i128;
        let m = match sum.checked_rem_euclid(UNIT as i128) {
            Some(m) => m,
            None => {
                proof {
                    assert(false);
                }
                0
            }
        };
        self.t = m as u32;
    }
}

impl Default for WrappingUnit {
    /// The ring's origin.
    fn default() -> (r: Self)
        ensures
            r.value_spec() == 0,
    {
        Self { t: 0 }
    }
}

/// A scalar handle on a bounded slider: always in `[0, UNIT]`, movement
/// past the bounds clamps.
#[derive(Clone, Copy, Debug)]
pub struct SaturatingUnit {
    t: u32,
}

impl SaturatingUnit {
    /// The handle's current position, in fixed-point units.
    pub closed spec fn value_spec(self) -> int {
        self.t as int
    }

    #[verifier::type_invariant]
    pub closed spec fn inv(self) -> bool {
        self.t <= UNIT
    }

    /// Clamp an arbitrary scalar onto the slider.
    pub fn new(t: i64) -> (r: Self)
        ensures
            r.value_spec() == clamp_unit(t as int),
    {
        let c: u32 = if t < 0 {
            0
        } else if t > UNIT as i64 {
            UNIT
        } else {
            t as u32
        };
        Self { t: c }
    }

    /// Read the position back as a plain integer in `[0, UNIT]`.
    pub fn value(&self) -> (r: u32)
        ensures
            r == self.value_spec(),
            r <= UNIT,
    {
        proof {
            use_type_invariant(self);
        }
        self.t
    }

    /// Move by a signed delta, clamping at the bounds.
    pub fn add(&mut self, delta: i64)
        ensures
            final(self).value_spec() == clamp_unit(old(self).value_spec() + delta),
    {
        let sum: i128 = self.t as i128 + delta as i128;
        let c: u32 = if sum < 0 {
            0
        } else if sum > UNIT as i128 {
            UNIT
        } else {
            sum as u32
        };
        self.t = c;
    }
}

impl Default for SaturatingUnit {
    /// The slider's low end.
    fn default() -> (r: Self)
        ensures
            r.value_spec() == 0,
    {
        Self { t: 0 }
    }
}

/// Whatever the input, a wrapped scalar lands strictly inside the ring's
/// range.
pub proof fn lemma_wrap_in_range(t: int)
    ensures
        0 <= wrap_unit(t) < UNIT,
{
}

/// Whatever the input, a clamped scalar lands inside the closed range.
pub proof fn lemma_clamp_in_range(t: int)
    ensures
        0 <= clamp_unit(t) <= UNIT,
{
}

/// Euclidean remainder of a scalar by the full range, the executable side
/// of [`wrap_unit`].
fn rem_unit(t: i64) -> (r: u32)
    ensures
        r as int == wrap_unit(t as int),
        r < UNIT,
{
    match t.checked_rem_euclid(UNIT as i64) {
        Some(m) => m as u32,
        None => {
            proof {
                assert(false);
            }
            0
        }
    }
}

/// Wrap a raw scalar into `[0, UNIT)`; the free-function form of
/// [`WrappingUnit::new`].
pub fn wrapping_new(t: i64) -> (r: u32)
    ensures
        r as int == wrap_unit(t as int),
        r < UNIT,
{
    rem_unit(t)
}

/// Clamp a raw scalar into `[0, UNIT]`; the free-function form of
/// [`SaturatingUnit::new`].
pub fn saturating_new(t: i64) -> (r: u32)
    ensures
        r as int == clamp_unit(t as int),
        r <= UNIT,
{
    if t < 0 {
        0
    } else if t > UNIT as i64 {
        UNIT
    } else {
        t as u32
    }
}

} // verus!

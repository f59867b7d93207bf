//! The rotation state: one angle for each of the six coordinate planes.

use vstd::prelude::*;
use crate::scalar::{is_nan, less, lt, nan, ZERO};

verus! {

/// A quarter turn, `π/2`.
pub const QUARTER_TURN: u64 = 0x3FF9_21FB_5444_2D18;

/// A quarter turn the other way, `-π/2`.
pub const NEG_QUARTER_TURN: u64 = 0xBFF9_21FB_5444_2D18;

/// The angle kept within a quarter turn either way. What is no number
/// becomes the lower bound.
pub open spec fn within_quarter_turn(angle: u64) -> u64 {
    if is_nan(angle) || less(angle, NEG_QUARTER_TURN) {
        NEG_QUARTER_TURN
    } else if less(QUARTER_TURN, angle) {
        QUARTER_TURN
    } else {
        angle
    }
}

fn clamped(angle: u64) -> (r: u64)
    ensures
        r == within_quarter_turn(angle),
{
    if nan(angle) || lt(angle, NEG_QUARTER_TURN) {
        NEG_QUARTER_TURN
    } else if lt(QUARTER_TURN, angle) {
        QUARTER_TURN
    } else {
        angle
    }
}

/// Six angles in radians, as binary64 patterns. They are applied in the
/// order xy, xz, xw, yz, yw, zw.
#[derive(Debug, Copy, Clone)]
pub struct Angle {
    pub xy: u64,
    pub xz: u64,
    pub xw: u64,
    pub yz: u64,
    pub yw: u64,
    pub zw: u64,
}

impl Angle {
    /// The state in which no plane is rotated.
    pub open spec fn zero() -> Angle {
        Angle { xy: ZERO, xz: ZERO, xw: ZERO, yz: ZERO, yw: ZERO, zw: ZERO }
    }

    pub fn new() -> (a: Angle)
        ensures
            a == Angle::zero(),
    {
        Angle { xy: ZERO, xz: ZERO, xw: ZERO, yz: ZERO, yw: ZERO, zw: ZERO }
    }

    /// Resets every angle to zero, as is due once a rotation has been
    /// committed to the coordinates.
    pub fn clear(&mut self)
        ensures
            *final(self) == Angle::zero(),
    {
        self.xy = ZERO;
        self.xz = ZERO;
        self.xw = ZERO;
        self.yz = ZERO;
        self.yw = ZERO;
        self.zw = ZERO;
    }

    /// Keeps the angles of the planes yz and yw within a quarter turn either
    /// way. The other four angles are free.
    pub fn clamp(&mut self)
        ensures
            *final(self) == (Angle {
                yz: within_quarter_turn(old(self).yz),
                yw: within_quarter_turn(old(self).yw),
                ..*old(self)
            }),
    {
        self.yz = clamped(self.yz);
        self.yw = clamped(self.yw);
    }
}

} // verus!

//! The camera that the scene is seen from.

use vstd::prelude::*;
use crate::scalar::{ONE, ZERO};
use crate::vector::Vec4f;

verus! {

pub struct Camera {
    /// Where the camera stands.
    pub c: Vec4f,
    /// The direction it looks in.
    pub n: Vec4f,
}

impl Camera {
    /// A camera at `c` that looks along the fourth axis.
    pub fn new(c: Vec4f) -> (camera: Camera)
        ensures
            camera.c == c,
            camera.n == Vec4f::at(ZERO, ZERO, ZERO, ONE),
    {
        Camera { c, n: Vec4f::new(ZERO, ZERO, ZERO, ONE) }
    }
}

} // verus!

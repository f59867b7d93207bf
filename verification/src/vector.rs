//! Four-component points with a cached screen projection and a selection flag.

use vstd::prelude::*;
use crate::scalar::{same, ZERO};

verus! {

#[derive(Debug, Copy, Clone)]
pub struct Vec4f {
    pub x: u64,
    pub y: u64,
    pub z: u64,
    pub w: u64,
    /// Screen position under the transform it was last computed for.
    pub projection: Option<(u64, u64)>,
    pub selected: bool,
}

impl Vec4f {
    /// The point with the given coordinates, unprojected and unselected.
    pub open spec fn at(x: u64, y: u64, z: u64, w: u64) -> Vec4f {
        Vec4f { x, y, z, w, projection: None, selected: false }
    }

    /// This point with its selection flag replaced.
    pub open spec fn marked(self, selected: bool) -> Vec4f {
        Vec4f { selected, ..self }
    }

    pub fn new(x: u64, y: u64, z: u64, w: u64) -> (v: Vec4f)
        ensures
            v == Vec4f::at(x, y, z, w),
    {
        Vec4f { x, y, z, w, projection: None, selected: false }
    }

    /// The point whose four coordinates are all `v`.
    pub fn newf(v: u64) -> (r: Vec4f)
        ensures
            r == Vec4f::at(v, v, v, v),
    {
        Vec4f::new(v, v, v, v)
    }

    /// The origin.
    pub fn new0() -> (r: Vec4f)
        ensures
            r == Vec4f::at(ZERO, ZERO, ZERO, ZERO),
    {
        Vec4f::newf(ZERO)
    }

    pub fn as_tuple(&self) -> (t: (u64, u64, u64, u64))
        ensures
            t == (self.x, self.y, self.z, self.w),
    {
        (self.x, self.y, self.z, self.w)
    }

    pub fn as_vec(&self) -> (v: Vec<u64>)
        ensures
            v@ == seq![self.x, self.y, self.z, self.w],
    {
        let mut v: Vec<u64> = Vec::new();
        v.push(self.x);
        v.push(self.y);
        v.push(self.z);
        v.push(self.w);
        v
    }

    pub fn get_proj(self) -> (p: Option<(u64, u64)>)
        ensures
            p == self.projection,
    {
        self.projection
    }

    pub fn set_proj(&mut self, v: (u64, u64))
        ensures
            *final(self) == (Vec4f { projection: Some(v), ..*old(self) }),
    {
        self.projection = Some(v);
    }

    pub fn select(&mut self)
        ensures
            *final(self) == old(self).marked(true),
    {
        self.selected = true;
    }

    pub fn deselect(&mut self)
        ensures
            *final(self) == old(self).marked(false),
    {
        self.selected = false;
    }

    /// An unselected copy of the coordinates that carries the projection `v`.
    pub fn with_proj(self, v: (u64, u64)) -> (r: Vec4f)
        ensures
            r == (Vec4f { projection: Some(v), selected: false, ..self }),
    {
        Vec4f { x: self.x, y: self.y, z: self.z, w: self.w, projection: Some(v), selected: false }
    }
}

impl PartialEq for Vec4f {
    fn eq(&self, v: &Vec4f) -> (r: bool) {
        crate::scalar::eq(self.x, v.x) && crate::scalar::eq(self.y, v.y) && crate::scalar::eq(
            self.z,
            v.z,
        ) && crate::scalar::eq(self.w, v.w)
    }
}

/// Two points are equal when their coordinates are equal as numbers; the
/// projection and the selection flag do not count.
impl vstd::std_specs::cmp::PartialEqSpecImpl for Vec4f {
    open spec fn obeys_eq_spec() -> bool {
        true
    }

    open spec fn eq_spec(&self, v: &Vec4f) -> bool {
        same(self.x, v.x) && same(self.y, v.y) && same(self.z, v.z) && same(self.w, v.w)
    }
}

} // verus!

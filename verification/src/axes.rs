//! The manipulator that moves a selection along one axis at a time, and the
//! reference axes that show the orientation.

use vstd::prelude::*;
use crate::edge::Edge;
use crate::object::Object;
use crate::picking::{edge_distances, find_closest_edge, is_nearest};
use crate::scalar::{ONE, ZERO};
use crate::vector::Vec4f;

verus! {

/// Four basis directions, shown at a fixed place on screen.
#[derive(Debug, Copy, Clone)]
pub struct Axes {
    pub x: Vec4f,
    pub y: Vec4f,
    pub z: Vec4f,
    pub w: Vec4f,
    pub offset: (u64, u64),
}

/// The manipulator: a unit direction for each axis, anchored at the centre
/// of the selection.
#[derive(Debug, Copy, Clone)]
pub struct MotionAxes {
    pub x: Vec4f,
    pub y: Vec4f,
    pub z: Vec4f,
    pub w: Vec4f,
    /// The centre of the selection; none while nothing is selected.
    pub pos: Option<Vec4f>,
    pub grabbed: bool,
    pub grab_start: Option<Vec4f>,
    pub grab_now: Option<Vec4f>,
}

/// The unit vector along the axis `index`.
pub open spec fn basis(index: int) -> Vec4f {
    Vec4f::at(
        if index == 0 { ONE } else { ZERO },
        if index == 1 { ONE } else { ZERO },
        if index == 2 { ONE } else { ZERO },
        if index == 3 { ONE } else { ZERO },
    )
}

/// The edges from the centre to the four tips.
pub open spec fn star_edges() -> Seq<Edge> {
    seq![
        Edge { a: 0, b: 1, selected: false },
        Edge { a: 0, b: 2, selected: false },
        Edge { a: 0, b: 3, selected: false },
        Edge { a: 0, b: 4, selected: false },
    ]
}

impl MotionAxes {
    /// How many axes are selected.
    pub open spec fn selected_axes(self) -> int {
        (if self.x.selected { 1int } else { 0 }) + (if self.y.selected { 1int } else { 0 }) + (
        if self.z.selected { 1int } else { 0 }) + (if self.w.selected { 1int } else { 0 })
    }

    /// At most one axis is selected, and exactly one while the manipulator is
    /// grabbed.
    pub open spec fn wf(self) -> bool {
        self.selected_axes() <= 1 && (self.grabbed ==> self.selected_axes() == 1)
    }

    /// The manipulator with the flags of its axes set to select the axis
    /// `index`, or none if there is no such axis.
    pub open spec fn with_axe(self, index: int) -> MotionAxes {
        MotionAxes {
            x: self.x.marked(index == 0),
            y: self.y.marked(index == 1),
            z: self.z.marked(index == 2),
            w: self.w.marked(index == 3),
            ..self
        }
    }

    /// The centre and the four tips, as the vertices of the graph that a
    /// pointer is measured against.
    pub open spec fn graph_vertices(self) -> Seq<Vec4f> {
        seq![self.pos->Some_0, self.x, self.y, self.z, self.w]
    }

    /// An idle manipulator without a place.
    pub fn new() -> (m: MotionAxes)
        ensures
            m.x == basis(0),
            m.y == basis(1),
            m.z == basis(2),
            m.w == basis(3),
            m.pos is None,
            !m.grabbed,
            m.grab_start is None,
            m.grab_now is None,
            m.wf(),
    {
        MotionAxes {
            x: Vec4f::new(ONE, ZERO, ZERO, ZERO),
            y: Vec4f::new(ZERO, ONE, ZERO, ZERO),
            z: Vec4f::new(ZERO, ZERO, ONE, ZERO),
            w: Vec4f::new(ZERO, ZERO, ZERO, ONE),
            grab_start: None,
            grab_now: None,
            grabbed: false,
            pos: None,
        }
    }

    pub fn any_axe_selected(self) -> (r: bool)
        ensures
            r == (self.selected_axes() > 0),
    {
        self.x.selected || self.y.selected || self.z.selected || self.w.selected
    }

    /// Begins a drag if an axis is selected: the manipulator is grabbed and
    /// remembers where it stood. Without a selected axis nothing changes.
    pub fn try_grab(&mut self)
        ensures
            old(self).selected_axes() > 0 ==> *final(self) == (MotionAxes {
                grab_start: old(self).pos,
                grabbed: true,
                ..*old(self)
            }),
            old(self).selected_axes() == 0 ==> *final(self) == *old(self),
            old(self).wf() ==> final(self).wf(),
    {
        if self.any_axe_selected() {
            self.grab_start = self.pos;
            self.grabbed = true;
        }
    }

    /// Ends a drag.
    pub fn ungrab(&mut self)
        ensures
            *final(self) == (MotionAxes {
                grab_start: None,
                grab_now: None,
                grabbed: false,
                ..*old(self)
            }),
            old(self).selected_axes() <= 1 ==> final(self).wf(),
    {
        self.grab_start = None;
        self.grab_now = None;
        self.grabbed = false;
    }

    /// Puts the manipulator at the centre of the selection, or nowhere when
    /// nothing is selected.
    pub fn move_to(&mut self, pos: Option<Vec4f>)
        ensures
            *final(self) == (MotionAxes { pos, ..*old(self) }),
    {
        self.pos = pos;
    }

    fn select_axe(&mut self, index: usize)
        ensures
            *final(self) == old(self).with_axe(index as int),
    {
        self.x.selected = index == 0;
        self.y.selected = index == 1;
        self.z.selected = index == 2;
        self.w.selected = index == 3;
    }

    fn clear_selection(&mut self)
        ensures
            *final(self) == old(self).with_axe(-1),
    {
        self.x.selected = false;
        self.y.selected = false;
        self.z.selected = false;
        self.w.selected = false;
    }

    /// The selected axis: the first of x, y, z, w that is selected.
    pub fn selected_axe(&self) -> (r: Option<usize>)
        ensures
            r == if self.x.selected {
                Some(0usize)
            } else if self.y.selected {
                Some(1usize)
            } else if self.z.selected {
                Some(2usize)
            } else if self.w.selected {
                Some(3usize)
            } else {
                None
            },
    {
        if self.x.selected {
            Some(0)
        } else if self.y.selected {
            Some(1)
        } else if self.z.selected {
            Some(2)
        } else if self.w.selected {
            Some(3)
        } else {
            None
        }
    }

    /// The graph that a pointer is measured against to pick an axis: the
    /// centre and the four tips, with an edge from the centre to each tip.
    /// There is none while the manipulator has no place.
    pub fn pick_graph(&self) -> (r: Option<Object>)
        ensures
            self.pos is None ==> r is None,
            self.pos is Some ==> (r matches Some(o) && o.vertices@ == self.graph_vertices()
                && o.edges@ == star_edges() && o.faces@.len() == 0 && o.cells@.len() == 0
                && o.name is None && o.wf()),
    {
        match self.pos {
            None => None,
            Some(pos) => {
                let o = Object {
                    vertices: vec![pos, self.x, self.y, self.z, self.w],
                    edges: vec![Edge::new(0, 1), Edge::new(0, 2), Edge::new(0, 3), Edge::new(0, 4)],
                    faces: Vec::new(),
                    cells: Vec::new(),
                    name: None,
                };
                assert(o.vertices@ =~= self.graph_vertices());
                assert(o.edges@ =~= star_edges());
                Some(o)
            },
        }
    }

    /// Selects the axis that the pointer is nearest to and returns it, or
    /// deselects every axis if the pointer is near none. `distances[i]` is the
    /// distance on screen from the pointer to the edge at `i` of the graph of
    /// `pick_graph`. A manipulator without a place is left as it is.
    pub fn get_closest_axe(&mut self, distances: &Vec<Option<u64>>) -> (r: Option<usize>)
        ensures
            old(self).pos is None ==> r is None && *final(self) == *old(self),
            old(self).pos is Some ==> is_nearest(
                edge_distances(distances@, star_edges(), old(self).graph_vertices()),
                r,
            ) && *final(self) == old(self).with_axe(
                match r {
                    Some(index) => index as int,
                    None => -1,
                },
            ),
            r matches Some(index) ==> index < 4,
            old(self).wf() && !old(self).grabbed ==> final(self).wf(),
    {
        let axes_object = match self.pick_graph() {
            Some(o) => o,
            None => {
                return None;
            },
        };
        if let Some(index) = find_closest_edge(distances, &axes_object) {
            self.select_axe(index);
            Some(index)
        } else {
            self.clear_selection();
            None
        }
    }

    /// What a drag along the selected axis is computed from: the direction of
    /// the axis, where its tip is projected, and where the centre is
    /// projected. There is none, and so no motion, when no axis is selected or
    /// one of the two projections is missing.
    pub fn motion_frame(&self) -> (r: Option<(Vec4f, (u64, u64), (u64, u64))>)
        ensures
            r == match (self.selected_axe_spec(), self.pos) {
                (Some(axe), Some(pos)) => match (axe.projection, pos.projection) {
                    (Some(tip), Some(centre)) => Some((axe, tip, centre)),
                    _ => None,
                },
                _ => None,
            },
    {
        let axe = if self.x.selected {
            self.x
        } else if self.y.selected {
            self.y
        } else if self.z.selected {
            self.z
        } else if self.w.selected {
            self.w
        } else {
            return None;
        };
        if let (Some(tip), Some(pos)) = (axe.get_proj(), self.pos) {
            if let Some(centre) = pos.get_proj() {
                return Some((axe, tip, centre));
            }
        }
        None
    }

    /// The direction of the selected axis: the first of x, y, z, w that is
    /// selected.
    pub open spec fn selected_axe_spec(self) -> Option<Vec4f> {
        if self.x.selected {
            Some(self.x)
        } else if self.y.selected {
            Some(self.y)
        } else if self.z.selected {
            Some(self.z)
        } else if self.w.selected {
            Some(self.w)
        } else {
            None
        }
    }

    /// Where the dragged point stands: where the drag has taken it, or where
    /// the drag began if it has not moved yet.
    pub fn grab_origin(&self) -> (r: Option<Vec4f>)
        ensures
            r == if self.grab_now is Some {
                self.grab_now
            } else {
                self.grab_start
            },
    {
        if let Some(now) = self.grab_now {
            Some(now)
        } else {
            self.grab_start
        }
    }

    /// Records where the drag has taken the dragged point. Outside a drag
    /// nothing is recorded.
    pub fn drag_to(&mut self, point: Vec4f)
        ensures
            old(self).grab_now is Some || old(self).grab_start is Some ==> *final(self)
                == (MotionAxes { grab_now: Some(point), ..*old(self) }),
            old(self).grab_now is None && old(self).grab_start is None ==> *final(self) == *old(self),
    {
        if self.grab_now.is_some() || self.grab_start.is_some() {
            self.grab_now = Some(point);
        }
    }
}

impl Axes {
    /// The four unit directions, shown at the offset `(x, y)`.
    pub fn new(x: u64, y: u64) -> (a: Axes)
        ensures
            a.x == basis(0),
            a.y == basis(1),
            a.z == basis(2),
            a.w == basis(3),
            a.offset == (x, y),
    {
        Axes {
            x: Vec4f::new(ONE, ZERO, ZERO, ZERO),
            y: Vec4f::new(ZERO, ONE, ZERO, ZERO),
            z: Vec4f::new(ZERO, ZERO, ONE, ZERO),
            w: Vec4f::new(ZERO, ZERO, ZERO, ONE),
            offset: (x, y),
        }
    }
}

} // verus!

//! The mesh: vertices, edges that refer to them by position, and the inert
//! face and cell records that travel with them.

use vstd::prelude::*;
use crate::edge::Edge;
use crate::scalar::{NEG_ONE, ONE};
use crate::vector::Vec4f;

verus! {

/// Three vertex positions, three edge positions and a selection flag.
pub type Face = ((usize, usize, usize), (usize, usize, usize), bool);

/// Four vertex positions, six edge positions, four face positions and a
/// selection flag.
pub type Cell = (
    (usize, usize, usize, usize),
    (usize, usize, usize, usize, usize, usize),
    (usize, usize, usize, usize),
    bool,
);

/// One editable mesh.
#[derive(Debug, Clone)]
pub struct Object {
    pub vertices: Vec<Vec4f>,
    pub edges: Vec<Edge>,
    pub faces: Vec<Face>,
    pub cells: Vec<Cell>,
    pub name: Option<String>,
}

/// An edge is valid among `n` vertices when both ends exist and differ.
pub open spec fn edge_ok(e: Edge, n: int) -> bool {
    e.a < n && e.b < n && e.a != e.b
}

/// Every vertex with its selection flag set to `flag`.
pub open spec fn all_marked(vs: Seq<Vec4f>, flag: bool) -> Seq<Vec4f> {
    Seq::new(vs.len(), |i: int| vs[i].marked(flag))
}

/// Every edge with its selection flag set to `flag`.
pub open spec fn edges_marked(es: Seq<Edge>, flag: bool) -> Seq<Edge> {
    Seq::new(es.len(), |i: int| Edge { selected: flag, ..es[i] })
}

/// Every face with its selection flag set to `flag`.
pub open spec fn faces_marked(fs: Seq<Face>, flag: bool) -> Seq<Face> {
    Seq::new(fs.len(), |i: int| (fs[i].0, fs[i].1, flag))
}

/// Every cell with its selection flag set to `flag`.
pub open spec fn cells_marked(cs: Seq<Cell>, flag: bool) -> Seq<Cell> {
    Seq::new(cs.len(), |i: int| (cs[i].0, cs[i].1, cs[i].2, flag))
}

/// The coordinate of a corner of the tesseract along the axis whose bit is
/// given: `1.0` where the bit is set, `-1.0` where it is clear.
pub open spec fn corner_coordinate(bit: int) -> u64 {
    if bit % 2 == 1 {
        ONE
    } else {
        NEG_ONE
    }
}

/// The corner of the tesseract at position `i`: the bits of `i`, from the
/// highest of four to the lowest, give the signs of x, y, z and w.
pub open spec fn corner(i: int) -> Vec4f {
    Vec4f::at(
        corner_coordinate(i / 8),
        corner_coordinate(i / 4),
        corner_coordinate(i / 2),
        corner_coordinate(i),
    )
}

/// Whether the corner at `b` is the corner at `a` with one coordinate raised
/// from `-1.0` to `1.0`.
pub open spec fn one_step_up(a: int, b: int) -> bool {
    ||| b == a + 1 && a % 2 == 0
    ||| b == a + 2 && (a / 2) % 2 == 0
    ||| b == a + 4 && (a / 4) % 2 == 0
    ||| b == a + 8 && (a / 8) % 2 == 0
}

/// Edges in dictionary order of their ends.
pub open spec fn edge_before(e: Edge, f: Edge) -> bool {
    e.a < f.a || (e.a == f.a && e.b < f.b)
}

/// The edges of the tesseract: one for each pair of corners that differ in
/// one coordinate, in dictionary order of their ends.
pub open spec fn tesseract_edges() -> Seq<Edge> {
    seq![
        Edge { a: 0, b: 1, selected: false },
        Edge { a: 0, b: 2, selected: false },
        Edge { a: 0, b: 4, selected: false },
        Edge { a: 0, b: 8, selected: false },
        Edge { a: 1, b: 3, selected: false },
        Edge { a: 1, b: 5, selected: false },
        Edge { a: 1, b: 9, selected: false },
        Edge { a: 2, b: 3, selected: false },
        Edge { a: 2, b: 6, selected: false },
        Edge { a: 2, b: 10, selected: false },
        Edge { a: 3, b: 7, selected: false },
        Edge { a: 3, b: 11, selected: false },
        Edge { a: 4, b: 5, selected: false },
        Edge { a: 4, b: 6, selected: false },
        Edge { a: 4, b: 12, selected: false },
        Edge { a: 5, b: 7, selected: false },
        Edge { a: 5, b: 13, selected: false },
        Edge { a: 6, b: 7, selected: false },
        Edge { a: 6, b: 14, selected: false },
        Edge { a: 7, b: 15, selected: false },
        Edge { a: 8, b: 9, selected: false },
        Edge { a: 8, b: 10, selected: false },
        Edge { a: 8, b: 12, selected: false },
        Edge { a: 9, b: 11, selected: false },
        Edge { a: 9, b: 13, selected: false },
        Edge { a: 10, b: 11, selected: false },
        Edge { a: 10, b: 14, selected: false },
        Edge { a: 11, b: 15, selected: false },
        Edge { a: 12, b: 13, selected: false },
        Edge { a: 12, b: 14, selected: false },
        Edge { a: 13, b: 15, selected: false },
        Edge { a: 14, b: 15, selected: false },
    ]
}

impl Object {
    /// Every edge joins two distinct existing vertices.
    pub open spec fn wf(&self) -> bool {
        forall|i: int|
            0 <= i < self.edges@.len() ==> edge_ok(
                #[trigger] self.edges@[i],
                self.vertices@.len() as int,
            )
    }

    /// Whether every edge joins two distinct existing vertices.
    pub fn is_wf(&self) -> (r: bool)
        ensures
            r == self.wf(),
    {
        let n = self.vertices.len();
        let m = self.edges.len();
        for i in 0..m
            invariant
                m == self.edges@.len(),
                n == self.vertices@.len(),
                forall|j: int| 0 <= j < i ==> edge_ok(#[trigger] self.edges@[j], n as int),
        {
            if self.edges[i].a >= n || self.edges[i].b >= n || self.edges[i].a == self.edges[i].b {
                assert(!edge_ok(self.edges@[i as int], n as int));
                return false;
            }
        }
        true
    }

    pub fn empty() -> (o: Object)
        ensures
            o.vertices@.len() == 0,
            o.edges@.len() == 0,
            o.faces@.len() == 0,
            o.cells@.len() == 0,
            o.name is None,
            o.wf(),
    {
        Object { vertices: Vec::new(), edges: Vec::new(), faces: Vec::new(), cells: Vec::new(), name: None }
    }

    /// A mesh with the same vertices, edges, faces, cells and name.
    pub fn duplicate(&self) -> (o: Object)
        ensures
            o.vertices@ == self.vertices@,
            o.edges@ == self.edges@,
            o.faces@ == self.faces@,
            o.cells@ == self.cells@,
            o.name == self.name,
    {
        let mut vertices: Vec<Vec4f> = Vec::new();
        let nv = self.vertices.len();
        for i in 0..nv
            invariant
                nv == self.vertices@.len(),
                vertices@ == self.vertices@.take(i as int),
        {
            vertices.push(self.vertices[i]);
            assert(self.vertices@.take(i + 1) == self.vertices@.take(i as int).push(
                self.vertices@[i as int],
            ));
        }
        assert(self.vertices@.take(nv as int) == self.vertices@);
        let mut edges: Vec<Edge> = Vec::new();
        let ne = self.edges.len();
        for i in 0..ne
            invariant
                ne == self.edges@.len(),
                edges@ == self.edges@.take(i as int),
        {
            edges.push(self.edges[i].clone_and_select(self.edges[i].selected));
            assert(self.edges@.take(i + 1) == self.edges@.take(i as int).push(
                self.edges@[i as int],
            ));
        }
        assert(self.edges@.take(ne as int) == self.edges@);
        let mut faces: Vec<Face> = Vec::new();
        let nf = self.faces.len();
        for i in 0..nf
            invariant
                nf == self.faces@.len(),
                faces@ == self.faces@.take(i as int),
        {
            faces.push(self.faces[i]);
            assert(self.faces@.take(i + 1) == self.faces@.take(i as int).push(
                self.faces@[i as int],
            ));
        }
        assert(self.faces@.take(nf as int) == self.faces@);
        let mut cells: Vec<Cell> = Vec::new();
        let nc = self.cells.len();
        for i in 0..nc
            invariant
                nc == self.cells@.len(),
                cells@ == self.cells@.take(i as int),
        {
            cells.push(self.cells[i]);
            assert(self.cells@.take(i + 1) == self.cells@.take(i as int).push(
                self.cells@[i as int],
            ));
        }
        assert(self.cells@.take(nc as int) == self.cells@);
        let name = match &self.name {
            Some(s) => Some(s.clone()),
            None => None,
        };
        Object { vertices, edges, faces, cells, name }
    }

    /// The tesseract with corners at `±1.0`: sixteen vertices, and one
    /// unselected edge for each pair of corners that differ in one coordinate,
    /// in dictionary order.
    pub fn tesseract() -> (o: Object)
        ensures
            o.vertices@.len() == 16,
            forall|i: int| 0 <= i < 16 ==> #[trigger] o.vertices@[i] == corner(i),
            o.edges@ == tesseract_edges(),
            o.edges@.len() == 32,
            forall|i: int|
                0 <= i < 32 ==> {
                    let e = #[trigger] o.edges@[i];
                    e.b < 16 && one_step_up(e.a as int, e.b as int) && !e.selected
                },
            forall|i: int, j: int|
                0 <= i < j < 32 ==> edge_before(#[trigger] o.edges@[i], #[trigger] o.edges@[j]),
            o.faces@.len() == 0,
            o.cells@.len() == 0,
            o.name matches Some(name) && name@ == "Tessteract"@,
            o.wf(),
    {
        let o = Object {
            vertices: vec![
                Vec4f::new(NEG_ONE, NEG_ONE, NEG_ONE, NEG_ONE),
                Vec4f::new(NEG_ONE, NEG_ONE, NEG_ONE, ONE),
                Vec4f::new(NEG_ONE, NEG_ONE, ONE, NEG_ONE),
                Vec4f::new(NEG_ONE, NEG_ONE, ONE, ONE),
                Vec4f::new(NEG_ONE, ONE, NEG_ONE, NEG_ONE),
                Vec4f::new(NEG_ONE, ONE, NEG_ONE, ONE),
                Vec4f::new(NEG_ONE, ONE, ONE, NEG_ONE),
                Vec4f::new(NEG_ONE, ONE, ONE, ONE),
                Vec4f::new(ONE, NEG_ONE, NEG_ONE, NEG_ONE),
                Vec4f::new(ONE, NEG_ONE, NEG_ONE, ONE),
                Vec4f::new(ONE, NEG_ONE, ONE, NEG_ONE),
                Vec4f::new(ONE, NEG_ONE, ONE, ONE),
                Vec4f::new(ONE, ONE, NEG_ONE, NEG_ONE),
                Vec4f::new(ONE, ONE, NEG_ONE, ONE),
                Vec4f::new(ONE, ONE, ONE, NEG_ONE),
                Vec4f::new(ONE, ONE, ONE, ONE),
            ],
            edges: vec![
                Edge::new(0, 1),
                Edge::new(0, 2),
                Edge::new(0, 4),
                Edge::new(0, 8),
                Edge::new(1, 3),
                Edge::new(1, 5),
                Edge::new(1, 9),
                Edge::new(2, 3),
                Edge::new(2, 6),
                Edge::new(2, 10),
                Edge::new(3, 7),
                Edge::new(3, 11),
                Edge::new(4, 5),
                Edge::new(4, 6),
                Edge::new(4, 12),
                Edge::new(5, 7),
                Edge::new(5, 13),
                Edge::new(6, 7),
                Edge::new(6, 14),
                Edge::new(7, 15),
                Edge::new(8, 9),
                Edge::new(8, 10),
                Edge::new(8, 12),
                Edge::new(9, 11),
                Edge::new(9, 13),
                Edge::new(10, 11),
                Edge::new(10, 14),
                Edge::new(11, 15),
                Edge::new(12, 13),
                Edge::new(12, 14),
                Edge::new(13, 15),
                Edge::new(14, 15),
            ],
            faces: Vec::new(),
            cells: Vec::new(),
            name: Some("Tessteract".to_string()),
        };
        assert(o.edges@ =~= tesseract_edges());
        o
    }

    fn mark_all(&mut self, flag: bool)
        ensures
            final(self).vertices@ == all_marked(old(self).vertices@, flag),
            final(self).edges@ == edges_marked(old(self).edges@, flag),
            final(self).faces@ == faces_marked(old(self).faces@, flag),
            final(self).cells@ == cells_marked(old(self).cells@, flag),
            final(self).name == old(self).name,
    {
        let nv = self.vertices.len();
        for i in 0..nv
            invariant
                self.vertices@.len() == nv == old(self).vertices@.len(),
                forall|j: int| 0 <= j < i ==> self.vertices@[j] == old(self).vertices@[j].marked(flag),
                forall|j: int| i <= j < nv ==> self.vertices@[j] == old(self).vertices@[j],
                self.edges == old(self).edges,
                self.faces == old(self).faces,
                self.cells == old(self).cells,
                self.name == old(self).name,
        {
            self.vertices[i].selected = flag;
        }
        let ne = self.edges.len();
        for i in 0..ne
            invariant
                self.edges@.len() == ne == old(self).edges@.len(),
                forall|j: int|
                    0 <= j < i ==> self.edges@[j] == (Edge {
                        selected: flag,
                        ..old(self).edges@[j]
                    }),
                forall|j: int| i <= j < ne ==> self.edges@[j] == old(self).edges@[j],
                self.vertices@ == all_marked(old(self).vertices@, flag),
                self.faces == old(self).faces,
                self.cells == old(self).cells,
                self.name == old(self).name,
        {
            self.edges[i].selected = flag;
        }
        let nf = self.faces.len();
        for i in 0..nf
            invariant
                self.faces@.len() == nf == old(self).faces@.len(),
                forall|j: int| 0 <= j < i ==> self.faces@[j] == faces_marked(old(self).faces@, flag)[j],
                forall|j: int| i <= j < nf ==> self.faces@[j] == old(self).faces@[j],
                self.vertices@ == all_marked(old(self).vertices@, flag),
                self.edges@ == edges_marked(old(self).edges@, flag),
                self.cells == old(self).cells,
                self.name == old(self).name,
        {
            self.faces[i].2 = flag;
        }
        let nc = self.cells.len();
        for i in 0..nc
            invariant
                self.cells@.len() == nc == old(self).cells@.len(),
                forall|j: int| 0 <= j < i ==> self.cells@[j] == cells_marked(old(self).cells@, flag)[j],
                forall|j: int| i <= j < nc ==> self.cells@[j] == old(self).cells@[j],
                self.vertices@ == all_marked(old(self).vertices@, flag),
                self.edges@ == edges_marked(old(self).edges@, flag),
                self.faces@ == faces_marked(old(self).faces@, flag),
                self.name == old(self).name,
        {
            self.cells[i].3 = flag;
        }
    }

    /// Clears every selection flag: vertices, edges, faces and cells.
    pub fn clear_selection(&mut self)
        ensures
            final(self).vertices@ == all_marked(old(self).vertices@, false),
            final(self).edges@ == edges_marked(old(self).edges@, false),
            final(self).faces@ == faces_marked(old(self).faces@, false),
            final(self).cells@ == cells_marked(old(self).cells@, false),
            final(self).name == old(self).name,
    {
        self.mark_all(false);
    }

    /// Sets every selection flag: vertices, edges, faces and cells.
    pub fn select(&mut self)
        ensures
            final(self).vertices@ == all_marked(old(self).vertices@, true),
            final(self).edges@ == edges_marked(old(self).edges@, true),
            final(self).faces@ == faces_marked(old(self).faces@, true),
            final(self).cells@ == cells_marked(old(self).cells@, true),
            final(self).name == old(self).name,
    {
        self.mark_all(true);
    }
}
} // verus!

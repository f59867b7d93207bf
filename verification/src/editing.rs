//! The operations that change the shape of a mesh: delete, copy, paste,
//! extrude and fill. Each of them keeps every edge between two different
//! vertices of the mesh.

use vstd::prelude::*;
use crate::edge::Edge;
use crate::object::{all_marked, cells_marked, edge_ok, edges_marked, faces_marked, Object};
use crate::selection::{edges_off_first, ends_selected, lemma_selected_indices, selected_indices};
use crate::vector::Vec4f;

verus! {

/// The test "is selected" on vertices.
pub open spec fn is_selected() -> spec_fn(Vec4f) -> bool {
    |v: Vec4f| v.selected
}

/// The test "is not selected" on vertices.
pub open spec fn is_unselected() -> spec_fn(Vec4f) -> bool {
    |v: Vec4f| !v.selected
}

/// How many of the vertices are selected.
pub open spec fn selected_count(vs: Seq<Vec4f>) -> nat {
    vs.filter(is_selected()).len()
}

/// How many selected vertices stand before position `i`: the position that a
/// selected vertex at `i` takes among the selected ones.
pub open spec fn rank(vs: Seq<Vec4f>, i: int) -> nat {
    selected_count(vs.take(i))
}

/// Counting selected vertices one position further.
pub proof fn lemma_rank_step(vs: Seq<Vec4f>, i: int)
    requires
        0 <= i < vs.len(),
    ensures
        rank(vs, i + 1) == rank(vs, i) + if vs[i].selected { 1nat } else { 0nat },
        copied_vertices(vs.take(i + 1)) == if vs[i].selected {
            copied_vertices(vs.take(i)).push(vs[i].marked(false))
        } else {
            copied_vertices(vs.take(i))
        },
{
    let front = vs.take(i);
    assert(vs.take(i + 1) == front.push(vs[i]));
    front.lemma_filter_push(vs[i], is_selected());
    front.filter(is_selected()).lemma_push_map_commute(unmarking(), vs[i]);
}

/// `rank` grows with the position, and strictly so across a selected vertex.
pub proof fn lemma_rank_monotone(vs: Seq<Vec4f>, i: int, j: int)
    requires
        0 <= i <= j <= vs.len(),
    ensures
        rank(vs, i) <= rank(vs, j),
        i < j && vs[i].selected ==> rank(vs, i) < rank(vs, j),
        rank(vs, vs.len() as int) == selected_count(vs),
        rank(vs, 0) == 0,
        rank(vs, j) <= j,
    decreases j - i,
{
    assert(vs.take(vs.len() as int) == vs);
    assert(vs.take(0).filter(is_selected()).len() == 0) by {
        vs.take(0).lemma_filter_len(is_selected());
    }
    vs.take(j).lemma_filter_len(is_selected());
    if i < j {
        lemma_rank_monotone(vs, i, j - 1);
        lemma_rank_step(vs, j - 1);
    }
}

/// Between two positions there are no more selected vertices than positions.
pub proof fn lemma_rank_gap(vs: Seq<Vec4f>, i: int, j: int)
    requires
        0 <= i <= j <= vs.len(),
    ensures
        rank(vs, j) - rank(vs, i) <= j - i,
    decreases j - i,
{
    if i < j {
        lemma_rank_gap(vs, i, j - 1);
        lemma_rank_step(vs, j - 1);
    }
}

/// `selected_indices` lists as many positions as there are selected vertices.
pub proof fn lemma_selected_indices_count(vs: Seq<Vec4f>)
    ensures
        selected_indices(vs).len() == selected_count(vs),
    decreases vs.len(),
{
    if vs.len() > 0 {
        let front = vs.drop_last();
        lemma_selected_indices_count(front);
        assert(vs == front.push(vs.last()));
        front.lemma_filter_push(vs.last(), is_selected());
    } else {
        vs.lemma_filter_len(is_selected());
    }
}

/// Counting unselected vertices one position further.
pub proof fn lemma_unselected_step(vs: Seq<Vec4f>, i: int)
    requires
        0 <= i < vs.len(),
    ensures
        vs.take(i + 1).filter(is_unselected()) == if vs[i].selected {
            vs.take(i).filter(is_unselected())
        } else {
            vs.take(i).filter(is_unselected()).push(vs[i])
        },
{
    let front = vs.take(i);
    assert(vs.take(i + 1) == front.push(vs[i]));
    front.lemma_filter_push(vs[i], is_unselected());
}

/// The edge renumbered for the removal of the vertex at `index`: an end
/// behind that vertex moves one position down.
pub open spec fn lowered(e: Edge, index: int) -> Edge {
    Edge {
        a: if e.a > index { (e.a - 1) as usize } else { e.a },
        b: if e.b > index { (e.b - 1) as usize } else { e.b },
        selected: e.selected,
    }
}

/// The test "does not touch the vertex at `index`".
pub open spec fn misses(index: int) -> spec_fn(Edge) -> bool {
    |e: Edge| !e.touches(index)
}

/// The renumbering `lowered` as a function of the edge.
pub open spec fn lowering(index: int) -> spec_fn(Edge) -> Edge {
    |e: Edge| lowered(e, index)
}

/// The edges that remain when the vertex at `index` is removed, renumbered,
/// in their old order.
pub open spec fn edges_without_vertex(es: Seq<Edge>, index: int) -> Seq<Edge> {
    es.filter(misses(index)).map_values(lowering(index))
}

/// The test "neither end is a selected vertex of `vs`" on edges.
pub open spec fn between_unselected(vs: Seq<Vec4f>) -> spec_fn(Edge) -> bool {
    |e: Edge| !vs[e.a as int].selected && !vs[e.b as int].selected
}

/// The function that renumbers an edge to the positions its ends take once
/// the selected vertices of `vs` are gone.
pub open spec fn closing(vs: Seq<Vec4f>) -> spec_fn(Edge) -> Edge {
    |e: Edge|
        Edge {
            a: (e.a - rank(vs, e.a as int)) as usize,
            b: (e.b - rank(vs, e.b as int)) as usize,
            selected: e.selected,
        }
}

/// The edges that remain when the selected vertices of `vs` are removed,
/// renumbered, in their old order.
pub open spec fn edges_without_selected(es: Seq<Edge>, vs: Seq<Vec4f>) -> Seq<Edge> {
    es.filter(between_unselected(vs)).map_values(closing(vs))
}

/// The edge with both ends moved `by` positions up.
pub open spec fn raised(e: Edge, by: int) -> Edge {
    Edge { a: (e.a + by) as usize, b: (e.b + by) as usize, selected: e.selected }
}

/// Every edge with both ends moved `by` positions up.
pub open spec fn edges_raised(es: Seq<Edge>, by: int) -> Seq<Edge> {
    Seq::new(es.len(), |i: int| raised(es[i], by))
}

/// The function that clears a vertex's selection flag.
pub open spec fn unmarking() -> spec_fn(Vec4f) -> Vec4f {
    |v: Vec4f| v.marked(false)
}

/// The selected vertices in their old order, each deselected.
pub open spec fn copied_vertices(vs: Seq<Vec4f>) -> Seq<Vec4f> {
    vs.filter(is_selected()).map_values(unmarking())
}

/// The test "both ends are selected vertices of `vs`" on edges.
pub open spec fn between_selected(vs: Seq<Vec4f>) -> spec_fn(Edge) -> bool {
    |e: Edge| ends_selected(e, vs)
}

/// The function that renumbers an edge to the positions its ends take among
/// the selected vertices of `vs`, and deselects it.
pub open spec fn ranking(vs: Seq<Vec4f>) -> spec_fn(Edge) -> Edge {
    |e: Edge|
        Edge { a: rank(vs, e.a as int) as usize, b: rank(vs, e.b as int) as usize, selected: false }
}

/// The edges between selected vertices in their old order, renumbered to the
/// positions of their ends among the selected vertices, each deselected.
pub open spec fn copied_edges(es: Seq<Edge>, vs: Seq<Vec4f>) -> Seq<Edge> {
    es.filter(between_selected(vs)).map_values(ranking(vs))
}

/// One unselected edge from each selected vertex of `vs` to the vertex that
/// stands as many positions behind `n` as selected vertices precede it.
pub open spec fn connectors(vs: Seq<Vec4f>, n: int) -> Seq<Edge> {
    Seq::new(
        selected_indices(vs).len(),
        |t: int| Edge { a: selected_indices(vs)[t], b: (n + t) as usize, selected: false },
    )
}

impl Object {
    /// Removes the vertex at `index` if it is selected, together with the
    /// edges at it, and renumbers the ends of the remaining edges. An
    /// unselected vertex stays, and nothing changes.
    pub fn delete_vertex(&mut self, index: usize)
        requires
            index < old(self).vertices@.len(),
        ensures
            !old(self).vertices@[index as int].selected ==> {
                &&& final(self).vertices@ == old(self).vertices@
                &&& final(self).edges@ == old(self).edges@
            },
            old(self).vertices@[index as int].selected ==> {
                &&& final(self).vertices@ == old(self).vertices@.remove(index as int)
                &&& final(self).edges@ == edges_without_vertex(old(self).edges@, index as int)
            },
            final(self).faces == old(self).faces,
            final(self).cells == old(self).cells,
            final(self).name == old(self).name,
            old(self).wf() ==> final(self).wf(),
    {
        if !self.vertices[index].selected {
            return ;
        }
        self.vertices.remove(index);
        let mut kept: Vec<Edge> = Vec::new();
        let n = self.edges.len();
        for i in 0..n
            invariant
                n == self.edges@.len(),
                self.edges@ == old(self).edges@,
                self.vertices@.len() + 1 == old(self).vertices@.len(),
                index < old(self).vertices@.len(),
                kept@ == edges_without_vertex(self.edges@.take(i as int), index as int),
                old(self).wf() ==> forall|j: int|
                    0 <= j < kept@.len() ==> edge_ok(#[trigger] kept@[j], self.vertices@.len() as int),
        {
            let a = self.edges[i].a;
            let b = self.edges[i].b;
            let selected = self.edges[i].selected;
            proof {
                let front = self.edges@.take(i as int);
                let e = self.edges@[i as int];
                assert(self.edges@.take(i + 1) == front.push(e));
                front.lemma_filter_push(e, misses(index as int));
                front.filter(misses(index as int)).lemma_push_map_commute(
                    lowering(index as int),
                    e,
                );
                if old(self).wf() {
                    assert(edge_ok(old(self).edges@[i as int], old(self).vertices@.len() as int));
                }
            }
            if !(index == a || index == b) {
                kept.push(
                    Edge {
                        a: if a > index { a - 1 } else { a },
                        b: if b > index { b - 1 } else { b },
                        selected,
                    },
                );
            }
        }
        assert(self.edges@.take(n as int) == self.edges@);
        self.edges = kept;
    }

    /// Removes every selected vertex together with the edges at it, and
    /// renumbers the ends of the remaining edges: what deleting the selected
    /// vertices one by one, the last first, comes to.
    pub fn delete_selected(&mut self)
        requires
            old(self).wf(),
        ensures
            final(self).vertices@ == old(self).vertices@.filter(is_unselected()),
            final(self).edges@ == edges_without_selected(old(self).edges@, old(self).vertices@),
            final(self).faces == old(self).faces,
            final(self).cells == old(self).cells,
            final(self).name == old(self).name,
            final(self).wf(),
    {
        let n = self.vertices.len();
        let mut places: Vec<usize> = Vec::new();
        let mut vertices: Vec<Vec4f> = Vec::new();
        for i in 0..n
            invariant
                n == self.vertices@.len(),
                places@.len() == i,
                forall|j: int| 0 <= j < i ==> places@[j] == j - rank(self.vertices@, j),
                vertices@ == self.vertices@.take(i as int).filter(is_unselected()),
                vertices@.len() == i - rank(self.vertices@, i as int),
        {
            proof {
                lemma_rank_step(self.vertices@, i as int);
                lemma_unselected_step(self.vertices@, i as int);
            }
            places.push(vertices.len());
            if !self.vertices[i].selected {
                vertices.push(self.vertices[i]);
            }
        }
        assert(self.vertices@.take(n as int) == self.vertices@);
        let mut edges: Vec<Edge> = Vec::new();
        let m = self.edges.len();
        for i in 0..m
            invariant
                m == self.edges@.len(),
                n == self.vertices@.len(),
                self.wf(),
                places@.len() == n,
                forall|j: int| 0 <= j < n ==> places@[j] == j - rank(self.vertices@, j),
                vertices@.len() == n - rank(self.vertices@, n as int),
                edges@ == edges_without_selected(self.edges@.take(i as int), self.vertices@),
                forall|j: int|
                    0 <= j < edges@.len() ==> edge_ok(#[trigger] edges@[j], vertices@.len() as int),
        {
            let a = self.edges[i].a;
            let b = self.edges[i].b;
            let selected = self.edges[i].selected;
            proof {
                let vs = self.vertices@;
                let front = self.edges@.take(i as int);
                let e = self.edges@[i as int];
                assert(edge_ok(e, n as int));
                assert(self.edges@.take(i + 1) == front.push(e));
                front.lemma_filter_push(e, between_unselected(vs));
                front.filter(between_unselected(vs)).lemma_push_map_commute(closing(vs), e);
                lemma_rank_step(vs, a as int);
                lemma_rank_step(vs, b as int);
                lemma_rank_gap(vs, a + 1, n as int);
                lemma_rank_gap(vs, b + 1, n as int);
                if a < b {
                    lemma_rank_gap(vs, a + 1, b as int);
                } else {
                    lemma_rank_gap(vs, b + 1, a as int);
                }
            }
            if !self.vertices[a].selected && !self.vertices[b].selected {
                edges.push(Edge { a: places[a], b: places[b], selected });
            }
        }
        assert(self.edges@.take(m as int) == self.edges@);
        self.vertices = vertices;
        self.edges = edges;
    }

    /// Appends the vertices and edges of `other`, the ends of its edges moved
    /// behind the vertices that were here, selection flags as they are.
    pub fn add_assign(&mut self, other: Object)
        requires
            other.wf(),
        ensures
            final(self).vertices@ == old(self).vertices@ + other.vertices@,
            final(self).edges@ == old(self).edges@ + edges_raised(
                other.edges@,
                old(self).vertices@.len() as int,
            ),
            final(self).faces == old(self).faces,
            final(self).cells == old(self).cells,
            final(self).name == old(self).name,
            old(self).wf() ==> final(self).wf(),
    {
        let count = self.vertices.len();
        let nv = other.vertices.len();
        for i in 0..nv
            invariant
                nv == other.vertices@.len(),
                count == old(self).vertices@.len(),
                self.vertices@ == old(self).vertices@ + other.vertices@.take(i as int),
                self.edges == old(self).edges,
                self.faces == old(self).faces,
                self.cells == old(self).cells,
                self.name == old(self).name,
        {
            self.vertices.push(other.vertices[i]);
        }
        assert(other.vertices@.take(nv as int) == other.vertices@);
        let total = self.vertices.len();
        let ne = other.edges.len();
        for i in 0..ne
            invariant
                ne == other.edges@.len(),
                other.wf(),
                count == old(self).vertices@.len(),
                total == count + other.vertices@.len(),
                self.vertices@ == old(self).vertices@ + other.vertices@,
                self.edges@ == old(self).edges@ + edges_raised(
                    other.edges@.take(i as int),
                    count as int,
                ),
                self.faces == old(self).faces,
                self.cells == old(self).cells,
                self.name == old(self).name,
        {
            assert(edge_ok(other.edges@[i as int], other.vertices@.len() as int));
            let e = Edge {
                a: other.edges[i].a + count,
                b: other.edges[i].b + count,
                selected: other.edges[i].selected,
            };
            self.edges.push(e);
            assert(other.edges@.take(i + 1) == other.edges@.take(i as int).push(
                other.edges@[i as int],
            ));
        }
        assert(other.edges@.take(ne as int) == other.edges@);
        assert(old(self).wf() ==> self.wf()) by {
            if old(self).wf() {
                assert forall|i: int| 0 <= i < self.edges@.len() implies edge_ok(
                    #[trigger] self.edges@[i],
                    self.vertices@.len() as int,
                ) by {
                    if i < old(self).edges@.len() {
                        assert(edge_ok(old(self).edges@[i], old(self).vertices@.len() as int));
                    } else {
                        assert(edge_ok(
                            other.edges@[i - old(self).edges@.len()],
                            other.vertices@.len() as int,
                        ));
                    }
                }
            }
        }
    }

    /// This mesh followed by the vertices and edges of `other`, the ends of
    /// its edges moved behind the vertices of this mesh and the appended edges
    /// deselected.
    pub fn add(self, other: Object) -> (sum: Object)
        requires
            other.wf(),
        ensures
            sum.vertices@ == self.vertices@ + other.vertices@,
            sum.edges@ == self.edges@ + edges_marked(
                edges_raised(other.edges@, self.vertices@.len() as int),
                false,
            ),
            sum.faces == self.faces,
            sum.cells == self.cells,
            sum.name == self.name,
            self.wf() ==> sum.wf(),
    {
        let mut sum = self;
        let kept = sum.edges.len();
        sum.add_assign(other);
        let n = sum.edges.len();
        let total = sum.vertices.len();
        for i in kept..n
            invariant
                kept == self.edges@.len(),
                n == sum.edges@.len() == kept + other.edges@.len(),
                sum.vertices@ == self.vertices@ + other.vertices@,
                forall|j: int| 0 <= j < kept ==> sum.edges@[j] == self.edges@[j],
                forall|j: int|
                    kept <= j < i ==> sum.edges@[j] == (Edge {
                        selected: false,
                        ..raised(other.edges@[j - kept], self.vertices@.len() as int)
                    }),
                forall|j: int|
                    i <= j < n ==> sum.edges@[j] == raised(
                        other.edges@[j - kept],
                        self.vertices@.len() as int,
                    ),
                sum.faces == self.faces,
                sum.cells == self.cells,
                sum.name == self.name,
        {
            sum.edges[i].selected = false;
        }
        assert(self.wf() ==> sum.wf()) by {
            if self.wf() {
                assert forall|i: int| 0 <= i < sum.edges@.len() implies edge_ok(
                    #[trigger] sum.edges@[i],
                    sum.vertices@.len() as int,
                ) by {
                    if i < kept {
                        assert(edge_ok(self.edges@[i], self.vertices@.len() as int));
                    } else {
                        assert(edge_ok(other.edges@[i - kept], other.vertices@.len() as int));
                    }
                }
            }
        }
        sum
    }

    /// The selection as a mesh of its own: the selected vertices in their
    /// order and the edges between them, renumbered, nothing of it selected.
    pub fn copy(&self) -> (c: Object)
        requires
            self.wf(),
        ensures
            c.vertices@ == copied_vertices(self.vertices@),
            c.edges@ == copied_edges(self.edges@, self.vertices@),
            c.faces@.len() == 0,
            c.cells@.len() == 0,
            c.name is None,
            c.wf(),
    {
        let n = self.vertices.len();
        let mut ranks: Vec<usize> = Vec::new();
        let mut vertices: Vec<Vec4f> = Vec::new();
        for i in 0..n
            invariant
                n == self.vertices@.len(),
                ranks@.len() == i,
                forall|j: int| 0 <= j < i ==> ranks@[j] == rank(self.vertices@, j),
                vertices@ == copied_vertices(self.vertices@.take(i as int)),
                vertices@.len() == rank(self.vertices@, i as int),
        {
            proof {
                lemma_rank_step(self.vertices@, i as int);
            }
            ranks.push(vertices.len());
            if self.vertices[i].selected {
                let v = self.vertices[i];
                vertices.push(
                    Vec4f {
                        x: v.x,
                        y: v.y,
                        z: v.z,
                        w: v.w,
                        projection: v.projection,
                        selected: false,
                    },
                );
            }
        }
        assert(self.vertices@.take(n as int) == self.vertices@);
        let mut edges: Vec<Edge> = Vec::new();
        let m = self.edges.len();
        for i in 0..m
            invariant
                m == self.edges@.len(),
                n == self.vertices@.len(),
                self.wf(),
                ranks@.len() == n,
                forall|j: int| 0 <= j < n ==> ranks@[j] == rank(self.vertices@, j),
                vertices@.len() == selected_count(self.vertices@),
                edges@ == copied_edges(self.edges@.take(i as int), self.vertices@),
                forall|j: int|
                    0 <= j < edges@.len() ==> edge_ok(#[trigger] edges@[j], vertices@.len() as int),
        {
            let a = self.edges[i].a;
            let b = self.edges[i].b;
            proof {
                let front = self.edges@.take(i as int);
                let e = self.edges@[i as int];
                assert(edge_ok(e, n as int));
                assert(self.edges@.take(i + 1) == front.push(e));
                front.lemma_filter_push(e, between_selected(self.vertices@));
                front.filter(between_selected(self.vertices@)).lemma_push_map_commute(
                    ranking(self.vertices@),
                    e,
                );
                lemma_rank_monotone(self.vertices@, a as int, n as int);
                lemma_rank_monotone(self.vertices@, b as int, n as int);
                if a < b {
                    lemma_rank_monotone(self.vertices@, a as int, b as int);
                } else {
                    lemma_rank_monotone(self.vertices@, b as int, a as int);
                }
            }
            if self.vertices[a].selected && self.vertices[b].selected {
                edges.push(Edge { a: ranks[a], b: ranks[b], selected: false });
            }
        }
        assert(self.edges@.take(m as int) == self.edges@);
        Object { vertices, edges, faces: Vec::new(), cells: Vec::new(), name: None }
    }

    /// Appends the vertices and edges of `source`, the ends of its edges
    /// moved behind the vertices that were here. What is appended ends
    /// selected, and nothing else does.
    pub fn paste(&mut self, source: &Object)
        requires
            source.wf(),
        ensures
            final(self).vertices@ == all_marked(old(self).vertices@, false) + all_marked(
                source.vertices@,
                true,
            ),
            final(self).edges@ == edges_marked(old(self).edges@, false) + edges_marked(
                edges_raised(source.edges@, old(self).vertices@.len() as int),
                true,
            ),
            final(self).faces@ == faces_marked(old(self).faces@, false),
            final(self).cells@ == cells_marked(old(self).cells@, false),
            final(self).name == old(self).name,
            old(self).wf() ==> final(self).wf(),
    {
        self.clear_selection();
        let ghost cleared_vertices = self.vertices@;
        let ghost cleared_edges = self.edges@;
        let count = self.vertices.len();
        let nv = source.vertices.len();
        for i in 0..nv
            invariant
                nv == source.vertices@.len(),
                count == old(self).vertices@.len(),
                self.vertices@ == cleared_vertices + all_marked(source.vertices@.take(i as int), true),
                self.edges@ == cleared_edges,
                self.faces@ == faces_marked(old(self).faces@, false),
                self.cells@ == cells_marked(old(self).cells@, false),
                self.name == old(self).name,
        {
            let v = source.vertices[i];
            self.vertices.push(
                Vec4f { x: v.x, y: v.y, z: v.z, w: v.w, projection: v.projection, selected: true },
            );
            assert(source.vertices@.take(i + 1) == source.vertices@.take(i as int).push(
                source.vertices@[i as int],
            ));
        }
        assert(source.vertices@.take(nv as int) == source.vertices@);
        let total = self.vertices.len();
        let ne = source.edges.len();
        for i in 0..ne
            invariant
                ne == source.edges@.len(),
                source.wf(),
                count == old(self).vertices@.len(),
                total == count + source.vertices@.len(),
                self.vertices@ == cleared_vertices + all_marked(source.vertices@, true),
                self.edges@ == cleared_edges + edges_marked(
                    edges_raised(source.edges@.take(i as int), count as int),
                    true,
                ),
                self.faces@ == faces_marked(old(self).faces@, false),
                self.cells@ == cells_marked(old(self).cells@, false),
                self.name == old(self).name,
        {
            assert(edge_ok(source.edges@[i as int], source.vertices@.len() as int));
            self.edges.push(
                Edge { a: source.edges[i].a + count, b: source.edges[i].b + count, selected: true },
            );
            assert(source.edges@.take(i + 1) == source.edges@.take(i as int).push(
                source.edges@[i as int],
            ));
        }
        assert(source.edges@.take(ne as int) == source.edges@);
        assert(old(self).wf() ==> self.wf()) by {
            if old(self).wf() {
                assert forall|i: int| 0 <= i < self.edges@.len() implies edge_ok(
                    #[trigger] self.edges@[i],
                    self.vertices@.len() as int,
                ) by {
                    if i < old(self).edges@.len() {
                        assert(edge_ok(old(self).edges@[i], old(self).vertices@.len() as int));
                    } else {
                        assert(edge_ok(
                            source.edges@[i - old(self).edges@.len()],
                            source.vertices@.len() as int,
                        ));
                    }
                }
            }
        }
    }

    /// Duplicates the selection and joins each selected vertex to its
    /// duplicate by a new unselected edge. The duplicates and the edges
    /// between them end selected, and nothing else does.
    pub fn extrude(&mut self)
        requires
            old(self).wf(),
        ensures
            final(self).vertices@ == all_marked(old(self).vertices@, false) + all_marked(
                copied_vertices(old(self).vertices@),
                true,
            ),
            final(self).edges@ == edges_marked(old(self).edges@, false) + edges_marked(
                edges_raised(
                    copied_edges(old(self).edges@, old(self).vertices@),
                    old(self).vertices@.len() as int,
                ),
                true,
            ) + connectors(old(self).vertices@, old(self).vertices@.len() as int),
            final(self).faces == old(self).faces,
            final(self).cells == old(self).cells,
            final(self).name == old(self).name,
            final(self).wf(),
    {
        let vertices_count = self.vertices.len();
        let mut buffer = self.copy();
        buffer.select();
        let ghost duplicates = buffer.vertices@;
        let ghost between = buffer.edges@;
        assert(buffer.wf()) by {
            assert forall|i: int| 0 <= i < buffer.edges@.len() implies edge_ok(
                #[trigger] buffer.edges@[i],
                buffer.vertices@.len() as int,
            ) by {
                assert(edge_ok(
                    copied_edges(old(self).edges@, old(self).vertices@)[i],
                    copied_vertices(old(self).vertices@).len() as int,
                ));
            }
        }
        self.add_assign(buffer);
        let ghost appended = self.edges@;
        let total = self.vertices.len();
        proof {
            lemma_selected_indices_count(old(self).vertices@);
        }
        let mut counter: usize = 0;
        for j in 0..vertices_count
            invariant
                vertices_count == old(self).vertices@.len(),
                total == vertices_count + selected_indices(old(self).vertices@).len(),
                self.vertices@ == old(self).vertices@ + duplicates,
                counter == selected_indices(old(self).vertices@.take(j as int)).len(),
                self.edges@ == appended + connectors(
                    old(self).vertices@.take(j as int),
                    vertices_count as int,
                ),
                self.faces == old(self).faces,
                self.cells == old(self).cells,
                self.name == old(self).name,
        {
            proof {
                let vs = old(self).vertices@;
                assert(vs.take(j + 1).drop_last() == vs.take(j as int));
                lemma_selected_indices_count(vs.take(j + 1));
                lemma_selected_indices_count(vs);
                lemma_rank_monotone(vs, j + 1, vs.len() as int);
            }
            if self.vertices[j].selected {
                self.edges.push(Edge::new(j, vertices_count + counter));
                counter += 1;
            }
        }
        assert(old(self).vertices@.take(vertices_count as int) == old(self).vertices@);
        let ghost joined = self.edges@;
        self.deselect_first_n_vertices(vertices_count);
        proof {
            let vs = old(self).vertices@;
            let n = vertices_count as int;
            lemma_selected_indices(vs);
            assert(self.vertices@ =~= all_marked(vs, false) + all_marked(copied_vertices(vs), true));
            let expected = edges_marked(old(self).edges@, false) + edges_marked(
                edges_raised(copied_edges(old(self).edges@, vs), n),
                true,
            ) + connectors(vs, n);
            assert(self.edges@.len() == expected.len());
            assert forall|i: int| 0 <= i < expected.len() implies self.edges@[i] == expected[i] by {
                assert(self.edges@[i] == edges_off_first(joined, n)[i]);
                if i < old(self).edges@.len() {
                    assert(edge_ok(old(self).edges@[i], n));
                } else if i < appended.len() {
                    let k = i - old(self).edges@.len();
                    assert(joined[i] == raised(between[k], n));
                } else {
                }
            }
            assert(self.edges@ =~= expected);
            assert forall|i: int| 0 <= i < self.edges@.len() implies edge_ok(
                #[trigger] self.edges@[i],
                self.vertices@.len() as int,
            ) by {
                if i < old(self).edges@.len() {
                    assert(edge_ok(old(self).edges@[i], n));
                } else if i < appended.len() {
                    let k = i - old(self).edges@.len();
                    assert(edge_ok(between[k], duplicates.len() as int));
                } else {
                }
            }
        }
    }

    /// Joins the two selected vertices by a new selected edge. With any other
    /// number of selected vertices nothing changes.
    pub fn fill(&mut self)
        ensures
            final(self).vertices == old(self).vertices,
            selected_indices(old(self).vertices@).len() != 2 ==> {
                final(self).edges@ == old(self).edges@
            },
            selected_indices(old(self).vertices@).len() == 2 ==> {
                final(self).edges@ == old(self).edges@.push(
                    Edge {
                        a: selected_indices(old(self).vertices@)[0],
                        b: selected_indices(old(self).vertices@)[1],
                        selected: true,
                    },
                )
            },
            final(self).faces == old(self).faces,
            final(self).cells == old(self).cells,
            final(self).name == old(self).name,
            old(self).wf() ==> final(self).wf(),
    {
        let indices = self.get_selected_vertices();
        if indices.len() == 2 {
            proof {
                assert(self.vertices@.len() == self.vertices.len());
                lemma_selected_indices(self.vertices@);
            }
            self.edges.push(Edge::new(indices[0], indices[1]).clone_and_select(true));
            assert(old(self).wf() ==> self.wf()) by {
                if old(self).wf() {
                    assert forall|i: int| 0 <= i < self.edges@.len() implies edge_ok(
                        #[trigger] self.edges@[i],
                        self.vertices@.len() as int,
                    ) by {
                        if i < old(self).edges@.len() {
                            assert(edge_ok(old(self).edges@[i], old(self).vertices@.len() as int));
                        }
                    }
                }
            }
        }
    }
}
} // verus!

//! Selecting and deselecting vertices and edges. An edge is meant to be
//! selected exactly when both of its ends are.

use vstd::prelude::*;
use crate::edge::Edge;
use crate::object::{edge_ok, Object};
use crate::vector::Vec4f;

verus! {

/// The positions of the selected vertices, in increasing order.
pub open spec fn selected_indices(vs: Seq<Vec4f>) -> Seq<usize>
    decreases vs.len(),
{
    if vs.len() == 0 {
        Seq::empty()
    } else if vs.last().selected {
        selected_indices(vs.drop_last()).push((vs.len() - 1) as usize)
    } else {
        selected_indices(vs.drop_last())
    }
}

/// What `selected_indices` lists: exactly the selected positions, each once,
/// in increasing order.
pub proof fn lemma_selected_indices(vs: Seq<Vec4f>)
    requires
        vs.len() <= usize::MAX,
    ensures
        selected_indices(vs).len() <= vs.len(),
        forall|k: int|
            0 <= k < selected_indices(vs).len() ==> (#[trigger] selected_indices(vs)[k]) < vs.len()
                && vs[selected_indices(vs)[k] as int].selected,
        forall|k: int, l: int|
            0 <= k < l < selected_indices(vs).len() ==> selected_indices(vs)[k] < selected_indices(
                vs,
            )[l],
        forall|i: int|
            0 <= i < vs.len() && (#[trigger] vs[i]).selected ==> selected_indices(vs).contains(
                i as usize,
            ),
    decreases vs.len(),
{
    if vs.len() > 0 {
        let front = vs.drop_last();
        lemma_selected_indices(front);
        let s = selected_indices(vs);
        let r = selected_indices(front);
        assert forall|i: int| 0 <= i < vs.len() && (#[trigger] vs[i]).selected implies s.contains(
            i as usize,
        ) by {
            if i < vs.len() - 1 {
                assert(front[i].selected);
                let k = choose|k: int| 0 <= k < r.len() && r[k] == i as usize;
                assert(s[k] == i as usize);
            } else {
                assert(s[s.len() - 1] == i as usize);
            }
        }
    }
}

/// Whether both ends of `e` are selected vertices of `vs`.
pub open spec fn ends_selected(e: Edge, vs: Seq<Vec4f>) -> bool {
    vs[e.a as int].selected && vs[e.b as int].selected
}

/// The vertex at `index` with its flag set to `flag`, the others as they are.
pub open spec fn vertex_marked(vs: Seq<Vec4f>, index: int, flag: bool) -> Seq<Vec4f> {
    vs.update(index, vs[index].marked(flag))
}

/// The edges once the vertices have become `vs` by selecting the vertex at
/// `index`: an edge at that vertex whose two ends are now selected is selected.
pub open spec fn edges_after_select(es: Seq<Edge>, vs: Seq<Vec4f>, index: int) -> Seq<Edge> {
    Seq::new(
        es.len(),
        |i: int|
            if es[i].touches(index) && ends_selected(es[i], vs) {
                Edge { selected: true, ..es[i] }
            } else {
                es[i]
            },
    )
}

/// The edges once the vertex at `index` is deselected: no edge at that vertex
/// stays selected.
pub open spec fn edges_after_deselect(es: Seq<Edge>, index: int) -> Seq<Edge> {
    Seq::new(
        es.len(),
        |i: int|
            if es[i].touches(index) {
                Edge { selected: false, ..es[i] }
            } else {
                es[i]
            },
    )
}

/// The edges once the vertices have become `vs` by selecting the ends `a` and
/// `b` of one edge: an edge at either vertex whose two ends are now selected is
/// selected.
pub open spec fn edges_after_select_pair(es: Seq<Edge>, vs: Seq<Vec4f>, a: int, b: int) -> Seq<
    Edge,
> {
    Seq::new(
        es.len(),
        |i: int|
            if (es[i].touches(a) || es[i].touches(b)) && ends_selected(es[i], vs) {
                Edge { selected: true, ..es[i] }
            } else {
                es[i]
            },
    )
}

/// The edges once the vertices at `a` and `b` are deselected.
pub open spec fn edges_after_deselect_pair(es: Seq<Edge>, a: int, b: int) -> Seq<Edge> {
    Seq::new(
        es.len(),
        |i: int|
            if es[i].touches(a) || es[i].touches(b) {
                Edge { selected: false, ..es[i] }
            } else {
                es[i]
            },
    )
}

/// The vertices with the first `n` deselected.
pub open spec fn first_unmarked(vs: Seq<Vec4f>, n: int) -> Seq<Vec4f> {
    Seq::new(vs.len(), |i: int| if i < n { vs[i].marked(false) } else { vs[i] })
}

/// The edges with those that have an end among the first `n` vertices
/// deselected.
pub open spec fn edges_off_first(es: Seq<Edge>, n: int) -> Seq<Edge> {
    Seq::new(
        es.len(),
        |i: int|
            if es[i].a < n || es[i].b < n {
                Edge { selected: false, ..es[i] }
            } else {
                es[i]
            },
    )
}

impl Object {
    /// An edge is selected exactly when both of its ends are.
    pub open spec fn selection_consistent(&self) -> bool {
        forall|i: int|
            0 <= i < self.edges@.len() ==> ((#[trigger] self.edges@[i]).selected <==> ends_selected(
                self.edges@[i],
                self.vertices@,
            ))
    }

    /// Selects the vertex at `index`, and with it every edge at that vertex
    /// whose other end is selected already.
    pub fn select_vertice(&mut self, index: usize)
        requires
            old(self).wf(),
            index < old(self).vertices@.len(),
        ensures
            final(self).vertices@ == vertex_marked(old(self).vertices@, index as int, true),
            final(self).edges@ == edges_after_select(
                old(self).edges@,
                final(self).vertices@,
                index as int,
            ),
            final(self).faces == old(self).faces,
            final(self).cells == old(self).cells,
            final(self).name == old(self).name,
            final(self).wf(),
            old(self).selection_consistent() ==> final(self).selection_consistent(),
    {
        self.vertices[index].selected = true;
        let n = self.edges.len();
        for i in 0..n
            invariant
                index < self.vertices@.len(),
                self.vertices@ == vertex_marked(old(self).vertices@, index as int, true),
                self.edges@.len() == n == old(self).edges@.len(),
                old(self).wf(),
                forall|j: int|
                    0 <= j < i ==> self.edges@[j] == edges_after_select(
                        old(self).edges@,
                        self.vertices@,
                        index as int,
                    )[j],
                forall|j: int| i <= j < n ==> self.edges@[j] == old(self).edges@[j],
                self.faces == old(self).faces,
                self.cells == old(self).cells,
                self.name == old(self).name,
        {
            let a = self.edges[i].a;
            let b = self.edges[i].b;
            assert(edge_ok(old(self).edges@[i as int], old(self).vertices@.len() as int));
            if index == a && self.vertices[b].selected {
                self.edges[i].selected = true;
            } else if index == b && self.vertices[a].selected {
                self.edges[i].selected = true;
            }
        }
        assert forall|i: int| 0 <= i < self.edges@.len() implies edge_ok(
            #[trigger] self.edges@[i],
            self.vertices@.len() as int,
        ) by {
            assert(edge_ok(old(self).edges@[i], old(self).vertices@.len() as int));
        }
        assert(old(self).selection_consistent() ==> self.selection_consistent()) by {
            if old(self).selection_consistent() {
                assert forall|i: int| 0 <= i < self.edges@.len() implies ((
                #[trigger] self.edges@[i]).selected <==> ends_selected(
                    self.edges@[i],
                    self.vertices@,
                )) by {
                    let e = old(self).edges@[i];
                    assert(edge_ok(e, old(self).vertices@.len() as int));
                    assert(e.selected <==> ends_selected(e, old(self).vertices@));
                }
            }
        }
    }

    /// Deselects the vertex at `index` and every edge at that vertex.
    pub fn deselect_vertice(&mut self, index: usize)
        requires
            index < old(self).vertices@.len(),
        ensures
            final(self).vertices@ == vertex_marked(old(self).vertices@, index as int, false),
            final(self).edges@ == edges_after_deselect(old(self).edges@, index as int),
            final(self).faces == old(self).faces,
            final(self).cells == old(self).cells,
            final(self).name == old(self).name,
            old(self).wf() ==> final(self).wf(),
            old(self).wf() && old(self).selection_consistent() ==> final(self).selection_consistent(),
    {
        self.vertices[index].selected = false;
        let n = self.edges.len();
        for i in 0..n
            invariant
                self.vertices@ == vertex_marked(old(self).vertices@, index as int, false),
                self.edges@.len() == n == old(self).edges@.len(),
                forall|j: int|
                    0 <= j < i ==> self.edges@[j] == edges_after_deselect(
                        old(self).edges@,
                        index as int,
                    )[j],
                forall|j: int| i <= j < n ==> self.edges@[j] == old(self).edges@[j],
                self.faces == old(self).faces,
                self.cells == old(self).cells,
                self.name == old(self).name,
        {
            if index == self.edges[i].a || index == self.edges[i].b {
                self.edges[i].selected = false;
            }
        }
        assert(old(self).wf() ==> self.wf()) by {
            if old(self).wf() {
                assert forall|i: int| 0 <= i < self.edges@.len() implies edge_ok(
                    #[trigger] self.edges@[i],
                    self.vertices@.len() as int,
                ) by {
                    assert(edge_ok(old(self).edges@[i], old(self).vertices@.len() as int));
                }
            }
        }
        assert(old(self).wf() && old(self).selection_consistent()
            ==> self.selection_consistent()) by {
            if old(self).wf() && old(self).selection_consistent() {
                assert forall|i: int| 0 <= i < self.edges@.len() implies ((
                #[trigger] self.edges@[i]).selected <==> ends_selected(
                    self.edges@[i],
                    self.vertices@,
                )) by {
                    let e = old(self).edges@[i];
                    assert(edge_ok(e, old(self).vertices@.len() as int));
                    assert(e.selected <==> ends_selected(e, old(self).vertices@));
                }
            }
        }
    }

    /// Selects the edge at `index` and both of its ends, and with them every
    /// edge that thereby has two selected ends.
    pub fn select_edge(&mut self, index: usize)
        requires
            old(self).wf(),
            index < old(self).edges@.len(),
        ensures
            final(self).vertices@ == vertex_marked(
                vertex_marked(old(self).vertices@, old(self).edges@[index as int].a as int, true),
                old(self).edges@[index as int].b as int,
                true,
            ),
            final(self).edges@ == edges_after_select_pair(
                old(self).edges@,
                final(self).vertices@,
                old(self).edges@[index as int].a as int,
                old(self).edges@[index as int].b as int,
            ),
            final(self).edges@[index as int].selected,
            final(self).faces == old(self).faces,
            final(self).cells == old(self).cells,
            final(self).name == old(self).name,
            final(self).wf(),
            old(self).selection_consistent() ==> final(self).selection_consistent(),
    {
        assert(edge_ok(self.edges@[index as int], self.vertices@.len() as int));
        let i1 = self.edges[index].a;
        let i2 = self.edges[index].b;
        self.edges[index].selected = true;
        let ghost marked = self.edges@;
        assert forall|i: int| 0 <= i < self.edges@.len() implies edge_ok(
            #[trigger] self.edges@[i],
            self.vertices@.len() as int,
        ) by {
            assert(edge_ok(old(self).edges@[i], old(self).vertices@.len() as int));
        }
        self.select_vertice(i1);
        let ghost mid = self.edges@;
        let ghost mid_vs = self.vertices@;
        self.select_vertice(i2);
        assert forall|i: int| 0 <= i < self.edges@.len() implies self.edges@[i]
            == edges_after_select_pair(old(self).edges@, self.vertices@, i1 as int, i2 as int)[i] by {
            let e = old(self).edges@[i];
            assert(edge_ok(e, old(self).vertices@.len() as int));
            assert(mid[i] == edges_after_select(marked, mid_vs, i1 as int)[i]);
            assert(self.edges@[i] == edges_after_select(mid, self.vertices@, i2 as int)[i]);
        }
        assert(self.edges@ =~= edges_after_select_pair(
            old(self).edges@,
            self.vertices@,
            i1 as int,
            i2 as int,
        ));
        assert(old(self).selection_consistent() ==> self.selection_consistent()) by {
            if old(self).selection_consistent() {
                assert forall|i: int| 0 <= i < self.edges@.len() implies ((
                #[trigger] self.edges@[i]).selected <==> ends_selected(
                    self.edges@[i],
                    self.vertices@,
                )) by {
                    let e = old(self).edges@[i];
                    assert(edge_ok(e, old(self).vertices@.len() as int));
                    assert(e.selected <==> ends_selected(e, old(self).vertices@));
                }
            }
        }
    }

    /// Deselects the edge at `index`, both of its ends, and every edge at
    /// either end.
    pub fn deselect_edge(&mut self, index: usize)
        requires
            old(self).wf(),
            index < old(self).edges@.len(),
        ensures
            final(self).vertices@ == vertex_marked(
                vertex_marked(old(self).vertices@, old(self).edges@[index as int].a as int, false),
                old(self).edges@[index as int].b as int,
                false,
            ),
            final(self).edges@ == edges_after_deselect_pair(
                old(self).edges@,
                old(self).edges@[index as int].a as int,
                old(self).edges@[index as int].b as int,
            ),
            final(self).faces == old(self).faces,
            final(self).cells == old(self).cells,
            final(self).name == old(self).name,
            final(self).wf(),
            old(self).selection_consistent() ==> final(self).selection_consistent(),
    {
        assert(edge_ok(self.edges@[index as int], self.vertices@.len() as int));
        let i1 = self.edges[index].a;
        let i2 = self.edges[index].b;
        self.edges[index].selected = false;
        let ghost marked = self.edges@;
        self.deselect_vertice(i1);
        let ghost mid = self.edges@;
        self.deselect_vertice(i2);
        assert forall|i: int| 0 <= i < self.edges@.len() implies self.edges@[i]
            == edges_after_deselect_pair(old(self).edges@, i1 as int, i2 as int)[i] by {
            assert(mid[i] == edges_after_deselect(marked, i1 as int)[i]);
            assert(self.edges@[i] == edges_after_deselect(mid, i2 as int)[i]);
        }
        assert(self.edges@ =~= edges_after_deselect_pair(old(self).edges@, i1 as int, i2 as int));
        assert forall|i: int| 0 <= i < self.edges@.len() implies edge_ok(
            #[trigger] self.edges@[i],
            self.vertices@.len() as int,
        ) by {
            assert(edge_ok(old(self).edges@[i], old(self).vertices@.len() as int));
        }
        assert(old(self).selection_consistent() ==> self.selection_consistent()) by {
            if old(self).selection_consistent() {
                assert forall|i: int| 0 <= i < self.edges@.len() implies ((
                #[trigger] self.edges@[i]).selected <==> ends_selected(
                    self.edges@[i],
                    self.vertices@,
                )) by {
                    let e = old(self).edges@[i];
                    assert(edge_ok(e, old(self).vertices@.len() as int));
                    assert(e.selected <==> ends_selected(e, old(self).vertices@));
                }
            }
        }
    }

    /// Deselects the first `n` vertices and every edge at one of them.
    pub fn deselect_first_n_vertices(&mut self, n: usize)
        requires
            n <= old(self).vertices@.len(),
        ensures
            final(self).vertices@ == first_unmarked(old(self).vertices@, n as int),
            final(self).edges@ == edges_off_first(old(self).edges@, n as int),
            final(self).faces == old(self).faces,
            final(self).cells == old(self).cells,
            final(self).name == old(self).name,
            old(self).wf() ==> final(self).wf(),
    {
        for i in 0..n
            invariant
                n <= self.vertices@.len(),
                self.vertices@ == first_unmarked(old(self).vertices@, i as int),
                self.edges@ == edges_off_first(old(self).edges@, i as int),
                self.faces == old(self).faces,
                self.cells == old(self).cells,
                self.name == old(self).name,
        {
            self.deselect_vertice(i);
        }
        assert(old(self).wf() ==> self.wf()) by {
            if old(self).wf() {
                assert forall|i: int| 0 <= i < self.edges@.len() implies edge_ok(
                    #[trigger] self.edges@[i],
                    self.vertices@.len() as int,
                ) by {
                    assert(edge_ok(old(self).edges@[i], old(self).vertices@.len() as int));
                }
            }
        }
    }

    /// The positions of the selected vertices, in increasing order.
    pub fn get_selected_vertices(&self) -> (indices: Vec<usize>)
        ensures
            indices@ == selected_indices(self.vertices@),
    {
        let mut indices: Vec<usize> = Vec::new();
        let n = self.vertices.len();
        for i in 0..n
            invariant
                n == self.vertices@.len(),
                indices@ == selected_indices(self.vertices@.take(i as int)),
        {
            assert(self.vertices@.take(i + 1).drop_last() == self.vertices@.take(i as int));
            if self.vertices[i].selected {
                indices.push(i);
            }
        }
        assert(self.vertices@.take(n as int) == self.vertices@);
        indices
    }
}
} // verus!

//! What the editing operations and the byte layout guarantee beyond each
//! single call.

use vstd::prelude::*;
use crate::edge::Edge;
use crate::editing::{
    between_selected, between_unselected, closing, connectors, copied_edges, copied_vertices,
    edges_raised, edges_without_selected, edges_without_vertex, is_selected, is_unselected,
    lemma_rank_gap, lemma_rank_monotone, lemma_rank_step, lemma_selected_indices_count, lowering,
    misses, rank, ranking, selected_count,
};
use crate::events::{clip_edges, clip_vertices, selected_points};
use crate::object::{all_marked, edge_ok, edges_marked, Object};
use crate::selection::{ends_selected, lemma_selected_indices, selected_indices};
use crate::vector::Vec4f;

verus! {

/// Removing a vertex keeps the edges valid: when every edge joined two
/// different vertices among `n`, every edge that remains joins two different
/// vertices among the `n - 1` that remain.
pub proof fn law_delete_keeps_edges_valid(es: Seq<Edge>, n: int, index: int)
    requires
        0 <= index < n,
        forall|i: int| 0 <= i < es.len() ==> edge_ok(#[trigger] es[i], n),
    ensures
        edges_without_vertex(es, index).len() <= es.len(),
        forall|i: int|
            0 <= i < edges_without_vertex(es, index).len() ==> edge_ok(
                #[trigger] edges_without_vertex(es, index)[i],
                n - 1,
            ),
    decreases es.len(),
{
    if es.len() == 0 {
        es.lemma_filter_len(misses(index));
    } else {
        let front = es.drop_last();
        law_delete_keeps_edges_valid(front, n, index);
        assert(es == front.push(es.last()));
        front.lemma_filter_push(es.last(), misses(index));
        front.filter(misses(index)).lemma_push_map_commute(lowering(index), es.last());
        assert(edge_ok(es[es.len() - 1], n));
    }
}

/// Copying a selection of `k` vertices with `m` edges between them and
/// pasting the copy adds exactly `k` vertices and `m` edges to the target,
/// and every vertex and edge that was added is selected.
pub proof fn law_copy_then_paste(
    target_vertices: Seq<Vec4f>,
    target_edges: Seq<Edge>,
    source_vertices: Seq<Vec4f>,
    source_edges: Seq<Edge>,
)
    ensures
        ({
            let vertices = all_marked(target_vertices, false) + all_marked(
                copied_vertices(source_vertices),
                true,
            );
            let edges = edges_marked(target_edges, false) + edges_marked(
                edges_raised(
                    copied_edges(source_edges, source_vertices),
                    target_vertices.len() as int,
                ),
                true,
            );
            &&& vertices.len() == target_vertices.len() + selected_count(source_vertices)
            &&& edges.len() == target_edges.len() + source_edges.filter(
                between_selected(source_vertices),
            ).len()
            &&& forall|i: int| target_vertices.len() <= i < vertices.len() ==> vertices[i].selected
            &&& forall|i: int| 0 <= i < target_vertices.len() ==> !vertices[i].selected
            &&& forall|i: int| target_edges.len() <= i < edges.len() ==> edges[i].selected
            &&& forall|i: int| 0 <= i < target_edges.len() ==> !edges[i].selected
        }),
{
}

/// Extruding a selection of `k` vertices with `m` edges between them adds
/// exactly `k` vertices and `m + k` edges. The vertices that were there end
/// deselected and the `k` new ones selected.
pub proof fn law_extrude_counts(vertices: Seq<Vec4f>, edges: Seq<Edge>)
    ensures
        ({
            let after = all_marked(vertices, false) + all_marked(copied_vertices(vertices), true);
            let joined = edges_marked(edges, false) + edges_marked(
                edges_raised(copied_edges(edges, vertices), vertices.len() as int),
                true,
            ) + connectors(vertices, vertices.len() as int);
            &&& after.len() == vertices.len() + selected_count(vertices)
            &&& joined.len() == edges.len() + edges.filter(between_selected(vertices)).len()
                + selected_count(vertices)
            &&& forall|i: int| 0 <= i < vertices.len() ==> !after[i].selected
            &&& forall|i: int| vertices.len() <= i < after.len() ==> after[i].selected
        }),
{
    lemma_selected_indices_count(vertices);
}

/// With two selected vertices a fill adds one edge, between those two.
pub proof fn law_fill_joins_the_pair(vertices: Seq<Vec4f>, edges: Seq<Edge>)
    requires
        vertices.len() <= usize::MAX,
        selected_indices(vertices).len() == 2,
    ensures
        ({
            let a = selected_indices(vertices)[0];
            let b = selected_indices(vertices)[1];
            let filled = edges.push(Edge { a, b, selected: true });
            &&& filled.len() == edges.len() + 1
            &&& a < b < vertices.len()
            &&& vertices[a as int].selected && vertices[b as int].selected
            &&& forall|i: int|
                0 <= i < vertices.len() && vertices[i].selected ==> i == a || i == b
        }),
{
    lemma_selected_indices(vertices);
    let s = selected_indices(vertices);
    assert forall|i: int| 0 <= i < vertices.len() && vertices[i].selected implies i == s[0] || i
        == s[1] by {
        assert(s.contains(i as usize));
    }
}

/// Every edge joins two different vertices among `n`.
pub open spec fn valid(es: Seq<Edge>, n: int) -> bool {
    forall|i: int| 0 <= i < es.len() ==> edge_ok(#[trigger] es[i], n)
}

/// An edge is selected exactly when both of its ends are.
pub open spec fn consistent(vs: Seq<Vec4f>, es: Seq<Edge>) -> bool {
    forall|i: int| 0 <= i < es.len() ==> ((#[trigger] es[i]).selected <==> ends_selected(es[i], vs))
}

/// What holds of the renumbered form of every edge that passes a test holds
/// of every edge of the filtered and renumbered list.
proof fn lemma_kept_edges(
    es: Seq<Edge>,
    p: spec_fn(Edge) -> bool,
    f: spec_fn(Edge) -> Edge,
    holds: spec_fn(Edge) -> bool,
)
    requires
        forall|i: int| 0 <= i < es.len() && p(#[trigger] es[i]) ==> holds(f(es[i])),
    ensures
        forall|j: int|
            0 <= j < es.filter(p).map_values(f).len() ==> holds(
                #[trigger] es.filter(p).map_values(f)[j],
            ),
    decreases es.len(),
{
    if es.len() == 0 {
        es.lemma_filter_len(p);
    } else {
        let front = es.drop_last();
        let e = es.last();
        assert(es == front.push(e));
        assert forall|i: int| 0 <= i < front.len() && p(#[trigger] front[i]) implies holds(
            f(front[i]),
        ) by {
            assert(front[i] == es[i]);
        }
        lemma_kept_edges(front, p, f, holds);
        front.lemma_filter_push(e, p);
        front.filter(p).lemma_push_map_commute(f, e);
        assert(p(es[es.len() - 1]) ==> holds(f(e)));
    }
}

/// The vertices that stay when the selected ones go are unselected, and
/// there are as many as the count says.
proof fn lemma_unselected_kept(vs: Seq<Vec4f>, k: int)
    requires
        0 <= k <= vs.len(),
    ensures
        vs.take(k).filter(is_unselected()).len() == k - rank(vs, k),
        forall|j: int|
            0 <= j < vs.take(k).filter(is_unselected()).len() ==> !(#[trigger] vs.take(k).filter(
                is_unselected(),
            )[j]).selected,
        forall|i: int|
            0 <= i < k && !(#[trigger] vs[i]).selected ==> vs.take(k).filter(is_unselected())[i
                - rank(vs, i)] == vs[i],
    decreases k,
{
    if k == 0 {
        vs.take(0).lemma_filter_len(is_unselected());
        vs.take(0).lemma_filter_len(is_selected());
    } else {
        lemma_unselected_kept(vs, k - 1);
        lemma_rank_step(vs, k - 1);
        let front = vs.take(k - 1);
        assert(vs.take(k) == front.push(vs[k - 1]));
        front.lemma_filter_push(vs[k - 1], is_unselected());
        assert forall|i: int| 0 <= i < k && !(#[trigger] vs[i]).selected implies vs.take(k).filter(
            is_unselected(),
        )[i - rank(vs, i)] == vs[i] by {
            lemma_rank_gap(vs, 0, i);
            lemma_rank_monotone(vs, 0, i);
            if i < k - 1 {
                lemma_rank_gap(vs, i + 1, k - 1);
                lemma_rank_step(vs, i);
            }
        }
    }
}

/// Setting every flag alike keeps the selection consistent.
pub proof fn law_marking_all_is_consistent(vs: Seq<Vec4f>, es: Seq<Edge>, flag: bool)
    requires
        valid(es, vs.len() as int),
    ensures
        consistent(all_marked(vs, flag), edges_marked(es, flag)),
{
    assert forall|i: int| 0 <= i < es.len() implies ((#[trigger] edges_marked(
        es,
        flag,
    )[i]).selected <==> ends_selected(edges_marked(es, flag)[i], all_marked(vs, flag))) by {
        assert(edge_ok(es[i], vs.len() as int));
    }
}

/// Deleting a vertex keeps the selection consistent.
pub proof fn law_delete_keeps_selection_consistent(vs: Seq<Vec4f>, es: Seq<Edge>, index: int)
    requires
        0 <= index < vs.len() <= usize::MAX,
        valid(es, vs.len() as int),
        consistent(vs, es),
    ensures
        consistent(vs.remove(index), edges_without_vertex(es, index)),
{
    let after = vs.remove(index);
    let holds = |e: Edge| e.selected <==> ends_selected(e, after);
    assert forall|i: int| 0 <= i < es.len() && misses(index)(#[trigger] es[i]) implies holds(
        lowering(index)(es[i]),
    ) by {
        assert(edge_ok(es[i], vs.len() as int));
        assert(es[i].selected <==> ends_selected(es[i], vs));
    }
    lemma_kept_edges(es, misses(index), lowering(index), holds);
}

/// Deleting the selection leaves nothing selected, and so keeps the
/// selection consistent.
pub proof fn law_delete_selected_is_consistent(vs: Seq<Vec4f>, es: Seq<Edge>)
    requires
        vs.len() <= usize::MAX,
        valid(es, vs.len() as int),
        consistent(vs, es),
    ensures
        consistent(vs.filter(is_unselected()), edges_without_selected(es, vs)),
        forall|j: int|
            0 <= j < vs.filter(is_unselected()).len() ==> !(#[trigger] vs.filter(
                is_unselected(),
            )[j]).selected,
{
    let n = vs.len() as int;
    let after = vs.filter(is_unselected());
    assert(vs.take(n) == vs);
    lemma_unselected_kept(vs, n);
    let holds = |e: Edge| e.selected <==> ends_selected(e, after);
    assert forall|i: int| 0 <= i < es.len() && between_unselected(vs)(
        #[trigger] es[i],
    ) implies holds(closing(vs)(es[i])) by {
        let e = es[i];
        assert(edge_ok(e, n));
        assert(e.selected <==> ends_selected(e, vs));
        lemma_rank_gap(vs, 0, e.a as int);
        lemma_rank_gap(vs, 0, e.b as int);
        lemma_rank_monotone(vs, 0, e.a as int);
        assert(after[e.a - rank(vs, e.a as int)] == vs[e.a as int]);
        assert(after[e.b - rank(vs, e.b as int)] == vs[e.b as int]);
    }
    lemma_kept_edges(es, between_unselected(vs), closing(vs), holds);
}

/// The edges of a copy join different vertices of the copy.
pub proof fn law_copy_is_valid(vs: Seq<Vec4f>, es: Seq<Edge>)
    requires
        vs.len() <= usize::MAX,
        valid(es, vs.len() as int),
    ensures
        valid(copied_edges(es, vs), selected_count(vs) as int),
        consistent(copied_vertices(vs), copied_edges(es, vs)),
{
    let n = vs.len() as int;
    let k = selected_count(vs) as int;
    let holds = |e: Edge| edge_ok(e, k) && !e.selected;
    assert forall|i: int| 0 <= i < es.len() && between_selected(vs)(#[trigger] es[i]) implies holds(
        ranking(vs)(es[i]),
    ) by {
        let e = es[i];
        assert(edge_ok(e, n));
        lemma_rank_monotone(vs, e.a as int, n);
        lemma_rank_monotone(vs, e.b as int, n);
        if e.a < e.b {
            lemma_rank_monotone(vs, e.a as int, e.b as int);
        } else {
            lemma_rank_monotone(vs, e.b as int, e.a as int);
        }
    }
    lemma_kept_edges(es, between_selected(vs), ranking(vs), holds);
    vs.filter(is_selected()).lemma_filter_len(is_selected());
    assert forall|i: int| 0 <= i < copied_edges(es, vs).len() implies ((#[trigger] copied_edges(
        es,
        vs,
    )[i]).selected <==> ends_selected(copied_edges(es, vs)[i], copied_vertices(vs))) by {
        assert(holds(copied_edges(es, vs)[i]));
    }
}

/// Pasting keeps the selection consistent.
pub proof fn law_paste_is_consistent(
    target_vertices: Seq<Vec4f>,
    target_edges: Seq<Edge>,
    source_vertices: Seq<Vec4f>,
    source_edges: Seq<Edge>,
)
    requires
        target_vertices.len() + source_vertices.len() <= usize::MAX,
        valid(target_edges, target_vertices.len() as int),
        valid(source_edges, source_vertices.len() as int),
    ensures
        consistent(
            all_marked(target_vertices, false) + all_marked(source_vertices, true),
            edges_marked(target_edges, false) + edges_marked(
                edges_raised(source_edges, target_vertices.len() as int),
                true,
            ),
        ),
{
    let vertices = all_marked(target_vertices, false) + all_marked(source_vertices, true);
    let edges = edges_marked(target_edges, false) + edges_marked(
        edges_raised(source_edges, target_vertices.len() as int),
        true,
    );
    assert forall|i: int| 0 <= i < edges.len() implies ((#[trigger] edges[i]).selected
        <==> ends_selected(edges[i], vertices)) by {
        if i < target_edges.len() {
            assert(edge_ok(target_edges[i], target_vertices.len() as int));
        } else {
            assert(edge_ok(source_edges[i - target_edges.len()], source_vertices.len() as int));
        }
    }
}

/// Extruding keeps the selection consistent.
pub proof fn law_extrude_is_consistent(vs: Seq<Vec4f>, es: Seq<Edge>)
    requires
        vs.len() + selected_count(vs) <= usize::MAX,
        valid(es, vs.len() as int),
    ensures
        consistent(
            all_marked(vs, false) + all_marked(copied_vertices(vs), true),
            edges_marked(es, false) + edges_marked(
                edges_raised(copied_edges(es, vs), vs.len() as int),
                true,
            ) + connectors(vs, vs.len() as int),
        ),
{
    let n = vs.len() as int;
    let copies = copied_edges(es, vs);
    let vertices = all_marked(vs, false) + all_marked(copied_vertices(vs), true);
    let edges = edges_marked(es, false) + edges_marked(edges_raised(copies, n), true) + connectors(
        vs,
        n,
    );
    law_copy_is_valid(vs, es);
    lemma_selected_indices(vs);
    lemma_selected_indices_count(vs);
    vs.filter(is_selected()).lemma_filter_len(is_selected());
    assert forall|i: int| 0 <= i < edges.len() implies ((#[trigger] edges[i]).selected
        <==> ends_selected(edges[i], vertices)) by {
        if i < es.len() {
            assert(edge_ok(es[i], n));
        } else if i < es.len() + copies.len() {
            assert(edge_ok(copies[i - es.len()], selected_count(vs) as int));
        } else {
            let t = i - es.len() - copies.len();
            assert(selected_indices(vs)[t] < n);
        }
    }
}

/// Joining the two selected vertices by a selected edge keeps the selection
/// consistent.
pub proof fn law_fill_is_consistent(vs: Seq<Vec4f>, es: Seq<Edge>)
    requires
        vs.len() <= usize::MAX,
        selected_indices(vs).len() == 2,
        consistent(vs, es),
    ensures
        consistent(
            vs,
            es.push(
                Edge { a: selected_indices(vs)[0], b: selected_indices(vs)[1], selected: true },
            ),
        ),
{
    lemma_selected_indices(vs);
}

/// How many edges of the scene have two selected ends.
pub open spec fn edges_between_selected(objs: Seq<Object>) -> nat
    decreases objs.len(),
{
    if objs.len() == 0 {
        0
    } else {
        edges_between_selected(objs.drop_last()) + objs.last().edges@.filter(
            between_selected(objs.last().vertices@),
        ).len()
    }
}

/// The clipboard that `copy_event` fills holds as many vertices as the scene
/// has selected vertices, and as many edges as the scene has edges with two
/// selected ends.
pub proof fn law_clipboard_counts(objs: Seq<Object>)
    ensures
        clip_vertices(objs).len() == selected_points(objs).len(),
        clip_edges(objs).len() == edges_between_selected(objs),
    decreases objs.len(),
{
    if objs.len() > 0 {
        law_clipboard_counts(objs.drop_last());
    }
}

/// Copying a selection of `k` vertices with `m` edges between them from a
/// scene and pasting the clipboard onto a target mesh adds exactly `k`
/// vertices and `m` edges to the target, in the order of the clipboard, and
/// every vertex and edge that was added is selected.
pub proof fn law_copy_event_then_paste_event(
    objs: Seq<Object>,
    target_vertices: Seq<Vec4f>,
    target_edges: Seq<Edge>,
)
    ensures
        ({
            let vertices = all_marked(target_vertices, false) + all_marked(
                clip_vertices(objs),
                true,
            );
            let edges = edges_marked(target_edges, false) + edges_marked(
                edges_raised(clip_edges(objs), target_vertices.len() as int),
                true,
            );
            &&& vertices.len() == target_vertices.len() + selected_points(objs).len()
            &&& edges.len() == target_edges.len() + edges_between_selected(objs)
            &&& forall|i: int|
                0 <= i < clip_vertices(objs).len() ==> vertices[target_vertices.len() + i]
                    == clip_vertices(objs)[i].marked(true)
            &&& forall|i: int| target_vertices.len() <= i < vertices.len() ==> vertices[i].selected
            &&& forall|i: int| target_edges.len() <= i < edges.len() ==> edges[i].selected
        }),
{
    law_clipboard_counts(objs);
}

} // verus!

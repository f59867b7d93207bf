//! Deleting a selection in one pass comes to deleting its vertices one by
//! one, the highest position first.

use vstd::prelude::*;
use crate::edge::Edge;
use crate::editing::{
    between_unselected, closing, edges_without_selected, edges_without_vertex, is_selected,
    is_unselected, lemma_rank_step, lowering, misses, rank,
};
use crate::laws::{law_delete_keeps_edges_valid, valid};
use crate::object::edge_ok;
use crate::vector::Vec4f;

verus! {

/// The vertices and edges after `delete_vertex` at `index`.
pub open spec fn deleted_at(vs: Seq<Vec4f>, es: Seq<Edge>, index: int) -> (Seq<Vec4f>, Seq<Edge>) {
    if vs[index].selected {
        (vs.remove(index), edges_without_vertex(es, index))
    } else {
        (vs, es)
    }
}

/// The vertices and edges after `delete_vertex` at each of the positions
/// `k - 1`, `k - 2`, down to 0, in this order.
pub open spec fn deleted_down(vs: Seq<Vec4f>, es: Seq<Edge>, k: nat) -> (Seq<Vec4f>, Seq<Edge>)
    decreases k,
{
    if k == 0 {
        (vs, es)
    } else {
        let step = deleted_at(vs, es, k - 1);
        deleted_down(step.0, step.1, (k - 1) as nat)
    }
}

/// The test "no end is a selected vertex before position `k`" on edges.
pub open spec fn clear_below(vs: Seq<Vec4f>, k: int) -> spec_fn(Edge) -> bool {
    |e: Edge| !(e.a < k && vs[e.a as int].selected) && !(e.b < k && vs[e.b as int].selected)
}

/// The position that the vertex at `i` takes once the selected vertices
/// before position `k` are gone.
pub open spec fn place_below(vs: Seq<Vec4f>, k: int, i: int) -> int {
    i - rank(vs, if i < k { i } else { k })
}

/// The function that renumbers an edge for the removal of the selected
/// vertices before position `k`.
pub open spec fn closing_below(vs: Seq<Vec4f>, k: int) -> spec_fn(Edge) -> Edge {
    |e: Edge|
        Edge {
            a: place_below(vs, k, e.a as int) as usize,
            b: place_below(vs, k, e.b as int) as usize,
            selected: e.selected,
        }
}

/// Filtering and renumbering twice comes to filtering and renumbering once,
/// by a test and a function that agree with the two steps on every edge.
proof fn lemma_fuse(
    es: Seq<Edge>,
    p: spec_fn(Edge) -> bool,
    f: spec_fn(Edge) -> Edge,
    q: spec_fn(Edge) -> bool,
    g: spec_fn(Edge) -> Edge,
    both: spec_fn(Edge) -> bool,
    h: spec_fn(Edge) -> Edge,
)
    requires
        forall|i: int| 0 <= i < es.len() ==> both(#[trigger] es[i]) == (p(es[i]) && q(f(es[i]))),
        forall|i: int| 0 <= i < es.len() && both(#[trigger] es[i]) ==> h(es[i]) == g(f(es[i])),
    ensures
        es.filter(p).map_values(f).filter(q).map_values(g) == es.filter(both).map_values(h),
    decreases es.len(),
{
    if es.len() == 0 {
        es.lemma_filter_len(p);
        es.lemma_filter_len(both);
        let empty = Seq::<Edge>::empty();
        assert(es.filter(p) == empty);
        assert(es.filter(both) == empty);
        assert(empty.map_values(f) == empty);
        empty.lemma_filter_len(q);
        assert(empty.filter(q) == empty);
        assert(empty.map_values(g) == empty);
        assert(empty.map_values(h) == empty);
    } else {
        let front = es.drop_last();
        let e = es.last();
        assert(es == front.push(e));
        assert forall|i: int| 0 <= i < front.len() implies both(#[trigger] front[i]) == (p(front[i])
            && q(f(front[i]))) by {
            assert(front[i] == es[i]);
        }
        assert forall|i: int| 0 <= i < front.len() && both(#[trigger] front[i]) implies h(front[i])
            == g(f(front[i])) by {
            assert(front[i] == es[i]);
        }
        lemma_fuse(front, p, f, q, g, both, h);
        assert(both(es[es.len() - 1]) == (p(e) && q(f(e))));
        front.lemma_filter_push(e, p);
        front.lemma_filter_push(e, both);
        front.filter(both).lemma_push_map_commute(h, e);
        if p(e) {
            front.filter(p).lemma_push_map_commute(f, e);
            front.filter(p).map_values(f).lemma_filter_push(f(e), q);
            if q(f(e)) {
                front.filter(p).map_values(f).filter(q).lemma_push_map_commute(g, f(e));
            }
        }
    }
}

/// The test that lets every edge pass.
pub open spec fn any_edge() -> spec_fn(Edge) -> bool {
    |e: Edge| true
}

/// The function that leaves every edge as it is.
pub open spec fn as_it_is() -> spec_fn(Edge) -> Edge {
    |e: Edge| e
}

/// Filtering by a test that every edge passes, and renumbering by a function
/// that changes no edge, changes nothing.
proof fn lemma_nothing_done(es: Seq<Edge>)
    ensures
        es.filter(any_edge()).map_values(as_it_is()) == es,
    decreases es.len(),
{
    if es.len() == 0 {
        es.lemma_filter_len(any_edge());
        assert(es.filter(any_edge()).map_values(as_it_is()) =~= es);
    } else {
        let front = es.drop_last();
        lemma_nothing_done(front);
        assert(es == front.push(es.last()));
        front.lemma_filter_push(es.last(), any_edge());
        front.filter(any_edge()).lemma_push_map_commute(as_it_is(), es.last());
    }
}

/// Two tests and two functions that agree on every edge filter and renumber
/// alike.
proof fn lemma_alike(
    es: Seq<Edge>,
    p: spec_fn(Edge) -> bool,
    f: spec_fn(Edge) -> Edge,
    q: spec_fn(Edge) -> bool,
    g: spec_fn(Edge) -> Edge,
)
    requires
        forall|i: int| 0 <= i < es.len() ==> p(#[trigger] es[i]) == q(es[i]),
        forall|i: int| 0 <= i < es.len() && p(#[trigger] es[i]) ==> f(es[i]) == g(es[i]),
    ensures
        es.filter(p).map_values(f) == es.filter(q).map_values(g),
{
    lemma_nothing_done(es);
    lemma_fuse(es, any_edge(), as_it_is(), p, f, q, g);
}

/// Counting the selected vertices before a position is not changed by the
/// removal of a vertex at or behind it.
proof fn lemma_rank_below_removed(vs: Seq<Vec4f>, at: int, i: int)
    requires
        0 <= i <= at < vs.len(),
    ensures
        rank(vs.remove(at), i) == rank(vs, i),
{
    assert(vs.remove(at).take(i) == vs.take(i));
}

/// What `deleted_down` leaves: the unselected vertices among the first `k`
/// and every vertex behind them, and the edges without a selected end among
/// the first `k`, renumbered.
proof fn lemma_deleted_down(vs: Seq<Vec4f>, es: Seq<Edge>, k: nat)
    requires
        k <= vs.len() <= usize::MAX,
        valid(es, vs.len() as int),
    ensures
        deleted_down(vs, es, k).0 == vs.take(k as int).filter(is_unselected()) + vs.skip(k as int),
        deleted_down(vs, es, k).1 == es.filter(clear_below(vs, k as int)).map_values(
            closing_below(vs, k as int),
        ),
    decreases k,
{
    if k == 0 {
        vs.take(0).lemma_filter_len(is_unselected());
        assert(vs.take(0).filter(is_unselected()) + vs.skip(0) == vs);
        lemma_nothing_done(es);
        assert(rank(vs, 0) == 0) by {
            vs.take(0).lemma_filter_len(is_selected());
        }
        lemma_alike(es, any_edge(), as_it_is(), clear_below(vs, 0), closing_below(vs, 0));
    } else {
        let j = k - 1;
        let front = vs.take(j);
        assert(vs.take(k as int) == front.push(vs[j]));
        front.lemma_filter_push(vs[j], is_unselected());
        lemma_rank_step(vs, j);
        if vs[j].selected {
            let vs1 = vs.remove(j);
            let es1 = edges_without_vertex(es, j);
            law_delete_keeps_edges_valid(es, vs.len() as int, j);
            lemma_deleted_down(vs1, es1, j as nat);
            assert(vs1.take(j) == front);
            assert(vs1.skip(j) == vs.skip(k as int));
            assert forall|i: int| 0 <= i < es.len() implies clear_below(vs, k as int)(
                #[trigger] es[i],
            ) == (misses(j)(es[i]) && clear_below(vs1, j)(lowering(j)(es[i]))) by {
                assert(edge_ok(es[i], vs.len() as int));
            }
            assert forall|i: int|
                0 <= i < es.len() && clear_below(vs, k as int)(
                    #[trigger] es[i],
                ) implies closing_below(vs, k as int)(es[i]) == closing_below(vs1, j)(
                lowering(j)(es[i]),
            ) by {
                let e = es[i];
                assert(edge_ok(e, vs.len() as int));
                if e.a < j {
                    lemma_rank_below_removed(vs, j, e.a as int);
                }
                if e.b < j {
                    lemma_rank_below_removed(vs, j, e.b as int);
                }
                lemma_rank_below_removed(vs, j, j);
            }
            lemma_fuse(
                es,
                misses(j),
                lowering(j),
                clear_below(vs1, j),
                closing_below(vs1, j),
                clear_below(vs, k as int),
                closing_below(vs, k as int),
            );
        } else {
            lemma_deleted_down(vs, es, j as nat);
            assert(Seq::<Vec4f>::empty().push(vs[j]) + vs.skip(k as int) == vs.skip(j));
            assert(front.filter(is_unselected()).push(vs[j]) + vs.skip(k as int) == front.filter(
                is_unselected(),
            ) + vs.skip(j));
            lemma_alike(
                es,
                clear_below(vs, j),
                closing_below(vs, j),
                clear_below(vs, k as int),
                closing_below(vs, k as int),
            );
        }
    }
}

/// Deleting the selected vertices one by one, the highest position first,
/// leaves what deleting the selection in one pass leaves.
pub proof fn law_delete_highest_first(vs: Seq<Vec4f>, es: Seq<Edge>)
    requires
        vs.len() <= usize::MAX,
        valid(es, vs.len() as int),
    ensures
        deleted_down(vs, es, vs.len()).0 == vs.filter(is_unselected()),
        deleted_down(vs, es, vs.len()).1 == edges_without_selected(es, vs),
{
    let n = vs.len() as int;
    lemma_deleted_down(vs, es, vs.len());
    assert(vs.take(n) == vs);
    assert(vs.take(n).filter(is_unselected()) + vs.skip(n) == vs.filter(is_unselected()));
    assert forall|i: int| 0 <= i < es.len() implies clear_below(vs, n)(#[trigger] es[i])
        == between_unselected(vs)(es[i]) by {
        assert(edge_ok(es[i], n));
    }
    assert forall|i: int| 0 <= i < es.len() && clear_below(vs, n)(
        #[trigger] es[i],
    ) implies closing_below(vs, n)(es[i]) == closing(vs)(es[i]) by {
        assert(edge_ok(es[i], n));
    }
    lemma_alike(es, clear_below(vs, n), closing_below(vs, n), between_unselected(vs), closing(vs));
}

} // verus!

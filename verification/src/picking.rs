//! Choosing what a click hits: the nearest candidate within reach.
//!
//! The caller measures the distance from the pointer to each candidate on
//! screen; the functions here decide which candidate, if any, is hit.

use vstd::prelude::*;
use crate::edge::Edge;
use crate::object::{edge_ok, Object};
use crate::scalar::{is_nan, less, lt, nan};
use crate::vector::Vec4f;

verus! {

/// `20.0`: a candidate at this distance or beyond is out of reach.
pub const MAX_DIST: u64 = 0x4034_0000_0000_0000;

/// Whether the candidate at `i` has a distance that is a number.
pub open spec fn measured(distances: Seq<Option<u64>>, i: int) -> bool {
    0 <= i < distances.len() && distances[i] is Some && !is_nan(distances[i]->Some_0)
}

/// Whether `r` is the choice among the candidates: the first of the nearest
/// measured candidates if it is nearer than `MAX_DIST`, and otherwise none.
pub open spec fn is_nearest(distances: Seq<Option<u64>>, r: Option<usize>) -> bool {
    match r {
        Some(m) => {
            &&& measured(distances, m as int)
            &&& less(distances[m as int]->Some_0, MAX_DIST)
            &&& forall|j: int|
                measured(distances, j) ==> !less(
                    (#[trigger] distances[j])->Some_0,
                    distances[m as int]->Some_0,
                )
            &&& forall|j: int|
                measured(distances, j) && j < m ==> less(
                    distances[m as int]->Some_0,
                    (#[trigger] distances[j])->Some_0,
                )
        },
        None => forall|j: int|
            measured(distances, j) ==> !less((#[trigger] distances[j])->Some_0, MAX_DIST),
    }
}

/// The first of the nearest measured candidates, if it is nearer than
/// `MAX_DIST`.
pub fn nearest(distances: &Vec<Option<u64>>) -> (r: Option<usize>)
    ensures
        is_nearest(distances@, r),
{
    let mut closest: Option<usize> = None;
    let mut min_dist: u64 = 0;
    let n = distances.len();
    for i in 0..n
        invariant
            n == distances@.len(),
            closest is None ==> forall|j: int| 0 <= j < i ==> !measured(distances@, j),
            closest matches Some(m) ==> {
                &&& m < i
                &&& measured(distances@, m as int)
                &&& min_dist == distances@[m as int]->Some_0
                &&& forall|j: int|
                    0 <= j < i && measured(distances@, j) ==> !less(
                        (#[trigger] distances@[j])->Some_0,
                        min_dist,
                    )
                &&& forall|j: int|
                    measured(distances@, j) && j < m ==> less(
                        min_dist,
                        (#[trigger] distances@[j])->Some_0,
                    )
            },
    {
        if let Some(d) = distances[i] {
            if !nan(d) {
                match closest {
                    Some(_) => {
                        if lt(d, min_dist) {
                            min_dist = d;
                            closest = Some(i);
                        }
                    },
                    None => {
                        min_dist = d;
                        closest = Some(i);
                    },
                }
            }
        }
    }
    match closest {
        Some(m) => {
            if lt(min_dist, MAX_DIST) {
                Some(m)
            } else {
                None
            }
        },
        None => None,
    }
}

/// The distances of the vertices that can be hit: a vertex without a
/// projection, or without a distance, has none.
pub open spec fn vertex_distances(distances: Seq<Option<u64>>, vertices: Seq<Vec4f>) -> Seq<
    Option<u64>,
> {
    Seq::new(
        vertices.len(),
        |i: int|
            if i < distances.len() && vertices[i].projection is Some {
                distances[i]
            } else {
                None
            },
    )
}

/// The vertex that a click hits: the first of the nearest projected vertices,
/// if it is nearer than `MAX_DIST`. `distances[i]` is the distance on screen
/// from the pointer to the vertex at `i`.
pub fn find_closest_vertice(distances: &Vec<Option<u64>>, vertices: &Vec<Vec4f>) -> (r: Option<
    usize,
>)
    ensures
        is_nearest(vertex_distances(distances@, vertices@), r),
{
    let mut usable: Vec<Option<u64>> = Vec::new();
    let n = vertices.len();
    for i in 0..n
        invariant
            n == vertices@.len(),
            usable@ == vertex_distances(distances@, vertices@).take(i as int),
    {
        let d = if i < distances.len() && vertices[i].get_proj().is_some() {
            distances[i]
        } else {
            None
        };
        usable.push(d);
        assert(vertex_distances(distances@, vertices@).take(i + 1) == vertex_distances(
            distances@,
            vertices@,
        ).take(i as int).push(d));
    }
    assert(vertex_distances(distances@, vertices@).take(n as int) == vertex_distances(
        distances@,
        vertices@,
    ));
    nearest(&usable)
}

/// The distances of the edges that can be hit: an edge with an end that has
/// no projection, or without a distance, has none.
pub open spec fn edge_distances(
    distances: Seq<Option<u64>>,
    edges: Seq<Edge>,
    vertices: Seq<Vec4f>,
) -> Seq<Option<u64>> {
    Seq::new(
        edges.len(),
        |i: int|
            if i < distances.len() && vertices[edges[i].a as int].projection is Some
                && vertices[edges[i].b as int].projection is Some {
                distances[i]
            } else {
                None
            },
    )
}

/// The edge that a click hits: the first of the nearest edges with two
/// projected ends, if it is nearer than `MAX_DIST`. `distances[i]` is the
/// distance on screen from the pointer to the edge at `i`, and none where the
/// pointer lies beyond an end of the edge.
pub fn find_closest_edge(distances: &Vec<Option<u64>>, obj: &Object) -> (r: Option<usize>)
    requires
        obj.wf(),
    ensures
        is_nearest(edge_distances(distances@, obj.edges@, obj.vertices@), r),
{
    let mut usable: Vec<Option<u64>> = Vec::new();
    let n = obj.edges.len();
    for i in 0..n
        invariant
            n == obj.edges@.len(),
            obj.wf(),
            usable@ == edge_distances(distances@, obj.edges@, obj.vertices@).take(i as int),
    {
        assert(edge_ok(obj.edges@[i as int], obj.vertices@.len() as int));
        let d = if i < distances.len() && obj.vertices[obj.edges[i].a].get_proj().is_some()
            && obj.vertices[obj.edges[i].b].get_proj().is_some() {
            distances[i]
        } else {
            None
        };
        usable.push(d);
        assert(edge_distances(distances@, obj.edges@, obj.vertices@).take(i + 1)
            == edge_distances(distances@, obj.edges@, obj.vertices@).take(i as int).push(d));
    }
    assert(edge_distances(distances@, obj.edges@, obj.vertices@).take(n as int)
        == edge_distances(distances@, obj.edges@, obj.vertices@));
    nearest(&usable)
}

} // verus!

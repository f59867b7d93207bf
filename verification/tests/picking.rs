use polytope4d::scalar::{eq, lt, nan, INFINITY, NEG_ONE, ONE, ZERO};
use polytope4d::{
    find_closest_edge, find_closest_vertice, nearest, Edge, Object, Vec4f, CLICK_TIMEOUT,
    CUR_TRANSFORM_TO, MAX_DIST,
};

fn f(x: f64) -> u64 {
    x.to_bits()
}

fn d(x: f64) -> Option<u64> {
    Some(x.to_bits())
}

fn at(x: f64, y: f64) -> Vec4f {
    Vec4f::new0().with_proj((f(x), f(y)))
}

fn dist2d(a: (f64, f64), b: (f64, f64)) -> f64 {
    ((b.0 - a.0).powi(2) + (b.1 - a.1).powi(2)).sqrt()
}

/// The distance from `p` to the segment from `a` to `b` as a caller measures
/// it: by the area of the triangle, and none beyond an end of the segment.
fn to_segment(p: (f64, f64), a: (f64, f64), b: (f64, f64)) -> Option<u64> {
    let (d1, d2, d3) = (dist2d(a, b), dist2d(a, p), dist2d(p, b));
    if d2.powi(2) > d1.powi(2) + d3.powi(2) || d3.powi(2) > d1.powi(2) + d2.powi(2) {
        return None;
    }
    let s = (d1 + d2 + d3) / 2.0;
    Some(f((s * (s - d1) * (s - d2) * (s - d3)).sqrt() / d1 * 2.0))
}

fn projected(x: f64) -> Vec4f {
    Vec4f::newf(f(x)).with_proj((f(x), f(0.0)))
}

#[test]
fn constants_are_the_numbers_they_stand_for() {
    assert_eq!(f64::from_bits(ZERO), 0.0);
    assert_eq!(f64::from_bits(ONE), 1.0);
    assert_eq!(f64::from_bits(NEG_ONE), -1.0);
    assert_eq!(f64::from_bits(INFINITY), f64::INFINITY);
    assert_eq!(f64::from_bits(MAX_DIST), 20.0);
    assert_eq!(CLICK_TIMEOUT, 200);
    assert_eq!(CUR_TRANSFORM_TO, 20);
}

#[test]
fn comparisons_are_those_of_the_numbers() {
    let samples = [
        0.0,
        -0.0,
        1.0,
        -1.0,
        0.5,
        19.999,
        20.0,
        20.001,
        1e-320,
        -1e-320,
        f64::MIN_POSITIVE,
        f64::MAX,
        f64::MIN,
        f64::INFINITY,
        f64::NEG_INFINITY,
        f64::NAN,
        -f64::NAN,
    ];
    for a in samples {
        assert_eq!(nan(f(a)), a.is_nan(), "nan({})", a);
        for b in samples {
            assert_eq!(lt(f(a), f(b)), a < b, "{} < {}", a, b);
            assert_eq!(eq(f(a), f(b)), a == b, "{} == {}", a, b);
        }
    }
}

#[test]
fn vectors_are_equal_when_their_coordinates_are() {
    let a = Vec4f::new(f(1.0), f(0.0), f(3.0), f(4.0));
    let mut b = Vec4f::new(f(1.0), f(-0.0), f(3.0), f(4.0));
    b.select();
    b.set_proj((f(1.0), f(1.0)));
    assert!(a == b);
    assert!(a != Vec4f::new(f(1.0), f(0.0), f(3.0), f(5.0)));
    let n = Vec4f::newf(f(f64::NAN));
    assert!(n != n);
}

#[test]
fn nearest_takes_the_minimum_within_reach() {
    assert_eq!(nearest(&vec![d(5.0), d(3.0), d(4.0)]), Some(1));
    assert_eq!(nearest(&vec![d(25.0), None, d(0.0)]), Some(2));
    assert_eq!(nearest(&vec![]), None);
    assert_eq!(nearest(&vec![None, None]), None);
}

#[test]
fn nearest_keeps_the_first_of_equals() {
    assert_eq!(nearest(&vec![d(7.0), d(3.0), d(3.0), d(3.0)]), Some(1));
    assert_eq!(nearest(&vec![d(0.0), d(-0.0)]), Some(0));
    assert_eq!(nearest(&vec![d(-0.0), d(0.0)]), Some(0));
}

#[test]
fn nearest_is_none_at_the_limit_and_beyond() {
    assert_eq!(nearest(&vec![d(20.0)]), None);
    assert_eq!(nearest(&vec![d(20.000001), d(300.0)]), None);
    assert_eq!(nearest(&vec![d(f64::INFINITY)]), None);
    assert_eq!(nearest(&vec![d(19.999999)]), Some(0));
    assert_eq!(nearest(&vec![d(20.0), d(f64::from_bits(MAX_DIST - 1))]), Some(1));
}

#[test]
fn nearest_passes_over_what_is_no_number() {
    assert_eq!(nearest(&vec![d(f64::NAN), d(3.0)]), Some(1));
    assert_eq!(nearest(&vec![d(3.0), d(f64::NAN), d(2.0)]), Some(2));
    assert_eq!(nearest(&vec![d(f64::NAN)]), None);
}

#[test]
fn closest_vertex_needs_a_projection() {
    let vertices = vec![Vec4f::newf(f(0.0)), projected(1.0), projected(2.0)];
    assert_eq!(find_closest_vertice(&vec![d(1.0), d(5.0), d(3.0)], &vertices), Some(2));
    assert_eq!(find_closest_vertice(&vec![d(1.0), d(20.0), d(30.0)], &vertices), None);
    assert_eq!(find_closest_vertice(&vec![d(1.0), d(5.0)], &vertices), Some(1));
    assert_eq!(find_closest_vertice(&vec![d(1.0)], &vertices), None);
    assert_eq!(find_closest_vertice(&vec![d(1.0), d(19.5), d(30.0), d(0.0)], &vertices), Some(1));
    assert_eq!(find_closest_vertice(&vec![], &Vec::new()), None);
}

#[test]
fn closest_vertex_at_the_limit() {
    let vertices = vec![projected(0.0), projected(1.0)];
    assert_eq!(find_closest_vertice(&vec![d(20.0), d(25.0)], &vertices), None);
    assert_eq!(find_closest_vertice(&vec![d(25.0), d(20.0 - 1e-9)], &vertices), Some(1));
}

#[test]
fn closest_edge_needs_both_ends_projected() {
    let mut o = Object::empty();
    o.vertices.push(projected(0.0));
    o.vertices.push(projected(1.0));
    o.vertices.push(Vec4f::newf(f(2.0)));
    o.edges.push(Edge::new(1, 2));
    o.edges.push(Edge::new(0, 1));
    o.edges.push(Edge::new(1, 0));
    assert_eq!(find_closest_edge(&vec![d(0.5), d(4.0), d(4.0)], &o), Some(1));
    assert_eq!(find_closest_edge(&vec![d(0.5), d(4.0), d(3.0)], &o), Some(2));
    assert_eq!(find_closest_edge(&vec![d(0.5), None, d(20.0)], &o), None);
    assert_eq!(find_closest_edge(&vec![d(0.5), None, None], &o), None);
    assert_eq!(find_closest_edge(&vec![d(0.5), d(1.0)], &o), Some(1));
}

#[test]
fn a_point_beyond_the_end_of_a_segment_hits_no_edge() {
    let mut o = Object::empty();
    o.vertices.push(at(0.0, 0.0));
    o.vertices.push(at(1.0, 0.0));
    o.edges.push(Edge::new(0, 1));
    let measure = |p: (f64, f64)| vec![to_segment(p, (0.0, 0.0), (1.0, 0.0))];
    assert_eq!(measure((2.0, 0.0)), vec![None]);
    assert_eq!(find_closest_edge(&measure((2.0, 0.0)), &o), None);
    assert_eq!(find_closest_edge(&measure((-0.5, 0.0)), &o), None);
    assert_eq!(find_closest_edge(&measure((1.5, 0.1)), &o), None);
    assert_eq!(find_closest_edge(&measure((0.5, 0.0)), &o), Some(0));
    assert_eq!(find_closest_edge(&measure((0.5, 3.0)), &o), Some(0));
    assert_eq!(find_closest_edge(&measure((0.5, 20.0)), &o), None);
    assert_eq!(find_closest_edge(&measure((0.5, -19.5)), &o), Some(0));
}

#[test]
fn the_nearest_projected_vertex_within_reach_is_hit() {
    let vertices = vec![at(100.0, 100.0), at(130.0, 100.0), Vec4f::new0(), at(100.0, 119.0)];
    let measure = |p: (f64, f64)| -> Vec<Option<u64>> {
        vertices
            .iter()
            .map(|v| v.get_proj().map(|q| f(dist2d(p, (f64::from_bits(q.0), f64::from_bits(q.1))))))
            .collect()
    };
    assert_eq!(find_closest_vertice(&measure((100.0, 100.0)), &vertices), Some(0));
    assert_eq!(find_closest_vertice(&measure((116.0, 100.0)), &vertices), Some(1));
    assert_eq!(find_closest_vertice(&measure((115.0, 100.0)), &vertices), Some(0));
    assert_eq!(find_closest_vertice(&measure((100.0, 139.0)), &vertices), None);
    assert_eq!(find_closest_vertice(&measure((100.0, 138.999)), &vertices), Some(3));
    assert_eq!(find_closest_vertice(&measure((0.0, 0.0)), &vertices), None);
}

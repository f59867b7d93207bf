use polytope4d::{Edge, Object, Vec4f};

fn f(x: f64) -> u64 {
    x.to_bits()
}

fn point(x: f64, y: f64, z: f64, w: f64) -> Vec4f {
    Vec4f::new(f(x), f(y), f(z), f(w))
}

/// A path 0 - 1 - 2 - 3 with an extra edge 0 - 2.
fn path() -> Object {
    let mut o = Object::empty();
    for i in 0..4 {
        o.vertices.push(point(i as f64, 0.0, 0.0, 0.0));
    }
    o.edges.push(Edge::new(0, 1));
    o.edges.push(Edge::new(1, 2));
    o.edges.push(Edge::new(2, 3));
    o.edges.push(Edge::new(0, 2));
    o
}

fn ends(o: &Object) -> Vec<(usize, usize, bool)> {
    o.edges.iter().map(|e| (e.a, e.b, e.selected)).collect()
}

fn flags(o: &Object) -> Vec<bool> {
    o.vertices.iter().map(|v| v.selected).collect()
}

fn consistent(o: &Object) -> bool {
    o.is_wf()
        && o
            .edges
            .iter()
            .all(|e| e.selected == (o.vertices[e.a].selected && o.vertices[e.b].selected))
}

fn xs(o: &Object) -> Vec<f64> {
    o.vertices.iter().map(|v| f64::from_bits(v.x)).collect()
}

#[test]
fn tesseract_has_sixteen_vertices_and_thirty_two_edges() {
    let t = Object::tesseract();
    assert_eq!(t.vertices.len(), 16);
    assert_eq!(t.edges.len(), 32);
    assert_eq!(t.faces.len(), 0);
    assert_eq!(t.cells.len(), 0);
    assert_eq!(t.name, Some("Tessteract".to_string()));
}

#[test]
fn tesseract_corners_are_all_sign_patterns() {
    let t = Object::tesseract();
    for (i, v) in t.vertices.iter().enumerate() {
        let sign = |bit: usize| if (i >> bit) & 1 == 1 { 1.0 } else { -1.0 };
        assert_eq!(f64::from_bits(v.x), sign(3));
        assert_eq!(f64::from_bits(v.y), sign(2));
        assert_eq!(f64::from_bits(v.z), sign(1));
        assert_eq!(f64::from_bits(v.w), sign(0));
        assert!(!v.selected);
        assert_eq!(v.get_proj(), None);
    }
}

#[test]
fn tesseract_edges_join_corners_that_differ_in_one_coordinate() {
    let t = Object::tesseract();
    for e in &t.edges {
        assert!(e.a < e.b && e.b < 16);
        assert_eq!((e.a ^ e.b).count_ones(), 1);
        assert!(!e.selected);
    }
    assert_eq!((t.edges[0].a, t.edges[0].b), (0, 1));
    assert_eq!((t.edges[3].a, t.edges[3].b), (0, 8));
    assert_eq!((t.edges[4].a, t.edges[4].b), (1, 3));
    assert_eq!((t.edges[31].a, t.edges[31].b), (14, 15));
    for pair in t.edges.windows(2) {
        assert!((pair[0].a, pair[0].b) < (pair[1].a, pair[1].b));
    }
}

#[test]
fn vector_constructors() {
    let v = Vec4f::new(f(1.0), f(2.0), f(3.0), f(4.0));
    assert_eq!(v.as_tuple(), (f(1.0), f(2.0), f(3.0), f(4.0)));
    assert_eq!(v.as_vec(), vec![f(1.0), f(2.0), f(3.0), f(4.0)]);
    assert!(!v.selected);
    assert_eq!(v.get_proj(), None);
    let u = Vec4f::newf(f(2.5));
    assert_eq!(u.as_tuple(), (f(2.5), f(2.5), f(2.5), f(2.5)));
    let z = Vec4f::new0();
    assert_eq!(z.as_tuple(), (f(0.0), f(0.0), f(0.0), f(0.0)));
}

#[test]
fn vector_projection_and_selection() {
    let mut v = Vec4f::new(f(1.0), f(2.0), f(3.0), f(4.0));
    v.select();
    assert!(v.selected);
    v.set_proj((f(10.0), f(20.0)));
    assert_eq!(v.get_proj(), Some((f(10.0), f(20.0))));
    assert!(v.selected);
    let p = v.with_proj((f(7.0), f(8.0)));
    assert_eq!(p.get_proj(), Some((f(7.0), f(8.0))));
    assert!(!p.selected);
    assert_eq!(p.as_tuple(), v.as_tuple());
    v.deselect();
    assert!(!v.selected);
    assert_eq!(v.get_proj(), Some((f(10.0), f(20.0))));
}

#[test]
fn edge_constructors() {
    let e = Edge::new(3, 5);
    assert_eq!((e.a, e.b, e.selected), (3, 5, false));
    let s = e.clone_and_select(true);
    assert_eq!((s.a, s.b, s.selected), (3, 5, true));
}

#[test]
fn selecting_a_vertex_selects_edges_to_selected_neighbours() {
    let mut o = path();
    o.select_vertice(0);
    assert_eq!(flags(&o), vec![true, false, false, false]);
    assert_eq!(ends(&o), vec![(0, 1, false), (1, 2, false), (2, 3, false), (0, 2, false)]);
    o.select_vertice(2);
    assert_eq!(flags(&o), vec![true, false, true, false]);
    assert_eq!(ends(&o), vec![(0, 1, false), (1, 2, false), (2, 3, false), (0, 2, true)]);
    o.select_vertice(1);
    assert_eq!(ends(&o), vec![(0, 1, true), (1, 2, true), (2, 3, false), (0, 2, true)]);
}

#[test]
fn deselecting_a_vertex_deselects_its_edges() {
    let mut o = path();
    o.select();
    o.deselect_vertice(2);
    assert_eq!(flags(&o), vec![true, true, false, true]);
    assert_eq!(ends(&o), vec![(0, 1, true), (1, 2, false), (2, 3, false), (0, 2, false)]);
}

#[test]
fn selecting_an_edge_selects_its_ends() {
    let mut o = path();
    o.select_vertice(0);
    o.select_edge(1);
    assert_eq!(flags(&o), vec![true, true, true, false]);
    assert_eq!(ends(&o), vec![(0, 1, true), (1, 2, true), (2, 3, false), (0, 2, true)]);
    o.deselect_edge(0);
    assert_eq!(flags(&o), vec![false, false, true, false]);
    assert_eq!(ends(&o), vec![(0, 1, false), (1, 2, false), (2, 3, false), (0, 2, false)]);
}

#[test]
fn select_all_and_clear() {
    let mut o = path();
    o.faces.push(((0, 1, 2), (0, 1, 3), false));
    o.cells.push(((0, 1, 2, 3), (0, 1, 2, 3, 0, 1), (0, 0, 0, 0), false));
    o.select();
    assert_eq!(flags(&o), vec![true; 4]);
    assert!(o.edges.iter().all(|e| e.selected));
    assert!(o.faces[0].2);
    assert!(o.cells[0].3);
    o.clear_selection();
    assert_eq!(flags(&o), vec![false; 4]);
    assert!(o.edges.iter().all(|e| !e.selected));
    assert!(!o.faces[0].2);
    assert!(!o.cells[0].3);
    assert_eq!(o.faces[0].0, (0, 1, 2));
    assert_eq!(o.cells[0].1, (0, 1, 2, 3, 0, 1));
}

#[test]
fn deselect_first_n() {
    let mut o = path();
    o.select();
    o.deselect_first_n_vertices(2);
    assert_eq!(flags(&o), vec![false, false, true, true]);
    assert_eq!(ends(&o), vec![(0, 1, false), (1, 2, false), (2, 3, true), (0, 2, false)]);
}

#[test]
fn selected_vertices_are_listed_in_order() {
    let mut o = path();
    assert_eq!(o.get_selected_vertices(), Vec::<usize>::new());
    o.select_vertice(3);
    o.select_vertice(1);
    assert_eq!(o.get_selected_vertices(), vec![1, 3]);
}

#[test]
fn deleting_an_unselected_vertex_changes_nothing() {
    let mut o = path();
    o.select_vertice(0);
    o.delete_vertex(1);
    assert_eq!(o.vertices.len(), 4);
    assert_eq!(ends(&o), vec![(0, 1, false), (1, 2, false), (2, 3, false), (0, 2, false)]);
}

#[test]
fn deleting_a_vertex_drops_its_edges_and_renumbers() {
    let mut o = path();
    o.select_vertice(1);
    o.delete_vertex(1);
    assert_eq!(xs(&o), vec![0.0, 2.0, 3.0]);
    assert_eq!(ends(&o), vec![(1, 2, false), (0, 1, false)]);
    for e in &o.edges {
        assert!(e.a < o.vertices.len() && e.b < o.vertices.len() && e.a != e.b);
    }
}

#[test]
fn deleting_the_selection_equals_deleting_one_by_one_from_the_top() {
    let mut a = Object::tesseract();
    for i in [1usize, 4, 7, 8, 15] {
        a.select_vertice(i);
    }
    let mut b = a.duplicate();
    a.delete_selected();
    for i in (0..16).rev() {
        b.delete_vertex(i);
    }
    assert_eq!(a.vertices.len(), 11);
    assert_eq!(xs(&a), xs(&b));
    assert_eq!(ends(&a), ends(&b));
    for e in &a.edges {
        assert!(e.a < 11 && e.b < 11 && e.a != e.b);
    }
}

#[test]
fn copy_takes_the_selected_subgraph() {
    let mut o = path();
    o.select_vertice(0);
    o.select_vertice(2);
    o.select_vertice(3);
    let c = o.copy();
    assert_eq!(xs(&c), vec![0.0, 2.0, 3.0]);
    assert_eq!(flags(&c), vec![false; 3]);
    assert_eq!(ends(&c), vec![(1, 2, false), (0, 1, false)]);
    assert_eq!(c.name, None);
    assert_eq!(o.vertices.len(), 4);
}

#[test]
fn copy_then_paste_adds_the_selection() {
    let mut source = Object::tesseract();
    for i in 0..8 {
        source.select_vertice(i);
    }
    let copy = source.copy();
    assert_eq!(copy.vertices.len(), 8);
    assert_eq!(copy.edges.len(), 12);
    let mut target = path();
    target.select_vertice(0);
    target.paste(&copy);
    assert_eq!(target.vertices.len(), 4 + 8);
    assert_eq!(target.edges.len(), 4 + 12);
    assert!(target.vertices[..4].iter().all(|v| !v.selected));
    assert!(target.vertices[4..].iter().all(|v| v.selected));
    assert!(target.edges[..4].iter().all(|e| !e.selected));
    assert!(target.edges[4..].iter().all(|e| e.selected));
    assert!(target.edges[4..].iter().all(|e| e.a >= 4 && e.b >= 4 && e.a < 12 && e.b < 12));
    assert_eq!((target.edges[4].a, target.edges[4].b), (4, 5));
}

#[test]
fn extrude_duplicates_and_connects() {
    let mut o = path();
    o.select_vertice(1);
    o.select_vertice(2);
    o.extrude();
    assert_eq!(xs(&o), vec![0.0, 1.0, 2.0, 3.0, 1.0, 2.0]);
    assert_eq!(flags(&o), vec![false, false, false, false, true, true]);
    assert_eq!(
        ends(&o),
        vec![
            (0, 1, false),
            (1, 2, false),
            (2, 3, false),
            (0, 2, false),
            (4, 5, true),
            (1, 4, false),
            (2, 5, false),
        ]
    );
}

#[test]
fn extrude_counts_on_the_tesseract() {
    let mut o = Object::tesseract();
    for i in 0..8 {
        o.select_vertice(i);
    }
    o.extrude();
    assert_eq!(o.vertices.len(), 16 + 8);
    assert_eq!(o.edges.len(), 32 + 12 + 8);
    assert!(o.vertices[..16].iter().all(|v| !v.selected));
    assert!(o.vertices[16..].iter().all(|v| v.selected));
}

#[test]
fn fill_needs_exactly_two_selected_vertices() {
    let mut o = path();
    o.fill();
    assert_eq!(o.edges.len(), 4);
    o.select_vertice(0);
    o.fill();
    assert_eq!(o.edges.len(), 4);
    o.select_vertice(3);
    o.fill();
    assert_eq!(o.edges.len(), 5);
    assert_eq!(ends(&o)[4], (0, 3, true));
    o.select_vertice(1);
    o.fill();
    assert_eq!(o.edges.len(), 5);
}

#[test]
fn add_assign_appends_with_offset() {
    let mut a = path();
    let mut b = path();
    b.select_edge(0);
    a.add_assign(b);
    assert_eq!(a.vertices.len(), 8);
    assert_eq!(
        ends(&a)[4..].to_vec(),
        vec![(4, 5, true), (5, 6, false), (6, 7, false), (4, 6, false)]
    );
    assert_eq!(flags(&a), vec![false, false, false, false, true, true, false, false]);
}

#[test]
fn add_appends_unselected_edges() {
    let a = path();
    let mut b = path();
    b.select_edge(0);
    let sum = a.add(b);
    assert_eq!(sum.vertices.len(), 8);
    assert_eq!(
        ends(&sum)[4..].to_vec(),
        vec![(4, 5, false), (5, 6, false), (6, 7, false), (4, 6, false)]
    );
}

#[test]
fn edges_have_texts() {
    assert_eq!(Edge::new(3, 15).to_string(), "Edge(&3, &15, not selected)");
    assert_eq!(Edge::new(0, 1200).clone_and_select(true).to_string(), "Edge(&0, &1200, selected)");
    assert_eq!(
        Edge::new(usize::MAX, 10).to_string(),
        format!("Edge(&{}, &10, not selected)", usize::MAX)
    );
}

#[test]
fn edges_stay_selected_exactly_when_both_ends_are() {
    let mut o = Object::tesseract();
    assert!(consistent(&o));
    for i in [0usize, 1, 3, 5, 8] {
        o.select_vertice(i);
        assert!(consistent(&o));
    }
    o.select_edge(20);
    assert!(consistent(&o));
    o.deselect_vertice(1);
    assert!(consistent(&o));
    o.deselect_edge(3);
    assert!(consistent(&o));
    o.select_vertice(0);
    o.select_vertice(2);
    let copy = o.copy();
    assert!(consistent(&copy));
    o.extrude();
    assert!(consistent(&o));
    o.paste(&copy);
    assert!(consistent(&o));
    o.delete_vertex(o.vertices.len() - 1);
    assert!(consistent(&o));
    o.clear_selection();
    o.select_vertice(4);
    o.select_vertice(9);
    o.fill();
    assert!(consistent(&o));
    o.delete_selected();
    assert!(consistent(&o));
    assert!(o.vertices.iter().all(|v| !v.selected));
    o.select();
    assert!(consistent(&o));
}

#[test]
fn an_empty_mesh_holds_nothing() {
    let o = Object::empty();
    assert!(o.vertices.is_empty() && o.edges.is_empty());
    assert!(o.faces.is_empty() && o.cells.is_empty());
    assert_eq!(o.name, None);
    assert!(o.is_wf());
    assert!(o.copy().vertices.is_empty());
}

#[test]
fn a_duplicate_holds_the_same() {
    let mut o = Object::tesseract();
    o.select_edge(7);
    o.vertices[2].set_proj((f(1.0), f(2.0)));
    o.faces.push(((0, 1, 2), (0, 1, 2), true));
    o.cells.push(((0, 1, 2, 3), (0, 1, 2, 3, 4, 5), (0, 0, 0, 0), false));
    let d = o.duplicate();
    assert_eq!(flags(&d), flags(&o));
    assert_eq!(ends(&d), ends(&o));
    assert_eq!(d.vertices[2].get_proj(), Some((f(1.0), f(2.0))));
    assert_eq!(d.faces, o.faces);
    assert_eq!(d.cells, o.cells);
    assert_eq!(d.name, o.name);
}

#[test]
fn a_mesh_is_well_formed_when_its_edges_join_different_vertices() {
    let mut o = path();
    assert!(o.is_wf());
    o.edges.push(Edge::new(3, 4));
    assert!(!o.is_wf());
    o.edges.pop();
    o.edges.push(Edge::new(4, 0));
    assert!(!o.is_wf());
    o.edges.pop();
    o.edges.push(Edge::new(2, 2));
    assert!(!o.is_wf());
    o.edges.pop();
    o.edges.push(Edge::new(3, 0));
    assert!(o.is_wf());
    assert!(Object::tesseract().is_wf());
}

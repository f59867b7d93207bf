use polytope4d::angle::{NEG_QUARTER_TURN, QUARTER_TURN};
use polytope4d::{Angle, Axes, Camera, MotionAxes, Vec4f};
use std::f64::consts::FRAC_PI_2;

fn f(x: f64) -> u64 {
    x.to_bits()
}

fn d(x: f64) -> Option<u64> {
    Some(x.to_bits())
}

fn coordinates(v: &Vec4f) -> (f64, f64, f64, f64) {
    (
        f64::from_bits(v.x),
        f64::from_bits(v.y),
        f64::from_bits(v.z),
        f64::from_bits(v.w),
    )
}

fn selected(m: &MotionAxes) -> [bool; 4] {
    [m.x.selected, m.y.selected, m.z.selected, m.w.selected]
}

/// A manipulator at the origin whose centre and tips are projected.
fn placed() -> MotionAxes {
    let mut m = MotionAxes::new();
    m.move_to(Some(Vec4f::new0().with_proj((f(100.0), f(100.0)))));
    m.x.set_proj((f(150.0), f(100.0)));
    m.y.set_proj((f(100.0), f(150.0)));
    m.z.set_proj((f(50.0), f(100.0)));
    m.w.set_proj((f(100.0), f(50.0)));
    m
}

#[test]
fn angles_start_and_return_to_zero() {
    let mut a = Angle::new();
    for x in [a.xy, a.xz, a.xw, a.yz, a.yw, a.zw] {
        assert_eq!(f64::from_bits(x), 0.0);
    }
    a.xy = f(1.0);
    a.zw = f(-0.5);
    a.clear();
    for x in [a.xy, a.xz, a.xw, a.yz, a.yw, a.zw] {
        assert_eq!(f64::from_bits(x), 0.0);
    }
}

#[test]
fn two_angles_are_kept_within_a_quarter_turn() {
    assert_eq!(f64::from_bits(QUARTER_TURN), FRAC_PI_2);
    assert_eq!(f64::from_bits(NEG_QUARTER_TURN), -FRAC_PI_2);
    let mut a = Angle::new();
    a.xy = f(10.0);
    a.xz = f(-10.0);
    a.xw = f(7.0);
    a.yz = f(2.0);
    a.yw = f(-3.0);
    a.zw = f(100.0);
    a.clamp();
    assert_eq!(f64::from_bits(a.xy), 10.0);
    assert_eq!(f64::from_bits(a.xz), -10.0);
    assert_eq!(f64::from_bits(a.xw), 7.0);
    assert_eq!(f64::from_bits(a.yz), FRAC_PI_2);
    assert_eq!(f64::from_bits(a.yw), -FRAC_PI_2);
    assert_eq!(f64::from_bits(a.zw), 100.0);
    let samples =
        [0.0, -0.0, 1.5, -1.5, FRAC_PI_2, -FRAC_PI_2, 1e300, f64::INFINITY, f64::NEG_INFINITY, f64::NAN];
    for x in samples {
        let mut b = Angle::new();
        b.yz = f(x);
        b.yw = f(-x);
        b.clamp();
        assert_eq!(b.yz, f(x.max(-FRAC_PI_2).min(FRAC_PI_2)), "{}", x);
        assert_eq!(b.yw, f((-x).max(-FRAC_PI_2).min(FRAC_PI_2)), "{}", -x);
    }
}

#[test]
fn a_new_manipulator_is_idle_with_unit_axes() {
    let m = MotionAxes::new();
    assert_eq!(coordinates(&m.x), (1.0, 0.0, 0.0, 0.0));
    assert_eq!(coordinates(&m.y), (0.0, 1.0, 0.0, 0.0));
    assert_eq!(coordinates(&m.z), (0.0, 0.0, 1.0, 0.0));
    assert_eq!(coordinates(&m.w), (0.0, 0.0, 0.0, 1.0));
    assert!(m.pos.is_none() && m.grab_start.is_none() && m.grab_now.is_none());
    assert!(!m.grabbed);
    assert!(!m.any_axe_selected());
    assert_eq!(m.selected_axe(), None);
}

#[test]
fn reference_axes_are_the_basis() {
    let a = Axes::new(f(100.0), f(500.0));
    assert_eq!(coordinates(&a.x), (1.0, 0.0, 0.0, 0.0));
    assert_eq!(coordinates(&a.y), (0.0, 1.0, 0.0, 0.0));
    assert_eq!(coordinates(&a.z), (0.0, 0.0, 1.0, 0.0));
    assert_eq!(coordinates(&a.w), (0.0, 0.0, 0.0, 1.0));
    assert_eq!(a.offset, (f(100.0), f(500.0)));
}

#[test]
fn grabbing_needs_a_selected_axis() {
    let mut m = placed();
    m.try_grab();
    assert!(!m.grabbed);
    assert!(m.grab_start.is_none());
    m.y.select();
    assert!(m.any_axe_selected());
    assert_eq!(m.selected_axe(), Some(1));
    m.try_grab();
    assert!(m.grabbed);
    assert_eq!(m.grab_start.map(|p| coordinates(&p)), Some((0.0, 0.0, 0.0, 0.0)));
    m.grab_now = Some(Vec4f::newf(f(1.0)));
    m.ungrab();
    assert!(!m.grabbed);
    assert!(m.grab_start.is_none() && m.grab_now.is_none());
    assert_eq!(selected(&m), [false, true, false, false]);
    assert!(m.pos.is_some());
}

#[test]
fn the_first_selected_axis_counts() {
    let mut m = MotionAxes::new();
    m.w.select();
    assert_eq!(m.selected_axe(), Some(3));
    m.z.select();
    assert_eq!(m.selected_axe(), Some(2));
    m.x.select();
    assert_eq!(m.selected_axe(), Some(0));
}

#[test]
fn the_pick_graph_is_a_star() {
    assert!(MotionAxes::new().pick_graph().is_none());
    let m = placed();
    let g = m.pick_graph().unwrap();
    assert_eq!(g.vertices.len(), 5);
    assert_eq!(g.vertices[0].get_proj(), Some((f(100.0), f(100.0))));
    assert_eq!(g.vertices[1].get_proj(), Some((f(150.0), f(100.0))));
    assert_eq!(coordinates(&g.vertices[4]), (0.0, 0.0, 0.0, 1.0));
    let ends: Vec<(usize, usize, bool)> = g.edges.iter().map(|e| (e.a, e.b, e.selected)).collect();
    assert_eq!(ends, vec![(0, 1, false), (0, 2, false), (0, 3, false), (0, 4, false)]);
}

#[test]
fn the_nearest_axis_is_selected() {
    let mut m = placed();
    assert_eq!(m.get_closest_axe(&vec![d(30.0), d(5.0), None, d(7.0)]), Some(1));
    assert_eq!(selected(&m), [false, true, false, false]);
    assert_eq!(m.get_closest_axe(&vec![d(3.0), d(5.0), None, d(3.0)]), Some(0));
    assert_eq!(selected(&m), [true, false, false, false]);
    assert_eq!(m.get_closest_axe(&vec![d(30.0), d(20.0), None, None]), None);
    assert_eq!(selected(&m), [false, false, false, false]);
}

#[test]
fn an_axis_without_a_projection_is_not_picked() {
    let mut m = MotionAxes::new();
    m.move_to(Some(Vec4f::new0().with_proj((f(100.0), f(100.0)))));
    m.y.set_proj((f(100.0), f(150.0)));
    assert_eq!(m.get_closest_axe(&vec![d(1.0), d(5.0), d(1.0), d(1.0)]), Some(1));
    let mut unprojected = MotionAxes::new();
    unprojected.move_to(Some(Vec4f::new0()));
    unprojected.x.set_proj((f(150.0), f(100.0)));
    unprojected.x.select();
    assert_eq!(unprojected.get_closest_axe(&vec![d(1.0), d(1.0), d(1.0), d(1.0)]), None);
    assert_eq!(selected(&unprojected), [false, false, false, false]);
}

#[test]
fn a_manipulator_without_a_place_keeps_its_selection() {
    let mut m = MotionAxes::new();
    m.z.select();
    assert_eq!(m.get_closest_axe(&vec![d(1.0), d(1.0), d(1.0), d(1.0)]), None);
    assert_eq!(selected(&m), [false, false, true, false]);
}

#[test]
fn the_motion_frame_needs_an_axis_and_two_projections() {
    let mut m = placed();
    assert!(m.motion_frame().is_none());
    m.w.select();
    let (axe, tip, centre) = m.motion_frame().unwrap();
    assert_eq!(coordinates(&axe), (0.0, 0.0, 0.0, 1.0));
    assert_eq!(tip, (f(100.0), f(50.0)));
    assert_eq!(centre, (f(100.0), f(100.0)));
    let mut no_centre = m;
    no_centre.move_to(Some(Vec4f::new0()));
    assert!(no_centre.motion_frame().is_none());
    no_centre.move_to(None);
    assert!(no_centre.motion_frame().is_none());
    let mut no_tip = MotionAxes::new();
    no_tip.move_to(Some(Vec4f::new0().with_proj((f(1.0), f(1.0)))));
    no_tip.x.select();
    assert!(no_tip.motion_frame().is_none());
}

#[test]
fn a_drag_is_followed_from_where_it_began() {
    let mut m = placed();
    assert!(m.grab_origin().is_none());
    m.drag_to(Vec4f::newf(f(9.0)));
    assert!(m.grab_now.is_none());
    m.x.select();
    m.try_grab();
    assert_eq!(m.grab_origin().map(|p| coordinates(&p)), Some((0.0, 0.0, 0.0, 0.0)));
    m.drag_to(Vec4f::newf(f(2.0)));
    assert_eq!(m.grab_origin().map(|p| coordinates(&p)), Some((2.0, 2.0, 2.0, 2.0)));
    m.drag_to(Vec4f::newf(f(3.0)));
    assert_eq!(m.grab_now.map(|p| coordinates(&p)), Some((3.0, 3.0, 3.0, 3.0)));
    assert_eq!(m.grab_start.map(|p| coordinates(&p)), Some((0.0, 0.0, 0.0, 0.0)));
}

#[test]
fn a_camera_looks_along_the_fourth_axis() {
    let camera = Camera::new(Vec4f::new(f(0.0), f(0.0), f(0.0), f(-5.0)));
    assert_eq!(coordinates(&camera.c), (0.0, 0.0, 0.0, -5.0));
    assert_eq!(coordinates(&camera.n), (0.0, 0.0, 0.0, 1.0));
    assert!(!camera.n.selected && camera.n.get_proj().is_none());
}

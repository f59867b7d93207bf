//! The pointer: what a click selects, what the buttons do, and which phase
//! of pressing, dragging and releasing the mouse is in.

use vstd::prelude::*;
use crate::axes::{star_edges, MotionAxes};
use crate::button::{Button, ButtonType};
use crate::events::{all_wf, same_mesh};
use crate::object::{all_marked, cells_marked, edge_ok, edges_marked, faces_marked, Object};
use crate::picking::{edge_distances, is_nearest};
use crate::scalar::{eq, same};
use crate::selection::{
    edges_after_deselect, edges_after_deselect_pair, edges_after_select, edges_after_select_pair,
    vertex_marked,
};
use crate::vector::Vec4f;

verus! {

/// Milliseconds within which a press and release count as a click.
pub const CLICK_TIMEOUT: u128 = 200;

/// Milliseconds between two steps of the cursor's transformation.
pub const CUR_TRANSFORM_TO: u128 = 20;

/// `after` is `before` once a click has hit its vertex at `index`. An
/// additive click toggles that vertex; a plain click leaves it the only
/// thing selected.
pub open spec fn vertex_clicked(before: Object, after: Object, index: int, additive: bool) -> bool {
    &&& after.faces@ == if additive {
        before.faces@
    } else {
        faces_marked(before.faces@, false)
    }
    &&& after.cells@ == if additive {
        before.cells@
    } else {
        cells_marked(before.cells@, false)
    }
    &&& after.name == before.name
    &&& if !additive {
        &&& after.vertices@ == vertex_marked(all_marked(before.vertices@, false), index, true)
        &&& after.edges@ == edges_marked(before.edges@, false)
    } else if before.vertices@[index].selected {
        &&& after.vertices@ == vertex_marked(before.vertices@, index, false)
        &&& after.edges@ == edges_after_deselect(before.edges@, index)
    } else {
        &&& after.vertices@ == vertex_marked(before.vertices@, index, true)
        &&& after.edges@ == edges_after_select(before.edges@, after.vertices@, index)
    }
}

/// `after` is `before` once a click has hit its edge at `index`. An additive
/// click toggles that edge with its ends; a plain click leaves the edge and
/// its ends the only things selected.
pub open spec fn edge_clicked(before: Object, after: Object, index: int, additive: bool) -> bool {
    let a = before.edges@[index].a as int;
    let b = before.edges@[index].b as int;
    &&& after.faces@ == if additive {
        before.faces@
    } else {
        faces_marked(before.faces@, false)
    }
    &&& after.cells@ == if additive {
        before.cells@
    } else {
        cells_marked(before.cells@, false)
    }
    &&& after.name == before.name
    &&& if !additive {
        &&& after.vertices@ == vertex_marked(
            vertex_marked(all_marked(before.vertices@, false), a, true),
            b,
            true,
        )
        &&& after.edges@ == edges_after_select_pair(
            edges_marked(before.edges@, false),
            after.vertices@,
            a,
            b,
        )
    } else if before.edges@[index].selected {
        &&& after.vertices@ == vertex_marked(vertex_marked(before.vertices@, a, false), b, false)
        &&& after.edges@ == edges_after_deselect_pair(before.edges@, a, b)
    } else {
        &&& after.vertices@ == vertex_marked(vertex_marked(before.vertices@, a, true), b, true)
        &&& after.edges@ == edges_after_select_pair(before.edges@, after.vertices@, a, b)
    }
}

/// Applies a click that has hit the vertex at `index` of the mesh.
pub fn click_vertex(obj: &mut Object, index: usize, additive: bool)
    requires
        old(obj).wf(),
        index < old(obj).vertices@.len(),
    ensures
        vertex_clicked(*old(obj), *final(obj), index as int, additive),
        final(obj).wf(),
{
    if additive {
        if obj.vertices[index].selected {
            obj.deselect_vertice(index);
        } else {
            obj.select_vertice(index);
        }
    } else {
        obj.clear_selection();
        obj.vertices[index].selected = true;
        assert forall|i: int| 0 <= i < obj.edges@.len() implies edge_ok(
            #[trigger] obj.edges@[i],
            obj.vertices@.len() as int,
        ) by {
            assert(edge_ok(old(obj).edges@[i], old(obj).vertices@.len() as int));
        }
    }
}

/// Applies a click that has hit the edge at `index` of the mesh.
pub fn click_edge(obj: &mut Object, index: usize, additive: bool)
    requires
        old(obj).wf(),
        index < old(obj).edges@.len(),
    ensures
        edge_clicked(*old(obj), *final(obj), index as int, additive),
        final(obj).wf(),
{
    if additive {
        if obj.edges[index].selected {
            obj.deselect_edge(index);
        } else {
            obj.select_edge(index);
        }
    } else {
        obj.clear_selection();
        assert forall|i: int| 0 <= i < obj.edges@.len() implies edge_ok(
            #[trigger] obj.edges@[i],
            obj.vertices@.len() as int,
        ) by {
            assert(edge_ok(old(obj).edges@[i], old(obj).vertices@.len() as int));
        }
        obj.select_edge(index);
    }
}

/// How many of the first `n` buttons are active.
pub open spec fn active_count(buttons: Seq<Button>, n: int) -> int
    decreases n,
{
    if n <= 0 {
        0
    } else {
        active_count(buttons, n - 1) + if buttons[n - 1].active() {
            1int
        } else {
            0int
        }
    }
}

/// How many buttons are active.
pub fn get_enabled_buttons_count(buttons: &Vec<Button>) -> (counter: i32)
    requires
        buttons@.len() <= i32::MAX,
    ensures
        counter == active_count(buttons@, buttons@.len() as int),
{
    let mut counter: i32 = 0;
    let n = buttons.len();
    for i in 0..n
        invariant
            n == buttons@.len() <= i32::MAX,
            counter == active_count(buttons@, i as int),
            0 <= counter <= i,
    {
        if buttons[i].is_active() {
            counter += 1;
        }
    }
    counter
}

/// Marks the button at `hover_i` as hovered and every other button as not.
pub fn update_buttons(buttons: &mut Vec<Button>, hover_i: usize)
    ensures
        final(buttons)@.len() == old(buttons)@.len(),
        forall|i: int|
            0 <= i < old(buttons)@.len() ==> #[trigger] final(buttons)@[i]
                == old(buttons)@[i].with_hover(i == hover_i),
{
    let n = buttons.len();
    for i in 0..n
        invariant
            n == buttons@.len() == old(buttons)@.len(),
            forall|j: int|
                0 <= j < i ==> #[trigger] buttons@[j] == old(buttons)@[j].with_hover(j == hover_i),
            forall|j: int| i <= j < n ==> buttons@[j] == old(buttons)@[j],
    {
        buttons[i].set_hover(i == hover_i);
    }
}

/// The first button that the pointer is over, and whether the cursor has to
/// take that button's shape: it has unless it is a rectangle already and the
/// button was hovered before. `inside[i]` says whether the pointer is over
/// the button at `i`.
pub fn catch_hover(inside: &Vec<bool>, buttons: &Vec<Button>, cursor_rect: bool) -> (r: Option<
    (usize, bool),
>)
    ensures
        match r {
            Some((i, reshape)) => {
                &&& i < inside@.len()
                &&& i < buttons@.len()
                &&& inside@[i as int]
                &&& forall|j: int| 0 <= j < i ==> !inside@[j]
                &&& reshape == (!cursor_rect || !buttons@[i as int].hovered())
            },
            None => forall|j: int| 0 <= j < inside@.len() && j < buttons@.len() ==> !inside@[j],
        },
{
    let n = if inside.len() < buttons.len() {
        inside.len()
    } else {
        buttons.len()
    };
    for i in 0..n
        invariant
            n <= inside@.len(),
            n <= buttons@.len(),
            n == inside@.len() || n == buttons@.len(),
            forall|j: int| 0 <= j < i ==> !inside@[j],
    {
        if inside[i] {
            return Some((i, !cursor_rect || !buttons[i].is_hover()));
        }
    }
    None
}

/// The buttons after a click with the pointer over the button at `hover_i`.
/// Only a check button reacts. A plain click leaves it the only active
/// button. An additive click toggles it while more than one button is
/// active, and otherwise leaves it active.
pub open spec fn buttons_clicked(buttons: Seq<Button>, hover_i: int, additive: bool) -> Seq<
    Button,
> {
    if !additive {
        Seq::new(buttons.len(), |i: int| buttons[i].with_active(i == hover_i))
    } else if active_count(buttons, buttons.len() as int) > 1 {
        buttons.update(hover_i, buttons[hover_i].with_active(!buttons[hover_i].active()))
    } else {
        buttons.update(hover_i, buttons[hover_i].with_active(true))
    }
}

/// Whether a click reaches a button: the pointer is over a check button.
pub open spec fn reaches_button(buttons: Seq<Button>, hover: bool, hover_i: int) -> bool {
    hover && 0 <= hover_i < buttons.len() && buttons[hover_i] is Check
}

/// Applies a click to the buttons.
pub fn click_button(buttons: &mut Vec<Button>, hover: bool, hover_i: usize, additive: bool)
    requires
        old(buttons)@.len() <= i32::MAX,
    ensures
        final(buttons)@ == if reaches_button(old(buttons)@, hover, hover_i as int) {
            buttons_clicked(old(buttons)@, hover_i as int, additive)
        } else {
            old(buttons)@
        },
{
    if hover && hover_i < buttons.len() && buttons[hover_i].is_check_button() {
        if additive {
            if get_enabled_buttons_count(buttons) > 1 {
                let h = buttons[hover_i].is_active();
                buttons[hover_i].set_active(!h);
            } else if !buttons[hover_i].is_active() {
                buttons[hover_i].set_active(true);
            } else {
                assert(buttons@ =~= buttons_clicked(old(buttons)@, hover_i as int, additive));
            }
        } else {
            let n = buttons.len();
            for i in 0..n
                invariant
                    n == buttons@.len() == old(buttons)@.len(),
                    forall|j: int|
                        0 <= j < i ==> #[trigger] buttons@[j] == old(buttons)@[j].with_active(false),
                    forall|j: int| i <= j < n ==> buttons@[j] == old(buttons)@[j],
            {
                buttons[i].set_active(false);
            }
            buttons[hover_i].set_active(true);
            assert(buttons@ =~= buttons_clicked(old(buttons)@, hover_i as int, additive));
        }
    }
}

/// Whether vertices are what a click selects: the first button is active.
pub open spec fn vertex_mode(buttons: Seq<Button>) -> bool {
    buttons[0].active()
}

/// Whether edges are what a click selects: the second button is active.
pub open spec fn edge_mode(buttons: Seq<Button>) -> bool {
    buttons[1].active()
}

/// Whether each hit names a vertex or edge of the mesh it belongs to.
pub open spec fn hits_in_range(
    objs: Seq<Object>,
    vertex_hits: Seq<Option<usize>>,
    edge_hits: Seq<Option<usize>>,
) -> bool {
    &&& vertex_hits.len() == objs.len()
    &&& edge_hits.len() == objs.len()
    &&& forall|k: int|
        0 <= k < objs.len() ==> (#[trigger] vertex_hits[k] matches Some(index) ==> index
            < objs[k].vertices@.len())
    &&& forall|k: int|
        0 <= k < objs.len() ==> (#[trigger] edge_hits[k] matches Some(index) ==> index
            < objs[k].edges@.len())
}

/// Whether a mesh before the one at `k` has taken the click: vertices are
/// what is selected, and a vertex of that mesh was hit.
pub open spec fn taken_before(vertex_hits: Seq<Option<usize>>, taking: bool, k: int) -> bool {
    taking && exists|j: int| 0 <= j < k && (#[trigger] vertex_hits[j]) is Some
}

/// `after` is what a click makes of the mesh at `k`. The first mesh with a
/// vertex hit takes the click, if vertices are what is selected, and the
/// meshes behind it stay as they are. A mesh that comes before it has its
/// hit edge clicked, if edges are what is selected.
pub open spec fn mesh_clicked(
    before: Object,
    after: Object,
    k: int,
    vertex_hits: Seq<Option<usize>>,
    edge_hits: Seq<Option<usize>>,
    vertices_on: bool,
    edges_on: bool,
    additive: bool,
) -> bool {
    if taken_before(vertex_hits, vertices_on, k) {
        same_mesh(before, after)
    } else if vertices_on && vertex_hits[k] is Some {
        vertex_clicked(before, after, vertex_hits[k]->Some_0 as int, additive)
    } else if edges_on && edge_hits[k] is Some {
        edge_clicked(before, after, edge_hits[k]->Some_0 as int, additive)
    } else {
        same_mesh(before, after)
    }
}

/// Applies a click: first to the buttons, then to the meshes. `vertex_hits[k]`
/// and `edge_hits[k]` are the vertex and the edge of the mesh at `k` that the
/// pointer hits, if any. The first two buttons say what a click selects; a
/// scene without a mesh asks for neither.
pub fn lmb_click_event(
    hover: bool,
    buttons: &mut Vec<Button>,
    hover_i: usize,
    objects: &mut Vec<Object>,
    vertex_hits: &Vec<Option<usize>>,
    edge_hits: &Vec<Option<usize>>,
    additive: bool,
)
    requires
        old(buttons)@.len() <= i32::MAX,
        old(objects)@.len() > 0 ==> 2 <= old(buttons)@.len(),
        all_wf(old(objects)@),
        hits_in_range(old(objects)@, vertex_hits@, edge_hits@),
    ensures
        final(buttons)@ == if reaches_button(old(buttons)@, hover, hover_i as int) {
            buttons_clicked(old(buttons)@, hover_i as int, additive)
        } else {
            old(buttons)@
        },
        final(objects)@.len() == old(objects)@.len(),
        forall|k: int|
            0 <= k < old(objects)@.len() ==> mesh_clicked(
                old(objects)@[k],
                #[trigger] final(objects)@[k],
                k,
                vertex_hits@,
                edge_hits@,
                vertex_mode(final(buttons)@),
                edge_mode(final(buttons)@),
                additive,
            ),
        all_wf(final(objects)@),
{
    click_button(buttons, hover, hover_i, additive);
    let n = objects.len();
    if n == 0 {
        return ;
    }
    let vertices_on = buttons[0].is_active();
    let edges_on = buttons[1].is_active();
    let mut taken = false;
    let mut i: usize = 0;
    while i < n && !taken
        invariant
            i <= n,
            n == objects@.len() == old(objects)@.len(),
            all_wf(old(objects)@),
            hits_in_range(old(objects)@, vertex_hits@, edge_hits@),
            taken == taken_before(vertex_hits@, vertices_on, i as int),
            forall|k: int|
                0 <= k < i ==> mesh_clicked(
                    old(objects)@[k],
                    #[trigger] objects@[k],
                    k,
                    vertex_hits@,
                    edge_hits@,
                    vertices_on,
                    edges_on,
                    additive,
                ),
            forall|k: int| 0 <= k < i ==> (#[trigger] objects@[k]).wf(),
            forall|k: int| i <= k < n ==> objects@[k] == old(objects)@[k],
        decreases n - i, if taken { 0int } else { 1int },
    {
        assert(old(objects)@[i as int].wf());
        let mut hit = false;
        if vertices_on {
            if let Some(index) = vertex_hits[i] {
                click_vertex(&mut objects[i], index, additive);
                hit = true;
            }
        }
        if !hit && edges_on {
            if let Some(index) = edge_hits[i] {
                click_edge(&mut objects[i], index, additive);
            }
        }
        assert(!taken_before(vertex_hits@, vertices_on, i as int));
        taken = hit;
        i += 1;
        assert(taken == taken_before(vertex_hits@, vertices_on, i as int)) by {
            if hit {
                assert(vertex_hits@[i - 1] is Some);
            }
        }
    }
    assert forall|k: int| 0 <= k < n implies mesh_clicked(
        old(objects)@[k],
        #[trigger] objects@[k],
        k,
        vertex_hits@,
        edge_hits@,
        vertices_on,
        edges_on,
        additive,
    ) by {
        if k >= i {
            assert(taken);
            let j = choose|j: int| 0 <= j < i && (#[trigger] vertex_hits@[j]) is Some;
            assert(taken_before(vertex_hits@, vertices_on, k));
        }
    }
    assert forall|k: int| 0 <= k < n implies (#[trigger] objects@[k]).wf() by {
        if k >= i {
            assert(old(objects)@[k].wf());
        }
    }
}

/// What the pointer was doing when it was last looked at.
#[derive(Debug, Copy, Clone)]
pub struct MouseState {
    pub is_lmb_down: bool,
    pub is_rmb_down: bool,
    pub pos: (u64, u64),
    pub scroll_delta: u64,
}

impl MouseState {
    /// A pointer at `pos` with no button down.
    pub fn new(pos: (u64, u64), scroll_delta: u64) -> (ms: MouseState)
        ensures
            ms == (MouseState { is_lmb_down: false, is_rmb_down: false, pos, scroll_delta }),
    {
        MouseState { is_lmb_down: false, is_rmb_down: false, pos, scroll_delta }
    }
}

/// What a look at the pointer's buttons calls for.
#[derive(Debug, Copy, Clone, PartialEq, Eq, Structural)]
pub enum MousePhase {
    /// The left button is down.
    LeftHeld,
    /// The left button came up soon enough after it went down: a click,
    /// followed by a release.
    LeftClick,
    /// The left button came up too late for a click: a release.
    LeftRelease,
    /// The right button is down: a drag.
    RightHeld,
    /// The right button came up.
    RightRelease,
    /// No button is down and none came up.
    Idle,
}

/// The phase that the buttons are in. `lmb` and `rmb` say which buttons are
/// down now, and `since_lmb_down` is the time in milliseconds since the left
/// button went down.
pub open spec fn phase_of(ms: MouseState, lmb: bool, rmb: bool, since_lmb_down: u128) -> MousePhase {
    if lmb {
        MousePhase::LeftHeld
    } else if ms.is_lmb_down {
        if since_lmb_down < CLICK_TIMEOUT {
            MousePhase::LeftClick
        } else {
            MousePhase::LeftRelease
        }
    } else if rmb {
        MousePhase::RightHeld
    } else if ms.is_rmb_down {
        MousePhase::RightRelease
    } else {
        MousePhase::Idle
    }
}

/// Whether two screen positions differ, as numbers.
pub open spec fn moved(from: (u64, u64), to: (u64, u64)) -> bool {
    !(same(from.0, to.0) && same(from.1, to.1))
}

/// Decides what the pointer's buttons call for, and whether the pointer has
/// moved from `xy_last`. A left button that came up is recorded as up.
pub fn catch_mouse_event(
    ms: &mut MouseState,
    lmb: bool,
    rmb: bool,
    since_lmb_down: u128,
    xy_last: (u64, u64),
) -> (r: (MousePhase, bool))
    ensures
        r.0 == phase_of(*old(ms), lmb, rmb, since_lmb_down),
        r.1 == moved(xy_last, old(ms).pos),
        *final(ms) == (MouseState {
            is_lmb_down: old(ms).is_lmb_down && lmb,
            ..*old(ms)
        }),
{
    let phase = if lmb {
        MousePhase::LeftHeld
    } else if ms.is_lmb_down {
        ms.is_lmb_down = false;
        if since_lmb_down < CLICK_TIMEOUT {
            MousePhase::LeftClick
        } else {
            MousePhase::LeftRelease
        }
    } else if rmb {
        MousePhase::RightHeld
    } else if ms.is_rmb_down {
        MousePhase::RightRelease
    } else {
        MousePhase::Idle
    };
    let still = eq(xy_last.0, ms.pos.0) && eq(xy_last.1, ms.pos.1);
    (phase, !still)
}

/// The button once the left button of the mouse is down: a click button
/// under the pointer is held.
pub open spec fn pressed(b: Button) -> Button {
    if b.hovered() && b is Click {
        b.with_active(true)
    } else {
        b
    }
}

/// The button once the left button of the mouse is up: a click button that
/// was held is released.
pub open spec fn released(b: Button) -> Button {
    if b.active() && b is Click {
        b.with_active(false)
    } else {
        b
    }
}

/// Records that the left button is down and holds every click button that
/// the pointer is over. Returns whether the button has just gone down.
pub fn lmb_down_event(is_lmb_down: &mut bool, buttons: &mut Vec<Button>) -> (started: bool)
    ensures
        started == !*old(is_lmb_down),
        *final(is_lmb_down),
        final(buttons)@.len() == old(buttons)@.len(),
        forall|i: int|
            0 <= i < old(buttons)@.len() ==> #[trigger] final(buttons)@[i] == pressed(
                old(buttons)@[i],
            ),
{
    let started = !*is_lmb_down;
    *is_lmb_down = true;
    let n = buttons.len();
    for i in 0..n
        invariant
            n == buttons@.len() == old(buttons)@.len(),
            forall|j: int|
                0 <= j < i ==> #[trigger] buttons@[j] == pressed(old(buttons)@[j]),
            forall|j: int| i <= j < n ==> buttons@[j] == old(buttons)@[j],
    {
        if buttons[i].is_hover() && buttons[i].is_click_button() {
            buttons[i].set_active(true);
        }
    }
    started
}

/// Whether releasing the button calls for work on a file.
pub open spec fn files(b: Button) -> bool {
    b.active() && b is Click && (b.kind() == ButtonType::Export || b.kind() == ButtonType::Import)
}

/// The kinds of the buttons whose release calls for work on a file, in
/// their order.
pub open spec fn released_commands(buttons: Seq<Button>) -> Seq<ButtonType>
    decreases buttons.len(),
{
    if buttons.len() == 0 {
        Seq::empty()
    } else if files(buttons.last()) {
        released_commands(buttons.drop_last()).push(buttons.last().kind())
    } else {
        released_commands(buttons.drop_last())
    }
}

/// Releases every click button that is held, and returns what is to be done
/// for those that stand for storing or loading a file.
pub fn lmb_up_event(buttons: &mut Vec<Button>) -> (commands: Vec<ButtonType>)
    ensures
        final(buttons)@.len() == old(buttons)@.len(),
        forall|i: int|
            0 <= i < old(buttons)@.len() ==> #[trigger] final(buttons)@[i] == released(
                old(buttons)@[i],
            ),
        commands@ == released_commands(old(buttons)@),
{
    let mut commands: Vec<ButtonType> = Vec::new();
    let n = buttons.len();
    for i in 0..n
        invariant
            n == buttons@.len() == old(buttons)@.len(),
            forall|j: int|
                0 <= j < i ==> #[trigger] buttons@[j] == released(old(buttons)@[j]),
            forall|j: int| i <= j < n ==> buttons@[j] == old(buttons)@[j],
            commands@ == released_commands(old(buttons)@.take(i as int)),
    {
        assert(old(buttons)@.take(i + 1).drop_last() == old(buttons)@.take(i as int));
        if buttons[i].is_active() && buttons[i].is_click_button() {
            buttons[i].set_active(false);
            match buttons[i].get_type() {
                ButtonType::Export => {
                    commands.push(ButtonType::Export);
                },
                ButtonType::Import => {
                    commands.push(ButtonType::Import);
                },
                _ => {},
            }
        }
    }
    assert(old(buttons)@.take(n as int) == old(buttons)@);
    commands
}

/// Records that the right button is down and, if it has just gone down,
/// tries to grab the manipulator. Returns whether it has just gone down.
pub fn rmb_down_event(is_rmb_down: &mut bool, motion_axes: &mut MotionAxes) -> (started: bool)
    ensures
        started == !*old(is_rmb_down),
        *final(is_rmb_down),
        *final(motion_axes) == if *old(is_rmb_down) || old(motion_axes).selected_axes() == 0 {
            *old(motion_axes)
        } else {
            MotionAxes { grab_start: old(motion_axes).pos, grabbed: true, ..*old(motion_axes) }
        },
        old(motion_axes).wf() ==> final(motion_axes).wf(),
{
    if !*is_rmb_down {
        *is_rmb_down = true;
        motion_axes.try_grab();
        true
    } else {
        false
    }
}

/// Records that the button is up, ends the drag and puts the manipulator at
/// `center`, the centre of the selection.
pub fn mouse_up_event(is_mb_down: &mut bool, motion_axes: &mut MotionAxes, center: Option<Vec4f>)
    ensures
        !*final(is_mb_down),
        *final(motion_axes) == (MotionAxes {
            pos: center,
            grab_start: None,
            grab_now: None,
            grabbed: false,
            ..*old(motion_axes)
        }),
        old(motion_axes).selected_axes() <= 1 ==> final(motion_axes).wf(),
{
    *is_mb_down = false;
    motion_axes.ungrab();
    motion_axes.pos = center;
    motion_axes.grab_start = None;
}

/// Lets the pointer pick an axis of the manipulator, unless it is grabbed.
pub fn mouse_move_event(distances: &Vec<Option<u64>>, motion_axes: &mut MotionAxes) -> (r: Option<
    usize,
>)
    ensures
        old(motion_axes).grabbed || old(motion_axes).pos is None ==> r is None
            && *final(motion_axes) == *old(motion_axes),
        !old(motion_axes).grabbed && old(motion_axes).pos is Some ==> is_nearest(
            edge_distances(
                distances@,
                star_edges(),
                old(motion_axes).graph_vertices(),
            ),
            r,
        ) && *final(motion_axes) == old(motion_axes).with_axe(
            match r {
                Some(index) => index as int,
                None => -1,
            },
        ),
        old(motion_axes).wf() ==> final(motion_axes).wf(),
{
    if !motion_axes.grabbed {
        motion_axes.get_closest_axe(distances)
    } else {
        None
    }
}

/// What a drag does.
#[derive(Debug, Copy, Clone, PartialEq, Eq, Structural)]
pub enum DragMode {
    /// Moves the selection along the grabbed axis.
    Translate,
    /// The manipulator is grabbed, but the right button is not down: nothing
    /// moves.
    Hold,
    /// Turns the planes yz and xz.
    RotateYzXz,
    /// Turns the planes yw and xw.
    RotateYwXw,
}

/// Decides what a drag does: it moves the selection while the manipulator is
/// grabbed, and otherwise turns the view, in the planes that the modifier
/// chooses.
pub fn drag_event(grabbed: bool, rmb: bool, modifier: bool) -> (mode: DragMode)
    ensures
        mode == if grabbed {
            if rmb {
                DragMode::Translate
            } else {
                DragMode::Hold
            }
        } else if modifier {
            DragMode::RotateYzXz
        } else {
            DragMode::RotateYwXw
        },
{
    if grabbed {
        if rmb {
            DragMode::Translate
        } else {
            DragMode::Hold
        }
    } else if modifier {
        DragMode::RotateYzXz
    } else {
        DragMode::RotateYwXw
    }
}

} // verus!

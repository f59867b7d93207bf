//! The commands that change the scene: extrude, delete, fill and copy, each
//! applied to every mesh, paste, which adds to the last mesh, and the keys
//! that ask for them.

use vstd::prelude::*;
use crate::axes::MotionAxes;
use crate::edge::Edge;
use crate::editing::{
    connectors, copied_edges, copied_vertices, edges_raised, edges_without_selected, is_selected,
    is_unselected,
};
use crate::object::{all_marked, cells_marked, edge_ok, edges_marked, faces_marked, Object};
use crate::selection::selected_indices;
use crate::vector::Vec4f;

verus! {

/// Every mesh of the scene is well formed.
pub open spec fn all_wf(objs: Seq<Object>) -> bool {
    forall|k: int| 0 <= k < objs.len() ==> (#[trigger] objs[k]).wf()
}

/// The two meshes hold the same vertices, edges, faces, cells and name.
pub open spec fn same_mesh(before: Object, after: Object) -> bool {
    &&& after.vertices@ == before.vertices@
    &&& after.edges@ == before.edges@
    &&& after.faces@ == before.faces@
    &&& after.cells@ == before.cells@
    &&& after.name == before.name
}

/// `after` is `before` extruded.
pub open spec fn extruded(before: Object, after: Object) -> bool {
    &&& after.vertices@ == all_marked(before.vertices@, false) + all_marked(
        copied_vertices(before.vertices@),
        true,
    )
    &&& after.edges@ == edges_marked(before.edges@, false) + edges_marked(
        edges_raised(
            copied_edges(before.edges@, before.vertices@),
            before.vertices@.len() as int,
        ),
        true,
    ) + connectors(before.vertices@, before.vertices@.len() as int)
    &&& after.faces@ == before.faces@
    &&& after.cells@ == before.cells@
    &&& after.name == before.name
}

/// Whether exactly two vertices of the mesh are selected.
pub open spec fn has_pair(obj: Object) -> bool {
    selected_indices(obj.vertices@).len() == 2
}

/// `after` is `before` with a selected edge added between its two selected
/// vertices.
pub open spec fn filled(before: Object, after: Object) -> bool {
    &&& after.vertices@ == before.vertices@
    &&& after.edges@ == before.edges@.push(
        Edge {
            a: selected_indices(before.vertices@)[0],
            b: selected_indices(before.vertices@)[1],
            selected: true,
        },
    )
    &&& after.faces@ == before.faces@
    &&& after.cells@ == before.cells@
    &&& after.name == before.name
}

/// `after` is `before` without its selected vertices.
pub open spec fn deleted(before: Object, after: Object) -> bool {
    &&& after.vertices@ == before.vertices@.filter(is_unselected())
    &&& after.edges@ == edges_without_selected(before.edges@, before.vertices@)
    &&& after.faces@ == before.faces@
    &&& after.cells@ == before.cells@
    &&& after.name == before.name
}

/// `after` is `before` with every selection flag cleared.
pub open spec fn cleared(before: Object, after: Object) -> bool {
    &&& after.vertices@ == all_marked(before.vertices@, false)
    &&& after.edges@ == edges_marked(before.edges@, false)
    &&& after.faces@ == faces_marked(before.faces@, false)
    &&& after.cells@ == cells_marked(before.cells@, false)
    &&& after.name == before.name
}

/// `after` is `before` with `source` pasted onto it: the vertices and edges
/// of `source` stand behind those of `before`, the ends of the new edges moved
/// behind the vertices that were there. What was added is selected, and
/// nothing else is.
pub open spec fn pasted_onto(before: Object, source: Object, after: Object) -> bool {
    &&& after.vertices@ == all_marked(before.vertices@, false) + all_marked(
        source.vertices@,
        true,
    )
    &&& after.edges@ == edges_marked(before.edges@, false) + edges_marked(
        edges_raised(source.edges@, before.vertices@.len() as int),
        true,
    )
    &&& after.faces@ == faces_marked(before.faces@, false)
    &&& after.cells@ == cells_marked(before.cells@, false)
    &&& after.name == before.name
}

/// `after` is a mesh that holds the vertices and edges of `source` and
/// nothing else, all of it selected.
pub open spec fn pasted_alone(source: Object, after: Object) -> bool {
    &&& after.vertices@ == all_marked(source.vertices@, true)
    &&& after.edges@ == edges_marked(source.edges@, true)
    &&& after.faces@.len() == 0
    &&& after.cells@.len() == 0
    &&& after.name is None
}

/// The position of the mesh that takes what is pasted: the last of the
/// scene.
pub open spec fn paste_target(objs: Seq<Object>) -> int {
    objs.len() - 1
}

/// The copies of the selections of all meshes, one after the other.
pub open spec fn clip_vertices(objs: Seq<Object>) -> Seq<Vec4f>
    decreases objs.len(),
{
    if objs.len() == 0 {
        Seq::empty()
    } else {
        clip_vertices(objs.drop_last()) + copied_vertices(objs.last().vertices@)
    }
}

/// The copied edges of all meshes, one mesh after the other, the ends of
/// each mesh's edges moved behind the copied vertices of the meshes before it.
pub open spec fn clip_edges(objs: Seq<Object>) -> Seq<Edge>
    decreases objs.len(),
{
    if objs.len() == 0 {
        Seq::empty()
    } else {
        clip_edges(objs.drop_last()) + edges_raised(
            copied_edges(objs.last().edges@, objs.last().vertices@),
            clip_vertices(objs.drop_last()).len() as int,
        )
    }
}

/// Extrudes the selection of every mesh.
pub fn extrude_event(objects: &mut Vec<Object>)
    requires
        all_wf(old(objects)@),
    ensures
        final(objects)@.len() == old(objects)@.len(),
        forall|k: int|
            0 <= k < old(objects)@.len() ==> extruded(old(objects)@[k], #[trigger] final(objects)@[k]),
        all_wf(final(objects)@),
{
    let n = objects.len();
    for i in 0..n
        invariant
            n == objects@.len() == old(objects)@.len(),
            forall|k: int| 0 <= k < i ==> extruded(old(objects)@[k], #[trigger] objects@[k]),
            forall|k: int| 0 <= k < i ==> (#[trigger] objects@[k]).wf(),
            forall|k: int| i <= k < n ==> objects@[k] == old(objects)@[k],
            all_wf(old(objects)@),
    {
        assert(old(objects)@[i as int].wf());
        objects[i].extrude();
    }
}

/// Joins the two selected vertices of each mesh, mesh by mesh, and stops at
/// the first mesh that has not exactly two selected vertices. Returns whether
/// it came to the end.
pub fn fill_event(objects: &mut Vec<Object>) -> (done: bool)
    ensures
        final(objects)@.len() == old(objects)@.len(),
        done == forall|j: int| 0 <= j < old(objects)@.len() ==> has_pair(#[trigger] old(objects)@[j]),
        forall|k: int|
            #![trigger final(objects)@[k]]
            0 <= k < old(objects)@.len() ==> if forall|j: int|
                0 <= j <= k ==> has_pair(#[trigger] old(objects)@[j]) {
                filled(old(objects)@[k], final(objects)@[k])
            } else {
                same_mesh(old(objects)@[k], final(objects)@[k])
            },
        all_wf(old(objects)@) ==> all_wf(final(objects)@),
{
    let n = objects.len();
    for i in 0..n
        invariant
            n == objects@.len() == old(objects)@.len(),
            forall|j: int| 0 <= j < i ==> has_pair(#[trigger] old(objects)@[j]),
            forall|k: int| 0 <= k < i ==> filled(old(objects)@[k], #[trigger] objects@[k]),
            forall|k: int| i <= k < n ==> objects@[k] == old(objects)@[k],
            all_wf(old(objects)@) ==> forall|k: int| 0 <= k < i ==> (#[trigger] objects@[k]).wf(),
    {
        let indices = objects[i].get_selected_vertices();
        if indices.len() != 2 {
            assert(!has_pair(old(objects)@[i as int]));
            assert(all_wf(old(objects)@) ==> all_wf(objects@)) by {
                if all_wf(old(objects)@) {
                    assert forall|k: int| 0 <= k < objects@.len() implies (
                    #[trigger] objects@[k]).wf() by {
                        if k >= i {
                            assert(old(objects)@[k].wf());
                        }
                    }
                }
            }
            return false;
        } else {
            proof {
                if all_wf(old(objects)@) {
                    assert(old(objects)@[i as int].wf());
                }
            }
            objects[i].fill();
        }
    }
    true
}

/// Deletes the selected vertices of every mesh and takes the manipulator
/// off the scene.
pub fn delete_event(objects: &mut Vec<Object>, motion_axes: &mut MotionAxes)
    requires
        all_wf(old(objects)@),
    ensures
        final(objects)@.len() == old(objects)@.len(),
        forall|k: int|
            0 <= k < old(objects)@.len() ==> deleted(old(objects)@[k], #[trigger] final(objects)@[k]),
        all_wf(final(objects)@),
        *final(motion_axes) == (MotionAxes { pos: None, ..*old(motion_axes) }),
{
    let n = objects.len();
    for i in 0..n
        invariant
            n == objects@.len() == old(objects)@.len(),
            forall|k: int| 0 <= k < i ==> deleted(old(objects)@[k], #[trigger] objects@[k]),
            forall|k: int| 0 <= k < i ==> (#[trigger] objects@[k]).wf(),
            forall|k: int| i <= k < n ==> objects@[k] == old(objects)@[k],
            all_wf(old(objects)@),
    {
        assert(old(objects)@[i as int].wf());
        objects[i].delete_selected();
    }
    motion_axes.move_to(None);
}

/// Replaces the clipboard by the copies of the selections of all meshes,
/// appended one after the other.
pub fn copy_event(objects: &Vec<Object>, clipboard: &mut Object)
    requires
        all_wf(objects@),
    ensures
        final(clipboard).vertices@ == clip_vertices(objects@),
        final(clipboard).edges@ == clip_edges(objects@),
        final(clipboard).faces@.len() == 0,
        final(clipboard).cells@.len() == 0,
        final(clipboard).name is None,
        final(clipboard).wf(),
{
    *clipboard = Object::empty();
    let n = objects.len();
    for i in 0..n
        invariant
            n == objects@.len(),
            all_wf(objects@),
            clipboard.vertices@ == clip_vertices(objects@.take(i as int)),
            clipboard.edges@ == clip_edges(objects@.take(i as int)),
            clipboard.faces@.len() == 0,
            clipboard.cells@.len() == 0,
            clipboard.name is None,
            clipboard.wf(),
    {
        assert(objects@.take(i + 1).drop_last() == objects@.take(i as int));
        assert(objects@[i as int].wf());
        let part = objects[i].copy();
        clipboard.add_assign(part);
    }
    assert(objects@.take(n as int) == objects@);
}

/// Pastes the clipboard onto the last mesh of the scene: its vertices and
/// edges are appended to that mesh and end selected, and everything that was
/// in the scene before ends deselected. An empty scene gets a mesh of its own
/// for them.
pub fn paste_event(objects: &mut Vec<Object>, clipboard: &Object)
    requires
        clipboard.wf(),
    ensures
        old(objects)@.len() == 0 ==> final(objects)@.len() == 1 && pasted_alone(
            *clipboard,
            final(objects)@[0],
        ),
        old(objects)@.len() > 0 ==> {
            let target = paste_target(old(objects)@);
            &&& final(objects)@.len() == old(objects)@.len()
            &&& forall|k: int|
                0 <= k < target ==> cleared(old(objects)@[k], #[trigger] final(objects)@[k])
            &&& pasted_onto(old(objects)@[target], *clipboard, final(objects)@[target])
            &&& final(objects)@[target].vertices@.len() == old(objects)@[target].vertices@.len()
                + clipboard.vertices@.len()
            &&& final(objects)@[target].edges@.len() == old(objects)@[target].edges@.len()
                + clipboard.edges@.len()
        },
        all_wf(old(objects)@) ==> all_wf(final(objects)@),
{
    let n = objects.len();
    if n == 0 {
        let mut target = Object::empty();
        target.paste(clipboard);
        assert(pasted_alone(*clipboard, target)) by {
            assert forall|i: int| 0 <= i < clipboard.edges@.len() implies edges_raised(
                clipboard.edges@,
                0,
            )[i] == clipboard.edges@[i] by {
                assert(edge_ok(clipboard.edges@[i], clipboard.vertices@.len() as int));
            }
            assert(edges_raised(clipboard.edges@, 0) =~= clipboard.edges@);
            assert(target.vertices@ =~= all_marked(clipboard.vertices@, true));
            assert(target.edges@ =~= edges_marked(clipboard.edges@, true));
        }
        objects.push(target);
        assert(objects@[0].wf());
    } else {
        let last = n - 1;
        for i in 0..last
            invariant
                last == n - 1,
                n == objects@.len() == old(objects)@.len(),
                forall|k: int| 0 <= k < i ==> cleared(old(objects)@[k], #[trigger] objects@[k]),
                forall|k: int| i <= k < n ==> objects@[k] == old(objects)@[k],
        {
            objects[i].clear_selection();
        }
        objects[last].paste(clipboard);
        assert(all_wf(old(objects)@) ==> all_wf(objects@)) by {
            if all_wf(old(objects)@) {
                assert forall|k: int| 0 <= k < objects@.len() implies (#[trigger] objects@[k]).wf() by {
                    let before = old(objects)@[k];
                    assert(before.wf());
                    if k < last {
                        assert forall|i: int| 0 <= i < objects@[k].edges@.len() implies edge_ok(
                            #[trigger] objects@[k].edges@[i],
                            objects@[k].vertices@.len() as int,
                        ) by {
                            assert(edge_ok(before.edges@[i], before.vertices@.len() as int));
                        }
                    }
                }
            }
        }
    }
}

/// The keys that commands are bound to, each pressed or not.
#[derive(Debug, Copy, Clone)]
pub struct Keys {
    pub e: bool,
    pub delete: bool,
    pub f: bool,
    pub left_control: bool,
    pub c: bool,
    pub v: bool,
}

/// What the keyboard asks for.
#[derive(Debug, Copy, Clone, PartialEq, Eq, Structural)]
pub enum Command {
    Extrude,
    Delete,
    Fill,
    Copy,
    Paste,
    Nothing,
}

/// The command that the keys ask for: the first of extrude, delete and fill
/// whose key is pressed, and otherwise copy or paste if the control key is
/// down with theirs.
pub open spec fn command_of(keys: Keys) -> Command {
    if keys.e {
        Command::Extrude
    } else if keys.delete {
        Command::Delete
    } else if keys.f {
        Command::Fill
    } else if keys.left_control && keys.c {
        Command::Copy
    } else if keys.left_control && keys.v {
        Command::Paste
    } else {
        Command::Nothing
    }
}

/// Carries out the command that the keys ask for. Returns the command, and
/// whether the manipulator is to be put at the centre of the selection
/// afterwards: it is after a fill that came to the end.
pub fn catch_keyboard_event(
    objects: &mut Vec<Object>,
    clipboard: &mut Object,
    motion_axes: &mut MotionAxes,
    keys: Keys,
) -> (r: (Command, bool))
    requires
        all_wf(old(objects)@),
        old(clipboard).wf(),
    ensures
        r.0 == command_of(keys),
        all_wf(final(objects)@),
        final(clipboard).wf(),
        match r.0 {
            Command::Extrude => {
                &&& final(objects)@.len() == old(objects)@.len()
                &&& forall|k: int|
                    0 <= k < old(objects)@.len() ==> extruded(
                        old(objects)@[k],
                        #[trigger] final(objects)@[k],
                    )
                &&& *final(clipboard) == *old(clipboard)
                &&& *final(motion_axes) == *old(motion_axes)
                &&& !r.1
            },
            Command::Delete => {
                &&& final(objects)@.len() == old(objects)@.len()
                &&& forall|k: int|
                    0 <= k < old(objects)@.len() ==> deleted(
                        old(objects)@[k],
                        #[trigger] final(objects)@[k],
                    )
                &&& *final(clipboard) == *old(clipboard)
                &&& *final(motion_axes) == (MotionAxes { pos: None, ..*old(motion_axes) })
                &&& !r.1
            },
            Command::Fill => {
                &&& final(objects)@.len() == old(objects)@.len()
                &&& r.1 == forall|j: int|
                    0 <= j < old(objects)@.len() ==> has_pair(#[trigger] old(objects)@[j])
                &&& forall|k: int|
                    #![trigger final(objects)@[k]]
                    0 <= k < old(objects)@.len() ==> if forall|j: int|
                        0 <= j <= k ==> has_pair(#[trigger] old(objects)@[j]) {
                        filled(old(objects)@[k], final(objects)@[k])
                    } else {
                        same_mesh(old(objects)@[k], final(objects)@[k])
                    }
                &&& *final(clipboard) == *old(clipboard)
                &&& *final(motion_axes) == *old(motion_axes)
            },
            Command::Copy => {
                &&& *final(objects) == *old(objects)
                &&& final(clipboard).vertices@ == clip_vertices(old(objects)@)
                &&& final(clipboard).edges@ == clip_edges(old(objects)@)
                &&& final(clipboard).faces@.len() == 0
                &&& final(clipboard).cells@.len() == 0
                &&& final(clipboard).name is None
                &&& *final(motion_axes) == *old(motion_axes)
                &&& !r.1
            },
            Command::Paste => {
                &&& old(objects)@.len() == 0 ==> final(objects)@.len() == 1 && pasted_alone(
                    *old(clipboard),
                    final(objects)@[0],
                )
                &&& old(objects)@.len() > 0 ==> {
                    let target = paste_target(old(objects)@);
                    &&& final(objects)@.len() == old(objects)@.len()
                    &&& forall|k: int|
                        0 <= k < target ==> cleared(
                            old(objects)@[k],
                            #[trigger] final(objects)@[k],
                        )
                    &&& pasted_onto(
                        old(objects)@[target],
                        *old(clipboard),
                        final(objects)@[target],
                    )
                }
                &&& *final(clipboard) == *old(clipboard)
                &&& *final(motion_axes) == *old(motion_axes)
                &&& !r.1
            },
            Command::Nothing => {
                &&& *final(objects) == *old(objects)
                &&& *final(clipboard) == *old(clipboard)
                &&& *final(motion_axes) == *old(motion_axes)
                &&& !r.1
            },
        },
{
    if keys.e {
        extrude_event(objects);
        (Command::Extrude, false)
    } else if keys.delete {
        delete_event(objects, motion_axes);
        (Command::Delete, false)
    } else if keys.f {
        let done = fill_event(objects);
        (Command::Fill, done)
    } else if keys.left_control && keys.c {
        copy_event(objects, clipboard);
        (Command::Copy, false)
    } else if keys.left_control && keys.v {
        paste_event(objects, clipboard);
        (Command::Paste, false)
    } else {
        (Command::Nothing, false)
    }
}

/// The selected vertices of all meshes, one mesh after the other.
pub open spec fn selected_points(objs: Seq<Object>) -> Seq<Vec4f>
    decreases objs.len(),
{
    if objs.len() == 0 {
        Seq::empty()
    } else {
        selected_points(objs.drop_last()) + objs.last().vertices@.filter(is_selected())
    }
}

/// The selected vertices of the scene, whose mean is the centre of the
/// selection. There are none exactly when nothing is selected, and the
/// manipulator then has no place.
pub fn get_selected_points(objects: &Vec<Object>) -> (points: Vec<Vec4f>)
    ensures
        points@ == selected_points(objects@),
{
    let mut points: Vec<Vec4f> = Vec::new();
    let n = objects.len();
    for k in 0..n
        invariant
            n == objects@.len(),
            points@ == selected_points(objects@.take(k as int)),
    {
        let obj = &objects[k];
        let ghost before = selected_points(objects@.take(k as int));
        assert(objects@.take(k + 1).drop_last() == objects@.take(k as int));
        let m = obj.vertices.len();
        for i in 0..m
            invariant
                m == obj.vertices@.len(),
                points@ == before + obj.vertices@.take(i as int).filter(is_selected()),
        {
            proof {
                let front = obj.vertices@.take(i as int);
                assert(obj.vertices@.take(i + 1) == front.push(obj.vertices@[i as int]));
                front.lemma_filter_push(obj.vertices@[i as int], is_selected());
            }
            if obj.vertices[i].selected {
                points.push(obj.vertices[i]);
            }
        }
        assert(obj.vertices@.take(m as int) == obj.vertices@);
    }
    assert(objects@.take(n as int) == objects@);
    points
}

} // verus!

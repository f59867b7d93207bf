//! Writing meshes in the persisted byte layout.
//!
//! A file is a sequence of eight-byte big-endian words: the magic number, the
//! numbers of vertices, edges, faces and cells, then the records. A vertex
//! record is four binary64 coordinates; an edge record is two vertex
//! positions; a face record is three vertex and three edge positions; a cell
//! record is four vertex, six edge and four face positions.

use vstd::prelude::*;
use crate::bytes::{be_bytes, to_be};
use crate::edge::Edge;
use crate::error::Error;
use crate::editing::{edges_raised, raised};
use crate::object::{edge_ok, Cell, Face, Object};
use crate::vector::Vec4f;

verus! {

/// The number that opens every file.
pub const MAGIC: u64 = 0x4d4d_4d4d;

/// One value of the layout.
#[derive(Debug, Clone, Copy)]
pub enum SData {
    Vector(Vec4f),
    Edge(usize, usize),
    Face((usize, usize, usize), (usize, usize, usize)),
    Cell(
        (usize, usize, usize, usize),
        (usize, usize, usize, usize, usize, usize),
        (usize, usize, usize, usize),
    ),
    Uint(u32),
    Ulong(u64),
    Float(u64),
}

/// The eight bytes of one word.
pub open spec fn be8(v: int) -> Seq<u8> {
    be_bytes(v as nat, 8)
}

fn push_word(out: &mut Vec<u8>, v: u64)
    ensures
        final(out)@ == old(out)@ + be8(v as int),
{
    let mut word = to_be(v, 8);
    out.append(&mut word);
}

impl SData {
    pub fn as_vector(&self) -> (r: Result<Vec4f, Error>)
        ensures
            r == match *self {
                SData::Vector(v) => Ok::<Vec4f, Error>(v),
                _ => Err(Error::Unknown),
            },
    {
        if let SData::Vector(v) = self {
            Ok(*v)
        } else {
            Err(Error::Unknown)
        }
    }

    /// The unselected edge between the two positions.
    pub fn as_edge(&self) -> (r: Result<Edge, Error>)
        ensures
            r == match *self {
                SData::Edge(a, b) => Ok::<Edge, Error>(Edge { a, b, selected: false }),
                _ => Err(Error::Unknown),
            },
    {
        if let SData::Edge(a, b) = self {
            Ok(Edge::new(*a, *b))
        } else {
            Err(Error::Unknown)
        }
    }

    /// The unselected face with the given positions.
    pub fn as_face(&self) -> (r: Result<Face, Error>)
        ensures
            r == match *self {
                SData::Face(v, e) => Ok::<Face, Error>((v, e, false)),
                _ => Err(Error::Unknown),
            },
    {
        if let SData::Face(v, e) = self {
            Ok((*v, *e, false))
        } else {
            Err(Error::Unknown)
        }
    }

    /// The unselected cell with the given positions.
    pub fn as_cell(&self) -> (r: Result<Cell, Error>)
        ensures
            r == match *self {
                SData::Cell(v, e, f) => Ok::<Cell, Error>((v, e, f, false)),
                _ => Err(Error::Unknown),
            },
    {
        if let SData::Cell(v, e, f) = self {
            Ok((*v, *e, *f, false))
        } else {
            Err(Error::Unknown)
        }
    }

    /// The bytes of the value: its words in order. A `Uint` takes four bytes,
    /// every other number eight.
    pub open spec fn encoded(self) -> Seq<u8> {
        match self {
            SData::Vector(v) => be8(v.x as int) + be8(v.y as int) + be8(v.z as int) + be8(v.w as int),
            SData::Edge(a, b) => be8(a as int) + be8(b as int),
            SData::Face(v, e) => be8(v.0 as int) + be8(v.1 as int) + be8(v.2 as int) + be8(
                e.0 as int,
            ) + be8(e.1 as int) + be8(e.2 as int),
            SData::Cell(v, e, f) => be8(v.0 as int) + be8(v.1 as int) + be8(v.2 as int) + be8(
                v.3 as int,
            ) + be8(e.0 as int) + be8(e.1 as int) + be8(e.2 as int) + be8(e.3 as int) + be8(
                e.4 as int,
            ) + be8(e.5 as int) + be8(f.0 as int) + be8(f.1 as int) + be8(f.2 as int) + be8(
                f.3 as int,
            ),
            SData::Uint(u) => be_bytes(u as nat, 4),
            SData::Ulong(u) => be8(u as int),
            SData::Float(x) => be8(x as int),
        }
    }

    pub fn serialize(&self) -> (res: Vec<u8>)
        ensures
            res@ == self.encoded(),
    {
        let mut res: Vec<u8> = Vec::new();
        match self {
            SData::Vector(v) => {
                push_word(&mut res, v.x);
                push_word(&mut res, v.y);
                push_word(&mut res, v.z);
                push_word(&mut res, v.w);
            },
            SData::Edge(a, b) => {
                push_word(&mut res, *a as u64);
                push_word(&mut res, *b as u64);
            },
            SData::Face(v, e) => {
                push_word(&mut res, v.0 as u64);
                push_word(&mut res, v.1 as u64);
                push_word(&mut res, v.2 as u64);
                push_word(&mut res, e.0 as u64);
                push_word(&mut res, e.1 as u64);
                push_word(&mut res, e.2 as u64);
            },
            SData::Cell(v, e, f) => {
                push_word(&mut res, v.0 as u64);
                push_word(&mut res, v.1 as u64);
                push_word(&mut res, v.2 as u64);
                push_word(&mut res, v.3 as u64);
                push_word(&mut res, e.0 as u64);
                push_word(&mut res, e.1 as u64);
                push_word(&mut res, e.2 as u64);
                push_word(&mut res, e.3 as u64);
                push_word(&mut res, e.4 as u64);
                push_word(&mut res, e.5 as u64);
                push_word(&mut res, f.0 as u64);
                push_word(&mut res, f.1 as u64);
                push_word(&mut res, f.2 as u64);
                push_word(&mut res, f.3 as u64);
            },
            SData::Uint(u) => {
                res = to_be(*u as u64, 4);
            },
            SData::Ulong(u) => {
                push_word(&mut res, *u);
            },
            SData::Float(x) => {
                push_word(&mut res, *x);
            },
        }
        res
    }
}

/// The vertices of all meshes, one mesh after the other.
pub open spec fn scene_vertices(objs: Seq<Object>) -> Seq<Vec4f>
    decreases objs.len(),
{
    if objs.len() == 0 {
        Seq::empty()
    } else {
        scene_vertices(objs.drop_last()) + objs.last().vertices@
    }
}

/// The edges of all meshes, one mesh after the other, the ends of each
/// mesh's edges moved behind the vertices of the meshes before it.
pub open spec fn scene_edges(objs: Seq<Object>) -> Seq<Edge>
    decreases objs.len(),
{
    if objs.len() == 0 {
        Seq::empty()
    } else {
        scene_edges(objs.drop_last()) + edges_raised(
            objs.last().edges@,
            scene_vertices(objs.drop_last()).len() as int,
        )
    }
}

/// The faces of all meshes, one mesh after the other, as they are.
pub open spec fn scene_faces(objs: Seq<Object>) -> Seq<Face>
    decreases objs.len(),
{
    if objs.len() == 0 {
        Seq::empty()
    } else {
        scene_faces(objs.drop_last()) + objs.last().faces@
    }
}

/// The cells of all meshes, one mesh after the other, as they are.
pub open spec fn scene_cells(objs: Seq<Object>) -> Seq<Cell>
    decreases objs.len(),
{
    if objs.len() == 0 {
        Seq::empty()
    } else {
        scene_cells(objs.drop_last()) + objs.last().cells@
    }
}

/// The value that a vertex is written as.
pub open spec fn vector_datum() -> spec_fn(Vec4f) -> SData {
    |v: Vec4f| SData::Vector(v)
}

/// The value that an edge is written as.
pub open spec fn edge_datum() -> spec_fn(Edge) -> SData {
    |e: Edge| SData::Edge(e.a, e.b)
}

/// The value that a face is written as.
pub open spec fn face_datum() -> spec_fn(Face) -> SData {
    |f: Face| SData::Face(f.0, f.1)
}

/// The value that a cell is written as.
pub open spec fn cell_datum() -> spec_fn(Cell) -> SData {
    |c: Cell| SData::Cell(c.0, c.1, c.2)
}

/// The bytes of the values, one after the other.
pub open spec fn records(items: Seq<SData>) -> Seq<u8>
    decreases items.len(),
{
    if items.len() == 0 {
        Seq::empty()
    } else {
        records(items.drop_last()) + items.last().encoded()
    }
}

/// The file that holds the given vertices, edges, faces and cells: the magic
/// number, the four counts, then the records of each kind.
pub open spec fn file_image(vs: Seq<Vec4f>, es: Seq<Edge>, fs: Seq<Face>, cs: Seq<Cell>) -> Seq<
    u8,
> {
    be8(MAGIC as int) + be8(vs.len() as int) + be8(es.len() as int) + be8(fs.len() as int) + be8(
        cs.len() as int,
    ) + records(vs.map_values(vector_datum())) + records(es.map_values(edge_datum())) + records(
        fs.map_values(face_datum()),
    ) + records(cs.map_values(cell_datum()))
}

fn write_records(data: &mut Vec<u8>, items: &Vec<SData>)
    ensures
        final(data)@ == old(data)@ + records(items@),
{
    let n = items.len();
    for i in 0..n
        invariant
            n == items@.len(),
            data@ == old(data)@ + records(items@.take(i as int)),
    {
        let mut bytes = items[i].serialize();
        data.append(&mut bytes);
        assert(items@.take(i + 1).drop_last() == items@.take(i as int));
    }
    assert(items@.take(n as int) == items@);
}

/// The file that holds all the meshes as one: their vertices, edges, faces
/// and cells, one mesh after the other, the ends of each mesh's edges moved
/// behind the vertices of the meshes before it.
pub fn save(objects: &Vec<Object>) -> (data: Vec<u8>)
    requires
        forall|k: int| 0 <= k < objects@.len() ==> (#[trigger] objects@[k]).wf(),
    ensures
        data@ == file_image(
            scene_vertices(objects@),
            scene_edges(objects@),
            scene_faces(objects@),
            scene_cells(objects@),
        ),
{
    let mut vertices: Vec<SData> = Vec::new();
    let mut edges: Vec<SData> = Vec::new();
    let mut faces: Vec<SData> = Vec::new();
    let mut cells: Vec<SData> = Vec::new();
    let count = objects.len();
    for k in 0..count
        invariant
            count == objects@.len(),
            forall|k: int| 0 <= k < objects@.len() ==> (#[trigger] objects@[k]).wf(),
            vertices@ == scene_vertices(objects@.take(k as int)).map_values(vector_datum()),
            edges@ == scene_edges(objects@.take(k as int)).map_values(edge_datum()),
            faces@ == scene_faces(objects@.take(k as int)).map_values(face_datum()),
            cells@ == scene_cells(objects@.take(k as int)).map_values(cell_datum()),
    {
        let obj = &objects[k];
        let ghost before = objects@.take(k as int);
        assert(objects@.take(k + 1).drop_last() == before);
        assert(obj.wf());
        let base = vertices.len();
        let nv = obj.vertices.len();
        for i in 0..nv
            invariant
                nv == obj.vertices@.len(),
                vertices@ == (scene_vertices(before) + obj.vertices@.take(i as int)).map_values(
                    vector_datum(),
                ),
        {
            vertices.push(SData::Vector(obj.vertices[i]));
            assert(obj.vertices@.take(i + 1) == obj.vertices@.take(i as int).push(
                obj.vertices@[i as int],
            ));
            assert(scene_vertices(before) + obj.vertices@.take(i + 1) == (scene_vertices(before)
                + obj.vertices@.take(i as int)).push(obj.vertices@[i as int]));
        }
        assert(obj.vertices@.take(nv as int) == obj.vertices@);
        let total = vertices.len();
        let ne = obj.edges.len();
        for i in 0..ne
            invariant
                ne == obj.edges@.len(),
                obj.wf(),
                base == scene_vertices(before).len(),
                total == base + obj.vertices@.len(),
                edges@ == (scene_edges(before) + edges_raised(
                    obj.edges@.take(i as int),
                    base as int,
                )).map_values(edge_datum()),
        {
            assert(edge_ok(obj.edges@[i as int], obj.vertices@.len() as int));
            edges.push(SData::Edge(obj.edges[i].a + base, obj.edges[i].b + base));
            assert(obj.edges@.take(i + 1) == obj.edges@.take(i as int).push(obj.edges@[i as int]));
            assert(scene_edges(before) + edges_raised(obj.edges@.take(i + 1), base as int) == (
            scene_edges(before) + edges_raised(obj.edges@.take(i as int), base as int)).push(
                raised(obj.edges@[i as int], base as int),
            ));
        }
        assert(obj.edges@.take(ne as int) == obj.edges@);
        let nf = obj.faces.len();
        for i in 0..nf
            invariant
                nf == obj.faces@.len(),
                faces@ == (scene_faces(before) + obj.faces@.take(i as int)).map_values(
                    face_datum(),
                ),
        {
            let f = &obj.faces[i];
            faces.push(SData::Face(f.0, f.1));
            assert(obj.faces@.take(i + 1) == obj.faces@.take(i as int).push(obj.faces@[i as int]));
            assert(scene_faces(before) + obj.faces@.take(i + 1) == (scene_faces(before)
                + obj.faces@.take(i as int)).push(obj.faces@[i as int]));
        }
        assert(obj.faces@.take(nf as int) == obj.faces@);
        let nc = obj.cells.len();
        for i in 0..nc
            invariant
                nc == obj.cells@.len(),
                cells@ == (scene_cells(before) + obj.cells@.take(i as int)).map_values(
                    cell_datum(),
                ),
        {
            let c = &obj.cells[i];
            cells.push(SData::Cell(c.0, c.1, c.2));
            assert(obj.cells@.take(i + 1) == obj.cells@.take(i as int).push(obj.cells@[i as int]));
            assert(scene_cells(before) + obj.cells@.take(i + 1) == (scene_cells(before)
                + obj.cells@.take(i as int)).push(obj.cells@[i as int]));
        }
        assert(obj.cells@.take(nc as int) == obj.cells@);
    }
    assert(objects@.take(count as int) == objects@);
    let mut data: Vec<u8> = Vec::new();
    push_word(&mut data, MAGIC);
    push_word(&mut data, vertices.len() as u64);
    push_word(&mut data, edges.len() as u64);
    push_word(&mut data, faces.len() as u64);
    push_word(&mut data, cells.len() as u64);
    write_records(&mut data, &vertices);
    write_records(&mut data, &edges);
    write_records(&mut data, &faces);
    write_records(&mut data, &cells);
    data
}

} // verus!

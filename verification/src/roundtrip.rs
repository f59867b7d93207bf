//! A stored mesh reads back as it was written.

use vstd::prelude::*;
use crate::bytes::{be_bytes, lemma_be_value_of_bytes, lemma_fits, word};
use crate::edge::Edge;
use crate::error::Error;
use crate::import::{
    cell_of, cells_start, count_at, edge_of, edge_record_ok, edge_records_ok, edges_start,
    face_of, faces_start, file_cells, file_edges, file_faces, file_ok, file_vertices, fits,
    record, records_end, records_fit, vertex_of, DData,
};
use crate::object::{cells_marked, edge_ok, edges_marked, faces_marked, Cell, Face, Object};
use crate::save::{
    be8, cell_datum, edge_datum, face_datum, file_image, records, scene_cells, scene_edges,
    scene_faces, scene_vertices, vector_datum, SData, MAGIC,
};
use crate::vector::Vec4f;

verus! {

/// The bytes of the numbers, eight for each, one after the other.
pub open spec fn words(vals: Seq<int>) -> Seq<u8>
    decreases vals.len(),
{
    if vals.len() == 0 {
        Seq::empty()
    } else {
        words(vals.drop_last()) + be8(vals.last())
    }
}

proof fn lemma_be_len(v: nat, n: nat)
    ensures
        be_bytes(v, n).len() == n,
    decreases n,
{
    if n > 0 {
        lemma_be_len(v / 256, (n - 1) as nat);
    }
}

proof fn lemma_words_len(vals: Seq<int>)
    ensures
        words(vals).len() == 8 * vals.len(),
    decreases vals.len(),
{
    if vals.len() > 0 {
        lemma_words_len(vals.drop_last());
        lemma_be_len(vals.last() as nat, 8);
    }
}

/// The `k`-th word of the bytes of some numbers is the `k`-th number.
proof fn lemma_word_of_words(vals: Seq<int>, k: int)
    requires
        0 <= k < vals.len(),
        0 <= vals[k] <= u64::MAX,
    ensures
        word(words(vals), k) == vals[k],
    decreases vals.len(),
{
    let front = vals.drop_last();
    lemma_words_len(front);
    lemma_be_len(vals.last() as nat, 8);
    if k < vals.len() - 1 {
        lemma_word_of_words(front, k);
        assert(words(vals).subrange(8 * k, 8 * k + 8) == words(front).subrange(8 * k, 8 * k + 8));
    } else {
        assert(words(vals).subrange(8 * k, 8 * k + 8) == be8(vals.last()));
        lemma_fits(vals[k] as u64, 0);
        lemma_be_value_of_bytes(vals[k] as nat, 8);
    }
}

impl SData {
    /// The numbers that the value is written as, in order.
    pub open spec fn values(self) -> Seq<int> {
        match self {
            SData::Vector(v) => seq![v.x as int, v.y as int, v.z as int, v.w as int],
            SData::Edge(a, b) => seq![a as int, b as int],
            SData::Face(v, e) => seq![
                v.0 as int,
                v.1 as int,
                v.2 as int,
                e.0 as int,
                e.1 as int,
                e.2 as int,
            ],
            SData::Cell(v, e, f) => seq![
                v.0 as int,
                v.1 as int,
                v.2 as int,
                v.3 as int,
                e.0 as int,
                e.1 as int,
                e.2 as int,
                e.3 as int,
                e.4 as int,
                e.5 as int,
                f.0 as int,
                f.1 as int,
                f.2 as int,
                f.3 as int,
            ],
            SData::Uint(u) => seq![u as int],
            SData::Ulong(u) => seq![u as int],
            SData::Float(x) => seq![x as int],
        }
    }
}

proof fn lemma_words_of(s: Seq<int>, n: nat)
    requires
        s.len() == n,
        n <= 14,
    ensures
        n >= 1 ==> words(s.take(1)) == be8(s[0]),
        forall|k: int| 1 <= k < n ==> words(s.take(k + 1)) == words(s.take(k)) + be8(s[k]),
{
    if n >= 1 {
        assert(s.take(1).drop_last() == Seq::<int>::empty());
        assert(words(Seq::<int>::empty()) == Seq::<u8>::empty());
        assert(words(s.take(1)) == Seq::<u8>::empty() + be8(s[0]));
        assert(Seq::<u8>::empty() + be8(s[0]) == be8(s[0]));
    }
    assert forall|k: int| 1 <= k < n implies words(s.take(k + 1)) == words(s.take(k)) + be8(
        s[k],
    ) by {
        assert(s.take(k + 1).drop_last() == s.take(k));
    }
}

/// A value other than a `Uint` is written as the bytes of its numbers.
pub proof fn lemma_encoded_is_words(d: SData)
    requires
        !(d is Uint),
    ensures
        d.encoded() == words(d.values()),
        d.encoded().len() == 8 * d.values().len(),
{
    let s = d.values();
    lemma_words_of(s, s.len());
    lemma_words_len(s);
    assert(s.take(s.len() as int) == s);
    match d {
        SData::Cell(v, e, f) => {
            assert(words(s.take(2)) == words(s.take(1)) + be8(s[1]));
            assert(words(s.take(3)) == words(s.take(2)) + be8(s[2]));
            assert(words(s.take(4)) == words(s.take(3)) + be8(s[3]));
            assert(words(s.take(5)) == words(s.take(4)) + be8(s[4]));
            assert(words(s.take(6)) == words(s.take(5)) + be8(s[5]));
            assert(words(s.take(7)) == words(s.take(6)) + be8(s[6]));
            assert(words(s.take(8)) == words(s.take(7)) + be8(s[7]));
            assert(words(s.take(9)) == words(s.take(8)) + be8(s[8]));
            assert(words(s.take(10)) == words(s.take(9)) + be8(s[9]));
            assert(words(s.take(11)) == words(s.take(10)) + be8(s[10]));
            assert(words(s.take(12)) == words(s.take(11)) + be8(s[11]));
            assert(words(s.take(13)) == words(s.take(12)) + be8(s[12]));
            assert(words(s.take(14)) == words(s.take(13)) + be8(s[13]));
        },
        SData::Face(v, e) => {
            assert(words(s.take(2)) == words(s.take(1)) + be8(s[1]));
            assert(words(s.take(3)) == words(s.take(2)) + be8(s[2]));
            assert(words(s.take(4)) == words(s.take(3)) + be8(s[3]));
            assert(words(s.take(5)) == words(s.take(4)) + be8(s[4]));
            assert(words(s.take(6)) == words(s.take(5)) + be8(s[5]));
        },
        SData::Vector(v) => {
            assert(words(s.take(2)) == words(s.take(1)) + be8(s[1]));
            assert(words(s.take(3)) == words(s.take(2)) + be8(s[2]));
            assert(words(s.take(4)) == words(s.take(3)) + be8(s[3]));
        },
        SData::Edge(a, b) => {
            assert(words(s.take(2)) == words(s.take(1)) + be8(s[1]));
        },
        _ => {},
    }
}

/// Where each value stands among the bytes of values of one width.
proof fn lemma_records(items: Seq<SData>, w: int, i: int)
    requires
        0 <= i < items.len(),
        0 <= w,
        forall|j: int| 0 <= j < items.len() ==> (#[trigger] items[j]).encoded().len() == w,
    ensures
        records(items).len() == w * items.len(),
        0 <= w * i,
        w * i + w <= w * items.len(),
        records(items).subrange(w * i, w * i + w) == items[i].encoded(),
    decreases items.len(),
{
    let n = items.len() as int;
    let front = items.drop_last();
    assert(w * (n - 1) + w == w * n) by (nonlinear_arith);
    assert(0 <= w * i && w * i + w <= w * n) by (nonlinear_arith)
        requires
            0 <= i < n,
            0 <= w,
    ;
    lemma_records_len(front, w);
    if i < n - 1 {
        lemma_records(front, w, i);
        assert(records(items).subrange(w * i, w * i + w) == records(front).subrange(
            w * i,
            w * i + w,
        ));
    } else {
        assert(records(items).subrange(w * i, w * i + w) == items[i].encoded());
    }
}

proof fn lemma_records_len(items: Seq<SData>, w: int)
    requires
        0 <= w,
        forall|j: int| 0 <= j < items.len() ==> (#[trigger] items[j]).encoded().len() == w,
    ensures
        records(items).len() == w * items.len(),
    decreases items.len(),
{
    let n = items.len() as int;
    if n > 0 {
        lemma_records_len(items.drop_last(), w);
        assert(w * (n - 1) + w == w * n) by (nonlinear_arith);
    } else {
        assert(w * 0 == 0);
    }
}

/// The values of one kind that a mesh is written as all take `w` bytes.
proof fn lemma_widths(vs: Seq<Vec4f>, es: Seq<Edge>, fs: Seq<Face>, cs: Seq<Cell>)
    ensures
        forall|j: int|
            0 <= j < vs.len() ==> (#[trigger] vs.map_values(vector_datum())[j]).encoded().len() == 32,
        forall|j: int|
            0 <= j < es.len() ==> (#[trigger] es.map_values(edge_datum())[j]).encoded().len() == 16,
        forall|j: int|
            0 <= j < fs.len() ==> (#[trigger] fs.map_values(face_datum())[j]).encoded().len() == 48,
        forall|j: int|
            0 <= j < cs.len() ==> (#[trigger] cs.map_values(cell_datum())[j]).encoded().len()
                == 112,
{
    assert forall|j: int| 0 <= j < vs.len() implies (#[trigger] vs.map_values(
        vector_datum(),
    )[j]).encoded().len() == 32 by {
        lemma_encoded_is_words(SData::Vector(vs[j]));
    }
    assert forall|j: int| 0 <= j < es.len() implies (#[trigger] es.map_values(
        edge_datum(),
    )[j]).encoded().len() == 16 by {
        lemma_encoded_is_words(SData::Edge(es[j].a, es[j].b));
    }
    assert forall|j: int| 0 <= j < fs.len() implies (#[trigger] fs.map_values(
        face_datum(),
    )[j]).encoded().len() == 48 by {
        lemma_encoded_is_words(SData::Face(fs[j].0, fs[j].1));
    }
    assert forall|j: int| 0 <= j < cs.len() implies (#[trigger] cs.map_values(
        cell_datum(),
    )[j]).encoded().len() == 112 by {
        lemma_encoded_is_words(SData::Cell(cs[j].0, cs[j].1, cs[j].2));
    }
}

/// The parts of a file image: what its header says and where its records
/// stand.
#[verifier::rlimit(50)]
proof fn lemma_image_layout(vs: Seq<Vec4f>, es: Seq<Edge>, fs: Seq<Face>, cs: Seq<Cell>)
    requires
        vs.len() <= u64::MAX,
        es.len() <= u64::MAX,
        fs.len() <= u64::MAX,
        cs.len() <= u64::MAX,
    ensures
        ({
            let b = file_image(vs, es, fs, cs);
            &&& b.take(8) == be8(MAGIC as int)
            &&& count_at(b, 0) == vs.len()
            &&& count_at(b, 1) == es.len()
            &&& count_at(b, 2) == fs.len()
            &&& count_at(b, 3) == cs.len()
            &&& b.len() == records_end(b)
            &&& b.subrange(40, edges_start(b)) == records(vs.map_values(vector_datum()))
            &&& b.subrange(edges_start(b), faces_start(b)) == records(es.map_values(edge_datum()))
            &&& b.subrange(faces_start(b), cells_start(b)) == records(fs.map_values(face_datum()))
            &&& b.subrange(cells_start(b), records_end(b)) == records(cs.map_values(cell_datum()))
        }),
{
    let b = file_image(vs, es, fs, cs);
    let rv = records(vs.map_values(vector_datum()));
    let re = records(es.map_values(edge_datum()));
    let rf = records(fs.map_values(face_datum()));
    let rc = records(cs.map_values(cell_datum()));
    lemma_widths(vs, es, fs, cs);
    lemma_records_len(vs.map_values(vector_datum()), 32);
    lemma_records_len(es.map_values(edge_datum()), 16);
    lemma_records_len(fs.map_values(face_datum()), 48);
    lemma_records_len(cs.map_values(cell_datum()), 112);
    lemma_be_len(MAGIC as nat, 8);
    lemma_be_len(vs.len(), 8);
    lemma_be_len(es.len(), 8);
    lemma_be_len(fs.len(), 8);
    lemma_be_len(cs.len(), 8);
    lemma_fits(vs.len() as u64, 0);
    lemma_fits(es.len() as u64, 0);
    lemma_fits(fs.len() as u64, 0);
    lemma_fits(cs.len() as u64, 0);
    lemma_be_value_of_bytes(vs.len(), 8);
    lemma_be_value_of_bytes(es.len(), 8);
    lemma_be_value_of_bytes(fs.len(), 8);
    lemma_be_value_of_bytes(cs.len(), 8);
    assert(b.take(8) == be8(MAGIC as int));
    assert(b.subrange(8, 16) == be8(vs.len() as int));
    assert(b.subrange(16, 24) == be8(es.len() as int));
    assert(b.subrange(24, 32) == be8(fs.len() as int));
    assert(b.subrange(32, 40) == be8(cs.len() as int));
    assert(count_at(b, 0) == vs.len());
    assert(count_at(b, 1) == es.len());
    assert(count_at(b, 2) == fs.len());
    assert(count_at(b, 3) == cs.len());
    assert(b.subrange(40, edges_start(b)) == rv);
    assert(b.subrange(edges_start(b), faces_start(b)) == re);
    assert(b.subrange(faces_start(b), cells_start(b)) == rf);
    assert(b.subrange(cells_start(b), records_end(b)) == rc);
}

/// A record of a part of a file is a record of the file.
proof fn lemma_record_in_part(b: Seq<u8>, from: int, to: int, w: int, n: int, i: int)
    requires
        0 <= from <= to <= b.len(),
        to - from == w * n,
        0 <= i < n,
        0 < w,
    ensures
        record(b, from, w, i) == b.subrange(from, to).subrange(w * i, w * i + w),
{
    assert(0 <= w * i && w * i + w <= w * n) by (nonlinear_arith)
        requires
            0 <= i < n,
            0 < w,
    ;
    assert(record(b, from, w, i) =~= b.subrange(from, to).subrange(w * i, w * i + w));
}

/// The vertex as it is read back: its coordinates, unprojected and
/// unselected.
pub open spec fn stripped() -> spec_fn(Vec4f) -> Vec4f {
    |v: Vec4f| Vec4f::at(v.x, v.y, v.z, v.w)
}

#[verifier::rlimit(50)]
proof fn lemma_vertices_back(vs: Seq<Vec4f>, es: Seq<Edge>, fs: Seq<Face>, cs: Seq<Cell>)
    requires
        vs.len() <= u64::MAX,
        es.len() <= u64::MAX,
        fs.len() <= u64::MAX,
        cs.len() <= u64::MAX,
    ensures
        file_vertices(file_image(vs, es, fs, cs)) == vs.map_values(stripped()),
{
    let b = file_image(vs, es, fs, cs);
    lemma_image_layout(vs, es, fs, cs);
    lemma_widths(vs, es, fs, cs);
    let dv = vs.map_values(vector_datum());
    lemma_records_len(dv, 32);
    assert forall|i: int| 0 <= i < vs.len() implies vertex_of(#[trigger] record(b, 40, 32, i))
        == stripped()(vs[i]) by {
        lemma_record_in_part(b, 40, edges_start(b), 32, vs.len() as int, i);
        lemma_records(dv, 32, i);
        lemma_vertex_back(vs[i]);
    }
    assert(file_vertices(b) =~= vs.map_values(stripped()));
}

#[verifier::rlimit(50)]
proof fn lemma_edges_back(vs: Seq<Vec4f>, es: Seq<Edge>, fs: Seq<Face>, cs: Seq<Cell>)
    requires
        vs.len() <= u64::MAX,
        es.len() <= u64::MAX,
        fs.len() <= u64::MAX,
        cs.len() <= u64::MAX,
        forall|i: int| 0 <= i < es.len() ==> edge_ok(#[trigger] es[i], vs.len() as int),
    ensures
        file_edges(file_image(vs, es, fs, cs)) == edges_marked(es, false),
        edge_records_ok(
            file_image(vs, es, fs, cs),
            edges_start(file_image(vs, es, fs, cs)),
            es.len() as int,
            vs.len() as int,
        ),
{
    let b = file_image(vs, es, fs, cs);
    lemma_image_layout(vs, es, fs, cs);
    lemma_widths(vs, es, fs, cs);
    let de = es.map_values(edge_datum());
    lemma_records_len(de, 16);
    assert forall|i: int| 0 <= i < es.len() implies edge_of(
        #[trigger] record(b, edges_start(b), 16, i),
    ) == (Edge { selected: false, ..es[i] }) && edge_record_ok(
        record(b, edges_start(b), 16, i),
        vs.len() as int,
    ) by {
        lemma_record_in_part(b, edges_start(b), faces_start(b), 16, es.len() as int, i);
        lemma_records(de, 16, i);
        lemma_edge_back(es[i]);
        assert(edge_ok(es[i], vs.len() as int));
    }
    assert(file_edges(b) =~= edges_marked(es, false));
}

/// A written face reads back as the face, unselected.
proof fn lemma_face_back(f: Face)
    ensures
        face_of(SData::Face(f.0, f.1).encoded()) == (f.0, f.1, false),
        fits(SData::Face(f.0, f.1).encoded(), 6),
{
    let d = SData::Face(f.0, f.1);
    let p = d.encoded();
    lemma_encoded_is_words(d);
    assert forall|k: int| 0 <= k < 6 implies #[trigger] word(p, k) == d.values()[k] by {
        lemma_word_of_words(d.values(), k);
    }
    assert(word(p, 0) == f.0.0 && word(p, 1) == f.0.1 && word(p, 2) == f.0.2);
    assert(word(p, 3) == f.1.0 && word(p, 4) == f.1.1 && word(p, 5) == f.1.2);
}

/// A written vertex reads back as its coordinates.
proof fn lemma_vertex_back(v: Vec4f)
    ensures
        vertex_of(SData::Vector(v).encoded()) == Vec4f::at(v.x, v.y, v.z, v.w),
{
    let d = SData::Vector(v);
    lemma_encoded_is_words(d);
    lemma_word_of_words(d.values(), 0);
    lemma_word_of_words(d.values(), 1);
    lemma_word_of_words(d.values(), 2);
    lemma_word_of_words(d.values(), 3);
}

/// A written edge reads back as its ends.
proof fn lemma_edge_back(e: Edge)
    ensures
        edge_of(SData::Edge(e.a, e.b).encoded()) == (Edge { selected: false, ..e }),
        word(SData::Edge(e.a, e.b).encoded(), 0) == e.a,
        word(SData::Edge(e.a, e.b).encoded(), 1) == e.b,
{
    let d = SData::Edge(e.a, e.b);
    lemma_encoded_is_words(d);
    lemma_word_of_words(d.values(), 0);
    lemma_word_of_words(d.values(), 1);
}

#[verifier::rlimit(50)]
proof fn lemma_faces_back(vs: Seq<Vec4f>, es: Seq<Edge>, fs: Seq<Face>, cs: Seq<Cell>)
    requires
        vs.len() <= u64::MAX,
        es.len() <= u64::MAX,
        fs.len() <= u64::MAX,
        cs.len() <= u64::MAX,
    ensures
        file_faces(file_image(vs, es, fs, cs)) == faces_marked(fs, false),
        records_fit(
            file_image(vs, es, fs, cs),
            faces_start(file_image(vs, es, fs, cs)),
            48,
            fs.len() as int,
            6,
        ),
{
    let b = file_image(vs, es, fs, cs);
    lemma_image_layout(vs, es, fs, cs);
    lemma_widths(vs, es, fs, cs);
    let df = fs.map_values(face_datum());
    lemma_records_len(df, 48);
    assert forall|i: int| 0 <= i < fs.len() implies face_of(
        #[trigger] record(b, faces_start(b), 48, i),
    ) == (fs[i].0, fs[i].1, false) && fits(record(b, faces_start(b), 48, i), 6) by {
        lemma_record_in_part(b, faces_start(b), cells_start(b), 48, fs.len() as int, i);
        lemma_records(df, 48, i);
        lemma_face_back(fs[i]);
    }
    assert(file_faces(b) =~= faces_marked(fs, false));
}

/// The words of a written cell are its positions.
proof fn lemma_cell_words(c: Cell)
    ensures
        forall|k: int|
            0 <= k < 14 ==> #[trigger] word(SData::Cell(c.0, c.1, c.2).encoded(), k)
                == SData::Cell(c.0, c.1, c.2).values()[k],
{
    let d = SData::Cell(c.0, c.1, c.2);
    lemma_encoded_is_words(d);
    assert forall|k: int| 0 <= k < 14 implies #[trigger] word(d.encoded(), k) == d.values()[k] by {
        lemma_word_of_words(d.values(), k);
    }
}

/// A written cell reads back as the cell, unselected.
proof fn lemma_cell_back(c: Cell)
    ensures
        cell_of(SData::Cell(c.0, c.1, c.2).encoded()) == (c.0, c.1, c.2, false),
        fits(SData::Cell(c.0, c.1, c.2).encoded(), 14),
{
    let p = SData::Cell(c.0, c.1, c.2).encoded();
    lemma_cell_words(c);
    assert(word(p, 0) == c.0.0 && word(p, 1) == c.0.1 && word(p, 2) == c.0.2 && word(p, 3)
        == c.0.3);
    assert(word(p, 4) == c.1.0 && word(p, 5) == c.1.1 && word(p, 6) == c.1.2 && word(p, 7)
        == c.1.3 && word(p, 8) == c.1.4 && word(p, 9) == c.1.5);
    assert(word(p, 10) == c.2.0 && word(p, 11) == c.2.1 && word(p, 12) == c.2.2 && word(p, 13)
        == c.2.3);
}

#[verifier::rlimit(50)]
proof fn lemma_cells_back(vs: Seq<Vec4f>, es: Seq<Edge>, fs: Seq<Face>, cs: Seq<Cell>)
    requires
        vs.len() <= u64::MAX,
        es.len() <= u64::MAX,
        fs.len() <= u64::MAX,
        cs.len() <= u64::MAX,
    ensures
        file_cells(file_image(vs, es, fs, cs)) == cells_marked(cs, false),
        records_fit(
            file_image(vs, es, fs, cs),
            cells_start(file_image(vs, es, fs, cs)),
            112,
            cs.len() as int,
            14,
        ),
{
    let b = file_image(vs, es, fs, cs);
    lemma_image_layout(vs, es, fs, cs);
    lemma_widths(vs, es, fs, cs);
    let dc = cs.map_values(cell_datum());
    lemma_records_len(dc, 112);
    assert forall|i: int| 0 <= i < cs.len() implies cell_of(
        #[trigger] record(b, cells_start(b), 112, i),
    ) == (cs[i].0, cs[i].1, cs[i].2, false) && fits(record(b, cells_start(b), 112, i), 14) by {
        lemma_record_in_part(b, cells_start(b), records_end(b), 112, cs.len() as int, i);
        lemma_records(dc, 112, i);
        lemma_cell_back(cs[i]);
    }
    assert(file_cells(b) =~= cells_marked(cs, false));
}

/// A file that `save` writes for a well-formed mesh is one that `open_4dp`
/// reads, and it reads back the same vertices, edges, faces and cells, with
/// nothing selected and nothing projected.
pub proof fn law_file_round_trip(vs: Seq<Vec4f>, es: Seq<Edge>, fs: Seq<Face>, cs: Seq<Cell>)
    requires
        vs.len() <= u64::MAX,
        es.len() <= u64::MAX,
        fs.len() <= u64::MAX,
        cs.len() <= u64::MAX,
        forall|i: int| 0 <= i < es.len() ==> edge_ok(#[trigger] es[i], vs.len() as int),
    ensures
        ({
            let b = file_image(vs, es, fs, cs);
            &&& b.len() >= 8
            &&& b.take(8) == be8(MAGIC as int)
            &&& file_ok(b)
            &&& file_vertices(b) == vs.map_values(stripped())
            &&& file_edges(b) == edges_marked(es, false)
            &&& file_faces(b) == faces_marked(fs, false)
            &&& file_cells(b) == cells_marked(cs, false)
        }),
{
    lemma_image_layout(vs, es, fs, cs);
    lemma_be_len(MAGIC as nat, 8);
    lemma_vertices_back(vs, es, fs, cs);
    lemma_edges_back(vs, es, fs, cs);
    lemma_faces_back(vs, es, fs, cs);
    lemma_cells_back(vs, es, fs, cs);
}

/// The edges of a scene of well-formed meshes, taken together, join
/// different vertices of the scene.
pub proof fn lemma_scene_edges_valid(objs: Seq<Object>)
    requires
        forall|k: int| 0 <= k < objs.len() ==> (#[trigger] objs[k]).wf(),
        scene_vertices(objs).len() <= usize::MAX,
    ensures
        forall|i: int|
            0 <= i < scene_edges(objs).len() ==> edge_ok(
                #[trigger] scene_edges(objs)[i],
                scene_vertices(objs).len() as int,
            ),
    decreases objs.len(),
{
    if objs.len() > 0 {
        let front = objs.drop_last();
        let last = objs.last();
        assert forall|k: int| 0 <= k < front.len() implies (#[trigger] front[k]).wf() by {
            assert(objs[k].wf());
        }
        lemma_scene_edges_valid(front);
        let base = scene_vertices(front).len() as int;
        assert forall|i: int| 0 <= i < scene_edges(objs).len() implies edge_ok(
            #[trigger] scene_edges(objs)[i],
            scene_vertices(objs).len() as int,
        ) by {
            if i < scene_edges(front).len() {
                assert(edge_ok(scene_edges(front)[i], base));
            } else {
                assert(edge_ok(last.edges@[i - scene_edges(front).len()], last.vertices@.len() as int));
            }
        }
    }
}

/// What `save` writes for a scene of well-formed meshes, `open_4dp` reads
/// back as one mesh: the vertices, edges, faces and cells of the scene, with
/// nothing selected and nothing projected.
pub proof fn law_saved_scene_reads_back(objs: Seq<Object>)
    requires
        forall|k: int| 0 <= k < objs.len() ==> (#[trigger] objs[k]).wf(),
        scene_vertices(objs).len() <= usize::MAX,
        scene_edges(objs).len() <= u64::MAX,
        scene_faces(objs).len() <= u64::MAX,
        scene_cells(objs).len() <= u64::MAX,
    ensures
        ({
            let b = file_image(
                scene_vertices(objs),
                scene_edges(objs),
                scene_faces(objs),
                scene_cells(objs),
            );
            &&& b.len() >= 8
            &&& b.take(8) == be8(MAGIC as int)
            &&& file_ok(b)
            &&& file_vertices(b) == scene_vertices(objs).map_values(stripped())
            &&& file_edges(b) == edges_marked(scene_edges(objs), false)
            &&& file_faces(b) == faces_marked(scene_faces(objs), false)
            &&& file_cells(b) == cells_marked(scene_cells(objs), false)
        }),
{
    lemma_scene_edges_valid(objs);
    law_file_round_trip(
        scene_vertices(objs),
        scene_edges(objs),
        scene_faces(objs),
        scene_cells(objs),
    );
}

/// A value that is written and read as its own kind comes back as it was:
/// a vertex with its coordinates, unprojected and unselected, and every other
/// value unchanged. Numbers are read as eight bytes, so a `Uint`, which is
/// written in four, has no kind to be read as.
pub proof fn law_value_round_trip(d: SData, b: Vec<u8>)
    requires
        b@ == d.encoded(),
    ensures
        match d {
            SData::Vector(v) => DData::Vector(b).decoded() == Ok::<SData, Error>(
                SData::Vector(Vec4f::at(v.x, v.y, v.z, v.w)),
            ),
            SData::Edge(_, _) => DData::Edge(b).decoded() == Ok::<SData, Error>(d),
            SData::Face(_, _) => DData::Face(b).decoded() == Ok::<SData, Error>(d),
            SData::Cell(_, _, _) => DData::Cell(b).decoded() == Ok::<SData, Error>(d),
            SData::Ulong(_) => DData::Uint(b).decoded() == Ok::<SData, Error>(d),
            SData::Float(_) => DData::Float(b).decoded() == Ok::<SData, Error>(d),
            SData::Uint(_) => true,
        },
{
    match d {
        SData::Vector(v) => {
            lemma_encoded_is_words(d);
            lemma_vertex_back(v);
        },
        SData::Edge(a, e) => {
            lemma_encoded_is_words(d);
            lemma_edge_back(Edge { a, b: e, selected: false });
            assert(fits(b@, 2)) by {
                assert forall|k: int| 0 <= k < 2 implies #[trigger] word(b@, k) <= usize::MAX by {
                    lemma_word_of_words(d.values(), k);
                }
            }
        },
        SData::Face(v, e) => {
            lemma_encoded_is_words(d);
            lemma_face_back((v, e, false));
        },
        SData::Cell(v, e, f) => {
            lemma_encoded_is_words(d);
            lemma_cell_back((v, e, f, false));
        },
        SData::Ulong(u) => {
            lemma_encoded_is_words(d);
            lemma_word_of_words(d.values(), 0);
        },
        SData::Float(x) => {
            lemma_encoded_is_words(d);
            lemma_word_of_words(d.values(), 0);
        },
        SData::Uint(_) => {},
    }
}

} // verus!

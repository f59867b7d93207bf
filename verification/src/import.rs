//! Reading a mesh from the persisted byte layout.

use vstd::prelude::*;
use vstd::string::StringExecFns;
use crate::bytes::{be_value, lemma_be_value_bound, read_word, word};
use crate::edge::Edge;
use crate::error::{Error, ImportError};
use crate::object::{edge_ok, Cell, Face, Object};
use crate::bytes::be_bytes;
use crate::save::{be8, SData, MAGIC};
use crate::vector::Vec4f;

verus! {

/// Bytes cut from a file, by the kind of value they are to be read as.
#[derive(Debug, Clone)]
pub enum DData {
    /// 32 bytes: four coordinates.
    Vector(Vec<u8>),
    /// 16 bytes: two vertex positions.
    Edge(Vec<u8>),
    /// 48 bytes: three vertex and three edge positions.
    Face(Vec<u8>),
    /// 112 bytes: four vertex, six edge and four face positions.
    Cell(Vec<u8>),
    /// 8 bytes: an unsigned number.
    Uint(Vec<u8>),
    /// 8 bytes: a binary64 number.
    Float(Vec<u8>),
}

/// The error for bytes that do not follow the layout.
pub open spec fn corrupted<T>() -> Result<T, Error> {
    Err(Error::Import(ImportError::FileCorrupted))
}

/// Whether each of the first `n` words of `b` fits a position in memory.
pub open spec fn fits(b: Seq<u8>, n: int) -> bool {
    forall|k: int| 0 <= k < n ==> #[trigger] word(b, k) <= usize::MAX
}

/// The unprojected, unselected vertex that 32 bytes hold.
pub open spec fn vertex_of(b: Seq<u8>) -> Vec4f {
    Vec4f::at(word(b, 0) as u64, word(b, 1) as u64, word(b, 2) as u64, word(b, 3) as u64)
}

/// The unselected edge that 16 bytes hold.
pub open spec fn edge_of(b: Seq<u8>) -> Edge {
    Edge { a: word(b, 0) as usize, b: word(b, 1) as usize, selected: false }
}

/// The unselected face that 48 bytes hold.
pub open spec fn face_of(b: Seq<u8>) -> Face {
    (
        (word(b, 0) as usize, word(b, 1) as usize, word(b, 2) as usize),
        (word(b, 3) as usize, word(b, 4) as usize, word(b, 5) as usize),
        false,
    )
}

/// The unselected cell that 112 bytes hold.
pub open spec fn cell_of(b: Seq<u8>) -> Cell {
    (
        (word(b, 0) as usize, word(b, 1) as usize, word(b, 2) as usize, word(b, 3) as usize),
        (
            word(b, 4) as usize,
            word(b, 5) as usize,
            word(b, 6) as usize,
            word(b, 7) as usize,
            word(b, 8) as usize,
            word(b, 9) as usize,
        ),
        (word(b, 10) as usize, word(b, 11) as usize, word(b, 12) as usize, word(b, 13) as usize),
        false,
    )
}

/// Takes the first `count` bytes off `bytes` and returns them.
pub fn cut(bytes: &mut Vec<u8>, count: u32) -> (res: Vec<u8>)
    requires
        count <= old(bytes)@.len(),
    ensures
        res@ == old(bytes)@.take(count as int),
        final(bytes)@ == old(bytes)@.skip(count as int),
{
    let mut rest = bytes.split_off(count as usize);
    core::mem::swap(bytes, &mut rest);
    rest
}

/// Takes eight bytes off `bytes` and returns the number they spell. Fewer
/// than eight bytes are left as they are.
pub fn cut_u64(bytes: &mut Vec<u8>) -> (r: Result<u64, Error>)
    ensures
        old(bytes)@.len() < 8 ==> r == corrupted::<u64>() && final(bytes)@ == old(bytes)@,
        old(bytes)@.len() >= 8 ==> r == Ok::<u64, Error>(be_value(old(bytes)@.take(8)) as u64)
            && final(bytes)@ == old(bytes)@.skip(8),
{
    if bytes.len() < 8 {
        return Err(Error::Import(ImportError::FileCorrupted));
    }
    let group = cut(bytes, 8);
    assert(group@.subrange(0, 8) == group@);
    Ok(read_word(&group, 0))
}

/// Takes eight bytes off `bytes` and returns them as a binary64 pattern.
/// Fewer than eight bytes are left as they are.
pub fn cut_float(bytes: &mut Vec<u8>) -> (r: Result<u64, Error>)
    ensures
        old(bytes)@.len() < 8 ==> r == corrupted::<u64>() && final(bytes)@ == old(bytes)@,
        old(bytes)@.len() >= 8 ==> r == Ok::<u64, Error>(be_value(old(bytes)@.take(8)) as u64)
            && final(bytes)@ == old(bytes)@.skip(8),
{
    cut_u64(bytes)
}

impl DData {
    /// The bytes that the value carries.
    pub open spec fn payload(self) -> Seq<u8> {
        match self {
            DData::Vector(b) => b@,
            DData::Edge(b) => b@,
            DData::Face(b) => b@,
            DData::Cell(b) => b@,
            DData::Uint(b) => b@,
            DData::Float(b) => b@,
        }
    }

    /// The number of bytes that a value of this kind takes.
    pub open spec fn width(self) -> nat {
        match self {
            DData::Vector(_) => 32,
            DData::Edge(_) => 16,
            DData::Face(_) => 48,
            DData::Cell(_) => 112,
            DData::Uint(_) => 8,
            DData::Float(_) => 8,
        }
    }

    /// What the bytes hold: a value when there are exactly as many bytes as
    /// the kind takes and every position fits in memory.
    pub open spec fn decoded(self) -> Result<SData, Error> {
        let b = self.payload();
        if b.len() != self.width() {
            corrupted()
        } else {
            match self {
                DData::Vector(_) => Ok(SData::Vector(vertex_of(b))),
                DData::Edge(_) => if fits(b, 2) {
                    Ok(SData::Edge(edge_of(b).a, edge_of(b).b))
                } else {
                    corrupted()
                },
                DData::Face(_) => if fits(b, 6) {
                    Ok(SData::Face(face_of(b).0, face_of(b).1))
                } else {
                    corrupted()
                },
                DData::Cell(_) => if fits(b, 14) {
                    Ok(SData::Cell(cell_of(b).0, cell_of(b).1, cell_of(b).2))
                } else {
                    corrupted()
                },
                DData::Uint(_) => Ok(SData::Ulong(word(b, 0) as u64)),
                DData::Float(_) => Ok(SData::Float(word(b, 0) as u64)),
            }
        }
    }

    pub fn deserialize(&self) -> (r: Result<SData, Error>)
        ensures
            r == self.decoded(),
    {
        match self {
            DData::Vector(b) => {
                if b.len() != 32 {
                    return Err(Error::Import(ImportError::FileCorrupted));
                }
                let x = read_word(b, 0);
                let y = read_word(b, 1);
                let z = read_word(b, 2);
                let w = read_word(b, 3);
                Ok(SData::Vector(Vec4f::new(x, y, z, w)))
            },
            DData::Edge(b) => {
                if b.len() != 16 {
                    return Err(Error::Import(ImportError::FileCorrupted));
                }
                match read_positions(b, 2) {
                    Some(p) => Ok(SData::Edge(p[0], p[1])),
                    None => Err(Error::Import(ImportError::FileCorrupted)),
                }
            },
            DData::Face(b) => {
                if b.len() != 48 {
                    return Err(Error::Import(ImportError::FileCorrupted));
                }
                match read_positions(b, 6) {
                    Some(p) => Ok(SData::Face((p[0], p[1], p[2]), (p[3], p[4], p[5]))),
                    None => Err(Error::Import(ImportError::FileCorrupted)),
                }
            },
            DData::Cell(b) => {
                if b.len() != 112 {
                    return Err(Error::Import(ImportError::FileCorrupted));
                }
                match read_positions(b, 14) {
                    Some(p) => Ok(
                        SData::Cell(
                            (p[0], p[1], p[2], p[3]),
                            (p[4], p[5], p[6], p[7], p[8], p[9]),
                            (p[10], p[11], p[12], p[13]),
                        ),
                    ),
                    None => Err(Error::Import(ImportError::FileCorrupted)),
                }
            },
            DData::Uint(b) => {
                if b.len() != 8 {
                    return Err(Error::Import(ImportError::FileCorrupted));
                }
                Ok(SData::Ulong(read_word(b, 0)))
            },
            DData::Float(b) => {
                if b.len() != 8 {
                    return Err(Error::Import(ImportError::FileCorrupted));
                }
                Ok(SData::Float(read_word(b, 0)))
            },
        }
    }
}

/// The first `n` words of `b` as positions, if each of them fits.
fn read_positions(b: &Vec<u8>, n: usize) -> (r: Option<Vec<usize>>)
    requires
        8 * n <= b@.len(),
    ensures
        fits(b@, n as int) ==> (r matches Some(p) && p@.len() == n && forall|k: int|
            0 <= k < n ==> p@[k] == word(b@, k)),
        !fits(b@, n as int) ==> r is None,
{
    let mut positions: Vec<usize> = Vec::new();
    for k in 0..n
        invariant
            8 * n <= b@.len(),
            positions@.len() == k,
            forall|j: int| 0 <= j < k ==> positions@[j] == word(b@, j),
    {
        let v = read_word(b, k);
        if v > usize::MAX as u64 {
            return None;
        }
        positions.push(v as usize);
    }
    Some(positions)
}

/// Takes eight bytes off `bytes` and returns the number they spell. Fewer
/// than eight bytes are left as they are.
pub fn deserialize_u64_from_bytes(bytes: &mut Vec<u8>) -> (r: Result<u64, Error>)
    ensures
        old(bytes)@.len() < 8 ==> r == corrupted::<u64>() && final(bytes)@ == old(bytes)@,
        old(bytes)@.len() >= 8 ==> r == Ok::<u64, Error>(be_value(old(bytes)@.take(8)) as u64)
            && final(bytes)@ == old(bytes)@.skip(8),
{
    if bytes.len() < 8 {
        return Err(Error::Import(ImportError::FileCorrupted));
    }
    let group = cut(bytes, 8);
    assert(group@.subrange(0, 8) == group@);
    match DData::Uint(group).deserialize() {
        Ok(SData::Ulong(v)) => Ok(v),
        _ => Err(Error::Import(ImportError::FileCorrupted)),
    }
}

/// The lower-case hexadecimal digit for a number below sixteen.
pub open spec fn hex_digit(n: int) -> char {
    if n == 0 {
        '0'
    } else if n == 1 {
        '1'
    } else if n == 2 {
        '2'
    } else if n == 3 {
        '3'
    } else if n == 4 {
        '4'
    } else if n == 5 {
        '5'
    } else if n == 6 {
        '6'
    } else if n == 7 {
        '7'
    } else if n == 8 {
        '8'
    } else if n == 9 {
        '9'
    } else if n == 10 {
        'a'
    } else if n == 11 {
        'b'
    } else if n == 12 {
        'c'
    } else if n == 13 {
        'd'
    } else if n == 14 {
        'e'
    } else {
        'f'
    }
}

/// Two lower-case hexadecimal digits for each byte, the high half first.
pub open spec fn hex_string(b: Seq<u8>) -> Seq<char>
    decreases b.len(),
{
    if b.len() == 0 {
        Seq::empty()
    } else {
        hex_string(b.drop_last()).push(hex_digit(b.last() as int / 16)).push(
            hex_digit(b.last() as int % 16),
        )
    }
}

/// Calls `hex::encode`. Trusted: the result is two lower-case hexadecimal
/// digits for each byte of `data`, in order, the digit for the high four bits
/// before the digit for the low four.
#[verifier::external_body]
fn hex_encode(data: &Vec<u8>) -> (s: String)
    ensures
        s@ == hex_string(data@),
{
    hex::encode(data)
}

/// Where the digits of each byte stand in the hexadecimal string.
proof fn lemma_hex_string(b: Seq<u8>)
    ensures
        hex_string(b).len() == 2 * b.len(),
        forall|i: int|
            0 <= i < b.len() ==> hex_string(b)[2 * i] == hex_digit(#[trigger] b[i] as int / 16)
                && hex_string(b)[2 * i + 1] == hex_digit(b[i] as int % 16),
    decreases b.len(),
{
    if b.len() > 0 {
        lemma_hex_string(b.drop_last());
        assert forall|i: int| 0 <= i < b.len() implies hex_string(b)[2 * i] == hex_digit(
            #[trigger] b[i] as int / 16,
        ) && hex_string(b)[2 * i + 1] == hex_digit(b[i] as int % 16) by {
            if i < b.len() - 1 {
                assert(b.drop_last()[i] == b[i]);
            }
        }
    }
}

/// The eight bytes of the magic number.
proof fn lemma_magic_bytes()
    ensures
        be8(MAGIC as int) == seq![0u8, 0u8, 0u8, 0u8, 0x4du8, 0x4du8, 0x4du8, 0x4du8],
{
    reveal_with_fuel(be_bytes, 9);
    assert(be8(MAGIC as int) =~= seq![0u8, 0u8, 0u8, 0u8, 0x4du8, 0x4du8, 0x4du8, 0x4du8]);
}

/// Whether the eight bytes are the magic number, told by their hexadecimal
/// spelling.
fn has_magic(extention: &Vec<u8>) -> (r: bool)
    requires
        extention@.len() == 8,
    ensures
        r == (extention@ == be8(MAGIC as int)),
{
    let spelled = hex_encode(extention);
    let expected = String::from_str("000000004d4d4d4d");
    proof {
        reveal_strlit("000000004d4d4d4d");
        lemma_magic_bytes();
        lemma_hex_string(extention@);
        let b = extention@;
        let magic = be8(MAGIC as int);
        if b == magic {
            assert(b[0] == 0 && b[1] == 0 && b[2] == 0 && b[3] == 0);
            assert(b[4] == 0x4d && b[5] == 0x4d && b[6] == 0x4d && b[7] == 0x4d);
            assert(spelled@ =~= expected@);
        }
        if spelled@ == expected@ {
            assert forall|i: int| 0 <= i < 8 implies b[i] == magic[i] by {
                assert(hex_string(b)[2 * i] == hex_digit(b[i] as int / 16));
                assert(hex_string(b)[2 * i + 1] == hex_digit(b[i] as int % 16));
            }
            assert(b =~= magic);
        }
    }
    spelled == expected
}

/// The `k`-th of the four counts in the header of a file.
pub open spec fn count_at(b: Seq<u8>, k: int) -> int {
    word(b, 1 + k) as int
}

/// Where the edge records of a file begin.
pub open spec fn edges_start(b: Seq<u8>) -> int {
    40 + 32 * count_at(b, 0)
}

/// Where the face records of a file begin.
pub open spec fn faces_start(b: Seq<u8>) -> int {
    edges_start(b) + 16 * count_at(b, 1)
}

/// Where the cell records of a file begin.
pub open spec fn cells_start(b: Seq<u8>) -> int {
    faces_start(b) + 48 * count_at(b, 2)
}

/// Where the records of a file end.
pub open spec fn records_end(b: Seq<u8>) -> int {
    cells_start(b) + 112 * count_at(b, 3)
}

/// The `i`-th of the records of `width` bytes that begin at `start`.
pub open spec fn record(b: Seq<u8>, start: int, width: int, i: int) -> Seq<u8> {
    b.subrange(start + width * i, start + width * i + width)
}

/// Whether the header and every record that it announces can be cut from
/// the bytes.
pub open spec fn framed(b: Seq<u8>) -> bool {
    b.len() >= 40 && records_end(b) <= b.len()
}

/// The vertices that a framed file holds.
pub open spec fn file_vertices(b: Seq<u8>) -> Seq<Vec4f> {
    Seq::new(count_at(b, 0) as nat, |i: int| vertex_of(record(b, 40, 32, i)))
}

/// The edges that a framed file holds.
pub open spec fn file_edges(b: Seq<u8>) -> Seq<Edge> {
    Seq::new(count_at(b, 1) as nat, |i: int| edge_of(record(b, edges_start(b), 16, i)))
}

/// The faces that a framed file holds.
pub open spec fn file_faces(b: Seq<u8>) -> Seq<Face> {
    Seq::new(count_at(b, 2) as nat, |i: int| face_of(record(b, faces_start(b), 48, i)))
}

/// The cells that a framed file holds.
pub open spec fn file_cells(b: Seq<u8>) -> Seq<Cell> {
    Seq::new(count_at(b, 3) as nat, |i: int| cell_of(record(b, cells_start(b), 112, i)))
}

/// Whether the ends that an edge record names are two different vertices
/// among `n`.
pub open spec fn edge_record_ok(p: Seq<u8>, n: int) -> bool {
    word(p, 0) < n && word(p, 1) < n && word(p, 0) != word(p, 1)
}

/// Whether each of the first `count` records of `width` bytes holds `n`
/// positions that fit in memory.
pub open spec fn records_fit(b: Seq<u8>, start: int, width: int, count: int, n: int) -> bool {
    forall|i: int| 0 <= i < count ==> fits(#[trigger] record(b, start, width, i), n)
}

/// Whether each of the first `count` edge records joins two different
/// vertices among `n`.
pub open spec fn edge_records_ok(b: Seq<u8>, start: int, count: int, n: int) -> bool {
    forall|i: int| 0 <= i < count ==> edge_record_ok(#[trigger] record(b, start, 16, i), n)
}

/// Whether a file is a mesh: it is framed, every edge joins two different
/// vertices of the file, and every position in a face or cell record fits in
/// memory.
pub open spec fn file_ok(b: Seq<u8>) -> bool {
    &&& framed(b)
    &&& edge_records_ok(b, edges_start(b), count_at(b, 1), count_at(b, 0))
    &&& records_fit(b, faces_start(b), 48, count_at(b, 2), 6)
    &&& records_fit(b, cells_start(b), 112, count_at(b, 3), 14)
}

/// The four counts of a header, taken off the bytes behind the magic number.
fn read_counts(bytes: &mut Vec<u8>) -> (r: Result<(u64, u64, u64, u64), Error>)
    ensures
        old(bytes)@.len() < 32 ==> r == corrupted::<(u64, u64, u64, u64)>(),
        old(bytes)@.len() >= 32 ==> r == Ok::<(u64, u64, u64, u64), Error>(
            (
                word(old(bytes)@, 0) as u64,
                word(old(bytes)@, 1) as u64,
                word(old(bytes)@, 2) as u64,
                word(old(bytes)@, 3) as u64,
            ),
        ) && final(bytes)@ == old(bytes)@.skip(32),
{
    if bytes.len() < 32 {
        return Err(Error::Import(ImportError::FileCorrupted));
    }
    let ghost all = bytes@;
    assert(all.take(8) == all.subrange(0, 8));
    let vertices_count = match deserialize_u64_from_bytes(bytes) {
        Ok(v) => v,
        Err(e) => {
            return Err(e);
        },
    };
    assert(all.skip(8).take(8) == all.subrange(8, 16));
    let edges_count = match deserialize_u64_from_bytes(bytes) {
        Ok(v) => v,
        Err(e) => {
            return Err(e);
        },
    };
    assert(all.skip(8).skip(8) == all.skip(16));
    assert(all.skip(16).take(8) == all.subrange(16, 24));
    let faces_count = match deserialize_u64_from_bytes(bytes) {
        Ok(v) => v,
        Err(e) => {
            return Err(e);
        },
    };
    assert(all.skip(16).skip(8) == all.skip(24));
    assert(all.skip(24).take(8) == all.subrange(24, 32));
    let cells_count = match deserialize_u64_from_bytes(bytes) {
        Ok(v) => v,
        Err(e) => {
            return Err(e);
        },
    };
    assert(all.skip(24).skip(8) == all.skip(32));
    Ok((vertices_count, edges_count, faces_count, cells_count))
}

/// A copy of the `width` bytes from `from` on.
fn piece(bytes: &Vec<u8>, from: usize, width: usize) -> (r: Vec<u8>)
    requires
        from + width <= bytes@.len(),
    ensures
        r@ == bytes@.subrange(from as int, from + width),
{
    let mut r: Vec<u8> = Vec::new();
    assert(bytes@.len() == bytes.len());
    for k in 0..width
        invariant
            from + width <= bytes@.len() <= usize::MAX,
            r@ == bytes@.subrange(from as int, from + k),
    {
        r.push(bytes[from + k]);
        assert(bytes@.subrange(from as int, from + k + 1) == bytes@.subrange(
            from as int,
            from + k,
        ).push(bytes@[from + k]));
    }
    r
}

/// The `count` vertex records from `start` on.
fn read_vertices(bytes: &Vec<u8>, start: usize, count: u64) -> (vertices: Vec<Vec4f>)
    requires
        start + 32 * count <= bytes@.len(),
    ensures
        vertices@ == Seq::new(count as nat, |i: int| vertex_of(record(bytes@, start as int, 32, i))),
{
    let ghost expected = Seq::new(
        count as nat,
        |i: int| vertex_of(record(bytes@, start as int, 32, i)),
    );
    let mut vertices: Vec<Vec4f> = Vec::new();
    assert(bytes@.len() == bytes.len());
    for i in 0..count
        invariant
            start + 32 * count <= bytes@.len() <= usize::MAX,
            expected == Seq::new(
                count as nat,
                |i: int| vertex_of(record(bytes@, start as int, 32, i)),
            ),
            vertices@ == expected.take(i as int),
    {
        let chunk = piece(bytes, start + 32 * (i as usize), 32);
        assert(chunk@ == record(bytes@, start as int, 32, i as int));
        match DData::Vector(chunk).deserialize() {
            Ok(SData::Vector(v)) => {
                vertices.push(v);
            },
            _ => {
                assert(false);
            },
        }
        assert(expected.take(i + 1) == expected.take(i as int).push(expected[i as int]));
    }
    assert(expected.take(count as int) == expected);
    vertices
}

/// The `count` edge records from `start` on.
fn read_edges(bytes: &Vec<u8>, start: usize, count: u64) -> (r: Result<Vec<Edge>, Error>)
    requires
        start + 16 * count <= bytes@.len(),
    ensures
        !records_fit(bytes@, start as int, 16, count as int, 2) ==> r is Err && r->Err_0
            == Error::Import(ImportError::FileCorrupted),
        records_fit(bytes@, start as int, 16, count as int, 2) ==> (r matches Ok(edges) && edges@
            == Seq::new(count as nat, |i: int| edge_of(record(bytes@, start as int, 16, i)))),
{
    let ghost expected = Seq::new(
        count as nat,
        |i: int| edge_of(record(bytes@, start as int, 16, i)),
    );
    let mut edges: Vec<Edge> = Vec::new();
    assert(bytes@.len() == bytes.len());
    for i in 0..count
        invariant
            start + 16 * count <= bytes@.len() <= usize::MAX,
            expected == Seq::new(
                count as nat,
                |i: int| edge_of(record(bytes@, start as int, 16, i)),
            ),
            edges@ == expected.take(i as int),
            records_fit(bytes@, start as int, 16, i as int, 2),
    {
        let chunk = piece(bytes, start + 16 * (i as usize), 16);
        assert(chunk@ == record(bytes@, start as int, 16, i as int));
        match DData::Edge(chunk).deserialize() {
            Ok(SData::Edge(a, b)) => {
                edges.push(Edge::new(a, b));
            },
            _ => {
                assert(!fits(record(bytes@, start as int, 16, i as int), 2));
                return Err(Error::Import(ImportError::FileCorrupted));
            },
        }
        assert(expected.take(i + 1) == expected.take(i as int).push(expected[i as int]));
    }
    assert(expected.take(count as int) == expected);
    Ok(edges)
}

/// The `count` face records from `start` on.
fn read_faces(bytes: &Vec<u8>, start: usize, count: u64) -> (r: Result<Vec<Face>, Error>)
    requires
        start + 48 * count <= bytes@.len(),
    ensures
        !records_fit(bytes@, start as int, 48, count as int, 6) ==> r is Err && r->Err_0
            == Error::Import(ImportError::FileCorrupted),
        records_fit(bytes@, start as int, 48, count as int, 6) ==> (r matches Ok(faces) && faces@
            == Seq::new(count as nat, |i: int| face_of(record(bytes@, start as int, 48, i)))),
{
    let ghost expected = Seq::new(
        count as nat,
        |i: int| face_of(record(bytes@, start as int, 48, i)),
    );
    let mut faces: Vec<Face> = Vec::new();
    assert(bytes@.len() == bytes.len());
    for i in 0..count
        invariant
            start + 48 * count <= bytes@.len() <= usize::MAX,
            expected == Seq::new(
                count as nat,
                |i: int| face_of(record(bytes@, start as int, 48, i)),
            ),
            faces@ == expected.take(i as int),
            records_fit(bytes@, start as int, 48, i as int, 6),
    {
        let chunk = piece(bytes, start + 48 * (i as usize), 48);
        assert(chunk@ == record(bytes@, start as int, 48, i as int));
        match DData::Face(chunk).deserialize() {
            Ok(SData::Face(v, e)) => {
                faces.push((v, e, false));
            },
            _ => {
                assert(!fits(record(bytes@, start as int, 48, i as int), 6));
                return Err(Error::Import(ImportError::FileCorrupted));
            },
        }
        assert(expected.take(i + 1) == expected.take(i as int).push(expected[i as int]));
    }
    assert(expected.take(count as int) == expected);
    Ok(faces)
}

/// The `count` cell records from `start` on.
fn read_cells(bytes: &Vec<u8>, start: usize, count: u64) -> (r: Result<Vec<Cell>, Error>)
    requires
        start + 112 * count <= bytes@.len(),
    ensures
        !records_fit(bytes@, start as int, 112, count as int, 14) ==> r is Err && r->Err_0
            == Error::Import(ImportError::FileCorrupted),
        records_fit(bytes@, start as int, 112, count as int, 14) ==> (r matches Ok(cells) && cells@
            == Seq::new(count as nat, |i: int| cell_of(record(bytes@, start as int, 112, i)))),
{
    let ghost expected = Seq::new(
        count as nat,
        |i: int| cell_of(record(bytes@, start as int, 112, i)),
    );
    let mut cells: Vec<Cell> = Vec::new();
    assert(bytes@.len() == bytes.len());
    for i in 0..count
        invariant
            start + 112 * count <= bytes@.len() <= usize::MAX,
            expected == Seq::new(
                count as nat,
                |i: int| cell_of(record(bytes@, start as int, 112, i)),
            ),
            cells@ == expected.take(i as int),
            records_fit(bytes@, start as int, 112, i as int, 14),
    {
        let chunk = piece(bytes, start + 112 * (i as usize), 112);
        assert(chunk@ == record(bytes@, start as int, 112, i as int));
        match DData::Cell(chunk).deserialize() {
            Ok(SData::Cell(v, e, f)) => {
                cells.push((v, e, f, false));
            },
            _ => {
                assert(!fits(record(bytes@, start as int, 112, i as int), 14));
                return Err(Error::Import(ImportError::FileCorrupted));
            },
        }
        assert(expected.take(i + 1) == expected.take(i as int).push(expected[i as int]));
    }
    assert(expected.take(count as int) == expected);
    Ok(cells)
}

/// Edge records whose ends are vertices hold positions that fit in memory,
/// and the edges read from them are valid exactly when the records are.
proof fn lemma_edges_checked(b: Seq<u8>, start: int, count: int, n: int, edges: Seq<Edge>)
    requires
        0 <= n <= usize::MAX,
        0 <= count,
    ensures
        edge_records_ok(b, start, count, n) ==> records_fit(b, start, 16, count, 2),
        records_fit(b, start, 16, count, 2) && edges == Seq::new(
            count as nat,
            |i: int| edge_of(record(b, start, 16, i)),
        ) ==> edge_records_ok(b, start, count, n) == (forall|i: int|
            0 <= i < edges.len() ==> edge_ok(#[trigger] edges[i], n)),
{
    if edge_records_ok(b, start, count, n) {
        assert forall|i: int| 0 <= i < count implies fits(#[trigger] record(b, start, 16, i), 2) by {
            assert(edge_record_ok(record(b, start, 16, i), n));
        }
    }
    if records_fit(b, start, 16, count, 2) && edges == Seq::new(
        count as nat,
        |i: int| edge_of(record(b, start, 16, i)),
    ) {
        if edge_records_ok(b, start, count, n) {
            assert forall|i: int| 0 <= i < edges.len() implies edge_ok(#[trigger] edges[i], n) by {
                let p = record(b, start, 16, i);
                assert(edge_record_ok(p, n));
                assert(fits(p, 2));
                assert(word(p, 0) <= usize::MAX && word(p, 1) <= usize::MAX);
            }
        }
        if forall|i: int| 0 <= i < edges.len() ==> edge_ok(#[trigger] edges[i], n) {
            assert forall|i: int| 0 <= i < count implies edge_record_ok(
                #[trigger] record(b, start, 16, i),
                n,
            ) by {
                let p = record(b, start, 16, i);
                assert(edge_ok(edges[i], n));
                assert(fits(p, 2));
                assert(word(p, 0) <= usize::MAX && word(p, 1) <= usize::MAX);
            }
        }
    }
}

/// The header of a file, seen from behind the magic number.
proof fn lemma_header(all: Seq<u8>)
    requires
        all.len() >= 40,
    ensures
        forall|k: int| 0 <= k < 4 ==> #[trigger] word(all.subrange(8, 40), k) == count_at(all, k),
        forall|k: int| 0 <= k < 4 ==> 0 <= #[trigger] count_at(all, k) <= u64::MAX,
{
    assert forall|k: int| 0 <= k < 4 implies #[trigger] word(all.subrange(8, 40), k) == count_at(
        all,
        k,
    ) by {
        assert(all.subrange(8, 40).subrange(8 * k, 8 * k + 8) == all.subrange(
            8 * (1 + k),
            8 * (1 + k) + 8,
        ));
    }
    assert forall|k: int| 0 <= k < 4 implies 0 <= #[trigger] count_at(all, k) <= u64::MAX by {
        lemma_be_value_bound(all.subrange(8 * (1 + k), 8 * (1 + k) + 8));
    }
}

/// Reads a mesh from the bytes of a file. Bytes behind the last record are
/// ignored. The mesh has no name, and nothing in it is selected or projected.
pub fn open_4dp(bytes: Vec<u8>) -> (r: Result<Object, Error>)
    ensures
        bytes@.len() < 8 ==> r is Err && r->Err_0 == Error::Import(ImportError::FileCorrupted),
        bytes@.len() >= 8 && bytes@.take(8) != be8(MAGIC as int) ==> r is Err && r->Err_0
            == Error::Import(ImportError::InvalidExtention),
        bytes@.len() >= 8 && bytes@.take(8) == be8(MAGIC as int) && !file_ok(bytes@) ==> r is Err
            && r->Err_0 == Error::Import(ImportError::FileCorrupted),
        bytes@.len() >= 8 && bytes@.take(8) == be8(MAGIC as int) && file_ok(bytes@) ==> (r matches Ok(
            o,
        ) && o.vertices@ == file_vertices(bytes@) && o.edges@ == file_edges(bytes@) && o.faces@
            == file_faces(bytes@) && o.cells@ == file_cells(bytes@) && o.name is None && o.wf()),
{
    let ghost all = bytes@;
    let len = bytes.len();
    if len < 8 {
        return Err(Error::Import(ImportError::FileCorrupted));
    }
    let mut header = piece(&bytes, 0, if len < 40 { len } else { 40 });
    let extention = cut(&mut header, 8);
    assert(extention@ == all.take(8));
    if !has_magic(&extention) {
        return Err(Error::Import(ImportError::InvalidExtention));
    }
    let (vertices_count, edges_count, faces_count, cells_count) = match read_counts(&mut header) {
        Ok(counts) => counts,
        Err(e) => {
            return Err(e);
        },
    };
    proof {
        assert(all.subrange(0, 40).skip(8) == all.subrange(8, 40));
        lemma_header(all);
    }
    assert(vertices_count == count_at(all, 0) && edges_count == count_at(all, 1) && faces_count
        == count_at(all, 2) && cells_count == count_at(all, 3));
    let needed: u128 = 32 * (vertices_count as u128) + 16 * (edges_count as u128) + 48 * (
    faces_count as u128) + 112 * (cells_count as u128);
    if needed > (len - 40) as u128 {
        return Err(Error::Import(ImportError::FileCorrupted));
    }
    assert(framed(all));
    let at_edges: usize = 40 + 32 * (vertices_count as usize);
    let at_faces: usize = at_edges + 16 * (edges_count as usize);
    let at_cells: usize = at_faces + 48 * (faces_count as usize);
    let vertices = read_vertices(&bytes, 40, vertices_count);
    assert(vertices@ =~= file_vertices(all));
    proof {
        lemma_edges_checked(
            all,
            at_edges as int,
            edges_count as int,
            vertices_count as int,
            Seq::empty(),
        );
    }
    let edges = match read_edges(&bytes, at_edges, edges_count) {
        Ok(edges) => edges,
        Err(e) => {
            return Err(e);
        },
    };
    assert(edges@ =~= file_edges(all));
    let faces = match read_faces(&bytes, at_faces, faces_count) {
        Ok(faces) => faces,
        Err(e) => {
            return Err(e);
        },
    };
    assert(faces@ =~= file_faces(all));
    let cells = match read_cells(&bytes, at_cells, cells_count) {
        Ok(cells) => cells,
        Err(e) => {
            return Err(e);
        },
    };
    assert(cells@ =~= file_cells(all));
    let object = Object { vertices, edges, faces, cells, name: None };
    proof {
        lemma_edges_checked(
            all,
            at_edges as int,
            edges_count as int,
            vertices_count as int,
            object.edges@,
        );
        assert(object.wf() == (forall|i: int|
            0 <= i < object.edges@.len() ==> edge_ok(
                #[trigger] object.edges@[i],
                vertices_count as int,
            )));
    }
    if !object.is_wf() {
        return Err(Error::Import(ImportError::FileCorrupted));
    }
    Ok(object)
}

} // verus!

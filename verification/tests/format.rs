use polytope4d::bytes::{read_word, to_be};
use polytope4d::{
    cut, cut_float, cut_u64, deserialize_u64_from_bytes, open_4dp, save, DData, Edge, Error,
    ImportError, Object, SData, Vec4f, MAGIC,
};

fn f(x: f64) -> u64 {
    x.to_bits()
}

fn word(v: u64) -> Vec<u8> {
    v.to_be_bytes().to_vec()
}

fn header(vertices: u64, edges: u64, faces: u64, cells: u64) -> Vec<u8> {
    let mut b = word(0x4d4d4d4d);
    b.extend(word(vertices));
    b.extend(word(edges));
    b.extend(word(faces));
    b.extend(word(cells));
    b
}

fn vertex(x: f64, y: f64, z: f64, w: f64) -> Vec<u8> {
    let mut b = x.to_be_bytes().to_vec();
    b.extend(y.to_be_bytes());
    b.extend(z.to_be_bytes());
    b.extend(w.to_be_bytes());
    b
}

fn triangle_file() -> Vec<u8> {
    let mut b = header(3, 2, 1, 1);
    b.extend(vertex(1.0, 2.0, 3.0, 4.0));
    b.extend(vertex(-1.0, 0.5, 0.0, 8.0));
    b.extend(vertex(0.0, 0.0, 0.0, 0.0));
    for i in [0u64, 1, 1, 2] {
        b.extend(word(i));
    }
    for i in [0u64, 1, 2, 0, 1, 7] {
        b.extend(word(i));
    }
    for i in 1..=14u64 {
        b.extend(word(i));
    }
    b
}

fn corrupted<T>() -> Result<T, Error> {
    Err(Error::Import(ImportError::FileCorrupted))
}

#[test]
fn magic_is_the_documented_number() {
    assert_eq!(MAGIC, 0x4d4d4d4d);
}

#[test]
fn big_endian_words() {
    assert_eq!(to_be(0x0102030405060708, 8), vec![1, 2, 3, 4, 5, 6, 7, 8]);
    assert_eq!(to_be(0x01020304, 4), vec![1, 2, 3, 4]);
    assert_eq!(to_be(0x0102, 1), vec![2]);
    assert_eq!(to_be(7, 0), Vec::<u8>::new());
    let bytes = vec![0, 0, 0, 0, 0, 0, 0, 1, 0xff, 0, 0, 0, 0, 0, 0, 2];
    assert_eq!(read_word(&bytes, 0), 1);
    assert_eq!(read_word(&bytes, 1), 0xff00_0000_0000_0002);
}

#[test]
fn cut_takes_bytes_from_the_front() {
    let mut bytes = vec![1u8, 2, 3, 4, 5];
    let head = cut(&mut bytes, 2);
    assert_eq!(head, vec![1, 2]);
    assert_eq!(bytes, vec![3, 4, 5]);
    let none = cut(&mut bytes, 0);
    assert_eq!(none, Vec::<u8>::new());
    let rest = cut(&mut bytes, 3);
    assert_eq!(rest, vec![3, 4, 5]);
    assert!(bytes.is_empty());
}

#[test]
fn cut_u64_reads_big_endian() {
    let mut bytes = vec![0u8, 0, 0, 0, 0, 0, 1, 2, 9];
    assert_eq!(cut_u64(&mut bytes), Ok(258));
    assert_eq!(bytes, vec![9]);
    assert_eq!(cut_u64(&mut bytes), corrupted());
    assert_eq!(bytes, vec![9]);
}

#[test]
fn cut_float_reads_a_binary64_pattern() {
    let mut bytes = 2.5f64.to_be_bytes().to_vec();
    bytes.push(1);
    assert_eq!(cut_float(&mut bytes).map(f64::from_bits), Ok(2.5));
    assert_eq!(bytes, vec![1]);
    assert_eq!(cut_float(&mut bytes), corrupted());
}

#[test]
fn deserialize_u64_reads_big_endian() {
    let mut bytes = word(0xdead_beef_0000_0001);
    bytes.extend([7, 7]);
    assert_eq!(deserialize_u64_from_bytes(&mut bytes), Ok(0xdead_beef_0000_0001));
    assert_eq!(bytes, vec![7, 7]);
    assert_eq!(deserialize_u64_from_bytes(&mut bytes), corrupted());
    assert_eq!(bytes, vec![7, 7]);
}

#[test]
fn each_kind_of_value_is_read() {
    match DData::Vector(vertex(1.0, 2.0, 3.0, 4.0)).deserialize() {
        Ok(SData::Vector(v)) => {
            assert_eq!(v.as_tuple(), (f(1.0), f(2.0), f(3.0), f(4.0)));
            assert!(!v.selected);
            assert_eq!(v.get_proj(), None);
        }
        other => panic!("{:?}", other),
    }
    let mut edge = word(3);
    edge.extend(word(5));
    assert!(matches!(DData::Edge(edge).deserialize(), Ok(SData::Edge(3, 5))));
    let face: Vec<u8> = (1..=6u64).flat_map(word).collect();
    assert!(matches!(
        DData::Face(face).deserialize(),
        Ok(SData::Face((1, 2, 3), (4, 5, 6)))
    ));
    let cell: Vec<u8> = (1..=14u64).flat_map(word).collect();
    assert!(matches!(
        DData::Cell(cell).deserialize(),
        Ok(SData::Cell((1, 2, 3, 4), (5, 6, 7, 8, 9, 10), (11, 12, 13, 14)))
    ));
    assert!(matches!(DData::Uint(word(77)).deserialize(), Ok(SData::Ulong(77))));
    match DData::Float(0.25f64.to_be_bytes().to_vec()).deserialize() {
        Ok(SData::Float(x)) => assert_eq!(f64::from_bits(x), 0.25),
        other => panic!("{:?}", other),
    }
}

#[test]
fn a_value_of_the_wrong_width_is_corrupted() {
    let wrong = vec![
        DData::Uint(vec![0u8; 7]),
        DData::Uint(vec![0u8; 9]),
        DData::Float(vec![0u8; 7]),
        DData::Vector(vec![0u8; 31]),
        DData::Vector(vec![0u8; 33]),
        DData::Edge(vec![0u8; 8]),
        DData::Face(vec![0u8; 24]),
        DData::Cell(vec![0u8; 56]),
    ];
    for data in wrong {
        assert!(
            matches!(data.deserialize(), Err(Error::Import(ImportError::FileCorrupted))),
            "{:?}",
            data
        );
    }
}

#[test]
fn values_are_taken_as_what_they_are() {
    let v = Vec4f::new(f(1.0), f(2.0), f(3.0), f(4.0));
    assert_eq!(SData::Vector(v).as_vector().map(|v| v.as_tuple()), Ok(v.as_tuple()));
    assert_eq!(SData::Edge(1, 2).as_vector().map(|v| v.as_tuple()), Err(Error::Unknown));
    let e = SData::Edge(4, 9).as_edge().unwrap();
    assert_eq!((e.a, e.b, e.selected), (4, 9, false));
    assert!(matches!(SData::Ulong(4).as_edge(), Err(Error::Unknown)));
    assert_eq!(
        SData::Face((1, 2, 3), (4, 5, 6)).as_face(),
        Ok(((1, 2, 3), (4, 5, 6), false))
    );
    assert_eq!(SData::Float(0).as_face(), Err(Error::Unknown));
    assert_eq!(
        SData::Cell((1, 2, 3, 4), (5, 6, 7, 8, 9, 10), (11, 12, 13, 14)).as_cell(),
        Ok(((1, 2, 3, 4), (5, 6, 7, 8, 9, 10), (11, 12, 13, 14), false))
    );
    assert_eq!(SData::Uint(0).as_cell(), Err(Error::Unknown));
}

#[test]
fn values_are_written_big_endian() {
    assert_eq!(SData::Uint(0x4d4d4d4d).serialize(), vec![0x4d, 0x4d, 0x4d, 0x4d]);
    assert_eq!(SData::Ulong(0x4d4d4d4d).serialize(), vec![0, 0, 0, 0, 0x4d, 0x4d, 0x4d, 0x4d]);
    assert_eq!(SData::Float(f(1.0)).serialize(), 1.0f64.to_be_bytes().to_vec());
    assert_eq!(
        SData::Vector(Vec4f::new(f(1.0), f(2.0), f(3.0), f(4.0))).serialize(),
        vertex(1.0, 2.0, 3.0, 4.0)
    );
    let mut edge = word(3);
    edge.extend(word(5));
    assert_eq!(SData::Edge(3, 5).serialize(), edge);
    let face: Vec<u8> = (1..=6u64).flat_map(word).collect();
    assert_eq!(SData::Face((1, 2, 3), (4, 5, 6)).serialize(), face);
    let cell: Vec<u8> = (1..=14u64).flat_map(word).collect();
    assert_eq!(
        SData::Cell((1, 2, 3, 4), (5, 6, 7, 8, 9, 10), (11, 12, 13, 14)).serialize(),
        cell
    );
}

#[test]
fn a_file_is_read() {
    let o = open_4dp(triangle_file()).unwrap();
    assert_eq!(o.vertices.len(), 3);
    assert_eq!(o.vertices[0].as_tuple(), (f(1.0), f(2.0), f(3.0), f(4.0)));
    assert_eq!(o.vertices[1].as_tuple(), (f(-1.0), f(0.5), f(0.0), f(8.0)));
    assert!(o.vertices.iter().all(|v| !v.selected && v.get_proj().is_none()));
    let ends: Vec<(usize, usize, bool)> = o.edges.iter().map(|e| (e.a, e.b, e.selected)).collect();
    assert_eq!(ends, vec![(0, 1, false), (1, 2, false)]);
    assert_eq!(o.faces, vec![((0, 1, 2), (0, 1, 7), false)]);
    assert_eq!(
        o.cells,
        vec![((1, 2, 3, 4), (5, 6, 7, 8, 9, 10), (11, 12, 13, 14), false)]
    );
    assert_eq!(o.name, None);
}

#[test]
fn bytes_behind_the_records_are_ignored() {
    let mut bytes = triangle_file();
    bytes.extend([1, 2, 3]);
    let o = open_4dp(bytes).unwrap();
    assert_eq!(o.vertices.len(), 3);
    assert_eq!(o.edges.len(), 2);
}

#[test]
fn an_empty_mesh_is_a_header() {
    let o = open_4dp(header(0, 0, 0, 0)).unwrap();
    assert!(o.vertices.is_empty() && o.edges.is_empty() && o.faces.is_empty() && o.cells.is_empty());
}

#[test]
fn a_file_without_the_magic_number_has_an_invalid_extension() {
    let mut bytes = triangle_file();
    bytes[7] = 0x4e;
    assert!(matches!(open_4dp(bytes), Err(Error::Import(ImportError::InvalidExtention))));
    let mut repeated = triangle_file();
    for b in repeated.iter_mut().take(8) {
        *b = 0x4d;
    }
    assert!(matches!(open_4dp(repeated), Err(Error::Import(ImportError::InvalidExtention))));
    assert!(matches!(
        open_4dp(b"4d4d4d4d".to_vec()),
        Err(Error::Import(ImportError::InvalidExtention))
    ));
    assert!(matches!(
        open_4dp(vec![0, 0, 0, 0, 0x4d, 0x4d, 0x4d, 0x4d]),
        Err(Error::Import(ImportError::FileCorrupted))
    ));
}

#[test]
fn a_file_that_ends_early_is_corrupted() {
    let whole = triangle_file();
    for len in 0..whole.len() {
        let r = open_4dp(whole[..len].to_vec());
        assert!(
            matches!(r, Err(Error::Import(ImportError::FileCorrupted))),
            "a file of {} bytes",
            len
        );
    }
}

#[test]
fn a_count_that_no_file_can_hold_is_corrupted() {
    let bytes = header(u64::MAX, u64::MAX, u64::MAX, u64::MAX);
    assert!(matches!(open_4dp(bytes), Err(Error::Import(ImportError::FileCorrupted))));
}

#[test]
fn an_edge_to_a_missing_vertex_is_corrupted() {
    let mut b = header(2, 1, 0, 0);
    b.extend(vertex(0.0, 0.0, 0.0, 0.0));
    b.extend(vertex(1.0, 0.0, 0.0, 0.0));
    let mut out_of_range = b.clone();
    out_of_range.extend(word(0));
    out_of_range.extend(word(2));
    assert!(matches!(open_4dp(out_of_range), Err(Error::Import(ImportError::FileCorrupted))));
    let mut looped = b.clone();
    looped.extend(word(1));
    looped.extend(word(1));
    assert!(matches!(open_4dp(looped), Err(Error::Import(ImportError::FileCorrupted))));
    let mut huge = b.clone();
    huge.extend(word(0));
    huge.extend(word(u64::MAX));
    assert!(matches!(open_4dp(huge), Err(Error::Import(ImportError::FileCorrupted))));
    b.extend(word(1));
    b.extend(word(0));
    assert!(open_4dp(b).is_ok());
}

#[test]
fn save_writes_the_layout() {
    let mut o = Object::empty();
    o.vertices.push(Vec4f::new(f(1.0), f(2.0), f(3.0), f(4.0)));
    o.vertices.push(Vec4f::new(f(-1.0), f(0.5), f(0.0), f(8.0)));
    o.vertices.push(Vec4f::new0());
    o.edges.push(Edge::new(0, 1));
    o.edges.push(Edge::new(1, 2));
    o.faces.push(((0, 1, 2), (0, 1, 7), true));
    o.cells.push(((1, 2, 3, 4), (5, 6, 7, 8, 9, 10), (11, 12, 13, 14), false));
    assert_eq!(save(&vec![o]), triangle_file());
}

#[test]
fn save_of_no_mesh_is_a_header() {
    assert_eq!(save(&Vec::new()), header(0, 0, 0, 0));
}

#[test]
fn a_saved_mesh_reads_back() {
    let mut t = Object::tesseract();
    t.select_vertice(3);
    t.select_vertice(7);
    t.vertices[5].set_proj((f(10.0), f(20.0)));
    let back = open_4dp(save(&vec![t.duplicate()])).unwrap();
    assert_eq!(back.vertices.len(), 16);
    assert_eq!(back.edges.len(), 32);
    for (a, b) in t.vertices.iter().zip(&back.vertices) {
        assert_eq!(a.as_tuple(), b.as_tuple());
        assert!(!b.selected);
        assert_eq!(b.get_proj(), None);
    }
    for (a, b) in t.edges.iter().zip(&back.edges) {
        assert_eq!((a.a, a.b), (b.a, b.b));
        assert!(!b.selected);
    }
    assert_eq!(back.name, None);
}

#[test]
fn a_saved_scene_reads_back_as_one_mesh() {
    let a = Object::tesseract();
    let mut b = Object::empty();
    b.vertices.push(Vec4f::newf(f(2.0)));
    b.vertices.push(Vec4f::newf(f(3.0)));
    b.edges.push(Edge::new(1, 0));
    b.faces.push(((0, 1, 0), (0, 0, 0), false));
    let back = open_4dp(save(&vec![a, b])).unwrap();
    assert_eq!(back.vertices.len(), 18);
    assert_eq!(back.edges.len(), 33);
    assert_eq!((back.edges[32].a, back.edges[32].b), (17, 16));
    assert_eq!(back.vertices[17].as_tuple(), Vec4f::newf(f(3.0)).as_tuple());
    assert_eq!(back.faces, vec![((0, 1, 0), (0, 0, 0), false)]);
}

#[test]
fn errors_have_texts() {
    assert_eq!(ImportError::FileNotFound.to_string(), "file not found");
    assert_eq!(ImportError::InvalidExtention.to_string(), "invalid extention");
    assert_eq!(ImportError::FileCorrupted.to_string(), "file corrupted");
    assert_eq!(
        Error::Import(ImportError::FileNotFound).to_string(),
        "Import failed: file not found"
    );
    assert_eq!(
        Error::Import(ImportError::FileCorrupted).to_string(),
        "Import failed: file corrupted"
    );
    assert_eq!(Error::Cancel.to_string(), "Canceled");
    assert_eq!(Error::Unknown.to_string(), "Unknown error");
}

#[test]
fn written_values_read_back() {
    let v = Vec4f::new(f(1.5), f(-2.0), f(0.0), f(1e100));
    match DData::Vector(SData::Vector(v).serialize()).deserialize() {
        Ok(SData::Vector(back)) => assert_eq!(back.as_tuple(), v.as_tuple()),
        other => panic!("{:?}", other),
    }
    assert!(matches!(
        DData::Edge(SData::Edge(7, 9).serialize()).deserialize(),
        Ok(SData::Edge(7, 9))
    ));
    assert!(matches!(
        DData::Face(SData::Face((1, 2, 3), (4, 5, 6)).serialize()).deserialize(),
        Ok(SData::Face((1, 2, 3), (4, 5, 6)))
    ));
    let cell = SData::Cell((1, 2, 3, 4), (5, 6, 7, 8, 9, usize::MAX), (11, 12, 13, 14));
    assert!(matches!(
        DData::Cell(cell.serialize()).deserialize(),
        Ok(SData::Cell((1, 2, 3, 4), (5, 6, 7, 8, 9, usize::MAX), (11, 12, 13, 14)))
    ));
    assert!(matches!(
        DData::Uint(SData::Ulong(u64::MAX).serialize()).deserialize(),
        Ok(SData::Ulong(u64::MAX))
    ));
    match DData::Float(SData::Float(f(-0.0)).serialize()).deserialize() {
        Ok(SData::Float(x)) => assert_eq!(x, f(-0.0)),
        other => panic!("{:?}", other),
    }
    assert!(matches!(
        DData::Uint(SData::Uint(7).serialize()).deserialize(),
        Err(Error::Import(ImportError::FileCorrupted))
    ));
}

use tmd_parser::error::{Component, DecodeError, ErrorKind};
use tmd_parser::header::{Header, HeaderFlags};
use tmd_parser::object::{Normal, Object, ObjectEntry, Vector};
use tmd_parser::primitive::{Color, PrimitiveData};
use tmd_parser::Tmd;

fn word(v: u32) -> [u8; 4] {
    v.to_le_bytes()
}

fn header(id: u32, flags: u32, count: u32) -> Vec<u8> {
    let mut out = Vec::new();
    out.extend_from_slice(&word(id));
    out.extend_from_slice(&word(flags));
    out.extend_from_slice(&word(count));
    out
}

fn entry(arrays: [(u32, u32); 3], scale: i32) -> Vec<u8> {
    let mut out = Vec::new();
    for (top, count) in arrays {
        out.extend_from_slice(&word(top));
        out.extend_from_slice(&word(count));
    }
    out.extend_from_slice(&scale.to_le_bytes());
    out
}

fn record(x: i16, y: i16, z: i16, pad: u16) -> Vec<u8> {
    let mut out = Vec::new();
    out.extend_from_slice(&x.to_le_bytes());
    out.extend_from_slice(&y.to_le_bytes());
    out.extend_from_slice(&z.to_le_bytes());
    out.extend_from_slice(&pad.to_le_bytes());
    out
}

fn line(color: [u8; 3], from: u16, to: u16) -> Vec<u8> {
    let mut out = vec![3, 2, 0x01, 0x40, color[0], color[1], color[2], 0];
    out.extend_from_slice(&from.to_le_bytes());
    out.extend_from_slice(&to.to_le_bytes());
    out
}

/// One object: two vertices at 28, one normal at 44, one line at 52.
fn small_file() -> Vec<u8> {
    let mut file = header(0x41, 0, 1);
    file.extend(entry([(28, 2), (44, 1), (52, 1)], -2));
    file.extend(record(1, 2, 3, 0));
    file.extend(record(-1, -2, -3, 0xffff));
    file.extend(record(4096, 0, 0, 0));
    file.extend(line([7, 8, 9], 0, 1));
    file
}

#[test]
fn header_is_three_little_endian_words() {
    let mut bytes = header(0x0000_0041, 0, 0x0102_0304);
    bytes.push(0xab);
    let (rest, h) = Header::parse(&bytes).unwrap();
    assert_eq!(rest, &[0xab]);
    assert_eq!(h, Header { id: 0x41, flags: HeaderFlags { fix_p: false }, n_obj: 0x0102_0304 });
    let (_, h) = Header::parse(&header(0xffff_fffe, 3, 0)).unwrap();
    assert_eq!(h, Header { id: 0xffff_fffe, flags: HeaderFlags { fix_p: true }, n_obj: 0 });
}

#[test]
fn header_flag_is_bit_zero() {
    assert_eq!(HeaderFlags::from(0), HeaderFlags { fix_p: false });
    assert_eq!(HeaderFlags::from(1), HeaderFlags { fix_p: true });
    assert_eq!(HeaderFlags::from(2), HeaderFlags { fix_p: false });
    assert_eq!(HeaderFlags::from(0xffff_ffff), HeaderFlags { fix_p: true });
}

#[test]
fn short_header_is_truncated() {
    let bytes = header(0x41, 0, 0);
    let expected =
        DecodeError { kind: ErrorKind::Truncated, component: Component::Header, remaining: 11 };
    assert_eq!(Header::parse(&bytes[..11]), Err(expected));
    assert_eq!(Tmd::parse(&bytes[..11]).unwrap_err(), expected);
}

#[test]
fn directory_entry_is_seven_words() {
    let mut bytes = entry([(1, 2), (3, 4), (5, 6)], -7);
    bytes.push(0x99);
    let (rest, e) = ObjectEntry::parse(&bytes).unwrap();
    assert_eq!(rest, &[0x99]);
    assert_eq!(
        e,
        ObjectEntry {
            vert_top: 1,
            n_vert: 2,
            normal_top: 3,
            n_normal: 4,
            primitive_top: 5,
            n_primitive: 6,
            scale: -7,
        }
    );
    let e = ObjectEntry::parse(&bytes[..27]).unwrap_err();
    assert_eq!(
        e,
        DecodeError { kind: ErrorKind::Truncated, component: Component::Directory, remaining: 27 }
    );
}

#[test]
fn decodes_a_small_file() {
    let file = small_file();
    let (rest, tmd) = Tmd::parse(&file).unwrap();
    assert_eq!(rest.len(), file.len() - 12 - 28);
    assert_eq!(tmd.header, Header { id: 0x41, flags: HeaderFlags { fix_p: false }, n_obj: 1 });
    assert_eq!(tmd.obj_table.len(), 1);
    let object = &tmd.obj_table[0];
    assert_eq!(object.vertices, vec![Vector { x: 1, y: 2, z: 3 }, Vector { x: -1, y: -2, z: -3 }]);
    assert_eq!(object.normals, vec![Normal { x: 4096, y: 0, z: 0 }]);
    assert_eq!(object.primitives.len(), 1);
    assert_eq!(
        object.primitives[0].data,
        PrimitiveData::Line { color: Color { r: 7, g: 8, b: 9 }, indices: (0, 1) }
    );
    assert_eq!(object.scale, -2);
}

#[test]
fn decoding_twice_gives_the_same_model() {
    let file = small_file();
    let (rest1, first) = Tmd::parse(&file).unwrap();
    let (rest2, second) = Tmd::parse(&file).unwrap();
    assert_eq!(rest1, rest2);
    assert_eq!(first.header, second.header);
    assert_eq!(first.obj_table.len(), second.obj_table.len());
    for (a, b) in first.obj_table.iter().zip(second.obj_table.iter()) {
        assert_eq!(a.vertices, b.vertices);
        assert_eq!(a.normals, b.normals);
        assert_eq!(a.primitives, b.primitives);
        assert_eq!(a.scale, b.scale);
    }
    let broken = &file[..file.len() - 1];
    assert_eq!(Tmd::parse(broken).unwrap_err(), Tmd::parse(broken).unwrap_err());
}

#[test]
fn no_objects_takes_no_directory_bytes() {
    let mut file = header(0x41, 0, 0);
    file.extend_from_slice(&[1, 2, 3]);
    let (rest, tmd) = Tmd::parse(&file).unwrap();
    assert_eq!(rest, &[1, 2, 3]);
    assert!(tmd.obj_table.is_empty());
    assert_eq!(tmd.header.n_obj, 0);
    let bare = header(0x41, 0, 0);
    let (rest, tmd) = Tmd::parse(&bare).unwrap();
    assert!(rest.is_empty());
    assert!(tmd.obj_table.is_empty());
}

#[test]
fn object_count_is_met_exactly() {
    let mut file = header(0x41, 0, 3);
    for _ in 0..3 {
        file.extend(entry([(84, 0), (84, 0), (84, 0)], 0));
    }
    let (rest, tmd) = Tmd::parse(&file).unwrap();
    assert!(rest.is_empty());
    assert_eq!(tmd.obj_table.len(), 3);
    assert_eq!(tmd.header.n_obj, 3);
    let mut file = header(0x41, 0, 3);
    for _ in 0..3 {
        file.extend(entry([(0, 0), (0, 0), (0, 0)], 0));
    }
    let short = &file[..file.len() - 1];
    let e = Tmd::parse(short).unwrap_err();
    assert_eq!(e.kind, ErrorKind::Truncated);
    assert_eq!(e.component, Component::Directory);
    assert_eq!(e.remaining, 27);
    assert_eq!(e.offset(short.len()), Some(12 + 56));
}

#[test]
fn relocated_layout_is_refused_on_the_header() {
    let expected = |remaining: usize| DecodeError {
        kind: ErrorKind::UnsupportedLayout,
        component: Component::Header,
        remaining,
    };
    let bare = header(0x41, 1, 5);
    assert_eq!(Tmd::parse(&bare).unwrap_err(), expected(12));
    let mut full = small_file();
    full[4] = 1;
    assert_eq!(Tmd::parse(&full).unwrap_err(), expected(full.len()));
    full[4] = 0xff;
    assert_eq!(Tmd::parse(&full).unwrap_err(), expected(full.len()));
}

#[test]
fn empty_array_may_begin_at_the_end() {
    let base = entry([(28, 0), (28, 0), (28, 0)], 5);
    assert_eq!(base.len(), 28);
    let (rest, object) = Object::parse_with(&base, &base).unwrap();
    assert!(rest.is_empty());
    assert!(object.vertices.is_empty());
    assert!(object.normals.is_empty());
    assert!(object.primitives.is_empty());
    assert_eq!(object.scale, 5);
}

#[test]
fn offset_past_the_end_is_out_of_range() {
    let out = |component: Component, offset: u32| DecodeError {
        kind: ErrorKind::OffsetOutOfRange { offset },
        component,
        remaining: 0,
    };
    let base = entry([(29, 0), (0, 0), (0, 0)], 0);
    assert_eq!(Object::parse_with(&base, &base).unwrap_err(), out(Component::Vertices, 29));
    let base = entry([(0, 0), (0xffff_ffff, 0), (0, 0)], 0);
    assert_eq!(
        Object::parse_with(&base, &base).unwrap_err(),
        out(Component::Normals, 0xffff_ffff)
    );
    let base = entry([(0, 0), (0, 0), (1000, 1)], 0);
    assert_eq!(Object::parse_with(&base, &base).unwrap_err(), out(Component::Primitives, 1000));
}

#[test]
fn array_that_runs_past_the_end_is_truncated() {
    let mut base = entry([(28, 2), (28, 0), (28, 0)], 0);
    base.extend(record(1, 2, 3, 0));
    base.extend_from_slice(&[0, 0, 0]);
    let e = Object::parse_with(&base, &base).unwrap_err();
    assert_eq!(
        e,
        DecodeError { kind: ErrorKind::Truncated, component: Component::Vertices, remaining: 3 }
    );
    let base = entry([(28, 0), (20, 2), (28, 0)], 0);
    let e = Object::parse_with(&base, &base).unwrap_err();
    assert_eq!(
        e,
        DecodeError { kind: ErrorKind::Truncated, component: Component::Normals, remaining: 0 }
    );
}

#[test]
fn arrays_may_overlap() {
    let mut file = header(0x41, 0, 2);
    file.extend(entry([(56, 2), (56, 1), (72, 1)], 0));
    file.extend(entry([(64, 1), (56, 2), (72, 1)], 1));
    file.extend(record(10, 20, 30, 0));
    file.extend(record(40, 50, 60, 0));
    file.extend(line([1, 2, 3], 1, 0));
    let (_, tmd) = Tmd::parse(&file).unwrap();
    assert_eq!(tmd.obj_table.len(), 2);
    let (a, b) = (&tmd.obj_table[0], &tmd.obj_table[1]);
    assert_eq!(a.vertices, vec![Vector { x: 10, y: 20, z: 30 }, Vector { x: 40, y: 50, z: 60 }]);
    assert_eq!(a.normals, vec![Normal { x: 10, y: 20, z: 30 }]);
    assert_eq!(b.vertices, vec![Vector { x: 40, y: 50, z: 60 }]);
    assert_eq!(b.normals.len(), 2);
    assert_eq!(a.primitives, b.primitives);
    assert_eq!(b.scale, 1);
}

#[test]
fn a_failing_primitive_fails_the_whole_file() {
    let mut file = small_file();
    let at = file.len() - 12 + 3;
    file[at] = 0x20;
    let e = Tmd::parse(&file).unwrap_err();
    assert_eq!(e.component, Component::Primitives);
    assert_eq!(e.remaining, 12);
    assert_eq!(e.offset(file.len()), Some(12 + 52));
    assert!(matches!(e.kind, ErrorKind::UnsupportedPrimitive { .. }));
    file[at] = 0x00;
    let e = Tmd::parse(&file).unwrap_err();
    assert_eq!(e.kind, ErrorKind::UnknownPrimitiveMode);
}

#[test]
fn from_entry_loads_what_the_entry_locates() {
    let file = small_file();
    let base = &file[12..];
    let (_, e) = ObjectEntry::parse(base).unwrap();
    let object = Object::from_entry(base, &e).unwrap();
    assert_eq!(object.vertices.len(), 2);
    assert_eq!(object.normals.len(), 1);
    assert_eq!(object.primitives.len(), 1);
    let (rest, run) = Object::parse_count(base, base, 1).unwrap();
    assert_eq!(rest.len(), base.len() - 28);
    assert_eq!(run.len(), 1);
    assert_eq!(run[0].vertices, object.vertices);
}

#[test]
fn error_offset_needs_a_long_enough_buffer() {
    let e = DecodeError { kind: ErrorKind::Truncated, component: Component::Header, remaining: 5 };
    assert_eq!(e.offset(5), Some(0));
    assert_eq!(e.offset(12), Some(7));
    assert_eq!(e.offset(4), None);
    assert_eq!(DecodeError::truncated(Component::Header, 5), e);
}

use tmd_parser::error::{Component, DecodeError, ErrorKind};
use tmd_parser::wire::{byte, le_i16, le_i32, le_u16, le_u32};

fn short(component: Component, remaining: usize) -> DecodeError {
    DecodeError { kind: ErrorKind::Truncated, component, remaining }
}

#[test]
fn byte_is_the_first_byte() {
    let (rest, v) = byte(&[0xfe, 1, 2], Component::Primitives).unwrap();
    assert_eq!(v, 0xfe);
    assert_eq!(rest, &[1, 2]);
    assert_eq!(byte(&[], Component::Primitives), Err(short(Component::Primitives, 0)));
}

#[test]
fn unsigned_words_put_the_low_byte_first() {
    let bytes = [0x78, 0x56, 0x34, 0x12, 0xff];
    let (rest, v) = le_u16(&bytes, Component::Primitives).unwrap();
    assert_eq!(v, 0x5678);
    assert_eq!(rest, &[0x34, 0x12, 0xff]);
    let (rest, v) = le_u32(&bytes, Component::Header).unwrap();
    assert_eq!(v, 0x1234_5678);
    assert_eq!(rest, &[0xff]);
    let (_, v) = le_u16(&[0xff, 0xff], Component::Primitives).unwrap();
    assert_eq!(v, u16::MAX);
    let (_, v) = le_u32(&[0xff, 0xff, 0xff, 0xff], Component::Header).unwrap();
    assert_eq!(v, u32::MAX);
    let (_, v) = le_u32(&[0, 0, 0, 0x80], Component::Header).unwrap();
    assert_eq!(v, 0x8000_0000);
}

#[test]
fn signed_words_are_twos_complement() {
    let (rest, v) = le_i16(&[0xff, 0x7f, 9], Component::Vertices).unwrap();
    assert_eq!(v, i16::MAX);
    assert_eq!(rest, &[9]);
    let (_, v) = le_i16(&[0x00, 0x80], Component::Vertices).unwrap();
    assert_eq!(v, i16::MIN);
    let (_, v) = le_i16(&[0xfe, 0xff], Component::Vertices).unwrap();
    assert_eq!(v, -2);
    let (rest, v) = le_i32(&[0xff, 0xff, 0xff, 0x7f, 9], Component::Directory).unwrap();
    assert_eq!(v, i32::MAX);
    assert_eq!(rest, &[9]);
    let (_, v) = le_i32(&[0x00, 0x00, 0x00, 0x80], Component::Directory).unwrap();
    assert_eq!(v, i32::MIN);
    let (_, v) = le_i32(&[0xfd, 0xff, 0xff, 0xff], Component::Directory).unwrap();
    assert_eq!(v, -3);
}

#[test]
fn short_words_are_truncated() {
    assert_eq!(le_u16(&[1], Component::Primitives), Err(short(Component::Primitives, 1)));
    assert_eq!(le_i16(&[], Component::Normals), Err(short(Component::Normals, 0)));
    assert_eq!(le_u32(&[1, 2, 3], Component::Header), Err(short(Component::Header, 3)));
    assert_eq!(le_i32(&[1, 2], Component::Directory), Err(short(Component::Directory, 2)));
}

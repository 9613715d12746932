//! Little-endian integers on the wire. The reading itself is nom's; this
//! module states what nom returns and turns its error into the library's own.

use crate::error::{Component, DecodeError};
use crate::grammar::{fixed, yields};
use vstd::prelude::*;

verus! {

/// `nom::Err`, the failure of a nom parser. Nothing is read from it: that a
/// number parser failed says that the input was too short.
#[verifier::external_type_specification]
#[verifier::external_body]
#[verifier::reject_recursive_types(E)]
pub struct ExNomErr<E>(nom::Err<E>);

/// `nom::error::Error`, what a failure of a nom parser carries. Nothing is
/// read from it.
#[verifier::external_type_specification]
#[verifier::external_body]
#[verifier::reject_recursive_types(I)]
pub struct ExNomError<I>(nom::error::Error<I>);

/// The unsigned 16-bit value whose little-endian bytes are `s[i]`, `s[i + 1]`.
pub open spec fn u16_le(s: Seq<u8>, i: int) -> u16
    recommends
        0 <= i,
        i + 2 <= s.len(),
{
    (s[i] as int + 0x100 * (s[i + 1] as int)) as u16
}

/// The signed 16-bit value, in two's complement, of the same two bytes.
pub open spec fn i16_le(s: Seq<u8>, i: int) -> i16
    recommends
        0 <= i,
        i + 2 <= s.len(),
{
    let u = u16_le(s, i);
    if u < 0x8000 {
        u as i16
    } else {
        (u - 0x1_0000) as i16
    }
}

/// The unsigned 32-bit value whose little-endian bytes are `s[i] .. s[i + 3]`.
pub open spec fn u32_le(s: Seq<u8>, i: int) -> u32
    recommends
        0 <= i,
        i + 4 <= s.len(),
{
    (s[i] as int + 0x100 * (s[i + 1] as int) + 0x1_0000 * (s[i + 2] as int) + 0x100_0000 * (s[i
        + 3] as int)) as u32
}

/// The signed 32-bit value, in two's complement, of the same four bytes.
pub open spec fn i32_le(s: Seq<u8>, i: int) -> i32
    recommends
        0 <= i,
        i + 4 <= s.len(),
{
    let u = u32_le(s, i);
    if u < 0x8000_0000 {
        u as i32
    } else {
        (u - 0x1_0000_0000) as i32
    }
}

/// `nom::number::complete::u8`. Believed of it: on a non-empty input it
/// succeeds and returns the first byte and the input without it; on an empty
/// input it fails.
#[verifier::external_body]
fn nom_u8(input: &[u8]) -> (r: Result<(&[u8], u8), nom::Err<nom::error::Error<&[u8]>>>)
    ensures
        r is Ok <==> input@.len() >= 1,
        r matches Ok((rest, v)) ==> rest@ == input@.skip(1) && v == input@[0],
{
    nom::number::complete::u8(input)
}

/// `nom::number::complete::le_u16`. Believed of it: with two bytes or more
/// it succeeds and returns the input without its first two bytes, and the
/// value that those bytes spell, low byte first; with fewer it fails.
#[verifier::external_body]
fn nom_le_u16(input: &[u8]) -> (r: Result<(&[u8], u16), nom::Err<nom::error::Error<&[u8]>>>)
    ensures
        r is Ok <==> input@.len() >= 2,
        r matches Ok((rest, v)) ==> rest@ == input@.skip(2) && v == u16_le(input@, 0),
{
    nom::number::complete::le_u16(input)
}

/// `nom::number::complete::le_i16`. Believed of it: as `le_u16`, with the
/// two bytes read as a two's-complement number.
#[verifier::external_body]
fn nom_le_i16(input: &[u8]) -> (r: Result<(&[u8], i16), nom::Err<nom::error::Error<&[u8]>>>)
    ensures
        r is Ok <==> input@.len() >= 2,
        r matches Ok((rest, v)) ==> rest@ == input@.skip(2) && v == i16_le(input@, 0),
{
    nom::number::complete::le_i16(input)
}

/// `nom::number::complete::le_u32`. Believed of it: with four bytes or more
/// it succeeds and returns the input without its first four bytes, and the
/// value that those bytes spell, low byte first; with fewer it fails.
#[verifier::external_body]
fn nom_le_u32(input: &[u8]) -> (r: Result<(&[u8], u32), nom::Err<nom::error::Error<&[u8]>>>)
    ensures
        r is Ok <==> input@.len() >= 4,
        r matches Ok((rest, v)) ==> rest@ == input@.skip(4) && v == u32_le(input@, 0),
{
    nom::number::complete::le_u32(input)
}

/// `nom::number::complete::le_i32`. Believed of it: as `le_u32`, with the
/// four bytes read as a two's-complement number.
#[verifier::external_body]
fn nom_le_i32(input: &[u8]) -> (r: Result<(&[u8], i32), nom::Err<nom::error::Error<&[u8]>>>)
    ensures
        r is Ok <==> input@.len() >= 4,
        r matches Ok((rest, v)) ==> rest@ == input@.skip(4) && v == i32_le(input@, 0),
{
    nom::number::complete::le_i32(input)
}

/// Reads one byte of a record of `part`.
pub fn byte(data: &[u8], part: Component) -> (r: Result<(&[u8], u8), DecodeError>)
    ensures
        yields(r, data@, fixed(data@, 1, data@[0], part)),
{
    match nom_u8(data) {
        Ok(found) => Ok(found),
        Err(_) => Err(DecodeError::truncated(part, data.len())),
    }
}

/// Reads an unsigned little-endian 16-bit word of a record of `part`.
pub fn le_u16(data: &[u8], part: Component) -> (r: Result<(&[u8], u16), DecodeError>)
    ensures
        yields(r, data@, fixed(data@, 2, u16_le(data@, 0), part)),
{
    match nom_le_u16(data) {
        Ok(found) => Ok(found),
        Err(_) => Err(DecodeError::truncated(part, data.len())),
    }
}

/// Reads a signed little-endian 16-bit word of a record of `part`.
pub fn le_i16(data: &[u8], part: Component) -> (r: Result<(&[u8], i16), DecodeError>)
    ensures
        yields(r, data@, fixed(data@, 2, i16_le(data@, 0), part)),
{
    match nom_le_i16(data) {
        Ok(found) => Ok(found),
        Err(_) => Err(DecodeError::truncated(part, data.len())),
    }
}

/// Reads an unsigned little-endian 32-bit word of a record of `part`.
pub fn le_u32(data: &[u8], part: Component) -> (r: Result<(&[u8], u32), DecodeError>)
    ensures
        yields(r, data@, fixed(data@, 4, u32_le(data@, 0), part)),
{
    match nom_le_u32(data) {
        Ok(found) => Ok(found),
        Err(_) => Err(DecodeError::truncated(part, data.len())),
    }
}

/// Reads a signed little-endian 32-bit word of a record of `part`.
pub fn le_i32(data: &[u8], part: Component) -> (r: Result<(&[u8], i32), DecodeError>)
    ensures
        yields(r, data@, fixed(data@, 4, i32_le(data@, 0), part)),
{
    match nom_le_i32(data) {
        Ok(found) => Ok(found),
        Err(_) => Err(DecodeError::truncated(part, data.len())),
    }
}

} // verus!

//! Drawing primitives: a four-byte prefix whose mode byte selects the kind of
//! primitive and the shape of the payload that follows.

use crate::error::{Component, DecodeError, ErrorKind};
use crate::grammar::{fixed, yields, yields_view};
use crate::wire::{byte, le_u16, u16_le};
use vstd::prelude::*;

verus! {

/// The flag byte of a primitive's prefix.
#[derive(Debug, Clone, Copy, PartialEq, Eq)]
pub struct PrimitiveFlags {
    /// Bit 2: the polygon is shaded with a gradient.
    pub gradient: bool,
    /// Bit 1: the polygon has two faces.
    pub double_sided: bool,
    /// Bit 0: light-source calculation applies.
    pub lit: bool,
}

impl PrimitiveFlags {
    /// The flags that the byte `f` spells.
    pub open spec fn of_byte(f: u8) -> PrimitiveFlags {
        PrimitiveFlags { gradient: f & 4 > 0, double_sided: f & 2 > 0, lit: f & 1 > 0 }
    }
}

impl From<u8> for PrimitiveFlags {
    fn from(f: u8) -> (r: Self)
        ensures
            r == PrimitiveFlags::of_byte(f),
    {
        PrimitiveFlags { gradient: f & 4 > 0, double_sided: f & 2 > 0, lit: f & 1 > 0 }
    }
}

impl vstd::std_specs::convert::FromSpecImpl<u8> for PrimitiveFlags {
    open spec fn obeys_from_spec() -> bool {
        true
    }

    open spec fn from_spec(f: u8) -> Self {
        PrimitiveFlags::of_byte(f)
    }
}

/// The size of a sprite, bits 3 and 4 of its mode byte.
#[derive(Debug, Clone, Copy, PartialEq, Eq)]
pub enum PrimitiveSpriteSize {
    Free,
    S1x1,
    S8x8,
    S16x16,
}

impl PrimitiveSpriteSize {
    /// The size that bits 3 and 4 of the mode byte `f` spell.
    pub open spec fn of_byte(f: u8) -> PrimitiveSpriteSize {
        let k = (f >> 3) & 3;
        if k == 0 {
            PrimitiveSpriteSize::Free
        } else if k == 1 {
            PrimitiveSpriteSize::S1x1
        } else if k == 2 {
            PrimitiveSpriteSize::S8x8
        } else {
            PrimitiveSpriteSize::S16x16
        }
    }
}

impl From<u8> for PrimitiveSpriteSize {
    fn from(f: u8) -> (r: Self)
        ensures
            r == PrimitiveSpriteSize::of_byte(f),
    {
        let k: u8 = (f >> 3) & 3;
        if k == 0 {
            PrimitiveSpriteSize::Free
        } else if k == 1 {
            PrimitiveSpriteSize::S1x1
        } else if k == 2 {
            PrimitiveSpriteSize::S8x8
        } else {
            PrimitiveSpriteSize::S16x16
        }
    }
}

impl vstd::std_specs::convert::FromSpecImpl<u8> for PrimitiveSpriteSize {
    open spec fn obeys_from_spec() -> bool {
        true
    }

    open spec fn from_spec(f: u8) -> Self {
        PrimitiveSpriteSize::of_byte(f)
    }
}

/// The kind of a primitive with the options of that kind, all spelled by the
/// mode byte of the prefix.
#[derive(Debug, Clone, Copy, PartialEq, Eq)]
pub enum PrimitiveMode {
    Polygon {
        /// Bit 4: Gouraud shading rather than flat.
        smooth_shading: bool,
        /// Bit 3: there is a fourth vertex.
        more: bool,
        /// Bit 2: a texture is mapped on.
        textured: bool,
        /// Bit 1: drawn translucent.
        translucent: bool,
        /// Bit 0: the texture is lit.
        lit: bool,
    },
    Line {
        /// Bit 4: two colours, blended from one end to the other.
        gradient: bool,
        /// Bit 1: drawn translucent.
        translucent: bool,
    },
    Sprite {
        /// Bits 3 and 4.
        size: PrimitiveSpriteSize,
        /// Bit 1: drawn translucent.
        translucent: bool,
    },
}

impl PrimitiveMode {
    /// The mode that the byte `f` spells. Its top three bits choose the kind:
    /// 1 a polygon, 2 a line, 3 a sprite, and nothing else is a mode.
    pub open spec fn of_byte(f: u8) -> Result<PrimitiveMode, ErrorKind> {
        let kind = f >> 5;
        if kind == 1 {
            Ok(
                PrimitiveMode::Polygon {
                    smooth_shading: f & 16 > 0,
                    more: f & 8 > 0,
                    textured: f & 4 > 0,
                    translucent: f & 2 > 0,
                    lit: f & 1 > 0,
                },
            )
        } else if kind == 2 {
            Ok(PrimitiveMode::Line { gradient: f & 16 > 0, translucent: f & 2 > 0 })
        } else if kind == 3 {
            Ok(
                PrimitiveMode::Sprite {
                    size: PrimitiveSpriteSize::of_byte(f),
                    translucent: f & 2 > 0,
                },
            )
        } else {
            Err(ErrorKind::UnknownPrimitiveMode)
        }
    }
}

impl TryFrom<u8> for PrimitiveMode {
    type Error = ErrorKind;

    fn try_from(f: u8) -> (r: Result<Self, ErrorKind>)
        ensures
            r == PrimitiveMode::of_byte(f),
    {
        let kind: u8 = f >> 5;
        if kind == 1 {
            Ok(
                PrimitiveMode::Polygon {
                    smooth_shading: f & 16 > 0,
                    more: f & 8 > 0,
                    textured: f & 4 > 0,
                    translucent: f & 2 > 0,
                    lit: f & 1 > 0,
                },
            )
        } else if kind == 2 {
            Ok(PrimitiveMode::Line { gradient: f & 16 > 0, translucent: f & 2 > 0 })
        } else if kind == 3 {
            Ok(PrimitiveMode::Sprite { size: PrimitiveSpriteSize::from(f), translucent: f & 2 > 0 })
        } else {
            Err(ErrorKind::UnknownPrimitiveMode)
        }
    }
}

impl vstd::std_specs::convert::TryFromSpecImpl<u8> for PrimitiveMode {
    open spec fn obeys_try_from_spec() -> bool {
        true
    }

    open spec fn try_from_spec(f: u8) -> Result<Self, ErrorKind> {
        PrimitiveMode::of_byte(f)
    }
}

/// A colour, three channels of eight bits. On the wire one unused byte
/// follows it.
#[derive(Debug, Clone, Copy, PartialEq, Eq)]
pub struct Color {
    pub r: u8,
    pub g: u8,
    pub b: u8,
}

impl Color {
    /// The colour whose channels are the three bytes of `s` from `i` on.
    pub open spec fn at(s: Seq<u8>, i: int) -> Color
        recommends
            0 <= i,
            i + 3 <= s.len(),
    {
        Color { r: s[i], g: s[i + 1], b: s[i + 2] }
    }

    /// The three channel bytes alone.
    pub open spec fn decode(s: Seq<u8>) -> Result<(Color, nat), DecodeError> {
        fixed(s, 3, Color::at(s, 0), Component::Primitives)
    }

    /// The three channel bytes and the byte of padding behind them.
    pub open spec fn decode_padded(s: Seq<u8>) -> Result<(Color, nat), DecodeError> {
        fixed(s, 4, Color::at(s, 0), Component::Primitives)
    }

    /// Reads the three channels of a colour.
    pub fn parse(data: &[u8]) -> (r: Result<(&[u8], Color), DecodeError>)
        ensures
            yields(r, data@, Color::decode(data@)),
    {
        if data.len() < 3 {
            return Err(DecodeError::truncated(Component::Primitives, data.len()));
        }
        let (rest, r) = byte(data, Component::Primitives)?;
        let (rest, g) = byte(rest, Component::Primitives)?;
        let (rest, b) = byte(rest, Component::Primitives)?;
        assert(rest@ =~= data@.skip(3));
        Ok((rest, Color { r, g, b }))
    }

    /// Reads a colour as it stands in a primitive: the three channels, then
    /// one byte that is skipped whatever it holds.
    pub fn parse_pad(data: &[u8]) -> (r: Result<(&[u8], Color), DecodeError>)
        ensures
            yields(r, data@, Color::decode_padded(data@)),
    {
        if data.len() < 4 {
            return Err(DecodeError::truncated(Component::Primitives, data.len()));
        }
        let (rest, color) = Color::parse(data)?;
        let (rest, _) = byte(rest, Component::Primitives)?;
        assert(rest@ =~= data@.skip(4));
        Ok((rest, color))
    }
}

/// Reads a padded colour; the same as `Color::parse_pad`.
pub fn color(data: &[u8]) -> (r: Result<(&[u8], Color), DecodeError>)
    ensures
        yields(r, data@, Color::decode_padded(data@)),
{
    Color::parse_pad(data)
}

/// The payload of a primitive. Lines are the only primitives whose payload
/// is decoded.
#[derive(Debug, Clone, Copy, PartialEq, Eq)]
#[non_exhaustive]
pub enum PrimitiveData {
    /// A line of one colour between two vertices, given by their indices.
    Line { color: Color, indices: (usize, usize) },
    /// A line whose colour runs from the first to the second of `colors`.
    LineGr { colors: (Color, Color), indices: (usize, usize) },
}

/// One drawable element of an object.
#[derive(Debug, Clone, Copy, PartialEq, Eq)]
pub struct Primitive {
    /// Length in words of the drawing packet, as the file declares it. It is
    /// carried along and never consulted.
    pub olen: u8,
    /// Length in words of the packet data, as the file declares it. It is
    /// carried along and never consulted.
    pub ilen: u8,
    pub flag: PrimitiveFlags,
    pub mode: PrimitiveMode,
    pub data: PrimitiveData,
}

impl Primitive {
    /// The indices of the two vertices that the primitive joins.
    pub open spec fn spec_endpoints(self) -> (usize, usize) {
        match self.data {
            PrimitiveData::Line { color: _, indices } => indices,
            PrimitiveData::LineGr { colors: _, indices } => indices,
        }
    }

    /// The indices of the two vertices that the primitive joins, in the
    /// order of the file. They are as the file gives them: nothing has held
    /// them against the number of vertices.
    pub fn endpoints(&self) -> (r: (usize, usize))
        ensures
            r == self.spec_endpoints(),
    {
        match self.data {
            PrimitiveData::Line { color: _, indices } => indices,
            PrimitiveData::LineGr { colors: _, indices } => indices,
        }
    }

    /// The primitive at the start of `s`, and the number of bytes it takes.
    ///
    /// Four bytes of prefix: both declared lengths, the flag byte, the mode
    /// byte. A line follows with one padded colour, or two where its mode
    /// says gradient, and then the two vertex indices, 16 bits each. The
    /// size comes from this structure alone, never from the declared lengths.
    pub open spec fn decode(s: Seq<u8>) -> Result<(Primitive, nat), DecodeError> {
        if s.len() < 4 {
            Err(DecodeError::spec_truncated(Component::Primitives, s.len()))
        } else {
            let flag = PrimitiveFlags::of_byte(s[2]);
            match PrimitiveMode::of_byte(s[3]) {
                Err(kind) => Err(Primitive::refused(kind, s.len())),
                Ok(PrimitiveMode::Line { gradient: true, translucent }) => fixed(
                    s,
                    16,
                    Primitive {
                        olen: s[0],
                        ilen: s[1],
                        flag,
                        mode: PrimitiveMode::Line { gradient: true, translucent },
                        data: PrimitiveData::LineGr {
                            colors: (Color::at(s, 4), Color::at(s, 8)),
                            indices: (u16_le(s, 12) as usize, u16_le(s, 14) as usize),
                        },
                    },
                    Component::Primitives,
                ),
                Ok(PrimitiveMode::Line { gradient: false, translucent }) => fixed(
                    s,
                    12,
                    Primitive {
                        olen: s[0],
                        ilen: s[1],
                        flag,
                        mode: PrimitiveMode::Line { gradient: false, translucent },
                        data: PrimitiveData::Line {
                            color: Color::at(s, 4),
                            indices: (u16_le(s, 8) as usize, u16_le(s, 10) as usize),
                        },
                    },
                    Component::Primitives,
                ),
                Ok(mode) => Err(
                    Primitive::refused(ErrorKind::UnsupportedPrimitive { mode, flags: flag }, s.len()),
                ),
            }
        }
    }

    /// The error of a primitive that is refused for what its prefix says,
    /// where `remaining` bytes are left from its first byte on.
    pub open spec fn refused(kind: ErrorKind, remaining: nat) -> DecodeError {
        DecodeError { kind, component: Component::Primitives, remaining: remaining as usize }
    }

    /// Reads the two vertex indices that end a line's payload.
    fn parse_indices(data: &[u8]) -> (r: Result<(&[u8], (usize, usize)), DecodeError>)
        ensures
            yields(
                r,
                data@,
                fixed(
                    data@,
                    4,
                    (u16_le(data@, 0) as usize, u16_le(data@, 2) as usize),
                    Component::Primitives,
                ),
            ),
    {
        if data.len() < 4 {
            return Err(DecodeError::truncated(Component::Primitives, data.len()));
        }
        let (rest, first) = le_u16(data, Component::Primitives)?;
        let (rest, second) = le_u16(rest, Component::Primitives)?;
        assert(rest@ =~= data@.skip(4));
        Ok((rest, (first as usize, second as usize)))
    }

    /// Decodes the primitive at the start of `data` and returns it with the
    /// bytes behind it.
    pub fn parse(data: &[u8]) -> (r: Result<(&[u8], Primitive), DecodeError>)
        ensures
            yields(r, data@, Primitive::decode(data@)),
    {
        let part = Component::Primitives;
        let remaining = data.len();
        if remaining < 4 {
            return Err(DecodeError::truncated(part, remaining));
        }
        let (rest, olen) = byte(data, part)?;
        let (rest, ilen) = byte(rest, part)?;
        let (rest, flag) = byte(rest, part)?;
        let (rest, mode) = byte(rest, part)?;
        assert(rest@ =~= data@.skip(4));
        let flag = PrimitiveFlags::from(flag);
        let mode = match PrimitiveMode::try_from(mode) {
            Ok(mode) => mode,
            Err(kind) => {
                return Err(DecodeError { kind, component: part, remaining });
            },
        };
        match mode {
            PrimitiveMode::Line { gradient, translucent: _ } => {
                if gradient {
                    if remaining < 16 {
                        return Err(DecodeError::truncated(part, remaining));
                    }
                    let (rest, first) = Color::parse_pad(rest)?;
                    let (rest, second) = Color::parse_pad(rest)?;
                    let (rest, indices) = Primitive::parse_indices(rest)?;
                    assert(rest@ =~= data@.skip(16));
                    let data = PrimitiveData::LineGr { colors: (first, second), indices };
                    Ok((rest, Primitive { olen, ilen, flag, mode, data }))
                } else {
                    if remaining < 12 {
                        return Err(DecodeError::truncated(part, remaining));
                    }
                    let (rest, color) = Color::parse_pad(rest)?;
                    let (rest, indices) = Primitive::parse_indices(rest)?;
                    assert(rest@ =~= data@.skip(12));
                    let data = PrimitiveData::Line { color, indices };
                    Ok((rest, Primitive { olen, ilen, flag, mode, data }))
                }
            },
            _ => Err(
                DecodeError {
                    kind: ErrorKind::UnsupportedPrimitive { mode, flags: flag },
                    component: part,
                    remaining,
                },
            ),
        }
    }
}

impl Primitive {
    /// The first `count` primitives of `s`, decoded one behind the other,
    /// and the bytes they take together. Each begins where the one before
    /// it ended; the first that fails gives its error to the whole.
    pub open spec fn decode_count(s: Seq<u8>, count: nat) -> Result<
        (Seq<Primitive>, nat),
        DecodeError,
    >
        decreases count,
    {
        if count == 0 {
            Ok((Seq::empty(), 0))
        } else {
            match Primitive::decode_count(s, (count - 1) as nat) {
                Err(e) => Err(e),
                Ok((before, used)) => match Primitive::decode(s.skip(used as int)) {
                    Err(e) => Err(e),
                    Ok((last, n)) => Ok((before.push(last), used + n)),
                },
            }
        }
    }

    /// An error among the first `k` primitives is the error of any longer
    /// run.
    pub proof fn lemma_error_is_kept(s: Seq<u8>, k: nat, count: nat)
        requires
            k <= count,
            Primitive::decode_count(s, k) is Err,
        ensures
            Primitive::decode_count(s, count) == Primitive::decode_count(s, k),
        decreases count,
    {
        if k < count {
            Primitive::lemma_error_is_kept(s, k, (count - 1) as nat);
        }
    }

    /// Whatever fails in a run of primitives, it is a failure of a primitive.
    pub proof fn lemma_errors_are_of_primitives(s: Seq<u8>, count: nat)
        ensures
            Primitive::decode_count(s, count) matches Err(e) ==> e.component
                == Component::Primitives,
        decreases count,
    {
        if count > 0 {
            Primitive::lemma_errors_are_of_primitives(s, (count - 1) as nat);
        }
    }

    /// The primitive that fails in a run begins within the run, and a run
    /// that decodes takes no more bytes than there are.
    pub proof fn lemma_failure_lies_within(s: Seq<u8>, count: nat)
        ensures
            Primitive::decode_count(s, count) matches Err(e) ==> e.remaining <= s.len(),
            Primitive::decode_count(s, count) matches Ok((_, used)) ==> used <= s.len(),
        decreases count,
    {
        if count > 0 {
            Primitive::lemma_failure_lies_within(s, (count - 1) as nat);
        }
    }

    /// Reads `count` primitives, one behind the other.
    pub fn parse_count(data: &[u8], count: usize) -> (r: Result<
        (&[u8], Vec<Primitive>),
        DecodeError,
    >)
        ensures
            yields_view(r, data@, Primitive::decode_count(data@, count as nat)),
    {
        let mut out: Vec<Primitive> = Vec::new();
        let mut rest = data;
        let mut i: usize = 0;
        let ghost mut used: nat = 0;
        while i < count
            invariant
                i <= count,
                used <= data@.len(),
                rest@ == data@.skip(used as int),
                Primitive::decode_count(data@, i as nat) == Ok::<_, DecodeError>((out@, used)),
            decreases count - i,
        {
            match Primitive::parse(rest) {
                Ok((next, p)) => {
                    proof {
                        let n = Primitive::decode(rest@)->Ok_0.1;
                        assert(next@ =~= data@.skip((used + n) as int));
                        used = used + n;
                    }
                    out.push(p);
                    rest = next;
                    i = i + 1;
                },
                Err(e) => {
                    proof {
                        Primitive::lemma_error_is_kept(data@, (i + 1) as nat, count as nat);
                    }
                    return Err(e);
                },
            }
        }
        Ok((rest, out))
    }
}

/// A mode byte whose top three bits spell 0, or 4 and more, is no mode; one
/// that spells 1, 2 or 3 is a polygon, a line or a sprite.
pub proof fn lemma_mode_kinds(f: u8)
    ensures
        f >> 5 <= 7,
        (f >> 5 == 0 || f >> 5 >= 4) <==> PrimitiveMode::of_byte(f) == Err::<PrimitiveMode, _>(
            ErrorKind::UnknownPrimitiveMode,
        ),
        f >> 5 == 1 <==> PrimitiveMode::of_byte(f) matches Ok(PrimitiveMode::Polygon { .. }),
        f >> 5 == 2 <==> PrimitiveMode::of_byte(f) matches Ok(PrimitiveMode::Line { .. }),
        f >> 5 == 3 <==> PrimitiveMode::of_byte(f) matches Ok(PrimitiveMode::Sprite { .. }),
{
    assert(f >> 5 <= 7) by (bit_vector);
}

/// What becomes of a primitive that cannot be decoded: an unknown mode is
/// reported as such, and a polygon or a sprite as unsupported, with its mode
/// and flags. Neither depends on what follows the prefix.
pub proof fn lemma_refused_primitives(s: Seq<u8>)
    requires
        s.len() >= 4,
    ensures
        (s[3] >> 5 == 0 || s[3] >> 5 >= 4) ==> Primitive::decode(s) == Err::<(Primitive, nat), _>(
            Primitive::refused(ErrorKind::UnknownPrimitiveMode, s.len()),
        ),
        (s[3] >> 5 == 1 || s[3] >> 5 == 3) ==> Primitive::decode(s) == Err::<(Primitive, nat), _>(
            Primitive::refused(
                ErrorKind::UnsupportedPrimitive {
                    mode: PrimitiveMode::of_byte(s[3])->Ok_0,
                    flags: PrimitiveFlags::of_byte(s[2]),
                },
                s.len(),
            ),
        ),
{
    lemma_mode_kinds(s[3]);
}

/// A line of one colour: the prefix 3, 2, 0x01, 0x40, then one padded colour
/// and two indices. It takes twelve bytes, and the byte of padding has no
/// part in it.
pub proof fn lemma_plain_line(
    r: u8,
    g: u8,
    b: u8,
    pad: u8,
    i0_lo: u8,
    i0_hi: u8,
    i1_lo: u8,
    i1_hi: u8,
    behind: Seq<u8>,
)
    ensures
        Primitive::decode(
            seq![3u8, 2, 0x01, 0x40, r, g, b, pad, i0_lo, i0_hi, i1_lo, i1_hi] + behind,
        ) == Ok::<_, DecodeError>(
            (
                Primitive {
                    olen: 3,
                    ilen: 2,
                    flag: PrimitiveFlags { gradient: false, double_sided: false, lit: true },
                    mode: PrimitiveMode::Line { gradient: false, translucent: false },
                    data: PrimitiveData::Line {
                        color: Color { r, g, b },
                        indices: ((i0_lo + 256 * i0_hi) as usize, (i1_lo + 256 * i1_hi) as usize),
                    },
                },
                12nat,
            ),
        ),
{
    assert(0x40u8 >> 5 == 2 && 0x40u8 & 16 == 0 && 0x40u8 & 2 == 0) by (bit_vector);
    assert(0x01u8 & 4 == 0 && 0x01u8 & 2 == 0 && 0x01u8 & 1 == 1) by (bit_vector);
}

/// A line with a gradient: the same prefix with bit 4 of the mode byte set,
/// then two padded colours and two indices. It takes sixteen bytes.
pub proof fn lemma_gradient_line(
    first: Color,
    pad0: u8,
    second: Color,
    pad1: u8,
    i0_lo: u8,
    i0_hi: u8,
    i1_lo: u8,
    i1_hi: u8,
    behind: Seq<u8>,
)
    ensures
        Primitive::decode(
            seq![
                3u8,
                2,
                0x01,
                0x50,
                first.r,
                first.g,
                first.b,
                pad0,
                second.r,
                second.g,
                second.b,
                pad1,
                i0_lo,
                i0_hi,
                i1_lo,
                i1_hi,
            ] + behind,
        ) == Ok::<_, DecodeError>(
            (
                Primitive {
                    olen: 3,
                    ilen: 2,
                    flag: PrimitiveFlags { gradient: false, double_sided: false, lit: true },
                    mode: PrimitiveMode::Line { gradient: true, translucent: false },
                    data: PrimitiveData::LineGr {
                        colors: (first, second),
                        indices: ((i0_lo + 256 * i0_hi) as usize, (i1_lo + 256 * i1_hi) as usize),
                    },
                },
                16nat,
            ),
        ),
{
    assert(0x50u8 >> 5 == 2 && 0x50u8 & 16 == 16 && 0x50u8 & 2 == 0) by (bit_vector);
    assert(0x01u8 & 4 == 0 && 0x01u8 & 2 == 0 && 0x01u8 & 1 == 1) by (bit_vector);
}

} // verus!

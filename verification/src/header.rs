//! The twelve bytes that open a file.

use crate::error::{Component, DecodeError};
use crate::grammar::{fixed, yields};
use crate::wire::{le_u32, u32_le};
use vstd::prelude::*;

verus! {

/// The flag word of the header. It spells a single flag.
#[derive(Debug, Clone, Copy, PartialEq, Eq)]
pub struct HeaderFlags {
    /// Bit 0: the file is laid out as it would be once loaded, its offsets
    /// turned into addresses. Such a file is not decoded.
    pub fix_p: bool,
}

impl HeaderFlags {
    /// The flags that the word `f` spells.
    pub open spec fn of_word(f: u32) -> HeaderFlags {
        HeaderFlags { fix_p: f & 1 > 0 }
    }
}

impl From<u32> for HeaderFlags {
    fn from(f: u32) -> (r: Self)
        ensures
            r == HeaderFlags::of_word(f),
    {
        HeaderFlags { fix_p: f & 1 > 0 }
    }
}

impl vstd::std_specs::convert::FromSpecImpl<u32> for HeaderFlags {
    open spec fn obeys_from_spec() -> bool {
        true
    }

    open spec fn from_spec(f: u32) -> Self {
        HeaderFlags::of_word(f)
    }
}

/// What the first twelve bytes of a file say.
#[derive(Debug, Clone, Copy, PartialEq, Eq)]
pub struct Header {
    /// The format's identifier, kept as found.
    pub id: u32,
    pub flags: HeaderFlags,
    /// How many entries the object directory holds.
    pub n_obj: usize,
}

impl Header {
    /// The header that the first twelve bytes of `s` spell: three
    /// little-endian words, the id, the flags and the object count.
    pub open spec fn at(s: Seq<u8>) -> Header
        recommends
            s.len() >= 12,
    {
        Header {
            id: u32_le(s, 0),
            flags: HeaderFlags::of_word(u32_le(s, 4)),
            n_obj: u32_le(s, 8) as usize,
        }
    }

    /// The header at the start of `s`, which takes twelve bytes.
    pub open spec fn decode(s: Seq<u8>) -> Result<(Header, nat), DecodeError> {
        fixed(s, 12, Header::at(s), Component::Header)
    }

    /// Reads the header and returns it with the bytes behind it. A set
    /// `fix_p` is reported in the flags, not refused here.
    pub fn parse(data: &[u8]) -> (r: Result<(&[u8], Header), DecodeError>)
        ensures
            yields(r, data@, Header::decode(data@)),
    {
        if data.len() < 12 {
            return Err(DecodeError::truncated(Component::Header, data.len()));
        }
        let (rest, id) = le_u32(data, Component::Header)?;
        let (rest, flags) = le_u32(rest, Component::Header)?;
        let (rest, n_obj) = le_u32(rest, Component::Header)?;
        assert(rest@ =~= data@.skip(12));
        Ok((rest, Header { id, flags: HeaderFlags::from(flags), n_obj: n_obj as usize }))
    }
}

} // verus!

use crate::primitive::{PrimitiveFlags, PrimitiveMode};
use vstd::prelude::*;

verus! {

/// What went wrong.
#[derive(Debug, Clone, Copy, PartialEq, Eq)]
pub enum ErrorKind {
    /// Fewer bytes remain than the record needs.
    Truncated,
    /// The header asks for the relocated in-memory layout.
    UnsupportedLayout,
    /// A directory entry places an array past the end of the data. Carries
    /// the offset as the entry gives it.
    OffsetOutOfRange { offset: u32 },
    /// The top three bits of a mode byte name no kind of primitive.
    UnknownPrimitiveMode,
    /// The primitive is well formed, but of a kind whose payload this
    /// decoder does not read.
    /// Carries what the prefix said.
    UnsupportedPrimitive { mode: PrimitiveMode, flags: PrimitiveFlags },
}

/// The part of a file in which a failure was met.
#[derive(Debug, Clone, Copy, PartialEq, Eq)]
pub enum Component {
    Header,
    Directory,
    Vertices,
    Normals,
    Primitives,
}

/// Why a buffer could not be decoded, and where. A failure at any depth
/// aborts the whole decode and reaches the caller unchanged: no partial model
/// is ever returned.
#[derive(Debug, Clone, Copy, PartialEq, Eq)]
pub struct DecodeError {
    pub kind: ErrorKind,
    pub component: Component,
    /// How many bytes were left, up to the end of the buffer, where the
    /// record that failed begins. Every part of a file runs up to the end of
    /// the file, so this places the record whatever the depth at which it
    /// was met: it begins that many bytes before the end. For an array that
    /// lies past the end it is 0.
    pub remaining: usize,
}

impl DecodeError {
    /// The error of a record that does not fit in what is left.
    pub open spec fn spec_truncated(component: Component, remaining: nat) -> DecodeError {
        DecodeError { kind: ErrorKind::Truncated, component, remaining: remaining as usize }
    }

    /// Builds the error of a record that does not fit in what is left.
    pub fn truncated(component: Component, remaining: usize) -> (e: DecodeError)
        ensures
            e == DecodeError::spec_truncated(component, remaining as nat),
    {
        DecodeError { kind: ErrorKind::Truncated, component, remaining }
    }

    /// Where the record that failed begins, counted from the start of a
    /// buffer of `len` bytes; `None` if the buffer is too short to hold it.
    pub fn offset(&self, len: usize) -> (at: Option<usize>)
        ensures
            at == if self.remaining <= len {
                Some((len - self.remaining) as usize)
            } else {
                None
            },
    {
        if self.remaining <= len {
            Some(len - self.remaining)
        } else {
            None
        }
    }
}

} // verus!

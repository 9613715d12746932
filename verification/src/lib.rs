//! Decoder for the TMD 3D-model container: a header, a directory of objects,
//! and for each object its vertices, normals and drawing primitives.
//!
//! Every decoder is a function from bytes to a value and the bytes left over,
//! and its contract equates the result with a specification function of the
//! input bytes.

pub mod bounds;
pub mod error;
pub mod font;
pub mod grammar;
pub mod header;
pub mod mesh;
pub mod object;
pub mod primitive;
pub mod wire;

use crate::error::{Component, DecodeError, ErrorKind};
use crate::grammar::yields_view;
use crate::header::Header;
use crate::object::{views, Object, ObjectView};
use crate::wire::u32_le;
use vstd::prelude::*;

verus! {

/// A decoded file: the header and the objects, in the order of the
/// directory.
#[derive(Debug)]
pub struct Tmd {
    pub header: Header,
    pub obj_table: Vec<Object>,
}

/// A decoded file as contracts see it.
pub struct TmdView {
    pub header: Header,
    pub obj_table: Seq<ObjectView>,
}

impl View for Tmd {
    type V = TmdView;

    open spec fn view(&self) -> TmdView {
        TmdView { header: self.header, obj_table: views(self.obj_table@) }
    }
}

impl Tmd {
    /// There is one object for each entry that the header counts.
    pub open spec fn wf(&self) -> bool {
        self.obj_table@.len() == self.header.n_obj
    }

    /// The file that `s` spells, and the bytes it takes up to the end of the
    /// object directory.
    ///
    /// The header comes first. A file in the relocated layout is refused on
    /// the header alone. The directory follows the header at once, and the
    /// offsets in it count from its own first byte.
    pub open spec fn decode(s: Seq<u8>) -> Result<(TmdView, nat), DecodeError> {
        if s.len() < 12 {
            Err(DecodeError::spec_truncated(Component::Header, s.len()))
        } else if Header::at(s).flags.fix_p {
            Err(Tmd::relocated(s.len()))
        } else {
            let base = s.skip(12);
            match Object::decode_count(base, base, Header::at(s).n_obj as nat) {
                Err(e) => Err(e),
                Ok((objects, used)) => Ok(
                    (TmdView { header: Header::at(s), obj_table: objects }, 12 + used),
                ),
            }
        }
    }

    /// The error of a file of `len` bytes that is in the relocated layout.
    pub open spec fn relocated(len: nat) -> DecodeError {
        DecodeError {
            kind: ErrorKind::UnsupportedLayout,
            component: Component::Header,
            remaining: len as usize,
        }
    }

    /// Decodes a whole file. Returns the model and the bytes behind the
    /// object directory, or the first error met; never a part of a model.
    pub fn parse(data: &[u8]) -> (r: Result<(&[u8], Tmd), DecodeError>)
        ensures
            yields_view(r, data@, Tmd::decode(data@)),
            r matches Ok((_, tmd)) ==> tmd.wf(),
            r matches Err(e) ==> e.remaining <= data@.len(),
    {
        proof {
            lemma_failure_lies_within(data@);
        }
        let (entire, header) = Header::parse(data)?;
        if header.flags.fix_p {
            return Err(
                DecodeError {
                    kind: ErrorKind::UnsupportedLayout,
                    component: Component::Header,
                    remaining: data.len(),
                },
            );
        }
        let (rest, obj_table) = Object::parse_count(entire, entire, header.n_obj)?;
        assert(rest@ =~= data@.skip(12 + 28 * header.n_obj));
        Ok((rest, Tmd { header, obj_table }))
    }
}

/// Decoding the same bytes twice gives the same model, field for field and
/// sequence for sequence, the same rest, or the same error.
pub proof fn lemma_parse_is_deterministic(
    data: Seq<u8>,
    first: Result<(&[u8], Tmd), DecodeError>,
    second: Result<(&[u8], Tmd), DecodeError>,
)
    requires
        yields_view(first, data, Tmd::decode(data)),
        yields_view(second, data, Tmd::decode(data)),
    ensures
        match (first, second) {
            (Ok((rest1, tmd1)), Ok((rest2, tmd2))) => {
                &&& tmd1.header == tmd2.header
                &&& tmd1.obj_table@.len() == tmd2.obj_table@.len()
                &&& forall|k: int|
                    0 <= k < tmd1.obj_table@.len() ==> tmd1.obj_table@[k]@ == tmd2.obj_table@[k]@
                &&& rest1@ == rest2@
            },
            (Err(e1), Err(e2)) => e1 == e2,
            _ => false,
        },
{
    if let (Ok((_, tmd1)), Ok((_, tmd2))) = (first, second) {
        assert(tmd1@.obj_table == tmd2@.obj_table);
        assert forall|k: int| 0 <= k < tmd1.obj_table@.len() implies tmd1.obj_table@[k]@
            == tmd2.obj_table@[k]@ by {
            assert(views(tmd1.obj_table@)[k] == views(tmd2.obj_table@)[k]);
        }
    }
}

/// The record on which a file fails begins within the file: as many bytes
/// before its end as the error says were left.
pub proof fn lemma_failure_lies_within(s: Seq<u8>)
    ensures
        Tmd::decode(s) matches Err(e) ==> e.remaining <= s.len(),
{
    if s.len() >= 12 {
        let base = s.skip(12);
        Object::lemma_failure_lies_within(base, base, Header::at(s).n_obj as nat);
    }
}

/// A file that decodes holds exactly as many objects as its header counts,
/// and its directory takes 28 bytes for each.
pub proof fn lemma_object_count_is_met(s: Seq<u8>)
    requires
        Tmd::decode(s) is Ok,
    ensures
        Tmd::decode(s)->Ok_0.0.header == Header::at(s),
        Tmd::decode(s)->Ok_0.0.obj_table.len() == Header::at(s).n_obj,
        Tmd::decode(s)->Ok_0.1 == 12 + 28 * Header::at(s).n_obj,
{
    let base = s.skip(12);
    Object::lemma_count_is_met(base, base, Header::at(s).n_obj as nat);
}

/// A header that counts no object gives a model without objects, and not a
/// byte of the directory is taken, whatever follows the header.
pub proof fn lemma_no_objects(s: Seq<u8>)
    requires
        s.len() >= 12,
        !Header::at(s).flags.fix_p,
        Header::at(s).n_obj == 0,
    ensures
        Tmd::decode(s) == Ok::<_, DecodeError>(
            (TmdView { header: Header::at(s), obj_table: Seq::empty() }, 12nat),
        ),
{
}

/// A file in the relocated layout is refused on its header alone: whatever
/// follows the twelve bytes, the answer is the same.
pub proof fn lemma_relocated_is_refused(s: Seq<u8>)
    requires
        s.len() >= 12,
        u32_le(s, 4) & 1 == 1,
    ensures
        Header::at(s).flags.fix_p,
        Tmd::decode(s) == Err::<(TmdView, nat), _>(Tmd::relocated(s.len())),
{
}

} // verus!

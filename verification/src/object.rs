//! Objects: the directory entry that locates an object's three arrays in the
//! data behind the header, and the arrays themselves.

use crate::error::{Component, DecodeError, ErrorKind};
use crate::grammar::{fixed, yields, yields_view};
use crate::primitive::Primitive;
use crate::wire::{i16_le, i32_le, le_i16, le_i32, le_u32, u32_le};
use vstd::prelude::*;

verus! {

/// Three signed 16-bit coordinates.
#[derive(Debug, Clone, Copy, PartialEq, Eq)]
pub struct Vector {
    pub x: i16,
    pub y: i16,
    pub z: i16,
}

/// A vector read as a position.
pub type Vertex = Vector;

impl Default for Vector {
    fn default() -> (r: Self)
        ensures
            r == (Vector { x: 0, y: 0, z: 0 }),
    {
        Vector { x: 0, y: 0, z: 0 }
    }
}

impl Vector {
    /// The vector whose coordinates are the three little-endian words of `s`
    /// from `i` on.
    pub open spec fn at(s: Seq<u8>, i: int) -> Vector
        recommends
            0 <= i,
            i + 6 <= s.len(),
    {
        Vector { x: i16_le(s, i), y: i16_le(s, i + 2), z: i16_le(s, i + 4) }
    }

    /// The six coordinate bytes alone.
    pub open spec fn decode(s: Seq<u8>) -> Result<(Vector, nat), DecodeError> {
        fixed(s, 6, Vector::at(s, 0), Component::Vertices)
    }

    /// A record of eight bytes: the coordinates and one word of padding,
    /// which has no part in the result.
    pub open spec fn decode_padded(s: Seq<u8>) -> Result<(Vector, nat), DecodeError> {
        fixed(s, 8, Vector::at(s, 0), Component::Vertices)
    }

    /// The `count` records that lie one behind the other in `s` from `start`
    /// on.
    pub open spec fn array_at(s: Seq<u8>, start: int, count: nat) -> Seq<Vector>
        recommends
            0 <= start,
            start + 8 * count <= s.len(),
    {
        Seq::new(count, |k: int| Vector::at(s, start + 8 * k))
    }

    /// `count` records at the start of `s`. Where they do not all fit, the
    /// record that fails is the first to run past the end: it begins at the
    /// last multiple of eight within `s`.
    pub open spec fn decode_count(s: Seq<u8>, count: nat) -> Result<(Seq<Vector>, nat), DecodeError> {
        if s.len() >= 8 * count {
            Ok((Vector::array_at(s, 0, count), 8 * count))
        } else {
            Err(DecodeError::spec_truncated(Component::Vertices, s.len() % 8))
        }
    }
}

impl Vertex {
    /// Reads three coordinates.
    pub fn parse(data: &[u8]) -> (r: Result<(&[u8], Vector), DecodeError>)
        ensures
            yields(r, data@, Vector::decode(data@)),
    {
        let part = Component::Vertices;
        if data.len() < 6 {
            return Err(DecodeError::truncated(part, data.len()));
        }
        let (rest, x) = le_i16(data, part)?;
        let (rest, y) = le_i16(rest, part)?;
        let (rest, z) = le_i16(rest, part)?;
        assert(rest@ =~= data@.skip(6));
        Ok((rest, Vector { x, y, z }))
    }

    /// Reads one record: three coordinates, then a word that is skipped
    /// whatever it holds.
    pub fn parse_pad(data: &[u8]) -> (r: Result<(&[u8], Vector), DecodeError>)
        ensures
            yields(r, data@, Vector::decode_padded(data@)),
    {
        if data.len() < 8 {
            return Err(DecodeError::truncated(Component::Vertices, data.len()));
        }
        let (rest, v) = Vector::parse(data)?;
        let (rest, _) = le_i16(rest, Component::Vertices)?;
        assert(rest@ =~= data@.skip(8));
        Ok((rest, v))
    }

    /// Reads `count` records, one behind the other.
    pub fn parse_count(data: &[u8], count: usize) -> (r: Result<(&[u8], Vec<Vector>), DecodeError>)
        ensures
            yields_view(r, data@, Vector::decode_count(data@, count as nat)),
    {
        let mut out: Vec<Vector> = Vec::new();
        let mut rest = data;
        let mut i: usize = 0;
        while i < count
            invariant
                i <= count,
                8 * i <= data@.len(),
                rest@ == data@.skip(8 * i),
                out@ =~= Vector::array_at(data@, 0, i as nat),
            decreases count - i,
        {
            let (next, v) = Vector::parse_pad(rest)?;
            assert(next@ =~= data@.skip(8 * (i + 1)));
            assert(v == Vector::at(data@, 8 * i));
            out.push(v);
            rest = next;
            i = i + 1;
        }
        Ok((rest, out))
    }
}

/// The denominator of a normal's coordinates.
pub const NORMAL_ACC: i32 = 0x1000;

/// A direction in fixed point: each coordinate stands for itself divided by
/// `NORMAL_ACC`, so that 4096 is one and -2048 is minus a half. On the wire
/// a normal looks like a vertex.
#[derive(Debug, Clone, Copy, PartialEq, Eq)]
pub struct Normal {
    pub x: i16,
    pub y: i16,
    pub z: i16,
}

impl Normal {
    /// The normal that the record at `i` spells.
    pub open spec fn at(s: Seq<u8>, i: int) -> Normal
        recommends
            0 <= i,
            i + 6 <= s.len(),
    {
        Normal::of_vector(Vector::at(s, i))
    }

    /// The normal whose numerators are the coordinates of `v`.
    pub open spec fn of_vector(v: Vector) -> Normal {
        Normal { x: v.x, y: v.y, z: v.z }
    }

    /// The vector of a normal's numerators.
    pub open spec fn to_vector(self) -> Vector {
        Vector { x: self.x, y: self.y, z: self.z }
    }

    /// The six coordinate bytes alone.
    pub open spec fn decode(s: Seq<u8>) -> Result<(Normal, nat), DecodeError> {
        fixed(s, 6, Normal::at(s, 0), Component::Normals)
    }

    /// A record of eight bytes: the coordinates and one word of padding,
    /// which has no part in the result.
    pub open spec fn decode_padded(s: Seq<u8>) -> Result<(Normal, nat), DecodeError> {
        fixed(s, 8, Normal::at(s, 0), Component::Normals)
    }

    /// The `count` records that lie one behind the other in `s` from `start`
    /// on.
    pub open spec fn array_at(s: Seq<u8>, start: int, count: nat) -> Seq<Normal>
        recommends
            0 <= start,
            start + 8 * count <= s.len(),
    {
        Seq::new(count, |k: int| Normal::at(s, start + 8 * k))
    }

    /// `count` records at the start of `s`. Where they do not all fit, the
    /// record that fails is the first to run past the end: it begins at the
    /// last multiple of eight within `s`.
    pub open spec fn decode_count(s: Seq<u8>, count: nat) -> Result<(Seq<Normal>, nat), DecodeError> {
        if s.len() >= 8 * count {
            Ok((Normal::array_at(s, 0, count), 8 * count))
        } else {
            Err(DecodeError::spec_truncated(Component::Normals, s.len() % 8))
        }
    }

    /// Reads three coordinates as a normal.
    pub fn parse(data: &[u8]) -> (r: Result<(&[u8], Normal), DecodeError>)
        ensures
            yields(r, data@, Normal::decode(data@)),
    {
        if data.len() < 6 {
            return Err(DecodeError::truncated(Component::Normals, data.len()));
        }
        let (rest, v) = Vector::parse(data)?;
        Ok((rest, Normal::from(v)))
    }

    /// Reads one record as a normal: three coordinates and a skipped word.
    pub fn parse_pad(data: &[u8]) -> (r: Result<(&[u8], Normal), DecodeError>)
        ensures
            yields(r, data@, Normal::decode_padded(data@)),
    {
        if data.len() < 8 {
            return Err(DecodeError::truncated(Component::Normals, data.len()));
        }
        let (rest, v) = Vector::parse_pad(data)?;
        Ok((rest, Normal::from(v)))
    }

    /// Reads `count` records, one behind the other.
    pub fn parse_count(data: &[u8], count: usize) -> (r: Result<(&[u8], Vec<Normal>), DecodeError>)
        ensures
            yields_view(r, data@, Normal::decode_count(data@, count as nat)),
    {
        let mut out: Vec<Normal> = Vec::new();
        let mut rest = data;
        let mut i: usize = 0;
        while i < count
            invariant
                i <= count,
                8 * i <= data@.len(),
                rest@ == data@.skip(8 * i),
                out@ =~= Normal::array_at(data@, 0, i as nat),
            decreases count - i,
        {
            let (next, n) = Normal::parse_pad(rest)?;
            assert(next@ =~= data@.skip(8 * (i + 1)));
            assert(n == Normal::at(data@, 8 * i));
            out.push(n);
            rest = next;
            i = i + 1;
        }
        Ok((rest, out))
    }
}

impl From<Vector> for Normal {
    fn from(v: Vector) -> (r: Self)
        ensures
            r == Normal::of_vector(v),
    {
        Normal { x: v.x, y: v.y, z: v.z }
    }
}

impl vstd::std_specs::convert::FromSpecImpl<Vector> for Normal {
    open spec fn obeys_from_spec() -> bool {
        true
    }

    open spec fn from_spec(v: Vector) -> Self {
        Normal::of_vector(v)
    }
}

impl From<Normal> for Vector {
    fn from(n: Normal) -> (r: Self)
        ensures
            r == n.to_vector(),
    {
        Vector { x: n.x, y: n.y, z: n.z }
    }
}

impl vstd::std_specs::convert::FromSpecImpl<Normal> for Vector {
    open spec fn obeys_from_spec() -> bool {
        true
    }

    open spec fn from_spec(n: Normal) -> Self {
        n.to_vector()
    }
}

/// One entry of the object directory: where each of an object's arrays
/// begins, counted in bytes from the end of the header, and how many records
/// it holds.
#[derive(Debug, Clone, Copy, PartialEq, Eq)]
pub struct ObjectEntry {
    pub vert_top: u32,
    pub n_vert: u32,
    pub normal_top: u32,
    pub n_normal: u32,
    pub primitive_top: u32,
    pub n_primitive: u32,
    pub scale: i32,
}

/// An object as contracts see it.
pub struct ObjectView {
    pub vertices: Seq<Vector>,
    pub normals: Seq<Normal>,
    pub primitives: Seq<Primitive>,
    pub scale: i32,
}

/// One mesh with its three arrays. Vertices and normals are independent:
/// nothing makes them equally long. The indices that primitives hold are
/// kept as found and are not held against the number of vertices.
#[derive(Debug)]
pub struct Object {
    pub vertices: Vec<Vector>,
    pub normals: Vec<Normal>,
    pub primitives: Vec<Primitive>,
    /// The exponent of a power of two by which the object is meant to be
    /// scaled. It is kept as found and never applied.
    pub scale: i32,
}

impl View for Object {
    type V = ObjectView;

    open spec fn view(&self) -> ObjectView {
        ObjectView {
            vertices: self.vertices@,
            normals: self.normals@,
            primitives: self.primitives@,
            scale: self.scale,
        }
    }
}

impl ObjectEntry {
    /// The entry that the 28 bytes of `s` from `i` on spell: seven
    /// little-endian words.
    pub open spec fn at(s: Seq<u8>, i: int) -> ObjectEntry
        recommends
            0 <= i,
            i + 28 <= s.len(),
    {
        ObjectEntry {
            vert_top: u32_le(s, i),
            n_vert: u32_le(s, i + 4),
            normal_top: u32_le(s, i + 8),
            n_normal: u32_le(s, i + 12),
            primitive_top: u32_le(s, i + 16),
            n_primitive: u32_le(s, i + 20),
            scale: i32_le(s, i + 24),
        }
    }

    /// The entry at the start of `s`, which takes 28 bytes.
    pub open spec fn decode(s: Seq<u8>) -> Result<(ObjectEntry, nat), DecodeError> {
        fixed(s, 28, ObjectEntry::at(s, 0), Component::Directory)
    }

    /// The object that this entry locates in `base`, the data behind the
    /// header.
    ///
    /// The arrays are taken in the order vertices, normals, primitives. Each
    /// must begin within `base` or at its end, and its records must not run
    /// past the end; the first array that fails decides the error. Nothing
    /// keeps the arrays of one object, or of two, from overlapping.
    pub open spec fn resolve(self, base: Seq<u8>) -> Result<ObjectView, DecodeError> {
        let vertices = Vector::decode_count(base.skip(self.vert_top as int), self.n_vert as nat);
        let normals = Normal::decode_count(base.skip(self.normal_top as int), self.n_normal as nat);
        let primitives = Primitive::decode_count(
            base.skip(self.primitive_top as int),
            self.n_primitive as nat,
        );
        if self.vert_top > base.len() {
            Err(out_of_range(Component::Vertices, self.vert_top))
        } else if vertices is Err {
            Err(vertices->Err_0)
        } else if self.normal_top > base.len() {
            Err(out_of_range(Component::Normals, self.normal_top))
        } else if normals is Err {
            Err(normals->Err_0)
        } else if self.primitive_top > base.len() {
            Err(out_of_range(Component::Primitives, self.primitive_top))
        } else if primitives is Err {
            Err(primitives->Err_0)
        } else {
            Ok(
                ObjectView {
                    vertices: vertices->Ok_0.0,
                    normals: normals->Ok_0.0,
                    primitives: primitives->Ok_0.0,
                    scale: self.scale,
                },
            )
        }
    }

    /// The record that fails begins within `base`.
    pub proof fn lemma_failure_lies_within(self, base: Seq<u8>)
        ensures
            self.resolve(base) matches Err(e) ==> e.remaining <= base.len() && e.component
                != Component::Directory && e.component != Component::Header,
    {
        if self.primitive_top <= base.len() {
            let from = base.skip(self.primitive_top as int);
            Primitive::lemma_failure_lies_within(from, self.n_primitive as nat);
            Primitive::lemma_errors_are_of_primitives(from, self.n_primitive as nat);
        }
    }

    /// Reads one directory entry.
    pub fn parse(data: &[u8]) -> (r: Result<(&[u8], ObjectEntry), DecodeError>)
        ensures
            yields(r, data@, ObjectEntry::decode(data@)),
    {
        let part = Component::Directory;
        if data.len() < 28 {
            return Err(DecodeError::truncated(part, data.len()));
        }
        let (rest, vert_top) = le_u32(data, part)?;
        let (rest, n_vert) = le_u32(rest, part)?;
        let (rest, normal_top) = le_u32(rest, part)?;
        let (rest, n_normal) = le_u32(rest, part)?;
        let (rest, primitive_top) = le_u32(rest, part)?;
        let (rest, n_primitive) = le_u32(rest, part)?;
        let (rest, scale) = le_i32(rest, part)?;
        assert(rest@ =~= data@.skip(28));
        Ok(
            (
                rest,
                ObjectEntry {
                    vert_top,
                    n_vert,
                    normal_top,
                    n_normal,
                    primitive_top,
                    n_primitive,
                    scale,
                },
            ),
        )
    }
}

/// The error of an array of `part` that an entry places at `offset`, past
/// the end of the data.
pub open spec fn out_of_range(part: Component, offset: u32) -> DecodeError {
    DecodeError { kind: ErrorKind::OffsetOutOfRange { offset }, component: part, remaining: 0 }
}

/// The part of `data` from `offset` on, where an array of `part` begins, if
/// `offset` lies within `data` or at its end.
pub fn tail_from(data: &[u8], offset: u32, part: Component) -> (r: Result<&[u8], DecodeError>)
    ensures
        match r {
            Ok(tail) => offset <= data@.len() && tail@ == data@.skip(offset as int),
            Err(e) => offset > data@.len() && e == out_of_range(part, offset),
        },
{
    let start = offset as usize;
    if start > data.len() {
        Err(
            DecodeError {
                kind: ErrorKind::OffsetOutOfRange { offset },
                component: part,
                remaining: 0,
            },
        )
    } else {
        Ok(vstd::slice::slice_subrange(data, start, data.len()))
    }
}

impl Object {
    /// The object whose directory entry stands at the start of `dir`, with
    /// its arrays taken from `base`, and the 28 bytes that the entry takes.
    pub open spec fn decode(base: Seq<u8>, dir: Seq<u8>) -> Result<(ObjectView, nat), DecodeError> {
        if dir.len() < 28 {
            Err(DecodeError::spec_truncated(Component::Directory, dir.len()))
        } else {
            match ObjectEntry::at(dir, 0).resolve(base) {
                Err(e) => Err(e),
                Ok(object) => Ok((object, 28)),
            }
        }
    }

    /// Loads the arrays that `entry` locates in `all_data`.
    pub fn from_entry(all_data: &[u8], entry: &ObjectEntry) -> (r: Result<Object, DecodeError>)
        ensures
            match r {
                Ok(object) => entry.resolve(all_data@) == Ok::<_, DecodeError>(object@),
                Err(e) => entry.resolve(all_data@) == Err::<ObjectView, _>(e),
            },
    {
        let from = tail_from(all_data, entry.vert_top, Component::Vertices)?;
        let (_, vertices) = Vertex::parse_count(from, entry.n_vert as usize)?;
        let from = tail_from(all_data, entry.normal_top, Component::Normals)?;
        let (_, normals) = Normal::parse_count(from, entry.n_normal as usize)?;
        let from = tail_from(all_data, entry.primitive_top, Component::Primitives)?;
        let (_, primitives) = Primitive::parse_count(from, entry.n_primitive as usize)?;
        Ok(Object { vertices, normals, primitives, scale: entry.scale })
    }

    /// Decodes the object whose directory entry stands at the start of
    /// `data`, taking its arrays from `all_data`, the whole of the data
    /// behind the header. Returns the object and the directory behind the
    /// entry.
    pub fn parse_with<'a>(all_data: &[u8], data: &'a [u8]) -> (r: Result<
        (&'a [u8], Object),
        DecodeError,
    >)
        ensures
            yields_view(r, data@, Object::decode(all_data@, data@)),
    {
        let (rest, entry) = ObjectEntry::parse(data)?;
        let object = Object::from_entry(all_data, &entry)?;
        Ok((rest, object))
    }
}

/// The views of a run of objects.
pub open spec fn views(objects: Seq<Object>) -> Seq<ObjectView> {
    Seq::new(objects.len(), |k: int| objects[k]@)
}

impl Object {
    /// The objects of the first `count` entries of the directory `dir`, and
    /// the bytes that those entries take. The first entry that fails gives
    /// its error to the whole.
    pub open spec fn decode_count(base: Seq<u8>, dir: Seq<u8>, count: nat) -> Result<
        (Seq<ObjectView>, nat),
        DecodeError,
    >
        decreases count,
    {
        if count == 0 {
            Ok((Seq::empty(), 0))
        } else {
            match Object::decode_count(base, dir, (count - 1) as nat) {
                Err(e) => Err(e),
                Ok((before, used)) => match Object::decode(base, dir.skip(used as int)) {
                    Err(e) => Err(e),
                    Ok((last, n)) => Ok((before.push(last), used + n)),
                },
            }
        }
    }

    /// An error among the first `k` entries is the error of any longer run.
    pub proof fn lemma_error_is_kept(base: Seq<u8>, dir: Seq<u8>, k: nat, count: nat)
        requires
            k <= count,
            Object::decode_count(base, dir, k) is Err,
        ensures
            Object::decode_count(base, dir, count) == Object::decode_count(base, dir, k),
        decreases count,
    {
        if k < count {
            Object::lemma_error_is_kept(base, dir, k, (count - 1) as nat);
        }
    }

    /// What fails in a run of objects is an entry of the directory, which
    /// then begins within `dir`, or a record of an array, which begins within
    /// `base`.
    pub proof fn lemma_failure_lies_within(base: Seq<u8>, dir: Seq<u8>, count: nat)
        ensures
            Object::decode_count(base, dir, count) matches Err(e) ==> e.component
                != Component::Header && if e.component == Component::Directory {
                e.remaining <= dir.len()
            } else {
                e.remaining <= base.len()
            },
            Object::decode_count(base, dir, count) matches Ok((_, used)) ==> used <= dir.len(),
        decreases count,
    {
        if count > 0 {
            Object::lemma_failure_lies_within(base, dir, (count - 1) as nat);
            if let Ok((_, used)) = Object::decode_count(base, dir, (count - 1) as nat) {
                let at = dir.skip(used as int);
                ObjectEntry::at(at, 0).lemma_failure_lies_within(base);
            }
        }
    }

    /// A run that decodes holds one object for each entry, and each entry
    /// took 28 bytes.
    pub proof fn lemma_count_is_met(base: Seq<u8>, dir: Seq<u8>, count: nat)
        requires
            Object::decode_count(base, dir, count) is Ok,
        ensures
            Object::decode_count(base, dir, count)->Ok_0.0.len() == count,
            Object::decode_count(base, dir, count)->Ok_0.1 == 28 * count,
        decreases count,
    {
        if count > 0 {
            Object::lemma_count_is_met(base, dir, (count - 1) as nat);
        }
    }

    /// Decodes the objects of the first `count` entries of the directory
    /// `data`, each with its arrays taken from `all_data`.
    pub fn parse_count<'a>(all_data: &[u8], data: &'a [u8], count: usize) -> (r: Result<
        (&'a [u8], Vec<Object>),
        DecodeError,
    >)
        ensures
            match (r, Object::decode_count(all_data@, data@, count as nat)) {
                (Ok((rest, objects)), Ok((expected, n))) => {
                    &&& views(objects@) == expected
                    &&& objects@.len() == count
                    &&& n == 28 * count
                    &&& n <= data@.len()
                    &&& rest@ == data@.skip(n as int)
                },
                (Err(e), Err(f)) => e == f,
                _ => false,
            },
    {
        let mut out: Vec<Object> = Vec::new();
        let mut rest = data;
        let mut i: usize = 0;
        assert(views(out@) =~= Seq::<ObjectView>::empty());
        while i < count
            invariant
                i <= count,
                28 * i <= data@.len(),
                rest@ == data@.skip(28 * i),
                out@.len() == i,
                Object::decode_count(all_data@, data@, i as nat) == Ok::<_, DecodeError>(
                    (views(out@), (28 * i) as nat),
                ),
            decreases count - i,
        {
            match Object::parse_with(all_data, rest) {
                Ok((next, object)) => {
                    let ghost before = out@;
                    out.push(object);
                    proof {
                        assert(next@ =~= data@.skip(28 * (i + 1)));
                        assert(views(out@) =~= views(before).push(object@));
                    }
                    rest = next;
                    i = i + 1;
                },
                Err(e) => {
                    proof {
                        Object::lemma_error_is_kept(
                            all_data@,
                            data@,
                            (i + 1) as nat,
                            count as nat,
                        );
                    }
                    return Err(e);
                },
            }
        }
        Ok((rest, out))
    }
}

/// The word of padding behind a record has no part in what is decoded: two
/// inputs that agree in their first six bytes give the same vertex and the
/// same normal, and each record takes eight bytes.
pub proof fn lemma_padding_is_ignored(a: Seq<u8>, b: Seq<u8>)
    requires
        a.len() >= 8,
        b.len() >= 8,
        a.subrange(0, 6) == b.subrange(0, 6),
    ensures
        Vector::decode_padded(a) == Ok::<_, DecodeError>((Vector::at(a, 0), 8nat)),
        Vector::decode_padded(b) == Vector::decode_padded(a),
        Normal::decode_padded(a) == Ok::<_, DecodeError>((Normal::at(a, 0), 8nat)),
        Normal::decode_padded(b) == Normal::decode_padded(a),
{
    assert forall|i: int| 0 <= i < 6 implies a[i] == b[i] by {
        assert(a[i] == a.subrange(0, 6)[i]);
        assert(b[i] == b.subrange(0, 6)[i]);
    }
}

/// A vertex and the normal with the same numerators stand for each other:
/// going from one to the other and back changes nothing.
pub proof fn lemma_normal_round_trip(v: Vector, n: Normal)
    ensures
        Normal::of_vector(v).to_vector() == v,
        Normal::of_vector(n.to_vector()) == n,
{
}

/// An array may begin at the very end of the data if it holds no record:
/// that is no failure, and where the other two arrays decode, such an entry
/// gives an object without vertices.
pub proof fn lemma_empty_array_at_end(entry: ObjectEntry, base: Seq<u8>)
    requires
        entry.vert_top == base.len(),
        entry.n_vert == 0,
    ensures
        Vector::decode_count(base.skip(entry.vert_top as int), 0) == Ok::<_, DecodeError>(
            (Seq::<Vector>::empty(), 0nat),
        ),
        entry.resolve(base) matches Err(e) ==> e.component != Component::Vertices,
        entry.resolve(base) matches Ok(object) ==> object.vertices == Seq::<Vector>::empty(),
        ({
            &&& entry.normal_top + 8 * entry.n_normal <= base.len()
            &&& entry.primitive_top <= base.len()
            &&& Primitive::decode_count(
                base.skip(entry.primitive_top as int),
                entry.n_primitive as nat,
            ) is Ok
        }) ==> entry.resolve(base) is Ok,
{
    assert(Vector::array_at(base.skip(entry.vert_top as int), 0, 0) =~= Seq::<Vector>::empty());
    Primitive::lemma_errors_are_of_primitives(
        base.skip(entry.primitive_top as int),
        entry.n_primitive as nat,
    );
}

/// The vertices and normals of an object are read where the entry places
/// them and from nowhere else, so that arrays may share bytes, within one
/// object and between two.
pub proof fn lemma_arrays_are_read_in_place(entry: ObjectEntry, base: Seq<u8>)
    requires
        entry.resolve(base) is Ok,
    ensures
        entry.vert_top + 8 * entry.n_vert <= base.len(),
        entry.normal_top + 8 * entry.n_normal <= base.len(),
        entry.primitive_top <= base.len(),
        entry.resolve(base)->Ok_0.vertices == Vector::array_at(
            base,
            entry.vert_top as int,
            entry.n_vert as nat,
        ),
        entry.resolve(base)->Ok_0.normals == Normal::array_at(
            base,
            entry.normal_top as int,
            entry.n_normal as nat,
        ),
        entry.resolve(base)->Ok_0.scale == entry.scale,
{
    assert(Vector::array_at(base.skip(entry.vert_top as int), 0, entry.n_vert as nat)
        =~= Vector::array_at(base, entry.vert_top as int, entry.n_vert as nat));
    assert(Normal::array_at(base.skip(entry.normal_top as int), 0, entry.n_normal as nat)
        =~= Normal::array_at(base, entry.normal_top as int, entry.n_normal as nat));
}

} // verus!

//! What a stroke font needs of a model: each glyph's reach to the left and
//! to the right, and its lines as runs of coordinate letters.

use crate::object::{Object, ObjectView, Vector};
use crate::primitive::Primitive;
use vstd::prelude::*;

verus! {

/// Coordinates are divided by this before they are written.
pub const SHRINK: i16 = 5;

/// The room left on either side of a glyph.
pub const PADDING: i16 = 8;

/// `i` divided by `SHRINK`, rounded towards zero.
pub open spec fn shrunk(i: i16) -> int {
    if i >= 0 {
        i / 5
    } else {
        -((-i) / 5)
    }
}

/// The letter that stands for the coordinate `i`: `R`, whose code is 82,
/// stands for zero, and the codes count on from it in both directions,
/// eight bits wide, so that they wrap at 0 and at 255.
pub open spec fn coord_letter(i: i16) -> char {
    ((shrunk(i) + 82) % 256) as char
}

/// The letter that stands for the coordinate `i`.
pub fn encode_coord(i: i16) -> (c: char)
    ensures
        c == coord_letter(i),
{
    let wide: i32 = i as i32;
    let quotient: i32 = if wide >= 0 {
        wide / 5
    } else {
        -((-wide) / 5)
    };
    let code: i32 = (quotient + 82 + 6656) % 256;
    let code: u8 = code as u8;
    code as char
}

/// How far `x` lies from zero.
pub open spec fn magnitude(x: i16) -> int {
    if x >= 0 {
        x as int
    } else {
        -x
    }
}

/// `m` is the greatest distance from zero among the x coordinates of
/// `vertices`.
pub open spec fn is_reach(vertices: Seq<Vector>, m: int) -> bool {
    &&& forall|k: int| 0 <= k < vertices.len() ==> magnitude((#[trigger] vertices[k]).x) <= m
    &&& exists|k: int| 0 <= k < vertices.len() && magnitude((#[trigger] vertices[k]).x) == m
}

/// There is a vertex, and the padding can be added to the reach of each
/// without leaving 16 bits.
pub open spec fn can_pad(vertices: Seq<Vector>) -> bool {
    &&& vertices.len() > 0
    &&& forall|k: int|
        0 <= k < vertices.len() ==> magnitude((#[trigger] vertices[k]).x) + PADDING <= i16::MAX
}

/// Tests `can_pad`.
pub fn check_can_pad(vertices: &Vec<Vector>) -> (ok: bool)
    ensures
        ok == can_pad(vertices@),
{
    if vertices.len() == 0 {
        return false;
    }
    let mut k: usize = 0;
    while k < vertices.len()
        invariant
            k <= vertices@.len(),
            forall|j: int|
                0 <= j < k ==> magnitude((#[trigger] vertices@[j]).x) + PADDING <= i16::MAX,
        decreases vertices@.len() - k,
    {
        let x = vertices[k].x;
        if x > i16::MAX - PADDING || x < PADDING - i16::MAX {
            assert(magnitude(vertices@[k as int].x) + PADDING > i16::MAX);
            return false;
        }
        k = k + 1;
    }
    true
}

/// The left and the right hand of a glyph: the greatest distance of a
/// vertex from the vertical axis, with the padding added, to the left as a
/// negative number and to the right as a positive one.
pub fn hands(vertices: &Vec<Vector>) -> (r: (i16, i16))
    requires
        can_pad(vertices@),
    ensures
        r.0 == -r.1,
        is_reach(vertices@, r.1 - PADDING),
{
    let first = vertices[0].x;
    let mut reach: i16 = if first >= 0 {
        first
    } else {
        -first
    };
    let mut k: usize = 1;
    while k < vertices.len()
        invariant
            1 <= k <= vertices@.len(),
            can_pad(vertices@),
            0 <= reach,
            reach + PADDING <= i16::MAX,
            forall|j: int| 0 <= j < k ==> magnitude((#[trigger] vertices@[j]).x) <= reach,
            exists|j: int| 0 <= j < k && magnitude((#[trigger] vertices@[j]).x) == reach,
        decreases vertices@.len() - k,
    {
        let x = vertices[k].x;
        let m: i16 = if x >= 0 {
            x
        } else {
            -x
        };
        if m > reach {
            reach = m;
        }
        k = k + 1;
    }
    (-reach - PADDING, reach + PADDING)
}

/// Both ends of every primitive are vertices of the object.
pub open spec fn in_range(object: ObjectView) -> bool {
    forall|k: int|
        0 <= k < object.primitives.len() ==> {
            &&& (#[trigger] object.primitives[k]).spec_endpoints().0 < object.vertices.len()
            &&& object.primitives[k].spec_endpoints().1 < object.vertices.len()
        }
}

/// Tests `in_range`: the decoder keeps the indices as it finds them, so
/// whoever follows them checks them first.
pub fn check_in_range(object: &Object) -> (ok: bool)
    ensures
        ok == in_range(object@),
{
    let mut k: usize = 0;
    while k < object.primitives.len()
        invariant
            k <= object.primitives@.len(),
            forall|j: int|
                0 <= j < k ==> {
                    &&& (#[trigger] object.primitives@[j]).spec_endpoints().0
                        < object.vertices@.len()
                    &&& object.primitives@[j].spec_endpoints().1 < object.vertices@.len()
                },
        decreases object.primitives@.len() - k,
    {
        let (from, to) = object.primitives[k].endpoints();
        if from >= object.vertices.len() || to >= object.vertices.len() {
            assert(object@.primitives[k as int] == object.primitives@[k as int]);
            return false;
        }
        k = k + 1;
    }
    true
}

/// One line as the font writes it: the letters of both ends, x before y,
/// then a blank and `R`, which lifts the pen.
pub open spec fn stroke(vertices: Seq<Vector>, p: Primitive) -> Seq<char> {
    let from = vertices[p.spec_endpoints().0 as int];
    let to = vertices[p.spec_endpoints().1 as int];
    seq![
        coord_letter(from.x),
        coord_letter(from.y),
        coord_letter(to.x),
        coord_letter(to.y),
        ' ',
        'R',
    ]
}

/// The lines of a glyph, one behind the other in the order of the
/// primitives.
pub open spec fn strokes(vertices: Seq<Vector>, primitives: Seq<Primitive>) -> Seq<char>
    decreases primitives.len(),
{
    if primitives.len() == 0 {
        Seq::empty()
    } else {
        strokes(vertices, primitives.drop_last()) + stroke(vertices, primitives.last())
    }
}

/// Writes the lines of the glyph that `object` draws.
pub fn glyph_strokes(object: &Object) -> (out: Vec<char>)
    requires
        in_range(object@),
    ensures
        out@ == strokes(object@.vertices, object@.primitives),
        out@.len() == 6 * object@.primitives.len(),
{
    let mut out: Vec<char> = Vec::new();
    let mut k: usize = 0;
    assert(object.primitives@.take(0) =~= Seq::<Primitive>::empty());
    while k < object.primitives.len()
        invariant
            k <= object.primitives@.len(),
            in_range(object@),
            out@ == strokes(object@.vertices, object.primitives@.take(k as int)),
            out@.len() == 6 * k,
        decreases object.primitives@.len() - k,
    {
        let (from, to) = object.primitives[k].endpoints();
        let ghost before = out@;
        let ghost p = object@.primitives[k as int];
        assert(from < object@.vertices.len() && to < object@.vertices.len());
        assert(object.primitives@.take(k + 1).drop_last() =~= object.primitives@.take(k as int));
        assert(object.primitives@.take(k + 1).last() == p);
        out.push(encode_coord(object.vertices[from].x));
        out.push(encode_coord(object.vertices[from].y));
        out.push(encode_coord(object.vertices[to].x));
        out.push(encode_coord(object.vertices[to].y));
        out.push(' ');
        out.push('R');
        assert(out@ =~= before + stroke(object@.vertices, p));
        k = k + 1;
    }
    assert(object.primitives@.take(k as int) =~= object.primitives@);
    out
}

/// How many points the font counts for a glyph: two for each line, and one
/// for the pair of hands.
pub fn point_count(object: &Object) -> (n: usize)
    requires
        2 * object@.primitives.len() + 1 <= usize::MAX,
    ensures
        n == 2 * object@.primitives.len() + 1,
{
    object.primitives.len() * 2 + 1
}

} // verus!

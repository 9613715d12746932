//! What a text mesh needs of a model beside the vertices themselves: the
//! ends of each line, counted back from the vertex written last.

use crate::primitive::Primitive;
use vstd::prelude::*;

verus! {

/// The ends of `p` as a mesh of `vertices` vertices refers to them: each
/// index less the number of vertices, so that the last vertex is -1.
pub fn relative_endpoints(p: &Primitive, vertices: usize) -> (r: (isize, isize))
    requires
        p.spec_endpoints().0 <= isize::MAX,
        p.spec_endpoints().1 <= isize::MAX,
        vertices <= isize::MAX,
    ensures
        r.0 == p.spec_endpoints().0 - vertices,
        r.1 == p.spec_endpoints().1 - vertices,
{
    let (from, to) = p.endpoints();
    let back = vertices as isize;
    (from as isize - back, to as isize - back)
}

} // verus!

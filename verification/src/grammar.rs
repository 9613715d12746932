//! How a decoder's result is held against the format: a specification
//! function gives, for the input bytes, the value and the number of bytes it
//! occupies, or the error; a decoder returns that value with the bytes behind
//! it, or that error.

use crate::error::{Component, DecodeError};
use vstd::prelude::*;

verus! {

/// What a decoder returned, held against what the format says of its input:
/// the same error, or the same value together with the input less the `n`
/// bytes that the value occupies.
pub open spec fn yields<T>(
    r: Result<(&[u8], T), DecodeError>,
    data: Seq<u8>,
    expected: Result<(T, nat), DecodeError>,
) -> bool {
    match (r, expected) {
        (Ok((rest, v)), Ok((w, n))) => v == w && n <= data.len() && rest@ == data.skip(n as int),
        (Err(e), Err(f)) => e == f,
        _ => false,
    }
}

/// As `yields`, for a value that owns vectors: its view is what is compared.
pub open spec fn yields_view<T: View>(
    r: Result<(&[u8], T), DecodeError>,
    data: Seq<u8>,
    expected: Result<(T::V, nat), DecodeError>,
) -> bool {
    match (r, expected) {
        (Ok((rest, v)), Ok((w, n))) => v@ == w && n <= data.len() && rest@ == data.skip(n as int),
        (Err(e), Err(f)) => e == f,
        _ => false,
    }
}

/// A fixed-size record of `component`: `n` bytes give `v`, fewer fail as
/// truncated.
pub open spec fn fixed<T>(data: Seq<u8>, n: nat, v: T, component: Component) -> Result<
    (T, nat),
    DecodeError,
> {
    if data.len() >= n {
        Ok((v, n))
    } else {
        Err(DecodeError::spec_truncated(component, data.len()))
    }
}

/// A decoder's result is a function of the bytes it was given: two results
/// that answer to the same input are the same value, the same rest, the same
/// error.
pub proof fn lemma_one_result<T>(
    first: Result<(&[u8], T), DecodeError>,
    second: Result<(&[u8], T), DecodeError>,
    data: Seq<u8>,
    expected: Result<(T, nat), DecodeError>,
)
    requires
        yields(first, data, expected),
        yields(second, data, expected),
    ensures
        match (first, second) {
            (Ok((rest1, v1)), Ok((rest2, v2))) => v1 == v2 && rest1@ == rest2@,
            (Err(e1), Err(e2)) => e1 == e2,
            _ => false,
        },
{
}

/// The same for a value that owns vectors: the two have one view.
pub proof fn lemma_one_view<T: View>(
    first: Result<(&[u8], T), DecodeError>,
    second: Result<(&[u8], T), DecodeError>,
    data: Seq<u8>,
    expected: Result<(T::V, nat), DecodeError>,
)
    requires
        yields_view(first, data, expected),
        yields_view(second, data, expected),
    ensures
        match (first, second) {
            (Ok((rest1, v1)), Ok((rest2, v2))) => v1@ == v2@ && rest1@ == rest2@,
            (Err(e1), Err(e2)) => e1 == e2,
            _ => false,
        },
{
}

} // verus!

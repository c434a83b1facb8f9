//! Fresh secret bytes from the operating system.

use crate::rows::same_shape;
use vstd::prelude::*;

verus! {

/// Overwrites `buffer` with random bytes through `rand::rngs::OsRng::fill_bytes`.
///
/// Trusted: the buffer keeps its length.  Nothing is stated of the bytes themselves, which
/// differ from call to call.  Where the operating system cannot supply randomness the call
/// panics: there is no weaker source to fall back on.
#[verifier::external_body]
pub(crate) fn fill_random(buffer: &mut Vec<u8>)
    ensures
        final(buffer)@.len() == old(buffer)@.len(),
{
    rand::RngCore::fill_bytes(&mut rand::rngs::OsRng, buffer.as_mut_slice());
}

/// Overwrites every row of `rows` with random bytes, each row drawn on its own.
///
/// Only the shape is promised: the bytes are whatever the operating system gave.
pub(crate) fn fill_rows(rows: &mut Vec<Vec<u8>>)
    ensures
        same_shape(final(rows).deep_view(), old(rows).deep_view()),
{
    let mut i: usize = 0;
    while i < rows.len()
        invariant
            i <= rows@.len(),
            rows@.len() == old(rows)@.len(),
            forall|k: int|
                0 <= k < rows@.len() ==> (#[trigger] rows@[k])@.len() == old(rows)@[k]@.len(),
        decreases rows@.len() - i,
    {
        fill_random(&mut rows[i]);
        i += 1;
    }
}

} // verus!

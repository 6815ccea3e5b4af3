//! Erasure that the compiler cannot optimise away.

use vstd::prelude::*;

use zeroize::Zeroize;

verus! {

/// Relies on `<[u8] as zeroize::Zeroize>::zeroize`: every byte of the slice is
/// overwritten with zero by volatile writes that the compiler keeps; the length
/// is untouched.
#[verifier::external_body]
pub(crate) fn wipe_bytes(b: &mut Vec<u8>)
    ensures
        final(b)@ == Seq::new(old(b)@.len(), |_i: int| 0u8),
{
    b.as_mut_slice().zeroize();
}

/// Relies on `<u64 as zeroize::Zeroize>::zeroize`: the word is overwritten with
/// zero by a volatile write.
#[verifier::external_body]
pub(crate) fn wipe_word(w: &mut u64)
    ensures
        *final(w) == 0,
{
    w.zeroize();
}

/// Relies on `<Vec<u8> as zeroize::Zeroize>::zeroize`: the elements and the
/// spare capacity are overwritten with zero, then the vector is cleared.
#[verifier::external_body]
pub(crate) fn wipe_vec(v: &mut Vec<u8>)
    ensures
        final(v)@.len() == 0,
{
    v.zeroize();
}

} // verus!

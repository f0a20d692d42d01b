//! The hash that derives transaction identity.

use vstd::prelude::*;

use blake2::digest::consts::U32;
use blake2::digest::Digest;
use blake2::Blake2b;

verus! {

/// The 32-byte BLAKE2b-256 digest of a byte string. The digest is a
/// function of the bytes alone: the same bytes give the same digest in
/// every process and on every machine.
pub uninterp spec fn blake2b256_of(bytes: Seq<u8>) -> Seq<u8>;

/// Relies on blake2's `Blake2b` hasher with a 32-byte output: it returns
/// the BLAKE2b-256 digest of the input, which depends on the input bytes
/// alone.
#[verifier::external_body]
pub(crate) fn blake2b256_hash(bytes: &Vec<u8>) -> (r: [u8; 32])
    ensures
        r@ == blake2b256_of(bytes@),
{
    let mut hasher = Blake2b::<U32>::new();
    hasher.update(bytes.as_slice());
    hasher.finalize().into()
}

} // verus!

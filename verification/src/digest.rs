//! The digest by which the host tells one buffer from another.

use vstd::prelude::*;

verus! {

/// The 64-bit digest of a byte sequence: what `iced_native::Hasher`, an
/// XXH64 hasher that starts from seed 0, yields after the bytes were written
/// to it in one piece.
pub uninterp spec fn bytes_digest(bytes: Seq<u8>) -> u64;

/// Feeds the bytes to a fresh `iced_native::Hasher` and finishes it. The
/// hasher starts from a fixed seed, so the result depends on the bytes
/// alone; nothing else is claimed of it.
#[verifier::external_body]
pub(crate) fn digest(bytes: &[u8]) -> (h: u64)
    ensures
        h == bytes_digest(bytes@),
{
    let mut hasher = iced_native::Hasher::default();
    std::hash::Hasher::write(&mut hasher, bytes);
    std::hash::Hasher::finish(&hasher)
}

} // verus!

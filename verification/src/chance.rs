//! Random numbers.

use vstd::prelude::*;
use rand::Rng;

verus! {

/// Sixteen bytes from the thread-local generator of `rand`
/// (`rand::thread_rng`, `Rng::gen`). Nothing is claimed of them.
#[verifier::external_body]
pub(crate) fn random_bytes() -> (bytes: [u8; 16]) {
    rand::thread_rng().gen::<[u8; 16]>()
}

/// A random number, made of eight random bytes.
pub(crate) fn random_number() -> (raw: u64) {
    let bytes = random_bytes();
    number_from(&bytes)
}

/// The number whose bytes, most significant first, are the first `upto`
/// of `bytes`.
pub open spec fn number_upto(bytes: Seq<u8>, upto: int) -> u64
    decreases upto,
{
    if upto <= 0 {
        0
    } else {
        (number_upto(bytes, upto - 1) << 8) | (bytes[upto - 1] as u64)
    }
}

/// The number whose eight bytes, most significant first, are the first
/// eight of `bytes`.
pub open spec fn number_of(bytes: Seq<u8>) -> u64 {
    number_upto(bytes, 8)
}

/// Makes a number of the first eight of sixteen bytes, the first of them
/// being the most significant.
pub fn number_from(bytes: &[u8; 16]) -> (raw: u64)
    ensures
        raw == number_of(bytes@),
{
    let mut raw: u64 = 0;
    let mut i: usize = 0;
    while i < 8
        invariant
            0 <= i <= 8,
            raw == number_upto(bytes@, i as int),
        decreases 8 - i,
    {
        raw = (raw << 8) | (bytes[i] as u64);
        i += 1;
    }
    raw
}

} // verus!

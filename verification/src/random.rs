//! What the library draws at random.
//!
//! Both sources are seeded by the operating system and give up where it has
//! no randomness to give.

use rand::Rng;
use vstd::prelude::*;

verus! {

/// `rand::Rng::gen_range` on the generator that `rand::thread_rng` hands
/// out, for the range from 0 up to `bound`, `bound` itself left out: some
/// number of that range. The range must hold a number, so `bound` is not 0.
#[verifier::external_body]
pub(crate) fn random_below(bound: u64) -> (value: u64)
    requires
        bound > 0,
    ensures
        value < bound,
{
    rand::thread_rng().gen_range(0..bound)
}

/// Whether `value` is the number of a random identifier: of the 128 bits,
/// the four that tell the version, from bit 76 up, hold 4, and the two that
/// tell the variant, from bit 62 up, hold 2. The other 122 bits are free.
pub open spec fn is_random_uuid(value: u128) -> bool {
    (value >> 76) & 0xF == 4 && (value >> 62) & 0x3 == 2
}

/// `uuid::Uuid::new_v4`, read as one number by `uuid::Uuid::as_u128`: a
/// random identifier of version 4. It sets the bits of version and variant
/// and draws the others; nothing is promised of those.
#[verifier::external_body]
pub(crate) fn random_uuid() -> (value: u128)
    ensures
        is_random_uuid(value),
{
    uuid::Uuid::new_v4().as_u128()
}

} // verus!

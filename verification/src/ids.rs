//! The store's source of candidate identifiers: random version-4 UUIDs,
//! taken as 128-bit values.

use vstd::prelude::*;

verus! {

/// Relies on uuid::Uuid::new_v4 and uuid::Uuid::as_u128: a freshly drawn
/// random version-4 UUID, returned as its 128-bit big-endian value. The draw
/// is random, so nothing is promised of where the value falls beyond what
/// every RFC 4122 version-4 UUID carries: its two variant bits, bits 63 and
/// 62 of the value, are one and zero.
#[verifier::external_body]
pub(crate) fn random_id() -> (r: u128)
    ensures
        r & 0xC000_0000_0000_0000 == 0x8000_0000_0000_0000,
{
    uuid::Uuid::new_v4().as_u128()
}

} // verus!

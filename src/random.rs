use vstd::prelude::*;

verus! {

/// Relies on `rand::RngCore::try_fill_bytes` for `rand::rngs::OsRng` (the
/// system's generator, through `getrandom`): four random bytes, read as a
/// little-endian `u32`, or none when the system fails to give them. Nothing is
/// promised of the value.
#[verifier::external_body]
pub(crate) fn os_random_u32() -> (r: Option<u32>) {
    let mut buf = [0u8; 4];
    match rand::RngCore::try_fill_bytes(&mut rand::rngs::OsRng, &mut buf) {
        Ok(()) => Some(u32::from_le_bytes(buf)),
        Err(_) => None,
    }
}

} // verus!

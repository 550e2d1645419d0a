use vstd::prelude::*;

verus! {

/// The thread-local generator of `rand`: a cryptographically secure source
/// seeded by the operating system. Nothing inside it is visible here.
#[verifier::external_type_specification]
#[verifier::external_body]
pub struct ExThreadRng(rand::rngs::ThreadRng);

/// `rand::thread_rng` hands out the calling thread's generator; nothing is
/// claimed of it.
pub assume_specification[ rand::thread_rng ]() -> (rng: rand::rngs::ThreadRng);

/// Calls `RngCore::fill_bytes` on a fresh buffer of `len` bytes. The bytes
/// are random: only their number is claimed.
#[verifier::external_body]
pub(crate) fn random_bytes(rng: &mut rand::rngs::ThreadRng, len: usize) -> (bytes: Vec<u8>)
    ensures
        bytes@.len() == len,
{
    let mut bytes = vec![0u8; len];
    rand::RngCore::fill_bytes(rng, &mut bytes);
    bytes
}

/// Calls `SliceRandom::choose`, which returns `None` for an empty slice and
/// otherwise the element at a uniformly drawn index.
#[verifier::external_body]
pub(crate) fn choose_byte(charset: &[u8], rng: &mut rand::rngs::ThreadRng) -> (picked: Option<u8>)
    ensures
        charset@.len() == 0 ==> picked is None,
        charset@.len() > 0 ==> picked is Some && charset@.contains(picked->0),
{
    rand::seq::SliceRandom::choose(charset, rng).copied()
}

/// Calls `Uuid::new_v4` and writes the id the way `Display` does: 32
/// lower-case hexadecimal digits in five groups, 36 characters in all. The
/// digits are random.
#[verifier::external_body]
pub(crate) fn random_uuid() -> (text: String)
    ensures
        text@.len() == 36,
{
    uuid::Uuid::new_v4().to_string()
}

} // verus!

use vstd::prelude::*;

verus! {

/// Work factor used for every stored password hash.
pub const DEFAULT_COST: u32 = 12;

/// Failure inside the hashing primitive itself: never a plain mismatch.
#[derive(Clone, Copy, Debug, PartialEq, Eq, Structural)]
pub enum HashingError {
    /// The primitive could not produce a hash.
    Primitive,
    /// The stored hash string could not be read.
    MalformedHash,
}

/// What `bcrypt::verify` answers for a password and a stored hash string:
/// `None` where it reports an error, else whether the password matches.
pub uninterp spec fn bcrypt_check(password: Seq<char>, hash: Seq<char>) -> Option<bool>;

/// Calls `bcrypt::hash`. The salt is drawn at random, so the hash itself is
/// not determined by the arguments; what is claimed is that a hash it returns
/// is one that `bcrypt::verify` accepts for the same password.
#[verifier::external_body]
fn bcrypt_hash(password: &str, cost: u32) -> (hashed: Option<String>)
    ensures
        hashed matches Some(h) ==> bcrypt_check(password@, h@) == Some(true),
{
    bcrypt::hash(password, cost).ok()
}

/// Calls `bcrypt::verify`, which recomputes the hash with the salt and cost
/// read from `hash` and compares in constant time.
#[verifier::external_body]
fn bcrypt_verify(password: &str, hash: &str) -> (outcome: Option<bool>)
    ensures
        outcome == bcrypt_check(password@, hash@),
{
    bcrypt::verify(password, hash).ok()
}

/// Whether `hash` is a stored hash that `password` opens.
pub open spec fn password_matches(password: Seq<char>, hash: Seq<char>) -> bool {
    bcrypt_check(password, hash) == Some(true)
}

/// What `verify` returns, given what the primitive answered.
pub open spec fn verify_outcome(checked: Option<bool>) -> Result<bool, HashingError> {
    match checked {
        Some(matches) => Ok(matches),
        None => Err(HashingError::MalformedHash),
    }
}

/// What `hash` returns, given what the primitive produced.
pub fn hash_outcome(produced: Option<String>) -> (hashed: Result<String, HashingError>)
    ensures
        match produced {
            Some(h) => hashed == Ok::<String, HashingError>(h),
            None => hashed == Err::<String, HashingError>(HashingError::Primitive),
        },
{
    match produced {
        Some(h) => Ok(h),
        None => Err(HashingError::Primitive),
    }
}

/// Hashes a password with a fresh salt at the default cost. The hash that
/// comes back is one that `verify` accepts for the same password.
pub fn hash(plaintext: &str) -> (hashed: Result<String, HashingError>)
    ensures
        hashed matches Ok(h) ==> password_matches(plaintext@, h@),
        hashed matches Err(e) ==> e == HashingError::Primitive,
{
    hash_outcome(bcrypt_hash(plaintext, DEFAULT_COST))
}

/// Checks a password against a stored hash. A mismatch is `Ok(false)`; an
/// error is returned only where the stored hash cannot be read.
pub fn verify(plaintext: &str, hash_string: &str) -> (outcome: Result<bool, HashingError>)
    ensures
        outcome == verify_outcome(bcrypt_check(plaintext@, hash_string@)),
{
    match bcrypt_verify(plaintext, hash_string) {
        Some(matches) => Ok(matches),
        None => Err(HashingError::MalformedHash),
    }
}

} // verus!

use vstd::prelude::*;

verus! {

/// The signed payload of a session token: whom it speaks for, and the
/// second (since the epoch) from which it is no longer accepted.
#[derive(Clone, Copy, Debug, PartialEq, Eq, Structural)]
pub struct Claims {
    pub sub: i32,
    pub exp: usize,
}

} // verus!

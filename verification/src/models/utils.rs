use vstd::prelude::*;

verus! {

#[derive(Clone, Debug, PartialEq, Eq)]
pub struct GeneratePasswordResponse {
    pub password: String,
}

#[derive(Clone, Copy, Debug, PartialEq, Eq, Structural)]
pub struct GeneratePasswordRequest {
    pub length: usize,
    pub include_special_symbols: bool,
    pub include_numbers: bool,
    pub include_uppercase: bool,
    pub include_lowercase: bool,
}

} // verus!

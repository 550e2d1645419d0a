use vstd::prelude::*;
use vstd::string::*;

verus! {

/// Why a value is out of policy.
#[derive(Clone, Copy, Debug, PartialEq, Eq, Structural)]
pub enum ValidationError {
    TooShort,
    TooLong,
    TooSimple,
    InvalidEmail,
}

/// Text that is not in the OpenSSH format it was said to be in.
#[derive(Clone, Copy, Debug, PartialEq, Eq, Structural)]
pub struct FormatValidationError;

/// Whether `garde`'s e-mail rule (`rules::email::parse_email`) accepts the
/// address.
pub uninterp spec fn garde_email(address: Seq<char>) -> bool;

/// Whether `ssh_key::PrivateKey::from_openssh` can read the text.
pub uninterp spec fn openssh_private_key(text: Seq<char>) -> bool;

/// Whether `ssh_key::PublicKey::from_openssh` can read the text.
pub uninterp spec fn openssh_public_key(text: Seq<char>) -> bool;

/// The public key, in OpenSSH format, of the private key that
/// `ssh_key::PrivateKey::from_openssh` reads from the text: what
/// `public_key().to_openssh()` writes for it. `None` where the text cannot
/// be read.
pub uninterp spec fn openssh_public_of(private_key: Seq<char>) -> Option<Seq<char>>;

/// What `Regex::new(pattern)` followed by `is_match(text)` gives: `None`
/// where the pattern does not compile.
pub uninterp spec fn regex_match(pattern: Seq<char>, text: Seq<char>) -> Option<bool>;

/// Calls `garde::rules::email::parse_email`.
#[verifier::external_body]
fn email_rule(address: &str) -> (accepted: bool)
    ensures
        accepted == garde_email(address@),
{
    garde::rules::email::parse_email(address).is_ok()
}

/// Calls `ssh_key::PrivateKey::from_openssh`.
#[verifier::external_body]
fn private_key_parses(text: &str) -> (accepted: bool)
    ensures
        accepted == openssh_private_key(text@),
{
    ssh_key::PrivateKey::from_openssh(text).is_ok()
}

/// Calls `ssh_key::PublicKey::from_openssh`.
#[verifier::external_body]
fn public_key_parses(text: &str) -> (accepted: bool)
    ensures
        accepted == openssh_public_key(text@),
{
    ssh_key::PublicKey::from_openssh(text).is_ok()
}

/// Calls `ssh_key::PrivateKey::from_openssh` and writes the public key of
/// what it read with `PublicKey::to_openssh`.
#[verifier::external_body]
fn public_half(private_key: &str) -> (public_key: Option<String>)
    ensures
        key_view(public_key) == openssh_public_of(private_key@),
{
    let key = ssh_key::PrivateKey::from_openssh(private_key).ok()?;
    key.public_key().to_openssh().ok()
}

/// Calls `Regex::new` and, on the compiled pattern, `Regex::is_match`.
#[verifier::external_body]
fn regex_is_match(pattern: &str, text: &str) -> (matched: Option<bool>)
    ensures
        matched == regex_match(pattern@, text@),
{
    Some(regex::Regex::new(pattern).ok()?.is_match(text))
}

/// A strength policy for stored passwords: a least length in bytes, and the
/// character classes of which at least one character must occur.
#[derive(Clone, Copy, Debug, PartialEq, Eq, Structural)]
pub struct PasswordPolicy {
    pub min_length: usize,
    pub require_lowercase: bool,
    pub require_uppercase: bool,
    pub require_digit: bool,
    pub require_special: bool,
}

/// The policy applied where none is given: eight bytes or more, with a
/// lower-case letter, an upper-case letter and a digit.
pub open spec fn default_policy() -> PasswordPolicy {
    PasswordPolicy {
        min_length: 8,
        require_lowercase: true,
        require_uppercase: true,
        require_digit: true,
        require_special: false,
    }
}

pub open spec fn has_byte_between(bytes: Seq<u8>, low: u8, high: u8) -> bool {
    exists|i: int| 0 <= i < bytes.len() && low <= #[trigger] bytes[i] <= high
}

/// Whether some byte is ASCII punctuation.
pub open spec fn has_punctuation(bytes: Seq<u8>) -> bool {
    has_byte_between(bytes, 33, 47) || has_byte_between(bytes, 58, 64) || has_byte_between(
        bytes,
        91,
        96,
    ) || has_byte_between(bytes, 123, 126)
}

pub open spec fn complex_enough(bytes: Seq<u8>, policy: PasswordPolicy) -> bool {
    &&& policy.require_lowercase ==> has_byte_between(bytes, 97, 122)
    &&& policy.require_uppercase ==> has_byte_between(bytes, 65, 90)
    &&& policy.require_digit ==> has_byte_between(bytes, 48, 57)
    &&& policy.require_special ==> has_punctuation(bytes)
}

/// What the strength check answers for a password of the given bytes.
pub open spec fn password_outcome(bytes: Seq<u8>, policy: PasswordPolicy) -> Result<
    (),
    ValidationError,
> {
    if bytes.len() < policy.min_length {
        Err(ValidationError::TooShort)
    } else if !complex_enough(bytes, policy) {
        Err(ValidationError::TooSimple)
    } else {
        Ok(())
    }
}

fn contains_between(bytes: &[u8], low: u8, high: u8) -> (found: bool)
    ensures
        found == has_byte_between(bytes@, low, high),
{
    let mut i: usize = 0;
    while i < bytes.len()
        invariant
            i <= bytes@.len(),
            forall|k: int| 0 <= k < i ==> !(low <= #[trigger] bytes@[k] <= high),
        decreases bytes.len() - i,
    {
        if low <= bytes[i] && bytes[i] <= high {
            return true;
        }
        i += 1;
    }
    false
}

impl PasswordPolicy {
    pub fn standard() -> (policy: PasswordPolicy)
        ensures
            policy == default_policy(),
    {
        PasswordPolicy {
            min_length: 8,
            require_lowercase: true,
            require_uppercase: true,
            require_digit: true,
            require_special: false,
        }
    }

    /// Checks a password against this policy.
    pub fn check(&self, password: &str) -> (outcome: Result<(), ValidationError>)
        ensures
            outcome == password_outcome(password.spec_bytes(), *self),
    {
        let bytes = password.as_bytes();
        if bytes.len() < self.min_length {
            return Err(ValidationError::TooShort);
        }
        if self.require_lowercase && !contains_between(bytes, 97, 122) {
            return Err(ValidationError::TooSimple);
        }
        if self.require_uppercase && !contains_between(bytes, 65, 90) {
            return Err(ValidationError::TooSimple);
        }
        if self.require_digit && !contains_between(bytes, 48, 57) {
            return Err(ValidationError::TooSimple);
        }
        if self.require_special && !(contains_between(bytes, 33, 47) || contains_between(
            bytes,
            58,
            64,
        ) || contains_between(bytes, 91, 96) || contains_between(bytes, 123, 126)) {
            return Err(ValidationError::TooSimple);
        }
        Ok(())
    }
}

/// Checks the value of a password-type secret against the standard policy.
pub fn validate_password(password: &str) -> (outcome: Result<(), ValidationError>)
    ensures
        outcome == password_outcome(password.spec_bytes(), default_policy()),
{
    PasswordPolicy::standard().check(password)
}

/// What a length rule answers for a text of `len` bytes.
pub open spec fn length_outcome(len: nat, min: usize, max: usize) -> Result<(), ValidationError> {
    if len < min {
        Err(ValidationError::TooShort)
    } else if len > max {
        Err(ValidationError::TooLong)
    } else {
        Ok(())
    }
}

/// Checks that a text has at least `min` and at most `max` bytes.
pub fn validate_length(text: &str, min: usize, max: usize) -> (outcome: Result<
    (),
    ValidationError,
>)
    ensures
        outcome == length_outcome(text.spec_bytes().len(), min, max),
{
    let len = text.as_bytes().len();
    if len < min {
        Err(ValidationError::TooShort)
    } else if len > max {
        Err(ValidationError::TooLong)
    } else {
        Ok(())
    }
}

pub open spec fn email_outcome(address: Seq<char>) -> Result<(), ValidationError> {
    if garde_email(address) {
        Ok(())
    } else {
        Err(ValidationError::InvalidEmail)
    }
}

/// Checks an e-mail address.
pub fn validate_email(address: &str) -> (outcome: Result<(), ValidationError>)
    ensures
        outcome == email_outcome(address@),
{
    if email_rule(address) {
        Ok(())
    } else {
        Err(ValidationError::InvalidEmail)
    }
}

pub open spec fn key_view(key: Option<String>) -> Option<Seq<char>> {
    match key {
        Some(k) => Some(k@),
        None => None,
    }
}

/// The public key that belongs to a private key in OpenSSH format.
pub fn public_key_of(private_key: &str) -> (public_key: Option<String>)
    ensures
        key_view(public_key) == openssh_public_of(private_key@),
{
    public_half(private_key)
}

/// Whether the text is a public key in OpenSSH format.
pub fn validate_openssh_key(public_key: &str) -> (accepted: bool)
    ensures
        accepted == openssh_public_key(public_key@),
{
    public_key_parses(public_key)
}

/// Whether the text is a private key in OpenSSH format.
pub fn validate_openssh_private_key(private_key: &str) -> (accepted: bool)
    ensures
        accepted == openssh_private_key(private_key@),
{
    private_key_parses(private_key)
}

pub open spec fn import_outcome(private_key: Seq<char>, public_key: Seq<char>) -> Result<
    (),
    FormatValidationError,
> {
    if openssh_private_key(private_key) && openssh_public_key(public_key) {
        Ok(())
    } else {
        Err(FormatValidationError)
    }
}

/// Checks both halves of an imported key pair: each must pass on its own.
pub fn validate_import(private_key: &str, public_key: &str) -> (outcome: Result<
    (),
    FormatValidationError,
>)
    ensures
        outcome == import_outcome(private_key@, public_key@),
{
    if !validate_openssh_private_key(private_key) || !validate_openssh_key(public_key) {
        Err(FormatValidationError)
    } else {
        Ok(())
    }
}

/// The pattern the sign-in and sign-up forms hold an address against.
pub const EMAIL_PATTERN: &'static str = r"^[a-zA-Z0-9._%+-]+@[a-zA-Z0-9.-]+\.[a-zA-Z]{2,}$";

/// Whether an address has the form the forms accept. A pattern that does
/// not compile accepts nothing.
pub fn is_email_valid(email: &str) -> (valid: bool)
    ensures
        valid == (regex_match(EMAIL_PATTERN@, email@) == Some(true)),
{
    match regex_is_match(EMAIL_PATTERN, email) {
        Some(matched) => matched,
        None => false,
    }
}

/// Whether a password and its confirmation agree.
pub fn is_password_valid(password: &str, confirm_password: &str) -> (valid: bool)
    ensures
        valid == (password@ == confirm_password@),
{
    password.to_owned() == confirm_password.to_owned()
}

} // verus!

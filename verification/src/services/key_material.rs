use vstd::prelude::*;
use crate::constants::key_types::KeyType;
use crate::http::Status;
use crate::services::random::random_bytes;
use crate::utils::encoding::{
    base64_encode,
    base64_len,
    base64_text,
    hex_encode,
    hex_text,
    is_base64_char,
    is_hex_char,
};
use crate::utils::validation::{openssh_private_key, openssh_public_key, openssh_public_of};

verus! {

/// Random bytes behind a generated token or API key.
pub const MATERIAL_LEN: usize = 32;

/// How generated material is written as text.
#[derive(Clone, Copy, Debug, PartialEq, Eq, Structural)]
pub enum KeyEncoding {
    Hex,
    Base64,
}

/// A generated SSH key pair, both halves in OpenSSH format. The private
/// half is what gets sealed; the public half is stored in the clear.
#[derive(Clone, Debug, PartialEq, Eq)]
pub struct SshKeyPair {
    pub private_key: String,
    pub public_key: String,
}

/// Calls `ssh_key::PrivateKey::random` for Ed25519 and writes both halves
/// with `to_openssh`. The key is random; what is claimed is that each half
/// is text that the matching `from_openssh` reads, and that the public half
/// is the one that is read back from the private half.
#[verifier::external_body]
fn random_ed25519_pair(rng: &mut rand::rngs::ThreadRng) -> (pair: Option<(String, String)>)
    ensures
        pair matches Some((private_key, public_key)) ==> openssh_private_key(private_key@)
            && openssh_public_key(public_key@) && openssh_public_of(private_key@) == Some(
            public_key@,
        ),
{
    let key = ssh_key::PrivateKey::random(rng, ssh_key::Algorithm::Ed25519).ok()?;
    let private_key = key.to_openssh(ssh_key::LineEnding::LF).ok()?;
    let public_key = key.public_key().to_openssh().ok()?;
    Some((private_key.to_string(), public_key))
}

/// The text of `bytes` in an encoding.
pub open spec fn encoded(bytes: Seq<u8>, encoding: KeyEncoding) -> Seq<char> {
    match encoding {
        KeyEncoding::Hex => hex_text(bytes),
        KeyEncoding::Base64 => base64_text(bytes),
    }
}

/// The number of characters that `n` bytes take in an encoding.
pub open spec fn encoded_len(n: nat, encoding: KeyEncoding) -> nat {
    match encoding {
        KeyEncoding::Hex => 2 * n,
        KeyEncoding::Base64 => base64_len(n),
    }
}

/// Whether a character belongs to an encoding's alphabet.
pub open spec fn in_alphabet(c: char, encoding: KeyEncoding) -> bool {
    match encoding {
        KeyEncoding::Hex => is_hex_char(c),
        KeyEncoding::Base64 => is_base64_char(c),
    }
}

/// Whether the vault generates material for a type when none is supplied.
pub open spec fn is_generated(key_type: KeyType) -> bool {
    key_type == KeyType::Token || key_type == KeyType::ApiKey
}

/// Writes material in an encoding.
pub fn encode_material(bytes: &[u8], encoding: KeyEncoding) -> (text: String)
    ensures
        text@ == encoded(bytes@, encoding),
        text@.len() == encoded_len(bytes@.len(), encoding),
        forall|i: int| 0 <= i < text@.len() ==> in_alphabet(#[trigger] text@[i], encoding),
{
    match encoding {
        KeyEncoding::Hex => hex_encode(bytes),
        KeyEncoding::Base64 => base64_encode(bytes),
    }
}

/// Generates a token or an API key: 32 bytes from the secure random source,
/// written in `encoding`. Passwords and SSH key pairs are not generated
/// this way and are refused.
pub fn generate_token(key_type: KeyType, encoding: KeyEncoding) -> (generated: Result<
    String,
    Status,
>)
    ensures
        match generated {
            Ok(token) => {
                &&& is_generated(key_type)
                &&& exists|bytes: Seq<u8>|
                    bytes.len() == MATERIAL_LEN && token@ == #[trigger] encoded(bytes, encoding)
                &&& token@.len() == encoded_len(MATERIAL_LEN as nat, encoding)
                &&& forall|i: int|
                    0 <= i < token@.len() ==> in_alphabet(#[trigger] token@[i], encoding)
            },
            Err(status) => !is_generated(key_type) && status == Status::UnprocessableEntity,
        },
{
    match key_type {
        KeyType::Token | KeyType::ApiKey => {
            let mut rng = rand::thread_rng();
            let bytes = random_bytes(&mut rng, MATERIAL_LEN);
            Ok(encode_material(bytes.as_slice(), encoding))
        },
        _ => Err(Status::UnprocessableEntity),
    }
}

/// What generating a key pair returns, given what the primitive produced.
pub fn key_pair_outcome(produced: Option<(String, String)>) -> (generated: Result<
    SshKeyPair,
    Status,
>)
    ensures
        match produced {
            Some((private_key, public_key)) => generated == Ok::<SshKeyPair, Status>(
                SshKeyPair { private_key, public_key },
            ),
            None => generated == Err::<SshKeyPair, Status>(Status::InternalServerError),
        },
{
    match produced {
        Some((private_key, public_key)) => Ok(SshKeyPair { private_key, public_key }),
        None => Err(Status::InternalServerError),
    }
}

/// Generates an Ed25519 key pair in OpenSSH format. Both halves are text
/// that the import path would accept, and the public half is the one that
/// belongs to the private half.
pub fn generate_ssh_key_pair() -> (generated: Result<SshKeyPair, Status>)
    ensures
        match generated {
            Ok(pair) => openssh_private_key(pair.private_key@) && openssh_public_key(
                pair.public_key@,
            ) && openssh_public_of(pair.private_key@) == Some(pair.public_key@),
            Err(status) => status == Status::InternalServerError,
        },
{
    let mut rng = rand::thread_rng();
    key_pair_outcome(random_ed25519_pair(&mut rng))
}

} // verus!

use vstd::prelude::*;
use vstd::string::*;
use aes_gcm::aead::{Aead, KeyInit};
use crate::services::random::random_bytes;

verus! {

/// Bytes of fresh salt drawn for every encryption.
pub const SALT_LEN: usize = 16;

/// Width of the nonce the cipher takes.
pub const NONCE_LEN: usize = 12;

/// Width of the derived record key.
pub const KEY_LEN: usize = 32;

/// Width of the tag that follows every ciphertext.
pub const TAG_LEN: usize = 16;

/// The longest ciphertext, tag included, that the cipher can have made:
/// it seals no plaintext of more than 2^36 bytes.
pub const MAX_SEALED_LEN: u64 = 0x10_0000_0010;

/// The longest password, salt or key that the key derivation takes.
pub const DERIVE_MAX_LEN: u64 = 0xFFFF_FFFF;

/// The shortest salt that the key derivation takes.
pub const DERIVE_MIN_SALT_LEN: usize = 8;

/// The shortest key that the key derivation makes.
pub const DERIVE_MIN_KEY_LEN: usize = 4;

/// The longest plaintext that the cipher seals: 2^36 bytes.
pub const MAX_PLAINTEXT_LEN: u64 = 0x10_0000_0000;

/// Why sealing or opening a secret failed. No detail of the failure is kept.
#[derive(Clone, Copy, Debug, PartialEq, Eq, Structural)]
pub enum CryptoError {
    KeyDerivation,
    Encryption,
    Decryption,
}

/// What is stored for one secret: the three parts belong together, and
/// losing any one of them makes the secret unrecoverable.
#[derive(Clone, Debug, PartialEq, Eq)]
pub struct EncryptedData {
    pub ciphertext: Vec<u8>,
    pub salt: Vec<u8>,
    pub nonce: Vec<u8>,
}

pub struct Sealed {
    pub ciphertext: Seq<u8>,
    pub salt: Seq<u8>,
    pub nonce: Seq<u8>,
}

impl View for EncryptedData {
    type V = Sealed;

    open spec fn view(&self) -> Sealed {
        Sealed { ciphertext: self.ciphertext@, salt: self.salt@, nonce: self.nonce@ }
    }
}

/// The key that Argon2id, at its default parameters, derives from a password
/// and a salt into `len` bytes; `None` where it refuses the inputs.
pub uninterp spec fn argon2id(password: Seq<u8>, salt: Seq<u8>, len: usize) -> Option<Seq<u8>>;

/// What AES-256-GCM encryption returns for a key, a nonce and a plaintext,
/// with no associated data: the ciphertext followed by its tag.
pub uninterp spec fn aes_gcm_seal(key: Seq<u8>, nonce: Seq<u8>, plaintext: Seq<u8>) -> Option<
    Seq<u8>,
>;

/// What AES-256-GCM decryption returns for a key, a nonce and a ciphertext
/// with its tag: `None` where the tag does not authenticate the ciphertext.
pub uninterp spec fn aes_gcm_open(key: Seq<u8>, nonce: Seq<u8>, ciphertext: Seq<u8>) -> Option<
    Seq<u8>,
>;

pub open spec fn view_bytes(bytes: Option<Vec<u8>>) -> Option<Seq<u8>> {
    match bytes {
        Some(b) => Some(b@),
        None => None,
    }
}

/// Whether the key derivation takes inputs of these lengths. It checks
/// nothing but the lengths.
pub open spec fn derivable(password_len: nat, salt_len: nat, len: usize) -> bool {
    &&& password_len <= DERIVE_MAX_LEN
    &&& DERIVE_MIN_SALT_LEN <= salt_len <= DERIVE_MAX_LEN
    &&& DERIVE_MIN_KEY_LEN <= len <= DERIVE_MAX_LEN
}

/// Calls `Argon2::default().hash_password_into` on a zeroed buffer of `len`
/// bytes. The derivation is a function of its inputs; it refuses them by
/// their lengths alone, and a key it returns has the length asked for.
#[verifier::external_body]
fn derive_key(password: &[u8], salt: &[u8], len: usize) -> (key: Option<Vec<u8>>)
    ensures
        view_bytes(key) == argon2id(password@, salt@, len),
        key matches Some(k) ==> k@.len() == len,
        key is Some <==> derivable(password@.len(), salt@.len(), len),
{
    let mut key = vec![0u8; len];
    argon2::Argon2::default().hash_password_into(password, salt, &mut key).ok()?;
    Some(key)
}

/// Calls `Aes256Gcm::encrypt`. Key and nonce must have the widths the cipher
/// takes, since building them from slices of another length panics. What it
/// returns is fixed by the arguments: the encrypted plaintext, of the same
/// length, followed by a tag of 16 bytes. It refuses a plaintext of more
/// than 2^36 bytes, and what it returns is something that decryption under
/// the same key and nonce opens to the same plaintext.
#[verifier::external_body]
fn seal(key: &[u8], nonce: &[u8], plaintext: &[u8]) -> (sealed: Option<Vec<u8>>)
    requires
        key@.len() == KEY_LEN,
        nonce@.len() == NONCE_LEN,
    ensures
        view_bytes(sealed) == aes_gcm_seal(key@, nonce@, plaintext@),
        sealed matches Some(c) ==> aes_gcm_open(key@, nonce@, c@) == Some(plaintext@),
        sealed matches Some(c) ==> c@.len() == plaintext@.len() + TAG_LEN && c@.len()
            <= MAX_SEALED_LEN,
        sealed is Some <==> plaintext@.len() <= MAX_PLAINTEXT_LEN,
{
    let cipher = aes_gcm::Aes256Gcm::new_from_slice(key).ok()?;
    cipher.encrypt(aes_gcm::Nonce::from_slice(nonce), plaintext).ok()
}

/// Calls `Aes256Gcm::decrypt`, which recomputes the tag over the ciphertext
/// and compares it in constant time before it releases any plaintext. A
/// plaintext it returns is therefore one whose encryption under the same key
/// and nonce is exactly the ciphertext given. The ciphertext must be no
/// longer than encryption can have made it.
#[verifier::external_body]
fn open(key: &[u8], nonce: &[u8], ciphertext: &[u8]) -> (opened: Option<Vec<u8>>)
    requires
        key@.len() == KEY_LEN,
        nonce@.len() == NONCE_LEN,
        ciphertext@.len() <= MAX_SEALED_LEN,
    ensures
        view_bytes(opened) == aes_gcm_open(key@, nonce@, ciphertext@),
        opened matches Some(p) ==> aes_gcm_seal(key@, nonce@, p@) == Some(ciphertext@),
{
    let cipher = aes_gcm::Aes256Gcm::new_from_slice(key).ok()?;
    cipher.decrypt(aes_gcm::Nonce::from_slice(nonce), ciphertext).ok()
}

/// The refusal that sealing meets, if it meets one: only the lengths of
/// what is handed in decide whether a plaintext is sealed.
pub open spec fn seal_refusal(
    plaintext_len: nat,
    password_hash_len: nat,
    salt_len: nat,
    nonce_len: nat,
) -> Option<CryptoError> {
    if nonce_len != NONCE_LEN {
        Some(CryptoError::Encryption)
    } else if !derivable(password_hash_len, salt_len, KEY_LEN) {
        Some(CryptoError::KeyDerivation)
    } else if plaintext_len > MAX_PLAINTEXT_LEN {
        Some(CryptoError::Encryption)
    } else {
        None
    }
}

/// Sealing a plaintext under the key derived from the owner's password hash
/// and `salt`, with `nonce`.
pub open spec fn seal_outcome(
    plaintext: Seq<u8>,
    password_hash: Seq<u8>,
    salt: Seq<u8>,
    nonce: Seq<u8>,
) -> Result<Sealed, CryptoError> {
    if nonce.len() != NONCE_LEN {
        Err(CryptoError::Encryption)
    } else {
        match argon2id(password_hash, salt, KEY_LEN) {
            None => Err(CryptoError::KeyDerivation),
            Some(key) => match aes_gcm_seal(key, nonce, plaintext) {
                None => Err(CryptoError::Encryption),
                Some(ciphertext) => Ok(Sealed { ciphertext, salt, nonce }),
            },
        }
    }
}

/// Opening a stored triple under the key derived from the owner's password
/// hash and the stored salt. A nonce of another width than the cipher's, or
/// a ciphertext longer than the cipher makes, is refused outright.
pub open spec fn open_outcome(
    ciphertext: Seq<u8>,
    salt: Seq<u8>,
    nonce: Seq<u8>,
    password_hash: Seq<u8>,
) -> Result<Seq<u8>, CryptoError> {
    if nonce.len() != NONCE_LEN || ciphertext.len() > MAX_SEALED_LEN {
        Err(CryptoError::Decryption)
    } else {
        match argon2id(password_hash, salt, KEY_LEN) {
            None => Err(CryptoError::KeyDerivation),
            Some(key) => match aes_gcm_open(key, nonce, ciphertext) {
                None => Err(CryptoError::Decryption),
                Some(plaintext) => Ok(plaintext),
            },
        }
    }
}

/// Seals `plaintext` with a salt and a nonce that the caller has drawn.
/// A triple that comes back opens again to `plaintext` under the same
/// password hash.
pub fn encrypt_with(
    plaintext: &[u8],
    owner_password_hash: &str,
    salt: Vec<u8>,
    nonce: Vec<u8>,
) -> (sealed: Result<EncryptedData, CryptoError>)
    ensures
        match sealed {
            Ok(data) => seal_outcome(plaintext@, owner_password_hash.spec_bytes(), salt@, nonce@)
                == Ok::<Sealed, CryptoError>(data@),
            Err(e) => seal_outcome(plaintext@, owner_password_hash.spec_bytes(), salt@, nonce@)
                == Err::<Sealed, CryptoError>(e),
        },
        sealed matches Ok(data) ==> open_outcome(
            data.ciphertext@,
            data.salt@,
            data.nonce@,
            owner_password_hash.spec_bytes(),
        ) == Ok::<Seq<u8>, CryptoError>(plaintext@),
        sealed matches Ok(data) ==> data.ciphertext@.len() == plaintext@.len() + TAG_LEN,
        match seal_refusal(
            plaintext@.len(),
            owner_password_hash.spec_bytes().len(),
            salt@.len(),
            nonce@.len(),
        ) {
            Some(refusal) => sealed is Err && sealed->Err_0 == refusal,
            None => sealed is Ok,
        },
{
    if nonce.len() != NONCE_LEN {
        return Err(CryptoError::Encryption);
    }
    let key = match derive_key(owner_password_hash.as_bytes(), salt.as_slice(), KEY_LEN) {
        Some(key) => key,
        None => {
            return Err(CryptoError::KeyDerivation);
        },
    };
    match seal(key.as_slice(), nonce.as_slice(), plaintext) {
        Some(ciphertext) => Ok(EncryptedData { ciphertext, salt, nonce }),
        None => Err(CryptoError::Encryption),
    }
}

/// Seals `plaintext` under a key derived from the owner's password hash and
/// a fresh random salt, with a fresh random nonce. Whether it succeeds is
/// decided by the lengths of plaintext and password hash alone; what comes
/// back opens again to the plaintext.
pub fn encrypt(plaintext: &[u8], owner_password_hash: &str) -> (sealed: Result<
    EncryptedData,
    CryptoError,
>)
    ensures
        sealed matches Ok(data) ==> {
            &&& data.salt@.len() == SALT_LEN
            &&& data.nonce@.len() == NONCE_LEN
            &&& data.ciphertext@.len() == plaintext@.len() + TAG_LEN
            &&& seal_outcome(
                plaintext@,
                owner_password_hash.spec_bytes(),
                data.salt@,
                data.nonce@,
            ) == Ok::<Sealed, CryptoError>(data@)
            &&& open_outcome(
                data.ciphertext@,
                data.salt@,
                data.nonce@,
                owner_password_hash.spec_bytes(),
            ) == Ok::<Seq<u8>, CryptoError>(plaintext@)
        },
        match seal_refusal(
            plaintext@.len(),
            owner_password_hash.spec_bytes().len(),
            SALT_LEN as nat,
            NONCE_LEN as nat,
        ) {
            Some(refusal) => sealed is Err && sealed->Err_0 == refusal,
            None => sealed is Ok,
        },
{
    let mut rng = rand::thread_rng();
    let salt = random_bytes(&mut rng, SALT_LEN);
    let nonce = random_bytes(&mut rng, NONCE_LEN);
    encrypt_with(plaintext, owner_password_hash, salt, nonce)
}

/// Opens a stored triple. Fails closed: a ciphertext whose tag does not
/// authenticate it yields `Decryption`, never bytes. A plaintext that comes
/// back is one whose sealing under the same salt and nonce is exactly the
/// ciphertext given.
pub fn decrypt(ciphertext: &[u8], salt: &[u8], nonce: &[u8], owner_password_hash: &str) -> (opened:
    Result<Vec<u8>, CryptoError>)
    ensures
        match opened {
            Ok(plaintext) => open_outcome(
                ciphertext@,
                salt@,
                nonce@,
                owner_password_hash.spec_bytes(),
            ) == Ok::<Seq<u8>, CryptoError>(plaintext@),
            Err(e) => open_outcome(ciphertext@, salt@, nonce@, owner_password_hash.spec_bytes())
                == Err::<Seq<u8>, CryptoError>(e),
        },
        opened matches Ok(plaintext) ==> seal_outcome(
            plaintext@,
            owner_password_hash.spec_bytes(),
            salt@,
            nonce@,
        ) == Ok::<Sealed, CryptoError>(Sealed { ciphertext: ciphertext@, salt: salt@, nonce: nonce@ }),
{
    if nonce.len() != NONCE_LEN || ciphertext.len() as u64 > MAX_SEALED_LEN {
        return Err(CryptoError::Decryption);
    }
    let key = match derive_key(owner_password_hash.as_bytes(), salt, KEY_LEN) {
        Some(key) => key,
        None => {
            return Err(CryptoError::KeyDerivation);
        },
    };
    match open(key.as_slice(), nonce, ciphertext) {
        Some(plaintext) => Ok(plaintext),
        None => Err(CryptoError::Decryption),
    }
}

/// Sealing is a function of plaintext, password hash, salt and nonce: two
/// sealings under the same hash, salt and nonce that differ in their
/// ciphertext are sealings of different plaintexts. Nothing is said here of
/// whether a changed ciphertext opens at all: that rests on the cipher's
/// tag.
pub proof fn lemma_other_ciphertext_other_plaintext(
    stored_plaintext: Seq<u8>,
    other_plaintext: Seq<u8>,
    password_hash: Seq<u8>,
    salt: Seq<u8>,
    nonce: Seq<u8>,
    stored: Seq<u8>,
    other: Seq<u8>,
)
    requires
        seal_outcome(stored_plaintext, password_hash, salt, nonce) == Ok::<Sealed, CryptoError>(
            Sealed { ciphertext: stored, salt, nonce },
        ),
        seal_outcome(other_plaintext, password_hash, salt, nonce) == Ok::<Sealed, CryptoError>(
            Sealed { ciphertext: other, salt, nonce },
        ),
        stored != other,
    ensures
        stored_plaintext != other_plaintext,
{
}

} // verus!

use vstd::prelude::*;

verus! {

pub open spec fn text_view(text: Option<String>) -> Option<Seq<char>> {
    match text {
        Some(t) => Some(t@),
        None => None,
    }
}

/// Copies an optional string.
pub fn duplicate_text(text: &Option<String>) -> (copy: Option<String>)
    ensures
        text_view(copy) == text_view(*text),
{
    match text {
        Some(t) => Some(t.clone()),
        None => None,
    }
}

/// A stored secret. `key_value`, `salt` and `nonce` are the sealed triple;
/// `key_pair_value` is the public half of an SSH key pair, kept in the
/// clear. Times are seconds since the epoch.
#[derive(Clone, Debug, PartialEq, Eq)]
pub struct Key {
    pub id: i32,
    pub user_id: i32,
    pub key_name: String,
    pub key_value: Vec<u8>,
    pub key_description: Option<String>,
    pub key_type_id: i32,
    pub key_tag: Option<String>,
    pub key_pair_value: Option<String>,
    pub salt: Vec<u8>,
    pub nonce: Vec<u8>,
    pub expiration_date: Option<i64>,
    pub is_revoked: bool,
    pub created_at: i64,
}

pub struct KeyRow {
    pub id: i32,
    pub user_id: i32,
    pub key_name: Seq<char>,
    pub key_value: Seq<u8>,
    pub key_description: Option<Seq<char>>,
    pub key_type_id: i32,
    pub key_tag: Option<Seq<char>>,
    pub key_pair_value: Option<Seq<char>>,
    pub salt: Seq<u8>,
    pub nonce: Seq<u8>,
    pub expiration_date: Option<i64>,
    pub is_revoked: bool,
    pub created_at: i64,
}

impl View for Key {
    type V = KeyRow;

    open spec fn view(&self) -> KeyRow {
        KeyRow {
            id: self.id,
            user_id: self.user_id,
            key_name: self.key_name@,
            key_value: self.key_value@,
            key_description: text_view(self.key_description),
            key_type_id: self.key_type_id,
            key_tag: text_view(self.key_tag),
            key_pair_value: text_view(self.key_pair_value),
            salt: self.salt@,
            nonce: self.nonce@,
            expiration_date: self.expiration_date,
            is_revoked: self.is_revoked,
            created_at: self.created_at,
        }
    }
}

impl Key {
    pub fn duplicate(&self) -> (copy: Key)
        ensures
            copy@ == self@,
    {
        let key_value = self.key_value.clone();
        let salt = self.salt.clone();
        let nonce = self.nonce.clone();
        assert(key_value@ =~= self.key_value@);
        assert(salt@ =~= self.salt@);
        assert(nonce@ =~= self.nonce@);
        Key {
            id: self.id,
            user_id: self.user_id,
            key_name: self.key_name.clone(),
            key_value,
            key_description: duplicate_text(&self.key_description),
            key_type_id: self.key_type_id,
            key_tag: duplicate_text(&self.key_tag),
            key_pair_value: duplicate_text(&self.key_pair_value),
            salt,
            nonce,
            expiration_date: self.expiration_date,
            is_revoked: self.is_revoked,
            created_at: self.created_at,
        }
    }
}

/// A secret that is about to be stored: everything but the id and the
/// time of creation, which the store gives it.
#[derive(Clone, Debug, PartialEq, Eq)]
pub struct NewKey {
    pub user_id: i32,
    pub key_name: String,
    pub key_value: Vec<u8>,
    pub key_description: Option<String>,
    pub key_type_id: i32,
    pub key_tag: Option<String>,
    pub key_pair_value: Option<String>,
    pub salt: Vec<u8>,
    pub nonce: Vec<u8>,
    pub expiration_date: Option<i64>,
}

pub struct NewKeyRow {
    pub user_id: i32,
    pub key_name: Seq<char>,
    pub key_value: Seq<u8>,
    pub key_description: Option<Seq<char>>,
    pub key_type_id: i32,
    pub key_tag: Option<Seq<char>>,
    pub key_pair_value: Option<Seq<char>>,
    pub salt: Seq<u8>,
    pub nonce: Seq<u8>,
    pub expiration_date: Option<i64>,
}

impl View for NewKey {
    type V = NewKeyRow;

    open spec fn view(&self) -> NewKeyRow {
        NewKeyRow {
            user_id: self.user_id,
            key_name: self.key_name@,
            key_value: self.key_value@,
            key_description: text_view(self.key_description),
            key_type_id: self.key_type_id,
            key_tag: text_view(self.key_tag),
            key_pair_value: text_view(self.key_pair_value),
            salt: self.salt@,
            nonce: self.nonce@,
            expiration_date: self.expiration_date,
        }
    }
}

/// The row a new secret is stored as: not revoked, created at `now`.
pub open spec fn stored_as(new: NewKeyRow, id: i32, now: i64) -> KeyRow {
    KeyRow {
        id,
        user_id: new.user_id,
        key_name: new.key_name,
        key_value: new.key_value,
        key_description: new.key_description,
        key_type_id: new.key_type_id,
        key_tag: new.key_tag,
        key_pair_value: new.key_pair_value,
        salt: new.salt,
        nonce: new.nonce,
        expiration_date: new.expiration_date,
        is_revoked: false,
        created_at: now,
    }
}

/// What a list shows of a stored secret.
pub open spec fn partial_of(key: KeyRow) -> PartialKeyRow {
    PartialKeyRow {
        id: key.id,
        key_name: key.key_name,
        key_description: key.key_description,
        key_type_id: key.key_type_id,
        key_type: crate::constants::key_types::type_label(key.key_type_id),
        key_tag: key.key_tag,
        expiration_date: key.expiration_date,
    }
}

impl Key {
    /// The secret as a list shows it: without value, salt and nonce.
    pub fn partial(&self) -> (shown: PartialKey)
        ensures
            shown@ == partial_of(self@),
    {
        PartialKey {
            id: self.id,
            key_name: self.key_name.clone(),
            key_description: duplicate_text(&self.key_description),
            key_type_id: self.key_type_id,
            key_type: crate::constants::key_types::get_type_name(self.key_type_id).to_owned(),
            key_tag: duplicate_text(&self.key_tag),
            expiration_date: self.expiration_date,
        }
    }
}

/// What a list response shows of a secret: no sealed material at all.
#[derive(Clone, Debug, PartialEq, Eq)]
pub struct PartialKey {
    pub id: i32,
    pub key_name: String,
    pub key_description: Option<String>,
    pub key_type_id: i32,
    pub key_type: String,
    pub key_tag: Option<String>,
    pub expiration_date: Option<i64>,
}

pub struct PartialKeyRow {
    pub id: i32,
    pub key_name: Seq<char>,
    pub key_description: Option<Seq<char>>,
    pub key_type_id: i32,
    pub key_type: Seq<char>,
    pub key_tag: Option<Seq<char>>,
    pub expiration_date: Option<i64>,
}

impl View for PartialKey {
    type V = PartialKeyRow;

    open spec fn view(&self) -> PartialKeyRow {
        PartialKeyRow {
            id: self.id,
            key_name: self.key_name@,
            key_description: text_view(self.key_description),
            key_type_id: self.key_type_id,
            key_type: self.key_type@,
            key_tag: text_view(self.key_tag),
            expiration_date: self.expiration_date,
        }
    }
}

/// A request to store a secret. An empty `key_value` asks the vault to
/// generate the material where the type allows it.
#[derive(Clone, Debug, PartialEq, Eq, Default)]
pub struct KeyRequest {
    pub key_name: String,
    pub key_value: String,
    pub key_description: Option<String>,
    pub key_type_id: i32,
    pub key_tag: Option<String>,
    pub expiration_date: Option<String>,
}

/// An import of an SSH key pair: the request as JSON text, and the content
/// of the uploaded private-key file.
#[derive(Clone, Debug, PartialEq, Eq)]
pub struct ImportKeyForm {
    pub json: String,
    pub file: String,
}

#[derive(Clone, Debug, PartialEq, Eq)]
pub struct PartialKeyRequest {
    pub key_value: Option<String>,
    pub key_name: Option<String>,
    pub key_type: Option<String>,
    pub key_description: Option<String>,
    pub expiration_date: Option<i64>,
}

#[derive(Clone, Debug, PartialEq, Eq)]
pub struct KeysResponse {
    pub message: String,
}

} // verus!

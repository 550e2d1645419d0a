use vstd::prelude::*;
use vstd::string::*;
use vstd::utf8::encode_utf8;
use crate::constants::key_types::{kind_of, KeyType};
use crate::db::models::{User, UserRow};
use crate::db::store::{partial_views, Database};
use crate::db::tables::{
    keys_with_expiration,
    lemma_readable_keys_changed,
    owner_opens,
    lemma_not_owned_untouched,
    listing,
    other_key,
    owns_key,
    user_with_id,
    with_key,
    with_keys,
    Lifecycle,
    Tables,
};
use crate::http::Status;
use crate::middleware::LoggedUser;
use crate::models::key::{
    duplicate_text,
    text_view,
    KeyRequest,
    KeyRow,
    KeysResponse,
    NewKey,
    PartialKey,
    PartialKeyRequest,
};
use crate::routes::{guarded_route, route_views, Method, Route, RouteView};
use crate::services::encryption::{
    encrypt,
    open_outcome,
    seal_refusal,
    CryptoError,
    NONCE_LEN,
    SALT_LEN,
    TAG_LEN,
};
use crate::services::key_material::{
    encoded_len,
    generate_ssh_key_pair,
    generate_token,
    in_alphabet,
    KeyEncoding,
    MATERIAL_LEN,
};
use crate::utils::datetime::{chrono_parse, parse_expiration, EXPIRATION_FORMAT};
use crate::utils::validation::{
    default_policy,
    import_outcome,
    openssh_private_key,
    openssh_public_key,
    openssh_public_of,
    password_outcome,
    validate_import,
    validate_password,
};

verus! {

/// Lists the caller's secrets that are in use: not revoked and not expired.
pub fn get_keys(db: &Database, auth: LoggedUser, now: i64) -> (outcome: Result<
    Vec<PartialKey>,
    Status,
>)
    ensures
        outcome matches Ok(list) && partial_views(list@) == listing(
            db@.keys,
            auth.0,
            Lifecycle::Active,
            now,
        ),
{
    Ok(db.list_keys(auth.0, Lifecycle::Active, now))
}

/// Lists the caller's revoked secrets.
pub fn get_revoked_keys(db: &Database, auth: LoggedUser, now: i64) -> (outcome: Result<
    Vec<PartialKey>,
    Status,
>)
    ensures
        outcome matches Ok(list) && partial_views(list@) == listing(
            db@.keys,
            auth.0,
            Lifecycle::Revoked,
            now,
        ),
{
    Ok(db.list_keys(auth.0, Lifecycle::Revoked, now))
}

/// Lists the caller's expired secrets.
pub fn get_expired_keys(db: &Database, auth: LoggedUser, now: i64) -> (outcome: Result<
    Vec<PartialKey>,
    Status,
>)
    ensures
        outcome matches Ok(list) && partial_views(list@) == listing(
            db@.keys,
            auth.0,
            Lifecycle::Expired,
            now,
        ),
{
    Ok(db.list_keys(auth.0, Lifecycle::Expired, now))
}

/// Lists the caller's expired secrets, and answers not-found where there
/// is none.
pub fn expired(db: &Database, auth: LoggedUser, now: i64) -> (outcome: Result<
    Vec<PartialKey>,
    Status,
>)
    ensures
        match outcome {
            Ok(list) => list@.len() > 0 && partial_views(list@) == listing(
                db@.keys,
                auth.0,
                Lifecycle::Expired,
                now,
            ),
            Err(status) => status == Status::NotFound && listing(
                db@.keys,
                auth.0,
                Lifecycle::Expired,
                now,
            ).len() == 0,
        },
{
    let expired_keys = db.list_keys(auth.0, Lifecycle::Expired, now);
    if expired_keys.len() == 0 {
        return Err(Status::NotFound);
    }
    Ok(expired_keys)
}

/// How a generated secret of a type is written, where the type is one
/// that is generated.
pub open spec fn encoding_of(key_type: KeyType) -> KeyEncoding {
    if key_type == KeyType::Token {
        KeyEncoding::Base64
    } else {
        KeyEncoding::Hex
    }
}

/// The refusal a request to store a secret meets before anything is
/// generated, sealed or stored.
pub open spec fn create_key_refusal(
    users: Seq<UserRow>,
    owner: i32,
    key_type_id: i32,
    key_value: Seq<char>,
    expiration_date: Option<Seq<char>>,
) -> Option<Status> {
    if user_with_id(users, owner) is None {
        Some(Status::Unauthorized)
    } else {
        match kind_of(key_type_id) {
            None => Some(Status::UnprocessableEntity),
            Some(KeyType::SshKeyPair) => None,
            Some(kind) => if kind == KeyType::Password && key_value.len() == 0 {
                Some(Status::BadRequest)
            } else if kind == KeyType::Password && password_outcome(
                encode_utf8(key_value),
                default_policy(),
            ) is Err {
                Some(Status::UnprocessableEntity)
            } else if expiration_date matches Some(text) && chrono_parse(text, EXPIRATION_FORMAT@)
                is None {
                Some(Status::UnprocessableEntity)
            } else {
                None
            },
        }
    }
}

/// Whether `material` is what gets sealed for a request: the value that
/// was supplied, or for a token or API key without one, generated text of
/// the type's encoding, or for an SSH key pair, a generated private key
/// whose public key is the one kept beside it.
pub open spec fn material_fits(
    key_type: KeyType,
    key_value: Seq<char>,
    material: Seq<char>,
    key_pair_value: Option<Seq<char>>,
) -> bool {
    if key_type == KeyType::SshKeyPair {
        openssh_private_key(material) && key_pair_value is Some && openssh_public_of(material)
            == key_pair_value
    } else if key_value.len() > 0 {
        material == key_value
    } else {
        &&& material.len() == encoded_len(MATERIAL_LEN as nat, encoding_of(key_type))
        &&& forall|i: int|
            0 <= i < material.len() ==> in_alphabet(#[trigger] material[i], encoding_of(key_type))
    }
}

/// Whether `after` is `before` with one secret added for `owner`, sealed
/// under the owner's password hash so that it opens to `material` again.
pub open spec fn sealed_and_stored(
    before: Tables,
    after: Tables,
    owner: i32,
    material: Seq<char>,
    now: i64,
) -> bool {
    &&& after.keys.len() == before.keys.len() + 1
    &&& after == with_key(before, after.keys.last())
    &&& after.keys.last().id == before.next_key_id
    &&& before.next_key_id < i32::MAX
    &&& after.keys.last().user_id == owner
    &&& after.keys.last().created_at == now
    &&& !after.keys.last().is_revoked
    &&& after.keys.last().salt.len() == SALT_LEN
    &&& after.keys.last().nonce.len() == NONCE_LEN
    &&& after.keys.last().key_value.len() == encode_utf8(material).len() + TAG_LEN
    &&& user_with_id(before.users, owner) matches Some(user) && open_outcome(
        after.keys.last().key_value,
        after.keys.last().salt,
        after.keys.last().nonce,
        encode_utf8(user.password_hash),
    ) == Ok::<Seq<u8>, CryptoError>(encode_utf8(material))
}

/// Whether the secret that was stored last carries what the request said
/// of it.
pub open spec fn described_as(
    row: KeyRow,
    key_name: Seq<char>,
    key_description: Option<Seq<char>>,
    key_type_id: i32,
    key_tag: Option<Seq<char>>,
) -> bool {
    &&& row.key_name == key_name
    &&& row.key_description == key_description
    &&& row.key_type_id == key_type_id
    &&& row.key_tag == key_tag
}

/// Whether a request to store a secret was carried out.
pub open spec fn key_created(
    before: Tables,
    after: Tables,
    owner: i32,
    request: KeyRequest,
    now: i64,
) -> bool {
    &&& kind_of(request.key_type_id) matches Some(kind)
    &&& exists|material: Seq<char>| #[trigger]
        sealed_and_stored(before, after, owner, material, now) && material_fits(
            kind,
            request.key_value@,
            material,
            after.keys.last().key_pair_value,
        )
    &&& described_as(
        after.keys.last(),
        request.key_name@,
        text_view(request.key_description),
        request.key_type_id,
        text_view(request.key_tag),
    )
    &&& if kind == KeyType::SshKeyPair {
        &&& after.keys.last().expiration_date is None
        &&& after.keys.last().key_pair_value matches Some(public_key) && openssh_public_key(
            public_key,
        )
    } else {
        &&& after.keys.last().key_pair_value is None
        &&& match request.expiration_date {
            Some(text) => after.keys.last().expiration_date == chrono_parse(
                text@,
                EXPIRATION_FORMAT@,
            ),
            None => after.keys.last().expiration_date is None,
        }
    }
}

/// Whether a secret of `material_len` bytes can be sealed under the owner's
/// password hash and stored: the lengths are ones that sealing takes, and an
/// id is left for the secret.
pub open spec fn storable(before: Tables, owner: i32, material_len: nat) -> bool {
    &&& before.next_key_id < i32::MAX
    &&& user_with_id(before.users, owner) matches Some(user) && seal_refusal(
        material_len,
        encode_utf8(user.password_hash).len(),
        SALT_LEN as nat,
        NONCE_LEN as nat,
    ) is None
}

/// The number of bytes that are sealed for a request of a type other than
/// the SSH key pair: those of the value supplied, or of the text generated.
pub open spec fn material_len(key_type: KeyType, key_value: Seq<char>) -> nat {
    if key_value.len() > 0 {
        encode_utf8(key_value).len()
    } else {
        encoded_len(MATERIAL_LEN as nat, encoding_of(key_type))
    }
}

/// Seals `material` under the owner's password hash and stores it with
/// what the request says of the secret.
fn seal_and_store(
    db: &mut Database,
    owner: &User,
    request_data: &KeyRequest,
    material: &str,
    key_pair_value: Option<String>,
    expiration_date: Option<i64>,
    now: i64,
) -> (outcome: Result<(), Status>)
    requires
        user_with_id(old(db)@.users, owner.id) == Some(owner@),
    ensures
        old(db).wf() ==> final(db).wf(),
        old(db).readable() ==> final(db).readable(),
        outcome is Ok <==> storable(old(db)@, owner.id, encode_utf8(material@).len()),
        match outcome {
            Ok(()) => {
                &&& sealed_and_stored(old(db)@, final(db)@, owner.id, material@, now)
                &&& described_as(
                    final(db)@.keys.last(),
                    request_data.key_name@,
                    text_view(request_data.key_description),
                    request_data.key_type_id,
                    text_view(request_data.key_tag),
                )
                &&& final(db)@.keys.last().key_pair_value == text_view(key_pair_value)
                &&& final(db)@.keys.last().expiration_date == expiration_date
            },
            Err(status) => status == Status::InternalServerError && final(db)@ == old(db)@,
        },
{
    let encrypted_data = match encrypt(material.as_bytes(), owner.password_hash.as_str()) {
        Ok(encrypted_data) => encrypted_data,
        Err(_) => {
            return Err(Status::InternalServerError);
        },
    };
    let new = NewKey {
        user_id: owner.id,
        key_name: request_data.key_name.clone(),
        key_value: encrypted_data.ciphertext,
        key_description: duplicate_text(&request_data.key_description),
        key_type_id: request_data.key_type_id,
        key_tag: duplicate_text(&request_data.key_tag),
        key_pair_value,
        salt: encrypted_data.salt,
        nonce: encrypted_data.nonce,
        expiration_date,
    };
    match db.insert_key(new, now) {
        Ok(_) => {
            proof {
                if old(db).readable() {
                    assert forall|i: int| 0 <= i < db@.keys.len() implies owner_opens(
                        db@.users,
                        #[trigger] db@.keys[i],
                    ) by {
                        if i < old(db)@.keys.len() {
                            assert(db@.keys[i] == old(db)@.keys[i]);
                        }
                    }
                }
            }
            Ok(())
        },
        Err(_) => Err(Status::InternalServerError),
    }
}

/// Stores a secret for the caller. A password must be supplied and must
/// pass the strength policy; a token or an API key is generated where none
/// is supplied; an SSH key pair is always generated, its private half
/// sealed and its public half kept in the clear. A request that is not
/// refused, for anything but a key pair, succeeds exactly where the secret
/// can be sealed and stored; for a key pair, the generator decides as well.
pub fn create_key(db: &mut Database, request_data: &KeyRequest, auth: LoggedUser, now: i64) -> (outcome:
    Result<(), Status>)
    ensures
        old(db).wf() ==> final(db).wf(),
        old(db).readable() ==> final(db).readable(),
        match create_key_refusal(
            old(db)@.users,
            auth.0,
            request_data.key_type_id,
            request_data.key_value@,
            text_view(request_data.expiration_date),
        ) {
            Some(refusal) => outcome matches Err(status) && status == refusal && final(db)@ == old(db)@,
            None => match outcome {
                Ok(()) => key_created(old(db)@, final(db)@, auth.0, *request_data, now),
                Err(status) => status == Status::InternalServerError && final(db)@ == old(db)@,
            },
        },
        create_key_refusal(
            old(db)@.users,
            auth.0,
            request_data.key_type_id,
            request_data.key_value@,
            text_view(request_data.expiration_date),
        ) is None && kind_of(request_data.key_type_id) != Some(KeyType::SshKeyPair) ==> (outcome
            is Ok <==> storable(
            old(db)@,
            auth.0,
            material_len(kind_of(request_data.key_type_id)->0, request_data.key_value@),
        )),
{
    let owner = match db.find_user_by_id(auth.0) {
        Some(owner) => owner,
        None => {
            return Err(Status::Unauthorized);
        },
    };
    let kind = match KeyType::from_id(request_data.key_type_id) {
        Some(kind) => kind,
        None => {
            return Err(Status::UnprocessableEntity);
        },
    };
    match kind {
        KeyType::SshKeyPair => {
            let pair = match generate_ssh_key_pair() {
                Ok(pair) => pair,
                Err(status) => {
                    return Err(status);
                },
            };
            let ghost private_key = pair.private_key@;
            let stored = seal_and_store(
                db,
                &owner,
                request_data,
                pair.private_key.as_str(),
                Some(pair.public_key),
                None,
                now,
            );
            proof {
                if stored is Ok {
                    assert(sealed_and_stored(old(db)@, db@, auth.0, private_key, now)
                        && material_fits(
                        kind,
                        request_data.key_value@,
                        private_key,
                        db@.keys.last().key_pair_value,
                    ));
                }
            }
            stored
        },
        _ => {
            if kind == KeyType::Password {
                if request_data.key_value.as_str().is_empty() {
                    return Err(Status::BadRequest);
                }
                if validate_password(request_data.key_value.as_str()).is_err() {
                    return Err(Status::UnprocessableEntity);
                }
            }
            let expiration_date = match &request_data.expiration_date {
                None => None,
                Some(text) => match parse_expiration(text.as_str()) {
                    Some(moment) => Some(moment),
                    None => {
                        return Err(Status::UnprocessableEntity);
                    },
                },
            };
            let material = if request_data.key_value.as_str().is_empty() {
                let encoding = if kind == KeyType::Token {
                    KeyEncoding::Base64
                } else {
                    KeyEncoding::Hex
                };
                match generate_token(kind, encoding) {
                    Ok(generated) => {
                        proof {
                            assert forall|i: int| 0 <= i < generated@.len() implies '\0'
                                <= #[trigger] generated@[i] <= '\u{7f}' by {
                                assert(in_alphabet(generated@[i], encoding));
                            }
                            vstd::utf8::is_ascii_chars_encode_utf8(generated@);
                        }
                        generated
                    },
                    Err(_) => {
                        return Err(Status::InternalServerError);
                    },
                }
            } else {
                request_data.key_value.clone()
            };
            let stored = seal_and_store(
                db,
                &owner,
                request_data,
                material.as_str(),
                None,
                expiration_date,
                now,
            );
            proof {
                if stored is Ok {
                    assert(sealed_and_stored(old(db)@, db@, auth.0, material@, now)
                        && material_fits(
                        kind,
                        request_data.key_value@,
                        material@,
                        db@.keys.last().key_pair_value,
                    ));
                }
            }
            stored
        },
    }
}

/// The refusal an import meets before anything is sealed or stored: both
/// halves must be in OpenSSH format, each on its own.
pub open spec fn import_refusal(
    users: Seq<UserRow>,
    owner: i32,
    private_key: Seq<char>,
    public_key: Seq<char>,
) -> Option<Status> {
    if import_outcome(private_key, public_key) is Err {
        Some(Status::UnprocessableEntity)
    } else if user_with_id(users, owner) is None {
        Some(Status::Unauthorized)
    } else {
        None
    }
}

/// Whether an import was carried out: the private key sealed, the public
/// key (the request's value) kept in the clear beside it.
pub open spec fn key_imported(
    before: Tables,
    after: Tables,
    owner: i32,
    request: KeyRequest,
    private_key: Seq<char>,
    now: i64,
) -> bool {
    &&& sealed_and_stored(before, after, owner, private_key, now)
    &&& described_as(
        after.keys.last(),
        request.key_name@,
        text_view(request.key_description),
        request.key_type_id,
        text_view(request.key_tag),
    )
    &&& after.keys.last().key_pair_value == Some(request.key_value@)
    &&& after.keys.last().expiration_date is None
}

/// Imports an SSH key pair: `private_key` is the content of the uploaded
/// file, the request's value is the public key. A pair of which either half
/// is not in OpenSSH format is refused, and nothing is written. An import
/// that is not refused succeeds exactly where the private key can be sealed
/// and stored.
pub fn import_ssh_key(
    db: &mut Database,
    request_data: &KeyRequest,
    private_key: &str,
    auth: LoggedUser,
    now: i64,
) -> (outcome: Result<(), Status>)
    ensures
        old(db).wf() ==> final(db).wf(),
        old(db).readable() ==> final(db).readable(),
        match import_refusal(old(db)@.users, auth.0, private_key@, request_data.key_value@) {
            Some(refusal) => outcome matches Err(status) && status == refusal && final(db)@ == old(db)@,
            None => match outcome {
                Ok(()) => key_imported(
                    old(db)@,
                    final(db)@,
                    auth.0,
                    *request_data,
                    private_key@,
                    now,
                ),
                Err(status) => status == Status::InternalServerError && final(db)@ == old(db)@,
            },
        },
        import_refusal(old(db)@.users, auth.0, private_key@, request_data.key_value@) is None ==> (
        outcome is Ok <==> storable(old(db)@, auth.0, encode_utf8(private_key@).len())),
{
    if validate_import(private_key, request_data.key_value.as_str()).is_err() {
        return Err(Status::UnprocessableEntity);
    }
    let owner = match db.find_user_by_id(auth.0) {
        Some(owner) => owner,
        None => {
            return Err(Status::Unauthorized);
        },
    };
    let public_key = request_data.key_value.clone();
    seal_and_store(db, &owner, request_data, private_key, Some(public_key), None, now)
}

/// Sets the expiration date of one of the caller's secrets. A secret of
/// another owner is not found, and nothing changes.
pub fn set_expiration(
    db: &mut Database,
    key_id: i32,
    request_data: &PartialKeyRequest,
    auth: LoggedUser,
) -> (outcome: Result<KeysResponse, Status>)
    ensures
        old(db).wf() ==> final(db).wf(),
        old(db).readable() ==> final(db).readable(),
        match request_data.expiration_date {
            None => outcome matches Err(status) && status == Status::UnprocessableEntity && final(db)@ == old(db)@,
            Some(expiration) => if owns_key(old(db)@.keys, key_id, auth.0) {
                &&& outcome matches Ok(response) && response.message@
                    == "Key expiration date updated successfully"@
                &&& final(db)@ == with_keys(
                    old(db)@,
                    keys_with_expiration(old(db)@.keys, key_id, auth.0, expiration),
                )
            } else {
                outcome matches Err(status) && status == Status::NotFound && final(db)@ == old(db)@
            },
        },
{
    let expiration_date = match request_data.expiration_date {
        Some(expiration_date) => expiration_date,
        None => {
            return Err(Status::UnprocessableEntity);
        },
    };
    let updated = db.set_key_expiration(key_id, auth.0, expiration_date);
    proof {
        if old(db).readable() {
            lemma_readable_keys_changed(
                old(db)@.users,
                old(db)@.keys,
                key_id,
                auth.0,
                expiration_date,
            );
        }
    }
    if !updated {
        proof {
            lemma_not_owned_untouched(old(db)@.keys, key_id, auth.0, expiration_date);
        }
        return Err(Status::NotFound);
    }
    Ok(KeysResponse { message: "Key expiration date updated successfully".to_owned() })
}

/// Removes one of the caller's secrets for good. A secret of another owner
/// is not found, and nothing changes.
pub fn delete(db: &mut Database, key_id: i32, auth: LoggedUser) -> (outcome: Result<
    KeysResponse,
    Status,
>)
    ensures
        old(db).wf() ==> final(db).wf(),
        old(db).readable() ==> final(db).readable(),
        if owns_key(old(db)@.keys, key_id, auth.0) {
            &&& outcome matches Ok(response) && response.message@ == "Key deleted successfully"@
            &&& final(db)@ == with_keys(old(db)@, old(db)@.keys.filter(other_key(key_id, auth.0)))
        } else {
            outcome matches Err(status) && status == Status::NotFound && final(db)@ == old(db)@
        },
{
    let deleted = db.delete_key(key_id, auth.0);
    proof {
        if old(db).readable() {
            lemma_readable_keys_changed(old(db)@.users, old(db)@.keys, key_id, auth.0, 0);
        }
    }
    if !deleted {
        proof {
            lemma_not_owned_untouched(old(db)@.keys, key_id, auth.0, 0);
        }
        return Err(Status::NotFound);
    }
    Ok(KeysResponse { message: "Key deleted successfully".to_owned() })
}


pub open spec fn table() -> Seq<RouteView> {
    seq![
        guarded_route(Method::Get, "/", "get_keys"),
        guarded_route(Method::Get, "/revoked", "get_revoked_keys"),
        guarded_route(Method::Get, "/expired", "get_expired_keys"),
        guarded_route(Method::Post, "/", "create_key"),
        guarded_route(Method::Delete, "/<key_id>", "delete"),
        guarded_route(Method::Patch, "/<key_id>", "set_expiration"),
        guarded_route(Method::Post, "/import", "import_ssh_key"),
    ]
}

pub fn routes() -> (list: Vec<Route>)
    ensures
        route_views(list@) == table(),
{
    let mut list = Vec::new();
    list.push(Route { method: Method::Get, path: "/", handler: "get_keys", guarded: true });
    list.push(
        Route { method: Method::Get, path: "/revoked", handler: "get_revoked_keys", guarded: true },
    );
    list.push(
        Route { method: Method::Get, path: "/expired", handler: "get_expired_keys", guarded: true },
    );
    list.push(Route { method: Method::Post, path: "/", handler: "create_key", guarded: true });
    list.push(Route { method: Method::Delete, path: "/<key_id>", handler: "delete", guarded: true });
    list.push(
        Route { method: Method::Patch, path: "/<key_id>", handler: "set_expiration", guarded: true },
    );
    list.push(
        Route { method: Method::Post, path: "/import", handler: "import_ssh_key", guarded: true },
    );
    assert(route_views(list@) =~= table());
    list
}

} // verus!

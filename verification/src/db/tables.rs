use vstd::prelude::*;
use vstd::utf8::encode_utf8;
use crate::services::encryption::open_outcome;
use crate::db::models::{NotificationRow, UserRow};
use crate::models::key::{partial_of, KeyRow, PartialKeyRow};
use crate::models::reset_password::TokenRow;

verus! {

/// The content of the store: its four tables, each in insertion order, and
/// the ids that the next inserted rows get.
pub struct Tables {
    pub users: Seq<UserRow>,
    pub keys: Seq<KeyRow>,
    pub tokens: Seq<TokenRow>,
    pub notifications: Seq<NotificationRow>,
    pub next_user_id: i32,
    pub next_key_id: i32,
    pub next_token_id: i32,
}

pub open spec fn user_ids(users: Seq<UserRow>) -> Seq<i32> {
    Seq::new(users.len(), |i: int| users[i].id)
}

pub open spec fn user_emails(users: Seq<UserRow>) -> Seq<Seq<char>> {
    Seq::new(users.len(), |i: int| users[i].email)
}

pub open spec fn key_ids(keys: Seq<KeyRow>) -> Seq<i32> {
    Seq::new(keys.len(), |i: int| keys[i].id)
}

pub open spec fn token_values(tokens: Seq<TokenRow>) -> Seq<Seq<char>> {
    Seq::new(tokens.len(), |i: int| tokens[i].reset_token)
}

/// What the data model asks of the store at all times: ids, e-mail
/// addresses and user names are each unique among the users, key ids are
/// unique, no user has more than one reset token, every secret and every
/// reset token belongs to a stored user, and every id in use lies below the
/// next one to be given out.
pub open spec fn tables_wf(t: Tables) -> bool {
    &&& unique_users(t.users)
    &&& unique_keys(t.keys)
    &&& one_token_each(t.tokens)
    &&& owners_stored(t.users, t.keys, t.tokens)
    &&& forall|i: int| 0 <= i < t.users.len() ==> (#[trigger] t.users[i]).id < t.next_user_id
    &&& forall|i: int| 0 <= i < t.keys.len() ==> (#[trigger] t.keys[i]).id < t.next_key_id
    &&& forall|i: int| 0 <= i < t.tokens.len() ==> (#[trigger] t.tokens[i]).id < t.next_token_id
}

/// Whether some user has the id.
pub open spec fn has_user(users: Seq<UserRow>, id: i32) -> bool {
    exists|i: int| 0 <= i < users.len() && (#[trigger] users[i]).id == id
}

/// Every secret and every reset token belongs to a stored user.
pub open spec fn owners_stored(users: Seq<UserRow>, keys: Seq<KeyRow>, tokens: Seq<TokenRow>) -> bool {
    &&& forall|i: int| 0 <= i < keys.len() ==> has_user(users, (#[trigger] keys[i]).user_id)
    &&& forall|i: int| 0 <= i < tokens.len() ==> has_user(users, (#[trigger] tokens[i]).user_id)
}

/// No two users share an id, an e-mail address or a user name.
pub open spec fn unique_users(users: Seq<UserRow>) -> bool {
    forall|i: int, j: int|
        #![trigger users[i], users[j]]
        0 <= i < j < users.len() ==> users[i].id != users[j].id && users[i].email
            != users[j].email && users[i].username != users[j].username
}

/// No two keys share an id.
pub open spec fn unique_keys(keys: Seq<KeyRow>) -> bool {
    forall|i: int, j: int|
        #![trigger keys[i], keys[j]]
        0 <= i < j < keys.len() ==> keys[i].id != keys[j].id
}

/// No user has more than one reset token.
pub open spec fn one_token_each(tokens: Seq<TokenRow>) -> bool {
    forall|i: int, j: int|
        #![trigger tokens[i], tokens[j]]
        0 <= i < j < tokens.len() ==> tokens[i].user_id != tokens[j].user_id
}

/// Whether some user has the e-mail address.
pub open spec fn email_taken(users: Seq<UserRow>, email: Seq<char>) -> bool {
    exists|i: int| 0 <= i < users.len() && (#[trigger] users[i]).email == email
}

/// Whether some user has the user name.
pub open spec fn name_taken(users: Seq<UserRow>, username: Seq<char>) -> bool {
    exists|i: int| 0 <= i < users.len() && (#[trigger] users[i]).username == username
}

/// Whether a user other than `id` has the e-mail address.
pub open spec fn email_of_other(users: Seq<UserRow>, email: Seq<char>, id: i32) -> bool {
    exists|i: int| 0 <= i < users.len() && (#[trigger] users[i]).email == email && users[i].id != id
}

/// Whether a user other than `id` has the user name.
pub open spec fn name_of_other(users: Seq<UserRow>, username: Seq<char>, id: i32) -> bool {
    exists|i: int|
        0 <= i < users.len() && (#[trigger] users[i]).username == username && users[i].id != id
}

pub open spec fn with_users(t: Tables, users: Seq<UserRow>) -> Tables {
    Tables { users, ..t }
}

pub open spec fn with_keys(t: Tables, keys: Seq<KeyRow>) -> Tables {
    Tables { keys, ..t }
}

pub open spec fn with_tokens(t: Tables, tokens: Seq<TokenRow>) -> Tables {
    Tables { tokens, ..t }
}

/// The store after a user was added under the next free id.
pub open spec fn with_user(t: Tables, row: UserRow) -> Tables {
    Tables { users: t.users.push(row), next_user_id: (t.next_user_id + 1) as i32, ..t }
}

/// The first user with an e-mail address.
pub open spec fn user_with_email(users: Seq<UserRow>, email: Seq<char>) -> Option<UserRow> {
    match user_emails(users).index_of_first(email) {
        Some(i) => Some(users[i]),
        None => None,
    }
}

/// The first user with an id.
pub open spec fn user_with_id(users: Seq<UserRow>, id: i32) -> Option<UserRow> {
    match user_ids(users).index_of_first(id) {
        Some(i) => Some(users[i]),
        None => None,
    }
}

/// The first stored token with a value.
pub open spec fn token_with_value(tokens: Seq<TokenRow>, value: Seq<char>) -> Option<TokenRow> {
    match token_values(tokens).index_of_first(value) {
        Some(i) => Some(tokens[i]),
        None => None,
    }
}

/// The users with one user's e-mail address replaced.
pub open spec fn users_with_email(users: Seq<UserRow>, id: i32, email: Seq<char>) -> Seq<UserRow> {
    match user_ids(users).index_of_first(id) {
        Some(i) => users.update(i, UserRow { email, ..users[i] }),
        None => users,
    }
}

/// The users with one user's name replaced.
pub open spec fn users_with_name(users: Seq<UserRow>, id: i32, username: Seq<char>) -> Seq<
    UserRow,
> {
    match user_ids(users).index_of_first(id) {
        Some(i) => users.update(i, UserRow { username, ..users[i] }),
        None => users,
    }
}

/// The users with one user's password hash replaced.
pub open spec fn users_with_hash(users: Seq<UserRow>, id: i32, password_hash: Seq<char>) -> Seq<
    UserRow,
> {
    match user_ids(users).index_of_first(id) {
        Some(i) => users.update(i, UserRow { password_hash, ..users[i] }),
        None => users,
    }
}

/// Whether a user with the id is stored.
pub open spec fn user_exists(users: Seq<UserRow>, id: i32) -> bool {
    user_ids(users).index_of_first(id) is Some
}

pub open spec fn other_user(id: i32) -> spec_fn(UserRow) -> bool {
    |u: UserRow| u.id != id
}

pub open spec fn key_of_other(owner: i32) -> spec_fn(KeyRow) -> bool {
    |k: KeyRow| k.user_id != owner
}

pub open spec fn other_key(key_id: i32, owner: i32) -> spec_fn(KeyRow) -> bool {
    |k: KeyRow| !(k.id == key_id && k.user_id == owner)
}

pub open spec fn token_of_other(user_id: i32) -> spec_fn(TokenRow) -> bool {
    |t: TokenRow| t.user_id != user_id
}

pub open spec fn other_token(value: Seq<char>) -> spec_fn(TokenRow) -> bool {
    |t: TokenRow| t.reset_token != value
}

/// The store after an account was closed: the user is gone, and with it
/// every secret and every reset token it owned.
pub open spec fn without_user(t: Tables, id: i32) -> Tables {
    Tables {
        users: t.users.filter(other_user(id)),
        keys: t.keys.filter(key_of_other(id)),
        tokens: t.tokens.filter(token_of_other(id)),
        ..t
    }
}

/// The states a list of secrets is asked for.
#[derive(Clone, Copy, Debug, PartialEq, Eq, Structural)]
pub enum Lifecycle {
    /// Not revoked, and not past its expiration date if it has one.
    Active,
    /// Marked as no longer in use.
    Revoked,
    /// Not revoked, and past its expiration date.
    Expired,
}

pub open spec fn in_state(key: KeyRow, state: Lifecycle, now: i64) -> bool {
    match state {
        Lifecycle::Active => !key.is_revoked && match key.expiration_date {
            Some(e) => e > now,
            None => true,
        },
        Lifecycle::Revoked => key.is_revoked,
        Lifecycle::Expired => !key.is_revoked && match key.expiration_date {
            Some(e) => e < now,
            None => false,
        },
    }
}

pub open spec fn listed_for(owner: i32, state: Lifecycle, now: i64) -> spec_fn(KeyRow) -> bool {
    |k: KeyRow| k.user_id == owner && in_state(k, state, now)
}

pub open spec fn partial_rows(keys: Seq<KeyRow>) -> Seq<PartialKeyRow> {
    Seq::new(keys.len(), |i: int| partial_of(keys[i]))
}

/// What a list of one owner's secrets in a state shows at `now`: only that
/// owner's, in the order they were stored, and none of the sealed material.
pub open spec fn listing(keys: Seq<KeyRow>, owner: i32, state: Lifecycle, now: i64) -> Seq<
    PartialKeyRow,
> {
    partial_rows(keys.filter(listed_for(owner, state, now)))
}

/// Whether the owner has a secret with the id.
pub open spec fn owns_key(keys: Seq<KeyRow>, key_id: i32, owner: i32) -> bool {
    exists|i: int| 0 <= i < keys.len() && (#[trigger] keys[i]).id == key_id && keys[i].user_id == owner
}

/// The first secret with the id that the owner has.
pub open spec fn owned_key(keys: Seq<KeyRow>, key_id: i32, owner: i32) -> Option<KeyRow> {
    if owns_key(keys, key_id, owner) {
        Some(
            keys[choose|i: int|
                0 <= i < keys.len() && (#[trigger] keys[i]).id == key_id && keys[i].user_id == owner
                    && forall|j: int|
                    0 <= j < i ==> !((#[trigger] keys[j]).id == key_id && keys[j].user_id
                        == owner)],
        )
    } else {
        None
    }
}

/// The secrets with a new expiration date on the owner's secret `key_id`.
pub open spec fn keys_with_expiration(
    keys: Seq<KeyRow>,
    key_id: i32,
    owner: i32,
    expiration: i64,
) -> Seq<KeyRow> {
    Seq::new(
        keys.len(),
        |i: int|
            if keys[i].id == key_id && keys[i].user_id == owner {
                KeyRow { expiration_date: Some(expiration), ..keys[i] }
            } else {
                keys[i]
            },
    )
}

/// The secrets with the owner's secret `key_id` marked as revoked.
pub open spec fn keys_with_revoked(keys: Seq<KeyRow>, key_id: i32, owner: i32) -> Seq<KeyRow> {
    Seq::new(
        keys.len(),
        |i: int|
            if keys[i].id == key_id && keys[i].user_id == owner {
                KeyRow { is_revoked: true, ..keys[i] }
            } else {
                keys[i]
            },
    )
}

/// The store after a secret was added under the next free id.
pub open spec fn with_key(t: Tables, row: KeyRow) -> Tables {
    Tables { keys: t.keys.push(row), next_key_id: (t.next_key_id + 1) as i32, ..t }
}

/// The store after a user was given a fresh reset token: every token the
/// user had is gone, and the new one is the user's only token.
pub open spec fn with_reset_token(
    t: Tables,
    user_id: i32,
    value: Seq<char>,
    expiration: i64,
    now: i64,
) -> Tables {
    Tables {
        tokens: t.tokens.filter(token_of_other(user_id)).push(
            TokenRow {
                id: t.next_token_id,
                user_id,
                reset_token: value,
                expiration_date: expiration,
                created_at: now,
            },
        ),
        next_token_id: (t.next_token_id + 1) as i32,
        ..t
    }
}

/// Whether a token with the value is stored.
pub open spec fn token_stored(tokens: Seq<TokenRow>, value: Seq<char>) -> bool {
    token_values(tokens).index_of_first(value) is Some
}

/// The store after a notice was recorded.
pub open spec fn with_notification(t: Tables, row: NotificationRow) -> Tables {
    Tables { notifications: t.notifications.push(row), ..t }
}

/// What a stored secret opens to under a password hash.
pub open spec fn opens_to(key: KeyRow, password_hash: Seq<u8>) -> Result<
    Seq<u8>,
    crate::services::encryption::CryptoError,
> {
    open_outcome(key.key_value, key.salt, key.nonce, password_hash)
}

/// Whether a secret opens under the password hash of its owner.
pub open spec fn owner_opens(users: Seq<UserRow>, key: KeyRow) -> bool {
    match user_with_id(users, key.user_id) {
        Some(owner) => opens_to(key, encode_utf8(owner.password_hash)) is Ok,
        None => false,
    }
}

/// Whether every secret opens under the password hash of its owner: the
/// sealed triple of each is consistent, and no secret is lost.
pub open spec fn readable(users: Seq<UserRow>, keys: Seq<KeyRow>) -> bool {
    forall|i: int| 0 <= i < keys.len() ==> owner_opens(users, #[trigger] keys[i])
}

/// Whether two secrets have the same owner and the same sealed triple.
pub open spec fn same_seal(a: KeyRow, b: KeyRow) -> bool {
    &&& a.user_id == b.user_id
    &&& a.key_value == b.key_value
    &&& a.salt == b.salt
    &&& a.nonce == b.nonce
}

/// Whether every secret of an owner opens under a password hash.
pub open spec fn all_open(keys: Seq<KeyRow>, owner: i32, password_hash: Seq<u8>) -> bool {
    forall|i: int|
        0 <= i < keys.len() && (#[trigger] keys[i]).user_id == owner ==> opens_to(
            keys[i],
            password_hash,
        ) is Ok
}

/// Whether `after` is `before` sealed anew: an owner's secret keeps
/// everything but its sealed triple, and opens under the new password hash
/// to what it opened to under the old one; anyone else's secret is as it
/// was.
pub open spec fn row_resealed(
    before: KeyRow,
    after: KeyRow,
    owner: i32,
    old_hash: Seq<u8>,
    new_hash: Seq<u8>,
) -> bool {
    if before.user_id == owner {
        &&& after == (KeyRow {
            key_value: after.key_value,
            salt: after.salt,
            nonce: after.nonce,
            ..before
        })
        &&& opens_to(before, old_hash) is Ok
        &&& opens_to(after, new_hash) == opens_to(before, old_hash)
    } else {
        after == before
    }
}

/// What sealing one secret anew gives, with the salt and nonce that were
/// drawn for it: the secret is opened under the old password hash, and what
/// it holds is sealed under the new one. The error of whichever step fails
/// is the error of the whole.
pub open spec fn reseal_outcome(
    key: KeyRow,
    old_hash: Seq<u8>,
    new_hash: Seq<u8>,
    salt: Seq<u8>,
    nonce: Seq<u8>,
) -> Result<KeyRow, crate::services::encryption::CryptoError> {
    match opens_to(key, old_hash) {
        Err(e) => Err(e),
        Ok(plaintext) => match crate::services::encryption::seal_outcome(
            plaintext,
            new_hash,
            salt,
            nonce,
        ) {
            Err(e) => Err(e),
            Ok(sealed) => Ok(
                KeyRow {
                    key_value: sealed.ciphertext,
                    salt: sealed.salt,
                    nonce: sealed.nonce,
                    ..key
                },
            ),
        },
    }
}

/// Whether an owner has a secret at all.
pub open spec fn owns_any(keys: Seq<KeyRow>, owner: i32) -> bool {
    exists|i: int| 0 <= i < keys.len() && (#[trigger] keys[i]).user_id == owner
}

/// Whether sealing an owner's secrets anew can have failed with `error`:
/// one of the owner's secrets, with a salt and a nonce of the widths that
/// are drawn, is sealed anew with that error.
pub open spec fn reseal_fails(
    keys: Seq<KeyRow>,
    owner: i32,
    old_hash: Seq<u8>,
    new_hash: Seq<u8>,
    error: crate::services::encryption::CryptoError,
) -> bool {
    exists|i: int, salt: Seq<u8>, nonce: Seq<u8>|
        0 <= i < keys.len() && keys[i].user_id == owner && salt.len()
            == crate::services::encryption::SALT_LEN && nonce.len()
            == crate::services::encryption::NONCE_LEN && #[trigger] reseal_outcome(
            keys[i],
            old_hash,
            new_hash,
            salt,
            nonce,
        ) == Err::<KeyRow, crate::services::encryption::CryptoError>(error)
}

/// Whether every secret of `owner` was sealed anew, and nothing else
/// changed.
pub open spec fn resealed(
    before: Seq<KeyRow>,
    after: Seq<KeyRow>,
    owner: i32,
    old_hash: Seq<u8>,
    new_hash: Seq<u8>,
) -> bool {
    &&& after.len() == before.len()
    &&& forall|i: int|
        0 <= i < before.len() ==> row_resealed(
            #[trigger] before[i],
            after[i],
            owner,
            old_hash,
            new_hash,
        )
}

/// Seconds for which a secret that has expired is still due for a
/// notice: seven days.
pub const NOTICE_WINDOW: i64 = 604800;

/// A secret that is due for a notice, with the address of its owner.
pub struct RelevanceRow {
    pub user_id: i32,
    pub email: Seq<char>,
    pub key_name: Seq<char>,
    pub key_type: Seq<char>,
    pub key_description: Seq<char>,
    pub created_at: i64,
    pub expiration_date: i64,
}

/// Whether a secret is due for a notice at `now`: it is not revoked, and
/// its expiration date lies no more than seven days back, or still ahead.
pub open spec fn is_due(key: KeyRow, now: i64) -> bool {
    !key.is_revoked && match key.expiration_date {
        Some(e) => e >= now - NOTICE_WINDOW,
        None => false,
    }
}

pub open spec fn due_with_owner(users: Seq<UserRow>, now: i64) -> spec_fn(KeyRow) -> bool {
    |k: KeyRow| is_due(k, now) && user_exists(users, k.user_id)
}

pub open spec fn relevance_of(key: KeyRow, owner: UserRow) -> RelevanceRow {
    RelevanceRow {
        user_id: owner.id,
        email: owner.email,
        key_name: key.key_name,
        key_type: crate::constants::key_types::type_label(key.key_type_id),
        key_description: match key.key_description {
            Some(d) => d,
            None => Seq::empty(),
        },
        created_at: key.created_at,
        expiration_date: match key.expiration_date {
            Some(e) => e,
            None => 0,
        },
    }
}

pub open spec fn relevance_rows(users: Seq<UserRow>, keys: Seq<KeyRow>) -> Seq<RelevanceRow> {
    Seq::new(keys.len(), |i: int| relevance_of(keys[i], user_with_id(users, keys[i].user_id)->0))
}

/// The secrets that are due for a notice at `now`, in the order they were
/// stored, each with its owner's address.
pub open spec fn due_rows(t: Tables, now: i64) -> Seq<RelevanceRow> {
    relevance_rows(t.users, t.keys.filter(due_with_owner(t.users, now)))
}

pub open spec fn with_notifications(t: Tables, notifications: Seq<NotificationRow>) -> Tables {
    Tables { notifications, ..t }
}

/// Whether `next` is the id that follows the greatest of `ids`: 1 where
/// there is none, or none above 0.
pub open spec fn follows(ids: Seq<i32>, next: i32) -> bool {
    &&& next >= 1
    &&& forall|i: int| 0 <= i < ids.len() ==> #[trigger] ids[i] < next
    &&& next == 1 || exists|i: int| 0 <= i < ids.len() && #[trigger] ids[i] == next - 1
}

/// Whether rows can be taken for the content of a store: they are unique
/// where the data model asks for it, and leave an id to follow theirs.
pub open spec fn loadable(users: Seq<UserRow>, keys: Seq<KeyRow>, tokens: Seq<TokenRow>) -> bool {
    &&& unique_users(users)
    &&& unique_keys(keys)
    &&& one_token_each(tokens)
    &&& owners_stored(users, keys, tokens)
    &&& forall|i: int| 0 <= i < users.len() ==> (#[trigger] users[i]).id < i32::MAX
    &&& forall|i: int| 0 <= i < keys.len() ==> (#[trigger] keys[i]).id < i32::MAX
    &&& forall|i: int| 0 <= i < tokens.len() ==> (#[trigger] tokens[i]).id < i32::MAX
}

pub open spec fn token_ids(tokens: Seq<TokenRow>) -> Seq<i32> {
    Seq::new(tokens.len(), |i: int| tokens[i].id)
}

/// Whether a store holds exactly the given rows, with the next ids
/// following theirs.
pub open spec fn holds(
    t: Tables,
    users: Seq<UserRow>,
    keys: Seq<KeyRow>,
    tokens: Seq<TokenRow>,
    notifications: Seq<NotificationRow>,
) -> bool {
    &&& t.users == users
    &&& t.keys == keys
    &&& t.tokens == tokens
    &&& t.notifications == notifications
    &&& follows(user_ids(users), t.next_user_id)
    &&& follows(key_ids(keys), t.next_key_id)
    &&& follows(token_ids(tokens), t.next_token_id)
}

/// An empty store.
pub open spec fn empty_tables() -> Tables {
    Tables {
        users: Seq::empty(),
        keys: Seq::empty(),
        tokens: Seq::empty(),
        notifications: Seq::empty(),
        next_user_id: 1,
        next_key_id: 1,
        next_token_id: 1,
    }
}

/// Where `needle` first stands in a column, told from the first index at
/// which it was met.
pub proof fn lemma_first_index<K>(column: Seq<K>, needle: K, found: int)
    requires
        0 <= found < column.len(),
        column[found] == needle,
        forall|j: int| 0 <= j < found ==> column[j] != needle,
    ensures
        column.index_of_first(needle) == Some(found),
{
    column.index_of_first_ensures(needle);
    assert(column.contains(needle));
}

/// A needle that stands nowhere in a column has no first index.
pub proof fn lemma_no_index<K>(column: Seq<K>, needle: K)
    requires
        forall|j: int| 0 <= j < column.len() ==> column[j] != needle,
    ensures
        column.index_of_first(needle) is None,
{
    column.index_of_first_ensures(needle);
}

/// A user is stored exactly where looking its id up finds one.
pub proof fn lemma_has_user(users: Seq<UserRow>, id: i32)
    ensures
        has_user(users, id) == user_exists(users, id),
        user_exists(users, id) == (user_with_id(users, id) is Some),
{
    user_ids(users).index_of_first_ensures(id);
    if has_user(users, id) {
        let i = choose|i: int| 0 <= i < users.len() && (#[trigger] users[i]).id == id;
        assert(user_ids(users)[i] == id);
    }
    if user_exists(users, id) {
        let f = user_ids(users).index_of_first(id)->0;
        assert(users[f].id == id);
    }
}

/// Among users with unique ids, looking a stored user's id up finds that
/// user.
pub proof fn lemma_user_found(users: Seq<UserRow>, i: int)
    requires
        unique_users(users),
        0 <= i < users.len(),
    ensures
        user_with_id(users, users[i].id) == Some(users[i]),
{
    let id = users[i].id;
    user_ids(users).index_of_first_ensures(id);
    assert(user_ids(users)[i] == id);
    let f = user_ids(users).index_of_first(id)->0;
    assert(users[f].id == id);
    if f < i {
        assert(users[f].id != users[i].id);
    } else if i < f {
        assert(users[i].id != users[f].id);
    }
}

/// A secret stays readable as long as its owner stays stored with the same
/// password hash, whatever else changes among the users.
pub proof fn lemma_owner_still_opens(
    before: Seq<UserRow>,
    after: Seq<UserRow>,
    key: KeyRow,
    kept: KeyRow,
    j: int,
)
    requires
        unique_users(after),
        owner_opens(before, key),
        same_seal(key, kept),
        0 <= j < after.len(),
        after[j].id == key.user_id,
        after[j].password_hash == user_with_id(before, key.user_id)->0.password_hash,
    ensures
        owner_opens(after, kept),
{
    lemma_user_found(after, j);
}

/// The stored row of a user that looking an id up finds.
pub proof fn lemma_user_at(users: Seq<UserRow>, id: i32) -> (i: int)
    requires
        user_with_id(users, id) is Some,
    ensures
        0 <= i < users.len(),
        users[i].id == id,
        user_with_id(users, id) == Some(users[i]),
        user_ids(users).index_of_first(id) == Some(i),
{
    user_ids(users).index_of_first_ensures(id);
    let i = user_ids(users).index_of_first(id)->0;
    assert(user_ids(users)[i] == id);
    i
}

/// Replacing the password hash of a user that is not stored changes
/// nothing.
pub proof fn lemma_user_gone(users: Seq<UserRow>, id: i32, password_hash: Seq<char>)
    requires
        user_with_id(users, id) is None,
    ensures
        users_with_hash(users, id, password_hash) == users,
{
}

/// Adding a user leaves every secret readable.
pub proof fn lemma_readable_user_added(t: Tables, row: UserRow)
    requires
        tables_wf(t),
        tables_wf(with_user(t, row)),
        readable(t.users, t.keys),
    ensures
        readable(with_user(t, row).users, with_user(t, row).keys),
{
    let after = with_user(t, row).users;
    assert forall|i: int| 0 <= i < t.keys.len() implies owner_opens(after, #[trigger] t.keys[i]) by {
        let key = t.keys[i];
        let f = lemma_user_at(t.users, key.user_id);
        assert(after[f] == t.users[f]);
        lemma_owner_still_opens(t.users, after, key, key, f);
    }
}

/// Changing what a user is called or reached by leaves every secret
/// readable: the password hashes stay as they are.
pub proof fn lemma_readable_users_renamed(t: Tables, users: Seq<UserRow>)
    requires
        tables_wf(t),
        unique_users(users),
        readable(t.users, t.keys),
        users.len() == t.users.len(),
        forall|i: int|
            0 <= i < users.len() ==> (#[trigger] users[i]).id == t.users[i].id
                && users[i].password_hash == t.users[i].password_hash,
    ensures
        readable(users, t.keys),
{
    assert forall|i: int| 0 <= i < t.keys.len() implies owner_opens(users, #[trigger] t.keys[i]) by {
        let key = t.keys[i];
        let f = lemma_user_at(t.users, key.user_id);
        assert(users[f].id == t.users[f].id);
        lemma_owner_still_opens(t.users, users, key, key, f);
    }
}

/// Replacing a user's password hash leaves every secret readable, provided
/// the user's secrets are sealed anew under the new hash.
pub proof fn lemma_readable_rekeyed(t: Tables, keys: Seq<KeyRow>, id: i32, password_hash: Seq<char>)
    requires
        tables_wf(t),
        readable(t.users, t.keys),
        user_with_id(t.users, id) matches Some(user) && resealed(
            t.keys,
            keys,
            id,
            encode_utf8(user.password_hash),
            encode_utf8(password_hash),
        ),
    ensures
        readable(users_with_hash(t.users, id, password_hash), keys),
{
    let after = users_with_hash(t.users, id, password_hash);
    let at = lemma_user_at(t.users, id);
    let user = t.users[at];
    assert(after =~= t.users.update(at, UserRow { password_hash, ..user }));
    assert forall|a: int, b: int| 0 <= a < b < after.len() implies (#[trigger] after[a]).id != (
    #[trigger] after[b]).id && after[a].email != after[b].email && after[a].username
        != after[b].username by {
        assert(t.users[a].id != t.users[b].id);
    }
    assert forall|i: int| 0 <= i < keys.len() implies owner_opens(after, #[trigger] keys[i]) by {
        let key = t.keys[i];
        assert(row_resealed(
            key,
            keys[i],
            id,
            encode_utf8(user.password_hash),
            encode_utf8(password_hash),
        ));
        assert(owner_opens(t.users, key));
        if key.user_id == id {
            lemma_user_found(after, at);
        } else {
            let f = lemma_user_at(t.users, key.user_id);
            assert(after[f] == t.users[f]);
            lemma_owner_still_opens(t.users, after, key, keys[i], f);
        }
    }
}

/// Closing an account leaves every remaining secret readable.
pub proof fn lemma_readable_user_removed(t: Tables, id: i32)
    requires
        tables_wf(t),
        tables_wf(without_user(t, id)),
        readable(t.users, t.keys),
    ensures
        readable(without_user(t, id).users, without_user(t, id).keys),
{
    let users = without_user(t, id).users;
    let keys = without_user(t, id).keys;
    lemma_filter_keeps_apart(t.keys, key_of_other(id), |a: KeyRow, b: KeyRow| true);
    assert forall|i: int| 0 <= i < keys.len() implies owner_opens(users, #[trigger] keys[i]) by {
        let key = keys[i];
        assert(t.keys.contains(key));
        assert(key_of_other(id)(key));
        let m = choose|m: int| 0 <= m < t.keys.len() && t.keys[m] == key;
        assert(owner_opens(t.users, t.keys[m]));
        let f = lemma_user_at(t.users, key.user_id);
        t.users.lemma_filter_contains(other_user(id), f);
        let j = choose|j: int| 0 <= j < users.len() && users[j] == t.users[f];
        lemma_owner_still_opens(t.users, users, key, key, j);
    }
}

/// Whether some secret among `keys` has the owner and the sealed triple of
/// `key`.
pub open spec fn seal_among(keys: Seq<KeyRow>, key: KeyRow) -> bool {
    exists|m: int| 0 <= m < keys.len() && same_seal(#[trigger] keys[m], key)
}

/// Secrets that each carry the owner and the sealed triple of a secret
/// that was readable are readable.
pub proof fn lemma_readable_same_seals(users: Seq<UserRow>, before: Seq<KeyRow>, after: Seq<KeyRow>)
    requires
        readable(users, before),
        forall|i: int| 0 <= i < after.len() ==> seal_among(before, #[trigger] after[i]),
    ensures
        readable(users, after),
{
    assert forall|i: int| 0 <= i < after.len() implies owner_opens(users, #[trigger] after[i]) by {
        assert(seal_among(before, after[i]));
        let m = choose|m: int| 0 <= m < before.len() && same_seal(#[trigger] before[m], after[i]);
        assert(owner_opens(users, before[m]));
    }
}

/// Setting an expiration date, revoking or removing a secret leaves every
/// secret readable.
pub proof fn lemma_readable_keys_changed(
    users: Seq<UserRow>,
    keys: Seq<KeyRow>,
    key_id: i32,
    owner: i32,
    expiration: i64,
)
    requires
        readable(users, keys),
    ensures
        readable(users, keys_with_expiration(keys, key_id, owner, expiration)),
        readable(users, keys_with_revoked(keys, key_id, owner)),
        readable(users, keys.filter(other_key(key_id, owner))),
{
    let dated = keys_with_expiration(keys, key_id, owner, expiration);
    assert forall|i: int| 0 <= i < dated.len() implies seal_among(keys, #[trigger] dated[i]) by {
        assert(same_seal(keys[i], dated[i]));
    }
    lemma_readable_same_seals(users, keys, dated);
    let revoked = keys_with_revoked(keys, key_id, owner);
    assert forall|i: int| 0 <= i < revoked.len() implies seal_among(keys, #[trigger] revoked[i]) by {
        assert(same_seal(keys[i], revoked[i]));
    }
    lemma_readable_same_seals(users, keys, revoked);
    let kept = keys.filter(other_key(key_id, owner));
    lemma_filter_keeps_apart(keys, other_key(key_id, owner), |a: KeyRow, b: KeyRow| true);
    assert forall|i: int| 0 <= i < kept.len() implies seal_among(keys, #[trigger] kept[i]) by {
        assert(keys.contains(kept[i]));
        let m = choose|m: int| 0 <= m < keys.len() && keys[m] == kept[i];
        assert(same_seal(keys[m], kept[i]));
    }
    lemma_readable_same_seals(users, keys, kept);
}

/// Rows that are kept by a filter stand in the order they stood in, so
/// whatever told any two rows apart before still does.
pub proof fn lemma_filter_keeps_apart<T>(
    rows: Seq<T>,
    keep: spec_fn(T) -> bool,
    apart: spec_fn(T, T) -> bool,
)
    requires
        forall|i: int, j: int| 0 <= i < j < rows.len() ==> apart(rows[i], rows[j]),
    ensures
        forall|i: int, j: int|
            0 <= i < j < rows.filter(keep).len() ==> apart(
                #[trigger] rows.filter(keep)[i],
                #[trigger] rows.filter(keep)[j],
            ),
        forall|i: int|
            0 <= i < rows.filter(keep).len() ==> rows.contains(#[trigger] rows.filter(keep)[i])
                && keep(rows.filter(keep)[i]),
    decreases rows.len(),
{
    reveal(Seq::filter);
    if rows.len() > 0 {
        let front = rows.drop_last();
        lemma_filter_keeps_apart(front, keep, apart);
        let kept = rows.filter(keep);
        let kept_front = front.filter(keep);
        assert forall|i: int, j: int| 0 <= i < j < kept.len() implies apart(kept[i], kept[j]) by {
            if j < kept_front.len() {
            } else {
                assert(kept[j] == rows.last());
                assert(front.contains(kept_front[i]));
                let k = choose|k: int| 0 <= k < front.len() && front[k] == kept_front[i];
                assert(rows[k] == kept[i]);
            }
        }
        assert forall|i: int| 0 <= i < kept.len() implies rows.contains(#[trigger] kept[i])
            && keep(kept[i]) by {
            if i < kept_front.len() {
                assert(front.contains(kept_front[i]));
                let k = choose|k: int| 0 <= k < front.len() && front[k] == kept_front[i];
                assert(rows[k] == kept[i]);
            } else {
                assert(rows[rows.len() - 1] == kept[i]);
            }
        }
    }
}

/// A filter that every row passes keeps the rows as they are.
pub proof fn lemma_filter_keeps_all<T>(rows: Seq<T>, keep: spec_fn(T) -> bool)
    requires
        forall|i: int| 0 <= i < rows.len() ==> keep(#[trigger] rows[i]),
    ensures
        rows.filter(keep) == rows,
    decreases rows.len(),
{
    reveal(Seq::filter);
    if rows.len() > 0 {
        lemma_filter_keeps_all(rows.drop_last(), keep);
        assert(rows.drop_last().push(rows.last()) =~= rows);
    }
}

/// Once every token with a value was removed, none with that value is
/// found: a token that was used cannot be used again.
pub proof fn lemma_token_gone(tokens: Seq<TokenRow>, value: Seq<char>)
    ensures
        token_with_value(tokens.filter(other_token(value)), value) is None,
{
    let kept = tokens.filter(other_token(value));
    lemma_filter_keeps_apart(tokens, other_token(value), |a: TokenRow, b: TokenRow| true);
    assert forall|j: int| 0 <= j < token_values(kept).len() implies token_values(kept)[j]
        != value by {
        assert(other_token(value)(kept[j]));
    }
    lemma_no_index(token_values(kept), value);
}

/// After a user was given a fresh reset token, that token is the only one
/// the user has, whatever tokens the user had before.
pub proof fn lemma_newest_token_only(
    t: Tables,
    user_id: i32,
    value: Seq<char>,
    expiration: i64,
    now: i64,
)
    ensures
        ({
            let after = with_reset_token(t, user_id, value, expiration, now).tokens;
            &&& after.last().user_id == user_id
            &&& after.last().reset_token == value
            &&& forall|i: int|
                0 <= i < after.len() && (#[trigger] after[i]).user_id == user_id ==> i == after.len()
                    - 1
        }),
{
    lemma_filter_keeps_apart(t.tokens, token_of_other(user_id), |a: TokenRow, b: TokenRow| true);
    let kept = t.tokens.filter(token_of_other(user_id));
    let after = with_reset_token(t, user_id, value, expiration, now).tokens;
    assert forall|i: int| 0 <= i < after.len() && (#[trigger] after[i]).user_id
        == user_id implies i == after.len() - 1 by {
        if i < kept.len() {
            assert(token_of_other(user_id)(kept[i]));
        }
    }
}

/// Once a user was given a newer reset token, an older one of the same user
/// is not found any more, provided the two values differ and no other user
/// holds the older value.
pub proof fn lemma_older_token_gone(
    t: Tables,
    user_id: i32,
    older: Seq<char>,
    newer: Seq<char>,
    first_expiration: i64,
    first_now: i64,
    second_expiration: i64,
    second_now: i64,
)
    requires
        older != newer,
        forall|i: int|
            0 <= i < t.tokens.len() && (#[trigger] t.tokens[i]).user_id != user_id
                ==> t.tokens[i].reset_token != older,
    ensures
        token_with_value(
            with_reset_token(
                with_reset_token(t, user_id, older, first_expiration, first_now),
                user_id,
                newer,
                second_expiration,
                second_now,
            ).tokens,
            older,
        ) is None,
{
    let first = with_reset_token(t, user_id, older, first_expiration, first_now);
    let second = with_reset_token(first, user_id, newer, second_expiration, second_now);
    let kept_first = t.tokens.filter(token_of_other(user_id));
    let kept_second = first.tokens.filter(token_of_other(user_id));
    lemma_filter_keeps_apart(t.tokens, token_of_other(user_id), |a: TokenRow, b: TokenRow| true);
    lemma_filter_keeps_apart(first.tokens, token_of_other(user_id), |a: TokenRow, b: TokenRow| true);
    assert forall|j: int| 0 <= j < token_values(second.tokens).len() implies token_values(
        second.tokens,
    )[j] != older by {
        if j < kept_second.len() {
            let row = kept_second[j];
            assert(first.tokens.contains(row));
            assert(token_of_other(user_id)(row));
            let m = choose|m: int| 0 <= m < first.tokens.len() && first.tokens[m] == row;
            if m < kept_first.len() {
                assert(t.tokens.contains(kept_first[m]));
                let k = choose|k: int| 0 <= k < t.tokens.len() && t.tokens[k] == kept_first[m];
                assert(t.tokens[k].user_id != user_id);
            }
        }
    }
    lemma_no_index(token_values(second.tokens), older);
}

/// A list of one owner's secrets shows none of another owner's.
pub proof fn lemma_listing_own_only(
    keys: Seq<KeyRow>,
    owner: i32,
    state: Lifecycle,
    now: i64,
    i: int,
)
    requires
        0 <= i < listing(keys, owner, state, now).len(),
    ensures
        exists|k: int|
            0 <= k < keys.len() && (#[trigger] keys[k]).user_id == owner && in_state(
                keys[k],
                state,
                now,
            ) && listing(keys, owner, state, now)[i] == partial_of(keys[k]),
{
    let keep = listed_for(owner, state, now);
    lemma_filter_keeps_apart(keys, keep, |a: KeyRow, b: KeyRow| true);
    let kept = keys.filter(keep);
    assert(keys.contains(kept[i]));
    let k = choose|k: int| 0 <= k < keys.len() && keys[k] == kept[i];
    assert(keep(kept[i]));
    assert(keys[k].user_id == owner);
}

/// Changing or removing "the owner's secret `key_id`" touches nothing
/// where the owner has no such secret: least of all a secret of the same
/// id that belongs to someone else.
pub proof fn lemma_not_owned_untouched(keys: Seq<KeyRow>, key_id: i32, owner: i32, expiration: i64)
    requires
        !owns_key(keys, key_id, owner),
    ensures
        keys_with_expiration(keys, key_id, owner, expiration) == keys,
        keys_with_revoked(keys, key_id, owner) == keys,
        keys.filter(other_key(key_id, owner)) == keys,
        owned_key(keys, key_id, owner) is None,
{
    assert(keys_with_expiration(keys, key_id, owner, expiration) =~= keys);
    assert(keys_with_revoked(keys, key_id, owner) =~= keys);
    lemma_filter_keeps_all(keys, other_key(key_id, owner));
}

} // verus!

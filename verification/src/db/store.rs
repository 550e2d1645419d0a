use vstd::prelude::*;
use crate::db::models::{Notification, NotificationRow, User, UserRow};
use crate::db::tables::{
    all_open,
    readable,
    has_user,
    lemma_has_user,
    owners_stored,
    follows,
    holds,
    loadable,
    one_token_each,
    token_ids,
    unique_keys,
    unique_users,
    due_rows,
    due_with_owner,
    is_due,
    relevance_of,
    relevance_rows,
    RelevanceRow,
    NOTICE_WINDOW,
    email_of_other,
    email_taken,
    in_state,
    resealed,
    row_resealed,
    keys_with_expiration,
    keys_with_revoked,
    listed_for,
    listing,
    owned_key,
    owns_key,
    partial_rows,
    token_stored,
    with_key,
    with_notification,
    with_reset_token,
    Lifecycle,
    empty_tables,
    key_of_other,
    lemma_filter_keeps_apart,
    other_key,
    other_token,
    other_user,
    token_of_other,
    user_exists,
    users_with_email,
    users_with_hash,
    users_with_name,
    with_keys,
    with_tokens,
    with_users,
    without_user,
    name_of_other,
    name_taken,
    with_user,
    key_ids,
    lemma_first_index,
    lemma_no_index,
    tables_wf,
    token_values,
    token_with_value,
    user_emails,
    user_ids,
    user_with_email,
    user_with_id,
    Tables,
};
use crate::models::key::{stored_as, Key, KeyRow, NewKey, PartialKey, PartialKeyRow};
use crate::models::reset_password::{PasswordResetToken, TokenRow};
use crate::services::encryption::{decrypt, CryptoError};
use crate::services::key_service::KeyRelevanceService;
use crate::utils::text::same_text;
use vstd::string::*;

verus! {

/// Why the store refused a write.
#[derive(Clone, Copy, Debug, PartialEq, Eq, Structural)]
pub enum StoreError {
    /// A unique value is already taken.
    Conflict,
    /// No id is left to give out.
    Exhausted,
    /// The row would belong to a user that is not stored.
    NoOwner,
}

/// The vault's store: users, their secrets, their password-reset tokens
/// and the audit trail of notices.
pub struct Database {
    users: Vec<User>,
    keys: Vec<Key>,
    tokens: Vec<PasswordResetToken>,
    notifications: Vec<Notification>,
    next_user_id: i32,
    next_key_id: i32,
    next_token_id: i32,
}

pub open spec fn user_rows(users: Seq<User>) -> Seq<UserRow> {
    Seq::new(users.len(), |i: int| users[i]@)
}

pub open spec fn key_rows(keys: Seq<Key>) -> Seq<KeyRow> {
    Seq::new(keys.len(), |i: int| keys[i]@)
}

pub open spec fn token_rows(tokens: Seq<PasswordResetToken>) -> Seq<TokenRow> {
    Seq::new(tokens.len(), |i: int| tokens[i]@)
}

pub open spec fn notification_rows(notifications: Seq<Notification>) -> Seq<NotificationRow> {
    Seq::new(notifications.len(), |i: int| notifications[i]@)
}

pub open spec fn user_view(user: Option<User>) -> Option<UserRow> {
    match user {
        Some(u) => Some(u@),
        None => None,
    }
}

fn users_except(users: &Vec<User>, id: i32) -> (kept: Vec<User>)
    ensures
        user_rows(kept@) == user_rows(users@).filter(other_user(id)),
{
    let mut kept: Vec<User> = Vec::new();
    let mut i: usize = 0;
    assert(user_rows(users@.take(0)) =~= Seq::empty());
    assert(user_rows(kept@) =~= Seq::<UserRow>::empty().filter(other_user(id))) by {
        reveal(Seq::filter);
    }
    while i < users.len()
        invariant
            i <= users@.len(),
            user_rows(kept@) == user_rows(users@.take(i as int)).filter(other_user(id)),
        decreases users.len() - i,
    {
        proof {
            assert(user_rows(users@.take(i + 1)) =~= user_rows(users@.take(i as int)).push(
                users@[i as int]@,
            ));
            user_rows(users@.take(i as int)).lemma_filter_push(users@[i as int]@, other_user(id));
        }
        if users[i].id != id {
            let ghost before = user_rows(kept@);
            kept.push(users[i].duplicate());
            assert(user_rows(kept@) =~= before.push(users@[i as int]@));
        }
        i += 1;
    }
    assert(users@.take(i as int) =~= users@);
    kept
}

fn keys_except_owner(keys: &Vec<Key>, owner: i32) -> (kept: Vec<Key>)
    ensures
        key_rows(kept@) == key_rows(keys@).filter(key_of_other(owner)),
{
    let mut kept: Vec<Key> = Vec::new();
    let mut i: usize = 0;
    assert(key_rows(keys@.take(0)) =~= Seq::empty());
    assert(key_rows(kept@) =~= Seq::<KeyRow>::empty().filter(key_of_other(owner))) by {
        reveal(Seq::filter);
    }
    while i < keys.len()
        invariant
            i <= keys@.len(),
            key_rows(kept@) == key_rows(keys@.take(i as int)).filter(key_of_other(owner)),
        decreases keys.len() - i,
    {
        proof {
            assert(key_rows(keys@.take(i + 1)) =~= key_rows(keys@.take(i as int)).push(
                keys@[i as int]@,
            ));
            key_rows(keys@.take(i as int)).lemma_filter_push(keys@[i as int]@, key_of_other(owner));
        }
        if keys[i].user_id != owner {
            let ghost before = key_rows(kept@);
            kept.push(keys[i].duplicate());
            assert(key_rows(kept@) =~= before.push(keys@[i as int]@));
        }
        i += 1;
    }
    assert(keys@.take(i as int) =~= keys@);
    kept
}

fn keys_except(keys: &Vec<Key>, key_id: i32, owner: i32) -> (kept: Vec<Key>)
    ensures
        key_rows(kept@) == key_rows(keys@).filter(other_key(key_id, owner)),
{
    let mut kept: Vec<Key> = Vec::new();
    let mut i: usize = 0;
    assert(key_rows(keys@.take(0)) =~= Seq::empty());
    assert(key_rows(kept@) =~= Seq::<KeyRow>::empty().filter(other_key(key_id, owner))) by {
        reveal(Seq::filter);
    }
    while i < keys.len()
        invariant
            i <= keys@.len(),
            key_rows(kept@) == key_rows(keys@.take(i as int)).filter(other_key(key_id, owner)),
        decreases keys.len() - i,
    {
        proof {
            assert(key_rows(keys@.take(i + 1)) =~= key_rows(keys@.take(i as int)).push(
                keys@[i as int]@,
            ));
            key_rows(keys@.take(i as int)).lemma_filter_push(
                keys@[i as int]@,
                other_key(key_id, owner),
            );
        }
        if !(keys[i].id == key_id && keys[i].user_id == owner) {
            let ghost before = key_rows(kept@);
            kept.push(keys[i].duplicate());
            assert(key_rows(kept@) =~= before.push(keys@[i as int]@));
        }
        i += 1;
    }
    assert(keys@.take(i as int) =~= keys@);
    kept
}

fn tokens_except_user(tokens: &Vec<PasswordResetToken>, user_id: i32) -> (kept: Vec<
    PasswordResetToken,
>)
    ensures
        token_rows(kept@) == token_rows(tokens@).filter(token_of_other(user_id)),
{
    let mut kept: Vec<PasswordResetToken> = Vec::new();
    let mut i: usize = 0;
    assert(token_rows(tokens@.take(0)) =~= Seq::empty());
    assert(token_rows(kept@) =~= Seq::<TokenRow>::empty().filter(token_of_other(user_id))) by {
        reveal(Seq::filter);
    }
    while i < tokens.len()
        invariant
            i <= tokens@.len(),
            token_rows(kept@) == token_rows(tokens@.take(i as int)).filter(
                token_of_other(user_id),
            ),
        decreases tokens.len() - i,
    {
        proof {
            assert(token_rows(tokens@.take(i + 1)) =~= token_rows(tokens@.take(i as int)).push(
                tokens@[i as int]@,
            ));
            token_rows(tokens@.take(i as int)).lemma_filter_push(
                tokens@[i as int]@,
                token_of_other(user_id),
            );
        }
        if tokens[i].user_id != user_id {
            let ghost before = token_rows(kept@);
            kept.push(tokens[i].duplicate());
            assert(token_rows(kept@) =~= before.push(tokens@[i as int]@));
        }
        i += 1;
    }
    assert(tokens@.take(i as int) =~= tokens@);
    kept
}

fn tokens_except_value(tokens: &Vec<PasswordResetToken>, value: &str) -> (kept: Vec<
    PasswordResetToken,
>)
    ensures
        token_rows(kept@) == token_rows(tokens@).filter(other_token(value@)),
{
    let mut kept: Vec<PasswordResetToken> = Vec::new();
    let mut i: usize = 0;
    assert(token_rows(tokens@.take(0)) =~= Seq::empty());
    assert(token_rows(kept@) =~= Seq::<TokenRow>::empty().filter(other_token(value@))) by {
        reveal(Seq::filter);
    }
    while i < tokens.len()
        invariant
            i <= tokens@.len(),
            token_rows(kept@) == token_rows(tokens@.take(i as int)).filter(other_token(value@)),
        decreases tokens.len() - i,
    {
        proof {
            assert(token_rows(tokens@.take(i + 1)) =~= token_rows(tokens@.take(i as int)).push(
                tokens@[i as int]@,
            ));
            token_rows(tokens@.take(i as int)).lemma_filter_push(
                tokens@[i as int]@,
                other_token(value@),
            );
        }
        if !same_text(tokens[i].reset_token.as_str(), value) {
            let ghost before = token_rows(kept@);
            kept.push(tokens[i].duplicate());
            assert(token_rows(kept@) =~= before.push(tokens@[i as int]@));
        }
        i += 1;
    }
    assert(tokens@.take(i as int) =~= tokens@);
    kept
}

pub open spec fn partial_views(keys: Seq<PartialKey>) -> Seq<PartialKeyRow> {
    Seq::new(keys.len(), |i: int| keys[i]@)
}

pub open spec fn key_view(key: Option<Key>) -> Option<KeyRow> {
    match key {
        Some(k) => Some(k@),
        None => None,
    }
}

pub open spec fn token_view(token: Option<PasswordResetToken>) -> Option<TokenRow> {
    match token {
        Some(t) => Some(t@),
        None => None,
    }
}

fn key_in_state(key: &Key, state: Lifecycle, now: i64) -> (shown: bool)
    ensures
        shown == in_state(key@, state, now),
{
    match state {
        Lifecycle::Active => !key.is_revoked && match key.expiration_date {
            Some(e) => e > now,
            None => true,
        },
        Lifecycle::Revoked => key.is_revoked,
        Lifecycle::Expired => !key.is_revoked && match key.expiration_date {
            Some(e) => e < now,
            None => false,
        },
    }
}

pub open spec fn relevance_views(rows: Seq<KeyRelevanceService>) -> Seq<RelevanceRow> {
    Seq::new(rows.len(), |i: int| rows[i]@)
}

fn key_is_due(key: &Key, now: i64) -> (due: bool)
    ensures
        due == is_due(key@, now),
{
    if key.is_revoked {
        return false;
    }
    match key.expiration_date {
        None => false,
        Some(e) => if now < i64::MIN + NOTICE_WINDOW {
            true
        } else {
            e >= now - NOTICE_WINDOW
        },
    }
}

/// The id that follows the greatest of `ids`, where one is left.
fn next_id(ids: &Vec<i32>) -> (next: Option<i32>)
    ensures
        match next {
            Some(n) => follows(ids@, n),
            None => exists|i: int| 0 <= i < ids@.len() && #[trigger] ids@[i] == i32::MAX,
        },
{
    let mut next: i32 = 1;
    let mut i: usize = 0;
    while i < ids.len()
        invariant
            i <= ids@.len(),
            follows(ids@.take(i as int), next),
        decreases ids.len() - i,
    {
        let ghost seen = ids@.take(i as int);
        if ids[i] == i32::MAX {
            return None;
        }
        if ids[i] >= next {
            next = ids[i] + 1;
            proof {
                assert(ids@.take(i + 1)[i as int] == next - 1);
            }
        } else {
            proof {
                if next != 1 {
                    let w = choose|w: int| 0 <= w < seen.len() && #[trigger] seen[w] == next - 1;
                    assert(ids@.take(i + 1)[w] == next - 1);
                }
            }
        }
        proof {
            assert forall|k: int| 0 <= k < ids@.take(i + 1).len() implies #[trigger] ids@.take(
                i + 1,
            )[k] < next by {
                if k < i {
                    assert(ids@.take(i + 1)[k] == seen[k]);
                }
            }
        }
        i += 1;
    }
    proof {
        assert(ids@.take(i as int) =~= ids@);
    }
    Some(next)
}

fn users_are_unique(users: &Vec<User>) -> (unique: bool)
    ensures
        unique == unique_users(user_rows(users@)),
{
    let mut j: usize = 0;
    while j < users.len()
        invariant
            j <= users@.len(),
            forall|a: int, b: int|
                #![trigger user_rows(users@)[a], user_rows(users@)[b]]
                0 <= a < b < j ==> user_rows(users@)[a].id != user_rows(users@)[b].id && user_rows(
                    users@,
                )[a].email != user_rows(users@)[b].email && user_rows(users@)[a].username
                    != user_rows(users@)[b].username,
        decreases users.len() - j,
    {
        let mut i: usize = 0;
        while i < j
            invariant
                i <= j < users@.len(),
                forall|a: int|
                    #![trigger user_rows(users@)[a]]
                    0 <= a < i ==> user_rows(users@)[a].id != user_rows(users@)[j as int].id
                        && user_rows(users@)[a].email != user_rows(users@)[j as int].email
                        && user_rows(users@)[a].username != user_rows(users@)[j as int].username,
            decreases j - i,
        {
            if users[i].id == users[j].id || same_text(
                users[i].email.as_str(),
                users[j].email.as_str(),
            ) || same_text(users[i].username.as_str(), users[j].username.as_str()) {
                assert(user_rows(users@)[i as int].id == user_rows(users@)[j as int].id
                    || user_rows(users@)[i as int].email == user_rows(users@)[j as int].email
                    || user_rows(users@)[i as int].username == user_rows(
                    users@,
                )[j as int].username);
                return false;
            }
            i += 1;
        }
        j += 1;
    }
    true
}

fn keys_are_unique(keys: &Vec<Key>) -> (unique: bool)
    ensures
        unique == unique_keys(key_rows(keys@)),
{
    let mut j: usize = 0;
    while j < keys.len()
        invariant
            j <= keys@.len(),
            forall|a: int, b: int|
                #![trigger key_rows(keys@)[a], key_rows(keys@)[b]]
                0 <= a < b < j ==> key_rows(keys@)[a].id != key_rows(keys@)[b].id,
        decreases keys.len() - j,
    {
        let mut i: usize = 0;
        while i < j
            invariant
                i <= j < keys@.len(),
                forall|a: int|
                    #![trigger key_rows(keys@)[a]]
                    0 <= a < i ==> key_rows(keys@)[a].id != key_rows(keys@)[j as int].id,
            decreases j - i,
        {
            if keys[i].id == keys[j].id {
                assert(key_rows(keys@)[i as int].id == key_rows(keys@)[j as int].id);
                return false;
            }
            i += 1;
        }
        j += 1;
    }
    true
}

fn tokens_are_unique(tokens: &Vec<PasswordResetToken>) -> (unique: bool)
    ensures
        unique == one_token_each(token_rows(tokens@)),
{
    let mut j: usize = 0;
    while j < tokens.len()
        invariant
            j <= tokens@.len(),
            forall|a: int, b: int|
                #![trigger token_rows(tokens@)[a], token_rows(tokens@)[b]]
                0 <= a < b < j ==> token_rows(tokens@)[a].user_id != token_rows(
                    tokens@,
                )[b].user_id,
        decreases tokens.len() - j,
    {
        let mut i: usize = 0;
        while i < j
            invariant
                i <= j < tokens@.len(),
                forall|a: int|
                    #![trigger token_rows(tokens@)[a]]
                    0 <= a < i ==> token_rows(tokens@)[a].user_id != token_rows(
                        tokens@,
                    )[j as int].user_id,
            decreases j - i,
        {
            if tokens[i].user_id == tokens[j].user_id {
                assert(token_rows(tokens@)[i as int].user_id == token_rows(
                    tokens@,
                )[j as int].user_id);
                return false;
            }
            i += 1;
        }
        j += 1;
    }
    true
}

fn holds_user(users: &Vec<User>, id: i32) -> (held: bool)
    ensures
        held == has_user(user_rows(users@), id),
{
    let mut i: usize = 0;
    while i < users.len()
        invariant
            i <= users@.len(),
            forall|j: int| 0 <= j < i ==> (#[trigger] user_rows(users@)[j]).id != id,
        decreases users.len() - i,
    {
        if users[i].id == id {
            assert(user_rows(users@)[i as int].id == id);
            return true;
        }
        i += 1;
    }
    false
}

fn owners_are_stored(users: &Vec<User>, keys: &Vec<Key>, tokens: &Vec<PasswordResetToken>) -> (stored:
    bool)
    ensures
        stored == owners_stored(user_rows(users@), key_rows(keys@), token_rows(tokens@)),
{
    let mut i: usize = 0;
    while i < keys.len()
        invariant
            i <= keys@.len(),
            forall|j: int|
                0 <= j < i ==> has_user(user_rows(users@), (#[trigger] key_rows(keys@)[j]).user_id),
        decreases keys.len() - i,
    {
        if !holds_user(users, keys[i].user_id) {
            assert(!has_user(user_rows(users@), key_rows(keys@)[i as int].user_id));
            return false;
        }
        i += 1;
    }
    let mut i: usize = 0;
    while i < tokens.len()
        invariant
            i <= tokens@.len(),
            forall|j: int|
                0 <= j < keys@.len() ==> has_user(
                    user_rows(users@),
                    (#[trigger] key_rows(keys@)[j]).user_id,
                ),
            forall|j: int|
                0 <= j < i ==> has_user(
                    user_rows(users@),
                    (#[trigger] token_rows(tokens@)[j]).user_id,
                ),
        decreases tokens.len() - i,
    {
        if !holds_user(users, tokens[i].user_id) {
            assert(!has_user(user_rows(users@), token_rows(tokens@)[i as int].user_id));
            return false;
        }
        i += 1;
    }
    true
}

impl View for Database {
    type V = Tables;

    closed spec fn view(&self) -> Tables {
        Tables {
            users: user_rows(self.users@),
            keys: key_rows(self.keys@),
            tokens: token_rows(self.tokens@),
            notifications: notification_rows(self.notifications@),
            next_user_id: self.next_user_id,
            next_key_id: self.next_key_id,
            next_token_id: self.next_token_id,
        }
    }
}

impl Database {
    /// The store keeps what the data model asks of it. The empty store
    /// does, and every method below keeps it so.
    pub open spec fn wf(&self) -> bool {
        tables_wf(self@)
    }

    /// Every secret in the store opens under the password hash of its
    /// owner. The empty store is readable, and every operation of the vault
    /// that changes users or secrets keeps a readable store readable.
    pub open spec fn readable(&self) -> bool {
        readable(self@.users, self@.keys)
    }

    /// An empty store.
    pub fn new() -> (db: Database)
        ensures
            db@ == empty_tables(),
            db.wf(),
            db.readable(),
    {
        let db = Database {
            users: Vec::new(),
            keys: Vec::new(),
            tokens: Vec::new(),
            notifications: Vec::new(),
            next_user_id: 1,
            next_key_id: 1,
            next_token_id: 1,
        };
        assert(db@.users =~= Seq::empty());
        assert(db@.keys =~= Seq::empty());
        assert(db@.tokens =~= Seq::empty());
        assert(db@.notifications =~= Seq::empty());
        db
    }

    fn user_position_by_email(&self, email: &str) -> (position: Option<usize>)
        ensures
            match position {
                Some(i) => user_emails(self@.users).index_of_first(email@) == Some(i as int) && i
                    < self.users@.len(),
                None => user_emails(self@.users).index_of_first(email@) is None,
            },
    {
        let mut i: usize = 0;
        while i < self.users.len()
            invariant
                i <= self.users@.len(),
                forall|j: int| 0 <= j < i ==> user_emails(self@.users)[j] != email@,
            decreases self.users.len() - i,
        {
            if same_text(self.users[i].email.as_str(), email) {
                proof {
                    lemma_first_index(user_emails(self@.users), email@, i as int);
                }
                return Some(i);
            }
            i += 1;
        }
        proof {
            lemma_no_index(user_emails(self@.users), email@);
        }
        None
    }

    fn user_position_by_id(&self, id: i32) -> (position: Option<usize>)
        ensures
            match position {
                Some(i) => user_ids(self@.users).index_of_first(id) == Some(i as int) && i
                    < self.users@.len(),
                None => user_ids(self@.users).index_of_first(id) is None,
            },
    {
        let mut i: usize = 0;
        while i < self.users.len()
            invariant
                i <= self.users@.len(),
                forall|j: int| 0 <= j < i ==> user_ids(self@.users)[j] != id,
            decreases self.users.len() - i,
        {
            if self.users[i].id == id {
                proof {
                    lemma_first_index(user_ids(self@.users), id, i as int);
                }
                return Some(i);
            }
            i += 1;
        }
        proof {
            lemma_no_index(user_ids(self@.users), id);
        }
        None
    }

    /// Takes rows that were kept elsewhere for the content of a store. Rows
    /// that break what the data model asks for are refused.
    pub fn from_rows(
        users: Vec<User>,
        keys: Vec<Key>,
        tokens: Vec<PasswordResetToken>,
        notifications: Vec<Notification>,
    ) -> (loaded: Option<Database>)
        ensures
            match loaded {
                Some(db) => db.wf() && holds(
                    db@,
                    user_rows(users@),
                    key_rows(keys@),
                    token_rows(tokens@),
                    notification_rows(notifications@),
                ),
                None => !loadable(user_rows(users@), key_rows(keys@), token_rows(tokens@)),
            },
    {
        if !users_are_unique(&users) || !keys_are_unique(&keys) || !tokens_are_unique(&tokens)
            || !owners_are_stored(&users, &keys, &tokens) {
            return None;
        }
        let mut ids: Vec<i32> = Vec::new();
        let mut i: usize = 0;
        while i < users.len()
            invariant
                i <= users@.len(),
                ids@ == user_ids(user_rows(users@)).take(i as int),
            decreases users.len() - i,
        {
            ids.push(users[i].id);
            assert(ids@ =~= user_ids(user_rows(users@)).take(i + 1));
            i += 1;
        }
        assert(ids@ =~= user_ids(user_rows(users@)));
        let next_user_id = match next_id(&ids) {
            Some(next) => next,
            None => {
                proof {
                    let w = choose|w: int| 0 <= w < ids@.len() && #[trigger] ids@[w] == i32::MAX;
                    assert(user_rows(users@)[w].id == i32::MAX);
                }
                return None;
            },
        };
        let mut ids: Vec<i32> = Vec::new();
        let mut i: usize = 0;
        while i < keys.len()
            invariant
                i <= keys@.len(),
                ids@ == key_ids(key_rows(keys@)).take(i as int),
            decreases keys.len() - i,
        {
            ids.push(keys[i].id);
            assert(ids@ =~= key_ids(key_rows(keys@)).take(i + 1));
            i += 1;
        }
        assert(ids@ =~= key_ids(key_rows(keys@)));
        let next_key_id = match next_id(&ids) {
            Some(next) => next,
            None => {
                proof {
                    let w = choose|w: int| 0 <= w < ids@.len() && #[trigger] ids@[w] == i32::MAX;
                    assert(key_rows(keys@)[w].id == i32::MAX);
                }
                return None;
            },
        };
        let mut ids: Vec<i32> = Vec::new();
        let mut i: usize = 0;
        while i < tokens.len()
            invariant
                i <= tokens@.len(),
                ids@ == token_ids(token_rows(tokens@)).take(i as int),
            decreases tokens.len() - i,
        {
            ids.push(tokens[i].id);
            assert(ids@ =~= token_ids(token_rows(tokens@)).take(i + 1));
            i += 1;
        }
        assert(ids@ =~= token_ids(token_rows(tokens@)));
        let next_token_id = match next_id(&ids) {
            Some(next) => next,
            None => {
                proof {
                    let w = choose|w: int| 0 <= w < ids@.len() && #[trigger] ids@[w] == i32::MAX;
                    assert(token_rows(tokens@)[w].id == i32::MAX);
                }
                return None;
            },
        };
        let db = Database {
            users,
            keys,
            tokens,
            notifications,
            next_user_id,
            next_key_id,
            next_token_id,
        };
        proof {
            assert forall|k: int| 0 <= k < db@.users.len() implies (#[trigger] db@.users[k]).id
                < db@.next_user_id by {
                assert(user_ids(db@.users)[k] < next_user_id);
            }
            assert forall|k: int| 0 <= k < db@.keys.len() implies (#[trigger] db@.keys[k]).id
                < db@.next_key_id by {
                assert(key_ids(db@.keys)[k] < next_key_id);
            }
            assert forall|k: int| 0 <= k < db@.tokens.len() implies (#[trigger] db@.tokens[k]).id
                < db@.next_token_id by {
                assert(token_ids(db@.tokens)[k] < next_token_id);
            }
        }
        Some(db)
    }

    /// Every stored user, in the order they were stored.
    pub fn all_users(&self) -> (rows: Vec<User>)
        ensures
            user_rows(rows@) == self@.users,
    {
        let mut rows: Vec<User> = Vec::new();
        let mut i: usize = 0;
        while i < self.users.len()
            invariant
                i <= self.users@.len(),
                user_rows(rows@) == self@.users.take(i as int),
            decreases self.users.len() - i,
        {
            let ghost before = user_rows(rows@);
            rows.push(self.users[i].duplicate());
            assert(user_rows(rows@) =~= before.push(self.users@[i as int]@));
            assert(self@.users.take(i + 1) =~= self@.users.take(i as int).push(self@.users[i as int]));
            i += 1;
        }
        assert(self@.users.take(i as int) =~= self@.users);
        rows
    }

    /// Every stored secret, sealed as it is, in the order they were stored.
    pub fn all_keys(&self) -> (rows: Vec<Key>)
        ensures
            key_rows(rows@) == self@.keys,
    {
        let mut rows: Vec<Key> = Vec::new();
        let mut i: usize = 0;
        while i < self.keys.len()
            invariant
                i <= self.keys@.len(),
                key_rows(rows@) == self@.keys.take(i as int),
            decreases self.keys.len() - i,
        {
            let ghost before = key_rows(rows@);
            rows.push(self.keys[i].duplicate());
            assert(key_rows(rows@) =~= before.push(self.keys@[i as int]@));
            assert(self@.keys.take(i + 1) =~= self@.keys.take(i as int).push(self@.keys[i as int]));
            i += 1;
        }
        assert(self@.keys.take(i as int) =~= self@.keys);
        rows
    }

    /// Every stored reset token, in the order they were stored.
    pub fn all_reset_tokens(&self) -> (rows: Vec<PasswordResetToken>)
        ensures
            token_rows(rows@) == self@.tokens,
    {
        let mut rows: Vec<PasswordResetToken> = Vec::new();
        let mut i: usize = 0;
        while i < self.tokens.len()
            invariant
                i <= self.tokens@.len(),
                token_rows(rows@) == self@.tokens.take(i as int),
            decreases self.tokens.len() - i,
        {
            let ghost before = token_rows(rows@);
            rows.push(self.tokens[i].duplicate());
            assert(token_rows(rows@) =~= before.push(self.tokens@[i as int]@));
            assert(self@.tokens.take(i + 1) =~= self@.tokens.take(i as int).push(self@.tokens[i as int]));
            i += 1;
        }
        assert(self@.tokens.take(i as int) =~= self@.tokens);
        rows
    }

    /// The audit trail, oldest record first.
    pub fn all_notifications(&self) -> (rows: Vec<Notification>)
        ensures
            notification_rows(rows@) == self@.notifications,
    {
        let mut rows: Vec<Notification> = Vec::new();
        let mut i: usize = 0;
        while i < self.notifications.len()
            invariant
                i <= self.notifications@.len(),
                notification_rows(rows@) == self@.notifications.take(i as int),
            decreases self.notifications.len() - i,
        {
            let ghost before = notification_rows(rows@);
            rows.push(self.notifications[i].duplicate());
            assert(notification_rows(rows@) =~= before.push(self.notifications@[i as int]@));
            assert(self@.notifications.take(i + 1) =~= self@.notifications.take(i as int).push(self@.notifications[i as int]));
            i += 1;
        }
        assert(self@.notifications.take(i as int) =~= self@.notifications);
        rows
    }

    /// Whether a user name is taken: by anyone, or by anyone but `except`.
    pub fn username_in_use(&self, username: &str, except: Option<i32>) -> (used: bool)
        ensures
            except is None ==> used == name_taken(self@.users, username@),
            except matches Some(id) ==> used == name_of_other(self@.users, username@, id),
    {
        let mut i: usize = 0;
        while i < self.users.len()
            invariant
                i <= self.users@.len(),
                forall|j: int|
                    0 <= j < i ==> !((#[trigger] self@.users[j]).username == username@ && match except {
                        Some(id) => self@.users[j].id != id,
                        None => true,
                    }),
            decreases self.users.len() - i,
        {
            let other = match except {
                Some(id) => self.users[i].id != id,
                None => true,
            };
            if other && same_text(self.users[i].username.as_str(), username) {
                assert(self@.users[i as int].username == username@);
                return true;
            }
            i += 1;
        }
        false
    }

    /// Whether an e-mail address is taken: by anyone, or by anyone but
    /// `except`.
    pub fn email_in_use(&self, email: &str, except: Option<i32>) -> (used: bool)
        ensures
            except is None ==> used == email_taken(self@.users, email@),
            except matches Some(id) ==> used == email_of_other(self@.users, email@, id),
    {
        let mut i: usize = 0;
        while i < self.users.len()
            invariant
                i <= self.users@.len(),
                forall|j: int|
                    0 <= j < i ==> !((#[trigger] self@.users[j]).email == email@ && match except {
                        Some(id) => self@.users[j].id != id,
                        None => true,
                    }),
            decreases self.users.len() - i,
        {
            let other = match except {
                Some(id) => self.users[i].id != id,
                None => true,
            };
            if other && same_text(self.users[i].email.as_str(), email) {
                assert(self@.users[i as int].email == email@);
                return true;
            }
            i += 1;
        }
        false
    }

    /// Adds a user under the next free id. E-mail address and user name
    /// must each be free.
    pub fn insert_user(
        &mut self,
        username: String,
        email: String,
        password_hash: String,
        now: i64,
    ) -> (outcome: Result<i32, StoreError>)
        ensures
            old(self).wf() ==> final(self).wf(),
            match outcome {
                Ok(id) => {
                    &&& !email_taken(old(self)@.users, email@)
                    &&& !name_taken(old(self)@.users, username@)
                    &&& id == old(self)@.next_user_id
                    &&& id < i32::MAX
                    &&& final(self)@ == with_user(
                        old(self)@,
                        UserRow {
                            id,
                            username: username@,
                            email: email@,
                            password_hash: password_hash@,
                            created_at: now,
                        },
                    )
                },
                Err(StoreError::Conflict) => (email_taken(old(self)@.users, email@) || name_taken(
                    old(self)@.users,
                    username@,
                )) && final(self)@ == old(self)@,
                Err(e) => {
                    &&& e == StoreError::Exhausted
                    &&& !email_taken(old(self)@.users, email@)
                    &&& !name_taken(old(self)@.users, username@)
                    &&& old(self)@.next_user_id == i32::MAX
                    &&& final(self)@ == old(self)@
                },
            },
    {
        if self.email_in_use(email.as_str(), None) || self.username_in_use(username.as_str(), None) {
            return Err(StoreError::Conflict);
        }
        if self.next_user_id == i32::MAX {
            return Err(StoreError::Exhausted);
        }
        let id = self.next_user_id;
        let user = User { id, username, email, password_hash, created_at: now };
        self.users.push(user);
        self.next_user_id = id + 1;
        proof {
            assert(self@.users =~= old(self)@.users.push(user@));
            if old(self).wf() {
                assert forall|owner: i32| has_user(old(self)@.users, owner) implies has_user(
                    self@.users,
                    owner,
                ) by {
                    let i = choose|i: int|
                        0 <= i < old(self)@.users.len() && (#[trigger] old(self)@.users[i]).id
                            == owner;
                    assert(self@.users[i].id == owner);
                }
            }
        }
        Ok(id)
    }

    /// Gives a user another e-mail address, unless another user has it.
    /// Answers whether the user was found.
    pub fn update_user_email(&mut self, id: i32, email: String) -> (outcome: Result<
        bool,
        StoreError,
    >)
        ensures
            old(self).wf() ==> final(self).wf(),
            match outcome {
                Ok(found) => {
                    &&& !email_of_other(old(self)@.users, email@, id)
                    &&& found == user_exists(old(self)@.users, id)
                    &&& final(self)@ == with_users(old(self)@, users_with_email(old(self)@.users, id, email@))
                },
                Err(e) => e == StoreError::Conflict && email_of_other(old(self)@.users, email@, id)
                    && final(self)@ == old(self)@,
            },
    {
        if self.email_in_use(email.as_str(), Some(id)) {
            return Err(StoreError::Conflict);
        }
        match self.user_position_by_id(id) {
            None => Ok(false),
            Some(i) => {
                let current = &self.users[i];
                let changed = User {
                    id: current.id,
                    username: current.username.clone(),
                    email,
                    password_hash: current.password_hash.clone(),
                    created_at: current.created_at,
                };
                self.users.set(i, changed);
                proof {
                    user_ids(old(self)@.users).index_of_first_ensures(id);
                    assert(self@.users =~= users_with_email(old(self)@.users, id, email@));
                    if old(self).wf() {
                        assert forall|owner: i32|
                            has_user(old(self)@.users, owner) implies has_user(
                            self@.users,
                            owner,
                        ) by {
                            let k = choose|k: int|
                                0 <= k < old(self)@.users.len() && (
                                #[trigger] old(self)@.users[k]).id == owner;
                            assert(self@.users[k].id == owner);
                        }
                        assert forall|a: int, b: int| 0 <= a < b < self@.users.len() implies (
                        #[trigger] self@.users[a]).email != (#[trigger] self@.users[b]).email by {
                            assert(old(self)@.users[a].email != old(self)@.users[b].email);
                            assert(old(self)@.users[a].id != old(self)@.users[b].id);
                        }
                    }
                }
                Ok(true)
            },
        }
    }

    /// Gives a user another name, unless another user has it. Answers
    /// whether the user was found.
    pub fn update_username(&mut self, id: i32, username: String) -> (outcome: Result<
        bool,
        StoreError,
    >)
        ensures
            old(self).wf() ==> final(self).wf(),
            match outcome {
                Ok(found) => {
                    &&& !name_of_other(old(self)@.users, username@, id)
                    &&& found == user_exists(old(self)@.users, id)
                    &&& final(self)@ == with_users(old(self)@, users_with_name(old(self)@.users, id, username@))
                },
                Err(e) => e == StoreError::Conflict && name_of_other(
                    old(self)@.users,
                    username@,
                    id,
                ) && final(self)@ == old(self)@,
            },
    {
        if self.username_in_use(username.as_str(), Some(id)) {
            return Err(StoreError::Conflict);
        }
        match self.user_position_by_id(id) {
            None => Ok(false),
            Some(i) => {
                let current = &self.users[i];
                let changed = User {
                    id: current.id,
                    username,
                    email: current.email.clone(),
                    password_hash: current.password_hash.clone(),
                    created_at: current.created_at,
                };
                self.users.set(i, changed);
                proof {
                    user_ids(old(self)@.users).index_of_first_ensures(id);
                    assert(self@.users =~= users_with_name(old(self)@.users, id, username@));
                    if old(self).wf() {
                        assert forall|owner: i32|
                            has_user(old(self)@.users, owner) implies has_user(
                            self@.users,
                            owner,
                        ) by {
                            let k = choose|k: int|
                                0 <= k < old(self)@.users.len() && (
                                #[trigger] old(self)@.users[k]).id == owner;
                            assert(self@.users[k].id == owner);
                        }
                        assert forall|a: int, b: int| 0 <= a < b < self@.users.len() implies (
                        #[trigger] self@.users[a]).username != (
                        #[trigger] self@.users[b]).username by {
                            assert(old(self)@.users[a].username != old(self)@.users[b].username);
                            assert(old(self)@.users[a].id != old(self)@.users[b].id);
                        }
                    }
                }
                Ok(true)
            },
        }
    }

    /// Replaces a user's password hash. Answers whether the user was found.
    pub fn update_password_hash(&mut self, id: i32, password_hash: String) -> (found: bool)
        ensures
            old(self).wf() ==> final(self).wf(),
            found == user_exists(old(self)@.users, id),
            final(self)@ == with_users(old(self)@, users_with_hash(old(self)@.users, id, password_hash@)),
    {
        match self.user_position_by_id(id) {
            None => false,
            Some(i) => {
                let current = &self.users[i];
                let changed = User {
                    id: current.id,
                    username: current.username.clone(),
                    email: current.email.clone(),
                    password_hash,
                    created_at: current.created_at,
                };
                self.users.set(i, changed);
                proof {
                    user_ids(old(self)@.users).index_of_first_ensures(id);
                    assert(self@.users =~= users_with_hash(old(self)@.users, id, password_hash@));
                    if old(self).wf() {
                        assert forall|owner: i32|
                            has_user(old(self)@.users, owner) implies has_user(
                            self@.users,
                            owner,
                        ) by {
                            let k = choose|k: int|
                                0 <= k < old(self)@.users.len() && (
                                #[trigger] old(self)@.users[k]).id == owner;
                            assert(self@.users[k].id == owner);
                        }
                        assert forall|a: int, b: int| 0 <= a < b < self@.users.len() implies (
                        #[trigger] self@.users[a]).id != (#[trigger] self@.users[b]).id by {
                            assert(old(self)@.users[a].id != old(self)@.users[b].id);
                        }
                    }
                }
                true
            },
        }
    }

    /// Closes an account: removes the user, and with it every secret and
    /// every reset token it owns. Answers whether the user was found.
    pub fn delete_user(&mut self, id: i32) -> (found: bool)
        ensures
            old(self).wf() ==> final(self).wf(),
            found == user_exists(old(self)@.users, id),
            final(self)@ == without_user(old(self)@, id),
    {
        let found = self.user_position_by_id(id).is_some();
        let users = users_except(&self.users, id);
        let keys = keys_except_owner(&self.keys, id);
        let tokens = tokens_except_user(&self.tokens, id);
        self.users = users;
        self.keys = keys;
        self.tokens = tokens;
        proof {
            if old(self).wf() {
                let t = old(self)@;
                lemma_filter_keeps_apart(
                    t.users,
                    other_user(id),
                    |a: UserRow, b: UserRow|
                        a.id != b.id && a.email != b.email && a.username != b.username,
                );
                lemma_filter_keeps_apart(
                    t.keys,
                    key_of_other(id),
                    |a: KeyRow, b: KeyRow| a.id != b.id,
                );
                lemma_filter_keeps_apart(
                    t.tokens,
                    token_of_other(id),
                    |a: TokenRow, b: TokenRow| a.user_id != b.user_id,
                );
                assert forall|owner: i32| owner != id && has_user(t.users, owner) implies has_user(
                    self@.users,
                    owner,
                ) by {
                    let i = choose|i: int|
                        0 <= i < t.users.len() && (#[trigger] t.users[i]).id == owner;
                    t.users.lemma_filter_contains(other_user(id), i);
                    let kept = t.users.filter(other_user(id));
                    let j = choose|j: int| 0 <= j < kept.len() && kept[j] == t.users[i];
                    assert(kept[j].id == owner);
                }
                assert forall|i: int| 0 <= i < self@.keys.len() implies has_user(
                    self@.users,
                    (#[trigger] self@.keys[i]).user_id,
                ) by {
                    assert(t.keys.contains(self@.keys[i]));
                    assert(key_of_other(id)(self@.keys[i]));
                }
                assert forall|i: int| 0 <= i < self@.tokens.len() implies has_user(
                    self@.users,
                    (#[trigger] self@.tokens[i]).user_id,
                ) by {
                    assert(t.tokens.contains(self@.tokens[i]));
                    assert(token_of_other(id)(self@.tokens[i]));
                }
            }
        }
        found
    }

    /// Stores a secret of a stored user under the next free id.
    pub fn insert_key(&mut self, new: NewKey, now: i64) -> (outcome: Result<i32, StoreError>)
        ensures
            old(self).wf() ==> final(self).wf(),
            match outcome {
                Ok(id) => user_exists(old(self)@.users, new.user_id) && id == old(self)@.next_key_id
                    && id < i32::MAX && final(self)@ == with_key(
                    old(self)@,
                    stored_as(new@, id, now),
                ),
                Err(StoreError::NoOwner) => !user_exists(old(self)@.users, new.user_id) && final(self)@ == old(self)@,
                Err(e) => e == StoreError::Exhausted && user_exists(old(self)@.users, new.user_id)
                    && old(self)@.next_key_id == i32::MAX && final(self)@ == old(self)@,
            },
    {
        if self.user_position_by_id(new.user_id).is_none() {
            return Err(StoreError::NoOwner);
        }
        proof {
            lemma_has_user(self@.users, new.user_id);
        }
        if self.next_key_id == i32::MAX {
            return Err(StoreError::Exhausted);
        }
        let id = self.next_key_id;
        let key = Key {
            id,
            user_id: new.user_id,
            key_name: new.key_name,
            key_value: new.key_value,
            key_description: new.key_description,
            key_type_id: new.key_type_id,
            key_tag: new.key_tag,
            key_pair_value: new.key_pair_value,
            salt: new.salt,
            nonce: new.nonce,
            expiration_date: new.expiration_date,
            is_revoked: false,
            created_at: now,
        };
        self.keys.push(key);
        self.next_key_id = id + 1;
        proof {
            assert(self@.keys =~= old(self)@.keys.push(key@));
        }
        Ok(id)
    }

    /// Lists one owner's secrets that are in a state at `now`.
    pub fn list_keys(&self, owner: i32, state: Lifecycle, now: i64) -> (list: Vec<PartialKey>)
        ensures
            partial_views(list@) == listing(self@.keys, owner, state, now),
    {
        let mut list: Vec<PartialKey> = Vec::new();
        let mut i: usize = 0;
        let ghost keep = listed_for(owner, state, now);
        assert(key_rows(self.keys@.take(0)) =~= Seq::empty());
        assert(partial_views(list@) =~= partial_rows(Seq::<KeyRow>::empty().filter(keep))) by {
            reveal(Seq::filter);
        }
        while i < self.keys.len()
            invariant
                i <= self.keys@.len(),
                keep == listed_for(owner, state, now),
                partial_views(list@) == partial_rows(
                    key_rows(self.keys@.take(i as int)).filter(keep),
                ),
            decreases self.keys.len() - i,
        {
            proof {
                assert(key_rows(self.keys@.take(i + 1)) =~= key_rows(self.keys@.take(i as int)).push(
                    self.keys@[i as int]@,
                ));
                key_rows(self.keys@.take(i as int)).lemma_filter_push(self.keys@[i as int]@, keep);
            }
            if self.keys[i].user_id == owner && key_in_state(&self.keys[i], state, now) {
                let ghost before = partial_views(list@);
                list.push(self.keys[i].partial());
                assert(partial_views(list@) =~= before.push(
                    crate::models::key::partial_of(self.keys@[i as int]@),
                ));
                assert(partial_views(list@) =~= partial_rows(
                    key_rows(self.keys@.take(i + 1)).filter(keep),
                ));
            }
            i += 1;
        }
        assert(self.keys@.take(i as int) =~= self.keys@);
        list
    }

    /// Looks up a secret by id, for its owner only.
    pub fn find_key(&self, key_id: i32, owner: i32) -> (found: Option<Key>)
        ensures
            key_view(found) == owned_key(self@.keys, key_id, owner),
    {
        let mut i: usize = 0;
        while i < self.keys.len()
            invariant
                i <= self.keys@.len(),
                forall|j: int|
                    0 <= j < i ==> !((#[trigger] self@.keys[j]).id == key_id && self@.keys[j].user_id
                        == owner),
            decreases self.keys.len() - i,
        {
            if self.keys[i].id == key_id && self.keys[i].user_id == owner {
                proof {
                    let keys = self@.keys;
                    assert(keys[i as int].id == key_id && keys[i as int].user_id == owner);
                    let c = choose|c: int|
                        0 <= c < keys.len() && (#[trigger] keys[c]).id == key_id && keys[c].user_id
                            == owner && forall|j: int|
                            0 <= j < c ==> !((#[trigger] keys[j]).id == key_id && keys[j].user_id
                                == owner);
                    assert(c == i);
                }
                return Some(self.keys[i].duplicate());
            }
            i += 1;
        }
        None
    }

    /// Sets the expiration date of a secret, for its owner only. Answers
    /// whether the owner has such a secret.
    pub fn set_key_expiration(&mut self, key_id: i32, owner: i32, expiration: i64) -> (found: bool)
        ensures
            old(self).wf() ==> final(self).wf(),
            found == owns_key(old(self)@.keys, key_id, owner),
            final(self)@ == with_keys(
                old(self)@,
                keys_with_expiration(old(self)@.keys, key_id, owner, expiration),
            ),
    {
        let mut found = false;
        let mut i: usize = 0;
        while i < self.keys.len()
            invariant
                i <= self.keys@.len(),
                self.keys@.len() == old(self).keys@.len(),
                self.users == old(self).users,
                self.tokens == old(self).tokens,
                self.notifications == old(self).notifications,
                self.next_user_id == old(self).next_user_id,
                self.next_key_id == old(self).next_key_id,
                self.next_token_id == old(self).next_token_id,
                forall|j: int|
                    0 <= j < i ==> (#[trigger] self@.keys[j]) == keys_with_expiration(
                        old(self)@.keys,
                        key_id,
                        owner,
                        expiration,
                    )[j],
                forall|j: int|
                    i <= j < self.keys@.len() ==> (#[trigger] self@.keys[j]) == old(self)@.keys[j],
                found == exists|j: int|
                    0 <= j < i && (#[trigger] old(self)@.keys[j]).id == key_id && old(self)@.keys[j].user_id == owner,
            decreases self.keys.len() - i,
        {
            let ghost before = self@.keys;
            assert(before[i as int] == old(self)@.keys[i as int]);
            if self.keys[i].id == key_id && self.keys[i].user_id == owner {
                let mut changed = self.keys[i].duplicate();
                changed.expiration_date = Some(expiration);
                self.keys.set(i, changed);
                found = true;
                assert(self@.keys =~= before.update(i as int, changed@));
            }
            i += 1;
        }
        proof {
            assert(self@.keys =~= keys_with_expiration(old(self)@.keys, key_id, owner, expiration));
        }
        found
    }

    /// Marks a secret as revoked, for its owner only: the row stays, for
    /// the record. Answers whether the owner has such a secret.
    pub fn revoke_key(&mut self, key_id: i32, owner: i32) -> (found: bool)
        ensures
            old(self).wf() ==> final(self).wf(),
            found == owns_key(old(self)@.keys, key_id, owner),
            final(self)@ == with_keys(
                old(self)@,
                keys_with_revoked(old(self)@.keys, key_id, owner),
            ),
    {
        let mut found = false;
        let mut i: usize = 0;
        while i < self.keys.len()
            invariant
                i <= self.keys@.len(),
                self.keys@.len() == old(self).keys@.len(),
                self.users == old(self).users,
                self.tokens == old(self).tokens,
                self.notifications == old(self).notifications,
                self.next_user_id == old(self).next_user_id,
                self.next_key_id == old(self).next_key_id,
                self.next_token_id == old(self).next_token_id,
                forall|j: int|
                    0 <= j < i ==> (#[trigger] self@.keys[j]) == keys_with_revoked(
                        old(self)@.keys,
                        key_id,
                        owner,
                    )[j],
                forall|j: int|
                    i <= j < self.keys@.len() ==> (#[trigger] self@.keys[j]) == old(self)@.keys[j],
                found == exists|j: int|
                    0 <= j < i && (#[trigger] old(self)@.keys[j]).id == key_id && old(self)@.keys[j].user_id == owner,
            decreases self.keys.len() - i,
        {
            let ghost before = self@.keys;
            assert(before[i as int] == old(self)@.keys[i as int]);
            if self.keys[i].id == key_id && self.keys[i].user_id == owner {
                let mut changed = self.keys[i].duplicate();
                changed.is_revoked = true;
                self.keys.set(i, changed);
                found = true;
                assert(self@.keys =~= before.update(i as int, changed@));
            }
            i += 1;
        }
        proof {
            assert(self@.keys =~= keys_with_revoked(old(self)@.keys, key_id, owner));
        }
        found
    }

    /// Removes a secret for good, for its owner only. Answers whether the
    /// owner had such a secret.
    pub fn delete_key(&mut self, key_id: i32, owner: i32) -> (found: bool)
        ensures
            old(self).wf() ==> final(self).wf(),
            found == owns_key(old(self)@.keys, key_id, owner),
            final(self)@ == with_keys(old(self)@, old(self)@.keys.filter(other_key(key_id, owner))),
    {
        let found = self.find_key(key_id, owner).is_some();
        let keys = keys_except(&self.keys, key_id, owner);
        self.keys = keys;
        proof {
            if old(self).wf() {
                lemma_filter_keeps_apart(
                    old(self)@.keys,
                    other_key(key_id, owner),
                    |a: KeyRow, b: KeyRow| a.id != b.id,
                );
            }
        }
        found
    }

    /// Seals every secret of an owner anew, under a new password hash: each
    /// is opened under the old hash and sealed again with a fresh salt and
    /// nonce. Either all of the owner's secrets are sealed anew or, where
    /// one of them cannot be, none is.
    pub fn reseal_keys(&mut self, owner: i32, old_hash: &str, new_hash: &str) -> (outcome: Result<
        (),
        CryptoError,
    >)
        ensures
            old(self).wf() ==> final(self).wf(),
            !crate::db::tables::owns_any(old(self)@.keys, owner) ==> outcome is Ok,
            !all_open(old(self)@.keys, owner, old_hash.spec_bytes()) ==> outcome is Err,
            match outcome {
                Ok(()) => resealed(
                    old(self)@.keys,
                    final(self)@.keys,
                    owner,
                    old_hash.spec_bytes(),
                    new_hash.spec_bytes(),
                ) && final(self)@ == with_keys(old(self)@, final(self)@.keys),
                Err(e) => final(self)@ == old(self)@ && crate::db::tables::reseal_fails(
                    old(self)@.keys,
                    owner,
                    old_hash.spec_bytes(),
                    new_hash.spec_bytes(),
                    e,
                ),
            },
    {
        let mut rng = rand::thread_rng();
        let mut sealed_anew: Vec<Key> = Vec::new();
        let mut i: usize = 0;
        while i < self.keys.len()
            invariant
                i <= self.keys@.len(),
                self == old(self),
                sealed_anew@.len() == i,
                forall|j: int|
                    0 <= j < i ==> row_resealed(
                        #[trigger] self@.keys[j],
                        sealed_anew@[j]@,
                        owner,
                        old_hash.spec_bytes(),
                        new_hash.spec_bytes(),
                    ),
            decreases self.keys.len() - i,
        {
            let key = &self.keys[i];
            assert(key@ == self@.keys[i as int]);
            if key.user_id == owner {
                let salt = crate::services::random::random_bytes(
                    &mut rng,
                    crate::services::encryption::SALT_LEN,
                );
                let nonce = crate::services::random::random_bytes(
                    &mut rng,
                    crate::services::encryption::NONCE_LEN,
                );
                match reseal_key(key, old_hash, new_hash, salt, nonce) {
                    Ok(sealed) => {
                        sealed_anew.push(sealed);
                    },
                    Err(e) => {
                        return Err(e);
                    },
                }
            } else {
                sealed_anew.push(key.duplicate());
            }
            i += 1;
        }
        self.keys = sealed_anew;
        proof {
            assert forall|a: int, b: int| 0 <= a < b < self@.keys.len() implies (
            #[trigger] self@.keys[a]).id != (#[trigger] self@.keys[b]).id || !old(self).wf() by {
                assert(row_resealed(
                    old(self)@.keys[a],
                    self@.keys[a],
                    owner,
                    old_hash.spec_bytes(),
                    new_hash.spec_bytes(),
                ));
                assert(row_resealed(
                    old(self)@.keys[b],
                    self@.keys[b],
                    owner,
                    old_hash.spec_bytes(),
                    new_hash.spec_bytes(),
                ));
            }
            assert forall|a: int| 0 <= a < self@.keys.len() implies (#[trigger] self@.keys[a]).id
                == old(self)@.keys[a].id by {
                assert(row_resealed(
                    old(self)@.keys[a],
                    self@.keys[a],
                    owner,
                    old_hash.spec_bytes(),
                    new_hash.spec_bytes(),
                ));
            }
        }
        Ok(())
    }

    /// Gives a user a fresh reset token. Every token the user had before is
    /// removed in the same step, so that the new one is the only one.
    pub fn replace_reset_token(
        &mut self,
        user_id: i32,
        reset_token: String,
        expiration_date: i64,
        now: i64,
    ) -> (outcome: Result<i32, StoreError>)
        ensures
            old(self).wf() ==> final(self).wf(),
            match outcome {
                Ok(id) => user_exists(old(self)@.users, user_id) && id == old(self)@.next_token_id
                    && id < i32::MAX && final(self)@ == with_reset_token(
                    old(self)@,
                    user_id,
                    reset_token@,
                    expiration_date,
                    now,
                ),
                Err(StoreError::NoOwner) => !user_exists(old(self)@.users, user_id) && final(self)@ == old(self)@,
                Err(e) => e == StoreError::Exhausted && user_exists(old(self)@.users, user_id)
                    && old(self)@.next_token_id == i32::MAX && final(self)@ == old(self)@,
            },
    {
        if self.user_position_by_id(user_id).is_none() {
            return Err(StoreError::NoOwner);
        }
        proof {
            lemma_has_user(self@.users, user_id);
        }
        if self.next_token_id == i32::MAX {
            return Err(StoreError::Exhausted);
        }
        let id = self.next_token_id;
        let mut tokens = tokens_except_user(&self.tokens, user_id);
        let ghost kept = token_rows(tokens@);
        let token = PasswordResetToken {
            id,
            user_id,
            reset_token,
            expiration_date,
            created_at: now,
        };
        tokens.push(token);
        self.tokens = tokens;
        self.next_token_id = id + 1;
        proof {
            assert(self@.tokens =~= kept.push(token@));
            if old(self).wf() {
                lemma_filter_keeps_apart(
                    old(self)@.tokens,
                    token_of_other(user_id),
                    |a: TokenRow, b: TokenRow| a.user_id != b.user_id,
                );
                assert forall|i: int| 0 <= i < self@.tokens.len() implies has_user(
                    self@.users,
                    (#[trigger] self@.tokens[i]).user_id,
                ) by {
                    if i < kept.len() {
                        assert(old(self)@.tokens.contains(kept[i]));
                    }
                }
            }
        }
        Ok(id)
    }

    /// Looks a reset token up by its value.
    pub fn find_reset_token(&self, reset_token: &str) -> (found: Option<PasswordResetToken>)
        ensures
            token_view(found) == token_with_value(self@.tokens, reset_token@),
            found matches Some(token) ==> token.reset_token@ == reset_token@,
    {
        let mut i: usize = 0;
        while i < self.tokens.len()
            invariant
                i <= self.tokens@.len(),
                forall|j: int| 0 <= j < i ==> token_values(self@.tokens)[j] != reset_token@,
            decreases self.tokens.len() - i,
        {
            if same_text(self.tokens[i].reset_token.as_str(), reset_token) {
                proof {
                    lemma_first_index(token_values(self@.tokens), reset_token@, i as int);
                }
                return Some(self.tokens[i].duplicate());
            }
            i += 1;
        }
        proof {
            lemma_no_index(token_values(self@.tokens), reset_token@);
        }
        None
    }

    /// Removes every token with the value: a token is used once. Answers
    /// whether there was one.
    pub fn delete_reset_token(&mut self, reset_token: &str) -> (found: bool)
        ensures
            old(self).wf() ==> final(self).wf(),
            found == token_stored(old(self)@.tokens, reset_token@),
            final(self)@ == with_tokens(
                old(self)@,
                old(self)@.tokens.filter(other_token(reset_token@)),
            ),
    {
        let found = self.find_reset_token(reset_token).is_some();
        let tokens = tokens_except_value(&self.tokens, reset_token);
        self.tokens = tokens;
        proof {
            if old(self).wf() {
                lemma_filter_keeps_apart(
                    old(self)@.tokens,
                    other_token(reset_token@),
                    |a: TokenRow, b: TokenRow| a.user_id != b.user_id,
                );
            }
        }
        found
    }

    /// The secrets that are due for a notice at `now`, each with the
    /// address of its owner.
    pub fn keys_for_notice(&self, now: i64) -> (rows: Vec<KeyRelevanceService>)
        ensures
            relevance_views(rows@) == due_rows(self@, now),
            rows@.len() == due_rows(self@, now).len(),
            forall|j: int| 0 <= j < rows@.len() ==> (#[trigger] rows@[j])@ == due_rows(self@, now)[j],
    {
        let mut rows: Vec<KeyRelevanceService> = Vec::new();
        let mut i: usize = 0;
        let ghost keep = due_with_owner(self@.users, now);
        assert(key_rows(self.keys@.take(0)) =~= Seq::empty());
        assert(relevance_views(rows@) =~= relevance_rows(
            self@.users,
            Seq::<KeyRow>::empty().filter(keep),
        )) by {
            reveal(Seq::filter);
        }
        while i < self.keys.len()
            invariant
                i <= self.keys@.len(),
                keep == due_with_owner(self@.users, now),
                relevance_views(rows@) == relevance_rows(
                    self@.users,
                    key_rows(self.keys@.take(i as int)).filter(keep),
                ),
            decreases self.keys.len() - i,
        {
            proof {
                assert(key_rows(self.keys@.take(i + 1)) =~= key_rows(self.keys@.take(i as int)).push(
                    self.keys@[i as int]@,
                ));
                key_rows(self.keys@.take(i as int)).lemma_filter_push(self.keys@[i as int]@, keep);
            }
            let key = &self.keys[i];
            if key_is_due(key, now) {
                match self.find_user_by_id(key.user_id) {
                    Some(owner) => {
                        let ghost before = relevance_views(rows@);
                        let row = KeyRelevanceService {
                            user_id: owner.id,
                            email: owner.email,
                            key_name: key.key_name.clone(),
                            key_type: crate::constants::key_types::get_type_name(
                                key.key_type_id,
                            ).to_owned(),
                            key_description: match &key.key_description {
                                Some(d) => d.clone(),
                                None => String::new(),
                            },
                            created_at: key.created_at,
                            expiration_date: match key.expiration_date {
                                Some(e) => e,
                                None => 0,
                            },
                        };
                        assert(row@ == relevance_of(key@, owner@));
                        rows.push(row);
                        assert(relevance_views(rows@) =~= before.push(row@));
                        assert(relevance_views(rows@) =~= relevance_rows(
                            self@.users,
                            key_rows(self.keys@.take(i + 1)).filter(keep),
                        ));
                    },
                    None => {},
                }
            }
            i += 1;
        }
        assert(self.keys@.take(i as int) =~= self.keys@);
        rows
    }

    /// Records a notice in the audit trail.
    pub fn insert_notification(&mut self, user_id: i32, notification_type: String, message: String)
        ensures
            old(self).wf() ==> final(self).wf(),
            final(self)@ == with_notification(
                old(self)@,
                NotificationRow {
                    user_id,
                    notification_type: notification_type@,
                    message: message@,
                },
            ),
    {
        let notification = Notification { user_id, notification_type, message };
        self.notifications.push(notification);
        proof {
            assert(self@.notifications =~= old(self)@.notifications.push(notification@));
        }
    }

    /// Looks a user up by e-mail address.
    pub fn find_user_by_email(&self, email: &str) -> (found: Option<User>)
        ensures
            user_view(found) == user_with_email(self@.users, email@),
            found matches Some(user) ==> user.email@ == email@,
    {
        proof {
            user_emails(self@.users).index_of_first_ensures(email@);
        }
        match self.user_position_by_email(email) {
            Some(i) => Some(self.users[i].duplicate()),
            None => None,
        }
    }

    /// Looks a user up by id.
    pub fn find_user_by_id(&self, id: i32) -> (found: Option<User>)
        ensures
            user_view(found) == user_with_id(self@.users, id),
            found matches Some(user) ==> user.id == id,
    {
        proof {
            user_ids(self@.users).index_of_first_ensures(id);
        }
        match self.user_position_by_id(id) {
            Some(i) => Some(self.users[i].duplicate()),
            None => None,
        }
    }
}

/// Seals one secret anew with a salt and a nonce that the caller has
/// drawn: opens it under the old password hash and seals what it holds
/// under the new one. The secret that comes back differs in its sealed
/// triple only, and opens under the new hash to what the old one opened to
/// under the old hash.
pub fn reseal_key(key: &Key, old_hash: &str, new_hash: &str, salt: Vec<u8>, nonce: Vec<u8>) -> (sealed:
    Result<Key, CryptoError>)
    ensures
        match sealed {
            Ok(anew) => crate::db::tables::reseal_outcome(
                key@,
                old_hash.spec_bytes(),
                new_hash.spec_bytes(),
                salt@,
                nonce@,
            ) == Ok::<KeyRow, CryptoError>(anew@),
            Err(e) => crate::db::tables::reseal_outcome(
                key@,
                old_hash.spec_bytes(),
                new_hash.spec_bytes(),
                salt@,
                nonce@,
            ) == Err::<KeyRow, CryptoError>(e),
        },
        sealed matches Ok(anew) ==> crate::db::tables::opens_to(anew@, new_hash.spec_bytes())
            == crate::db::tables::opens_to(key@, old_hash.spec_bytes())
            && crate::db::tables::opens_to(key@, old_hash.spec_bytes()) is Ok,
{
    let plaintext = match decrypt(
        key.key_value.as_slice(),
        key.salt.as_slice(),
        key.nonce.as_slice(),
        old_hash,
    ) {
        Ok(plaintext) => plaintext,
        Err(e) => {
            return Err(e);
        },
    };
    let data = match crate::services::encryption::encrypt_with(
        plaintext.as_slice(),
        new_hash,
        salt,
        nonce,
    ) {
        Ok(data) => data,
        Err(e) => {
            return Err(e);
        },
    };
    let mut anew = key.duplicate();
    anew.key_value = data.ciphertext;
    anew.salt = data.salt;
    anew.nonce = data.nonce;
    Ok(anew)
}

impl Database {
    /// A copy of the store, to work on while the store itself stays as it
    /// is.
    pub fn duplicate(&self) -> (copy: Database)
        ensures
            copy@ == self@,
            copy.wf() == self.wf(),
    {
        Database {
            users: self.all_users(),
            keys: self.all_keys(),
            tokens: self.all_reset_tokens(),
            notifications: self.all_notifications(),
            next_user_id: self.next_user_id,
            next_key_id: self.next_key_id,
            next_token_id: self.next_token_id,
        }
    }
}

} // verus!

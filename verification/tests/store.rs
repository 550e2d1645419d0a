use key_manager::db::models::{Notification, User};
use key_manager::db::store::{reseal_key, Database, StoreError};
use key_manager::services::encryption::{decrypt, encrypt, CryptoError};
use key_manager::db::tables::Lifecycle;
use key_manager::models::key::{Key, NewKey};
use key_manager::models::reset_password::PasswordResetToken;

fn store_new_key(owner: i32, name: &str, expiration_date: Option<i64>) -> NewKey {
    NewKey {
        user_id: owner,
        key_name: name.to_string(),
        key_value: vec![1, 2, 3],
        key_description: Some("about".to_string()),
        key_type_id: 2,
        key_tag: None,
        key_pair_value: None,
        salt: vec![4; 16],
        nonce: vec![5; 12],
        expiration_date,
    }
}

fn store_with_two_users() -> Database {
    let mut db = Database::new();
    assert_eq!(
        db.insert_user("ann".to_string(), "ann@example.com".to_string(), "hash-a".to_string(), 10),
        Ok(1)
    );
    assert_eq!(
        db.insert_user("bob".to_string(), "bob@example.com".to_string(), "hash-b".to_string(), 11),
        Ok(2)
    );
    db
}

#[test]
fn a_new_store_is_empty() {
    let db = Database::new();
    assert!(db.all_users().is_empty());
    assert!(db.all_keys().is_empty());
    assert!(db.all_reset_tokens().is_empty());
    assert!(db.all_notifications().is_empty());
    assert_eq!(db.find_user_by_id(1), None);
}

#[test]
fn users_get_ids_in_order_and_are_found_again() {
    let db = store_with_two_users();
    let ann = db.find_user_by_email("ann@example.com").unwrap();
    assert_eq!(
        ann,
        User {
            id: 1,
            username: "ann".to_string(),
            email: "ann@example.com".to_string(),
            password_hash: "hash-a".to_string(),
            created_at: 10,
        }
    );
    assert_eq!(db.find_user_by_id(2).unwrap().username, "bob");
    assert_eq!(db.find_user_by_email("carl@example.com"), None);
    assert_eq!(db.find_user_by_id(3), None);
    assert_eq!(ann.public().email, "ann@example.com");
}

#[test]
fn a_taken_email_or_name_is_a_conflict() {
    let mut db = store_with_two_users();
    assert_eq!(
        db.insert_user("ann2".to_string(), "ann@example.com".to_string(), "h".to_string(), 12),
        Err(StoreError::Conflict)
    );
    assert_eq!(
        db.insert_user("ann".to_string(), "ann2@example.com".to_string(), "h".to_string(), 12),
        Err(StoreError::Conflict)
    );
    assert_eq!(db.all_users().len(), 2);
    assert!(db.email_in_use("ann@example.com", None));
    assert!(!db.email_in_use("ann@example.com", Some(1)));
    assert!(db.email_in_use("ann@example.com", Some(2)));
    assert!(db.username_in_use("bob", None));
    assert!(!db.username_in_use("bob", Some(2)));
    assert!(!db.username_in_use("carl", None));
}

#[test]
fn an_email_can_change_unless_another_user_has_it() {
    let mut db = store_with_two_users();
    assert_eq!(db.update_user_email(1, "bob@example.com".to_string()), Err(StoreError::Conflict));
    assert_eq!(db.update_user_email(1, "ann@example.com".to_string()), Ok(true));
    assert_eq!(db.update_user_email(1, "ann@example.org".to_string()), Ok(true));
    assert_eq!(db.update_user_email(9, "nobody@example.org".to_string()), Ok(false));
    assert_eq!(db.find_user_by_id(1).unwrap().email, "ann@example.org");
    assert_eq!(db.find_user_by_email("ann@example.com"), None);
    assert_eq!(db.find_user_by_id(2).unwrap().email, "bob@example.com");
}

#[test]
fn a_name_can_change_unless_another_user_has_it() {
    let mut db = store_with_two_users();
    assert_eq!(db.update_username(2, "ann".to_string()), Err(StoreError::Conflict));
    assert_eq!(db.update_username(2, "robert".to_string()), Ok(true));
    assert_eq!(db.update_username(7, "nobody".to_string()), Ok(false));
    assert_eq!(db.find_user_by_id(2).unwrap().username, "robert");
    assert!(db.update_password_hash(2, "hash-c".to_string()));
    assert!(!db.update_password_hash(7, "hash-c".to_string()));
    assert_eq!(db.find_user_by_id(2).unwrap().password_hash, "hash-c");
    assert_eq!(db.find_user_by_id(1).unwrap().password_hash, "hash-a");
}

#[test]
fn keys_are_listed_by_owner_and_state() {
    let mut db = store_with_two_users();
    assert_eq!(db.insert_key(store_new_key(1, "never", None), 100), Ok(1));
    assert_eq!(db.insert_key(store_new_key(1, "later", Some(2000)), 100), Ok(2));
    assert_eq!(db.insert_key(store_new_key(1, "past", Some(500)), 100), Ok(3));
    assert_eq!(db.insert_key(store_new_key(2, "bobs", None), 100), Ok(4));
    assert_eq!(db.insert_key(store_new_key(1, "gone", None), 100), Ok(5));
    assert!(db.revoke_key(5, 1));
    let active: Vec<String> =
        db.list_keys(1, Lifecycle::Active, 1000).into_iter().map(|k| k.key_name).collect();
    assert_eq!(active, vec!["never".to_string(), "later".to_string()]);
    let expired: Vec<i32> =
        db.list_keys(1, Lifecycle::Expired, 1000).into_iter().map(|k| k.id).collect();
    assert_eq!(expired, vec![3]);
    let revoked: Vec<i32> =
        db.list_keys(1, Lifecycle::Revoked, 1000).into_iter().map(|k| k.id).collect();
    assert_eq!(revoked, vec![5]);
    let bobs = db.list_keys(2, Lifecycle::Active, 1000);
    assert_eq!(bobs.len(), 1);
    assert_eq!(bobs[0].key_type, "Token");
    assert_eq!(bobs[0].key_description, Some("about".to_string()));
    assert!(db.list_keys(3, Lifecycle::Active, 1000).is_empty());
}

#[test]
fn a_key_at_the_second_of_its_expiry_is_in_neither_list() {
    let mut db = store_with_two_users();
    assert_eq!(db.insert_key(store_new_key(1, "edge", Some(1000)), 100), Ok(1));
    assert!(db.list_keys(1, Lifecycle::Active, 1000).is_empty());
    assert!(db.list_keys(1, Lifecycle::Expired, 1000).is_empty());
    assert_eq!(db.list_keys(1, Lifecycle::Active, 999).len(), 1);
    assert_eq!(db.list_keys(1, Lifecycle::Expired, 1001).len(), 1);
}

#[test]
fn only_the_owner_changes_or_removes_a_key() {
    let mut db = store_with_two_users();
    assert_eq!(db.insert_key(store_new_key(1, "anns", None), 100), Ok(1));
    assert!(!db.set_key_expiration(1, 2, 5000));
    assert!(!db.revoke_key(1, 2));
    assert!(!db.delete_key(1, 2));
    assert_eq!(db.find_key(1, 2), None);
    let key: Key = db.find_key(1, 1).unwrap();
    assert_eq!(key.expiration_date, None);
    assert!(!key.is_revoked);
    assert_eq!(key.created_at, 100);
    assert!(db.set_key_expiration(1, 1, 5000));
    assert_eq!(db.find_key(1, 1).unwrap().expiration_date, Some(5000));
    assert!(db.delete_key(1, 1));
    assert!(!db.delete_key(1, 1));
    assert!(db.all_keys().is_empty());
}

#[test]
fn closing_an_account_takes_its_keys_and_tokens_along() {
    let mut db = store_with_two_users();
    db.insert_key(store_new_key(1, "anns", None), 100).unwrap();
    db.insert_key(store_new_key(2, "bobs", None), 100).unwrap();
    db.replace_reset_token(1, "token-a".to_string(), 200, 100).unwrap();
    db.replace_reset_token(2, "token-b".to_string(), 200, 100).unwrap();
    assert!(db.delete_user(1));
    assert!(!db.delete_user(1));
    assert_eq!(db.all_users().len(), 1);
    assert_eq!(db.all_keys().len(), 1);
    assert_eq!(db.all_keys()[0].key_name, "bobs");
    assert_eq!(db.all_reset_tokens().len(), 1);
    assert_eq!(db.all_reset_tokens()[0].reset_token, "token-b");
}

#[test]
fn a_user_has_one_reset_token_at_most() {
    let mut db = store_with_two_users();
    assert_eq!(db.replace_reset_token(1, "first".to_string(), 200, 100), Ok(1));
    assert_eq!(db.replace_reset_token(2, "other".to_string(), 200, 100), Ok(2));
    assert_eq!(db.replace_reset_token(1, "second".to_string(), 300, 150), Ok(3));
    assert_eq!(db.find_reset_token("first"), None);
    assert_eq!(
        db.find_reset_token("second"),
        Some(PasswordResetToken {
            id: 3,
            user_id: 1,
            reset_token: "second".to_string(),
            expiration_date: 300,
            created_at: 150,
        })
    );
    assert_eq!(db.all_reset_tokens().len(), 2);
    assert!(db.delete_reset_token("second"));
    assert!(!db.delete_reset_token("second"));
    assert_eq!(db.find_reset_token("second"), None);
    assert_eq!(db.find_reset_token("other").unwrap().user_id, 2);
}

#[test]
fn notices_are_recorded_in_order() {
    let mut db = Database::new();
    db.insert_notification(1, "key_expiration".to_string(), "first".to_string());
    db.insert_notification(2, "key_expiration".to_string(), "second".to_string());
    assert_eq!(
        db.all_notifications(),
        vec![
            Notification {
                user_id: 1,
                notification_type: "key_expiration".to_string(),
                message: "first".to_string()
            },
            Notification {
                user_id: 2,
                notification_type: "key_expiration".to_string(),
                message: "second".to_string()
            },
        ]
    );
}

#[test]
fn keys_are_due_from_seven_days_back_onwards() {
    let mut db = store_with_two_users();
    let now = 10_000_000;
    let week = 7 * 24 * 60 * 60;
    db.insert_key(store_new_key(1, "too old", Some(now - week - 1)), 100).unwrap();
    db.insert_key(store_new_key(1, "just in", Some(now - week)), 100).unwrap();
    db.insert_key(store_new_key(2, "ahead", Some(now + 5)), 100).unwrap();
    db.insert_key(store_new_key(1, "no date", None), 100).unwrap();
    db.insert_key(store_new_key(1, "revoked", Some(now)), 100).unwrap();
    assert_eq!(
        db.insert_key(store_new_key(9, "orphan", Some(now)), 100),
        Err(StoreError::NoOwner)
    );
    assert!(db.revoke_key(5, 1));
    let due = db.keys_for_notice(now);
    assert_eq!(due.len(), 2);
    assert_eq!(due[0].key_name, "just in");
    assert_eq!(due[0].email, "ann@example.com");
    assert_eq!(due[0].user_id, 1);
    assert_eq!(due[0].key_type, "Token");
    assert_eq!(due[0].key_description, "about");
    assert_eq!(due[0].expiration_date, now - week);
    assert_eq!(due[1].key_name, "ahead");
    assert_eq!(due[1].email, "bob@example.com");
}

#[test]
fn rows_are_loaded_with_the_next_ids_following_theirs() {
    let users = vec![
        User {
            id: 4,
            username: "ann".to_string(),
            email: "ann@example.com".to_string(),
            password_hash: "h".to_string(),
            created_at: 1,
        },
        User {
            id: 2,
            username: "bob".to_string(),
            email: "bob@example.com".to_string(),
            password_hash: "h".to_string(),
            created_at: 1,
        },
    ];
    let mut db = Database::from_rows(users, Vec::new(), Vec::new(), Vec::new()).unwrap();
    assert_eq!(db.find_user_by_id(2).unwrap().username, "bob");
    assert_eq!(
        db.insert_user("carl".to_string(), "carl@example.com".to_string(), "h".to_string(), 2),
        Ok(5)
    );
    assert_eq!(db.insert_key(store_new_key(4, "k", None), 3), Ok(1));
}

#[test]
fn rows_that_break_uniqueness_are_not_loaded() {
    let ann = User {
        id: 1,
        username: "ann".to_string(),
        email: "ann@example.com".to_string(),
        password_hash: "h".to_string(),
        created_at: 1,
    };
    let mut same_id = ann.clone();
    same_id.username = "other".to_string();
    same_id.email = "other@example.com".to_string();
    assert!(Database::from_rows(vec![ann.clone(), same_id], vec![], vec![], vec![]).is_none());
    let mut same_email = ann.clone();
    same_email.id = 2;
    same_email.username = "other".to_string();
    assert!(Database::from_rows(vec![ann.clone(), same_email], vec![], vec![], vec![]).is_none());
    let mut last_id = ann.clone();
    last_id.id = i32::MAX;
    assert!(Database::from_rows(vec![last_id], vec![], vec![], vec![]).is_none());
    let token = PasswordResetToken {
        id: 1,
        user_id: 1,
        reset_token: "a".to_string(),
        expiration_date: 5,
        created_at: 1,
    };
    let mut second = token.clone();
    second.id = 2;
    second.reset_token = "b".to_string();
    assert!(Database::from_rows(vec![ann], vec![], vec![token, second], vec![]).is_none());
}

#[test]
fn a_row_without_a_stored_owner_is_refused() {
    let mut db = store_with_two_users();
    assert_eq!(db.insert_key(store_new_key(3, "k", None), 100), Err(StoreError::NoOwner));
    assert_eq!(
        db.replace_reset_token(3, "token".to_string(), 200, 100),
        Err(StoreError::NoOwner)
    );
    assert!(db.all_keys().is_empty());
    assert!(db.all_reset_tokens().is_empty());
    let orphan = Key {
        id: 1,
        user_id: 3,
        key_name: "k".to_string(),
        key_value: vec![1],
        key_description: None,
        key_type_id: 2,
        key_tag: None,
        key_pair_value: None,
        salt: vec![2; 16],
        nonce: vec![3; 12],
        expiration_date: None,
        is_revoked: false,
        created_at: 5,
    };
    assert!(Database::from_rows(db.all_users(), vec![orphan.clone()], vec![], vec![]).is_none());
    let mut owned = orphan;
    owned.user_id = 2;
    let loaded = Database::from_rows(db.all_users(), vec![owned.clone()], vec![], vec![]).unwrap();
    assert_eq!(loaded.find_key(1, 2), Some(owned));
}

#[test]
fn a_store_that_has_given_out_its_last_id_takes_no_more() {
    let last = User {
        id: i32::MAX - 1,
        username: "ann".to_string(),
        email: "ann@example.com".to_string(),
        password_hash: "h".to_string(),
        created_at: 1,
    };
    let mut db = Database::from_rows(vec![last], vec![], vec![], vec![]).unwrap();
    assert_eq!(
        db.insert_user("bob".to_string(), "bob@example.com".to_string(), "h".to_string(), 2),
        Err(StoreError::Exhausted)
    );
    assert_eq!(
        db.insert_user("ann".to_string(), "bob@example.com".to_string(), "h".to_string(), 2),
        Err(StoreError::Conflict)
    );
    assert_eq!(db.all_users().len(), 1);
    assert_eq!(db.insert_key(store_new_key(i32::MAX - 1, "k", None), 3), Ok(1));
}

#[test]
fn a_key_is_shown_without_its_sealed_material() {
    let mut db = store_with_two_users();
    db.insert_key(store_new_key(1, "anns", Some(77)), 100).unwrap();
    let key = db.find_key(1, 1).unwrap();
    assert_eq!(key.duplicate(), key);
    let shown = key.partial();
    assert_eq!(shown.id, 1);
    assert_eq!(shown.key_name, "anns");
    assert_eq!(shown.key_description, Some("about".to_string()));
    assert_eq!(shown.key_type_id, 2);
    assert_eq!(shown.key_type, "Token");
    assert_eq!(shown.key_tag, None);
    assert_eq!(shown.expiration_date, Some(77));
}

fn store_sealed_key(owner: i32, name: &str, plaintext: &[u8], hash: &str) -> NewKey {
    let sealed = encrypt(plaintext, hash).unwrap();
    let mut new = store_new_key(owner, name, None);
    new.key_value = sealed.ciphertext;
    new.salt = sealed.salt;
    new.nonce = sealed.nonce;
    new
}

#[test]
fn one_key_is_sealed_anew_with_the_salt_and_nonce_given() {
    let mut db = store_with_two_users();
    db.insert_key(store_sealed_key(1, "anns", b"plain text", "hash-a"), 100).unwrap();
    let key = db.find_key(1, 1).unwrap();
    let anew = reseal_key(&key, "hash-a", "hash-new", vec![8; 16], vec![9; 12]).unwrap();
    assert_eq!(anew.salt, vec![8; 16]);
    assert_eq!(anew.nonce, vec![9; 12]);
    assert_ne!(anew.key_value, key.key_value);
    assert_eq!(anew.key_value.len(), 10 + 16);
    assert_eq!(
        decrypt(&anew.key_value, &anew.salt, &anew.nonce, "hash-new"),
        Ok(b"plain text".to_vec())
    );
    let mut same_but_sealed = anew.clone();
    same_but_sealed.key_value = key.key_value.clone();
    same_but_sealed.salt = key.salt.clone();
    same_but_sealed.nonce = key.nonce.clone();
    assert_eq!(same_but_sealed, key);
}

#[test]
fn one_key_is_not_sealed_anew_where_a_step_fails() {
    let mut db = store_with_two_users();
    db.insert_key(store_sealed_key(1, "anns", b"plain text", "hash-a"), 100).unwrap();
    let key = db.find_key(1, 1).unwrap();
    assert_eq!(
        reseal_key(&key, "not-the-hash", "hash-new", vec![8; 16], vec![9; 12]),
        Err(CryptoError::Decryption)
    );
    assert_eq!(
        reseal_key(&key, "hash-a", "hash-new", vec![8; 16], vec![9; 5]),
        Err(CryptoError::Encryption)
    );
    assert_eq!(
        reseal_key(&key, "hash-a", "hash-new", vec![8; 2], vec![9; 12]),
        Err(CryptoError::KeyDerivation)
    );
}

#[test]
fn the_keys_of_an_owner_are_sealed_anew_and_no_others() {
    let mut db = store_with_two_users();
    db.insert_key(store_sealed_key(1, "anns", b"ann's secret", "hash-a"), 100).unwrap();
    db.insert_key(store_sealed_key(2, "bobs", b"bob's secret", "hash-b"), 100).unwrap();
    let anns = db.find_key(1, 1).unwrap();
    let bobs = db.find_key(2, 2).unwrap();
    assert_eq!(db.reseal_keys(1, "hash-a", "hash-new"), Ok(()));
    let anew = db.find_key(1, 1).unwrap();
    assert_ne!(anew.key_value, anns.key_value);
    assert_ne!(anew.salt, anns.salt);
    assert_eq!(anew.key_name, "anns");
    assert_eq!(
        decrypt(&anew.key_value, &anew.salt, &anew.nonce, "hash-new"),
        Ok(b"ann's secret".to_vec())
    );
    assert_eq!(db.find_key(2, 2).unwrap(), bobs);
}

#[test]
fn an_owner_without_keys_is_sealed_anew_at_once() {
    let mut db = store_with_two_users();
    db.insert_key(store_new_key(2, "bobs", None), 100).unwrap();
    let before = db.all_keys();
    assert_eq!(db.reseal_keys(1, "hash-a", "hash-new"), Ok(()));
    assert_eq!(db.reseal_keys(7, "any", "other"), Ok(()));
    assert_eq!(db.all_keys(), before);
}

#[test]
fn no_key_is_sealed_anew_where_one_of_them_does_not_open() {
    let mut db = store_with_two_users();
    db.insert_key(store_sealed_key(1, "opens", b"ann's secret", "hash-a"), 100).unwrap();
    db.insert_key(store_new_key(1, "does not open", None), 100).unwrap();
    let before = db.all_keys();
    assert_eq!(db.reseal_keys(1, "hash-a", "hash-new"), Err(CryptoError::Decryption));
    assert_eq!(db.all_keys(), before);
}

#[test]
fn a_copy_of_the_store_holds_the_same_rows_and_gives_the_same_ids() {
    let mut db = store_with_two_users();
    db.insert_key(store_new_key(1, "anns", None), 100).unwrap();
    db.replace_reset_token(2, "token".to_string(), 200, 100).unwrap();
    db.insert_notification(1, "key_expiration".to_string(), "note".to_string());
    let mut copy = db.duplicate();
    assert_eq!(copy.all_users(), db.all_users());
    assert_eq!(copy.all_keys(), db.all_keys());
    assert_eq!(copy.all_reset_tokens(), db.all_reset_tokens());
    assert_eq!(copy.all_notifications(), db.all_notifications());
    assert_eq!(copy.insert_key(store_new_key(2, "bobs", None), 101), Ok(2));
    assert_eq!(db.all_keys().len(), 1);
    assert_eq!(db.insert_key(store_new_key(2, "bobs", None), 101), Ok(2));
}

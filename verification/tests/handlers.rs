use key_manager::constants::key_types::{API_KEY, PASSWORD, SSH_KEY, TOKEN};
use key_manager::db::store::Database;
use key_manager::http::Status;
use key_manager::middleware::LoggedUser;
use key_manager::models::key::{KeyRequest, PartialKeyRequest};
use key_manager::models::reset_password::{ResetData, ResetPasswordRequest};
use key_manager::models::user::{
    DeleteUserRequest, LoginRequest, RegisterRequest, UpdateUserRequest,
};
use key_manager::models::utils::GeneratePasswordRequest;
use key_manager::routes::{auth, keys, users, utils};
use key_manager::services::email_sender_service::{init_email_service, EmailService};
use key_manager::services::encryption::decrypt;
use key_manager::services::hashing;
use key_manager::services::key_service::{build_notice, check_keys_relevance, KeyRelevanceService};
use key_manager::services::password_reset_service::{
    init_email_reset_password_service, ResetMailService,
};
use key_manager::utils::jwt_token::{validate_jwt_token, TOKEN_TTL};

const SECRET: &[u8] = b"server-held secret";
const NOW: i64 = 1_700_000_000;

fn handlers_key_pair() -> (String, String) {
    let keypair = ssh_key::private::Ed25519Keypair::from_seed(&[7u8; 32]);
    let key = ssh_key::PrivateKey::from(keypair);
    let private_key = key.to_openssh(ssh_key::LineEnding::LF).unwrap().to_string();
    let public_key = key.public_key().to_openssh().unwrap();
    (private_key, public_key)
}

fn handlers_private_header() -> String {
    format!("-----BEGIN {} PRIVATE KEY-----", "OPENSSH")
}

fn sign_up(db: &mut Database, name: &str) -> LoggedUser {
    let request = RegisterRequest {
        username: name.to_string(),
        email: format!("{}@example.com", name),
        password: format!("{}-Passw0rd", name),
    };
    let response = auth::register(db, &request, SECRET, NOW).unwrap();
    LoggedUser(response.user.id)
}

fn key_request(name: &str, type_id: i32, value: &str) -> KeyRequest {
    KeyRequest {
        key_name: name.to_string(),
        key_value: value.to_string(),
        key_description: Some("for tests".to_string()),
        key_type_id: type_id,
        key_tag: Some("tag".to_string()),
        expiration_date: None,
    }
}

fn open_key(db: &Database, key_id: i32, owner: LoggedUser) -> String {
    let key = db.find_key(key_id, owner.0).unwrap();
    let user = db.find_user_by_id(owner.0).unwrap();
    let plaintext = decrypt(&key.key_value, &key.salt, &key.nonce, &user.password_hash).unwrap();
    String::from_utf8(plaintext).unwrap()
}

#[test]
fn registering_stores_the_user_and_signs_in() {
    let mut db = Database::new();
    let request = RegisterRequest {
        username: "ann".to_string(),
        email: "ann@example.com".to_string(),
        password: "ann-Passw0rd".to_string(),
    };
    let response = auth::register(&mut db, &request, SECRET, NOW).unwrap();
    assert_eq!(response.user.id, 1);
    assert_eq!(response.user.username, "ann");
    assert_eq!(response.user.email, "ann@example.com");
    assert_eq!(validate_jwt_token(&response.token, SECRET, NOW), Ok(1));
    assert!(validate_jwt_token(&response.token, SECRET, NOW + TOKEN_TTL).is_err());
    let stored = db.find_user_by_id(1).unwrap();
    assert_ne!(stored.password_hash, "ann-Passw0rd");
    assert_eq!(hashing::verify("ann-Passw0rd", &stored.password_hash), Ok(true));
    assert_eq!(stored.created_at, NOW);
}

#[test]
fn registering_refuses_bad_input_and_duplicates() {
    let mut db = Database::new();
    sign_up(&mut db, "ann");
    let mut request = RegisterRequest {
        username: "bob".to_string(),
        email: "not an address".to_string(),
        password: "bob-Passw0rd".to_string(),
    };
    assert_eq!(auth::register(&mut db, &request, SECRET, NOW), Err(Status::BadRequest));
    request.email = "bob@example.com".to_string();
    request.password = "short".to_string();
    assert_eq!(auth::register(&mut db, &request, SECRET, NOW), Err(Status::BadRequest));
    request.password = "bob-Passw0rd".to_string();
    request.username = "b".to_string();
    assert_eq!(auth::register(&mut db, &request, SECRET, NOW), Err(Status::BadRequest));
    request.username = "ann".to_string();
    assert_eq!(auth::register(&mut db, &request, SECRET, NOW), Err(Status::Conflict));
    request.username = "bob".to_string();
    request.email = "ann@example.com".to_string();
    assert_eq!(auth::register(&mut db, &request, SECRET, NOW), Err(Status::Conflict));
    assert_eq!(db.all_users().len(), 1);
}

#[test]
fn signing_in_fails_alike_for_unknown_address_and_wrong_password() {
    let mut db = Database::new();
    sign_up(&mut db, "ann");
    let known = LoginRequest {
        email: "ann@example.com".to_string(),
        password: "ann-Passw0rd".to_string(),
    };
    let response = auth::login(&db, &known, SECRET, NOW + 5).unwrap();
    assert_eq!(response.user.id, 1);
    assert_eq!(validate_jwt_token(&response.token, SECRET, NOW + 5 + TOKEN_TTL - 1), Ok(1));
    let wrong = LoginRequest {
        email: "ann@example.com".to_string(),
        password: "ann-passw0rd".to_string(),
    };
    assert_eq!(auth::login(&db, &wrong, SECRET, NOW), Err(Status::Unauthorized));
    let unknown = LoginRequest {
        email: "bob@example.com".to_string(),
        password: "ann-Passw0rd".to_string(),
    };
    assert_eq!(auth::login(&db, &unknown, SECRET, NOW), Err(Status::Unauthorized));
}

#[test]
fn the_current_user_gets_a_fresh_token() {
    let mut db = Database::new();
    let ann = sign_up(&mut db, "ann");
    let response = auth::current_user(&db, ann, SECRET, NOW + 100).unwrap();
    assert_eq!(response.user.username, "ann");
    assert_eq!(validate_jwt_token(&response.token, SECRET, NOW + 100 + TOKEN_TTL - 1), Ok(1));
    assert_eq!(auth::current_user(&db, LoggedUser(9), SECRET, NOW), Err(Status::Unauthorized));
}

#[test]
fn a_token_secret_is_created_and_listed_without_its_value() {
    let mut db = Database::new();
    let ann = sign_up(&mut db, "ann");
    let request = KeyRequest {
        key_name: "svc".to_string(),
        key_value: String::new(),
        key_description: None,
        key_type_id: TOKEN,
        key_tag: None,
        expiration_date: None,
    };
    assert_eq!(keys::create_key(&mut db, &request, ann, NOW), Ok(()));
    let listed = keys::get_keys(&db, ann, NOW).unwrap();
    assert_eq!(listed.len(), 1);
    assert_eq!(listed[0].key_name, "svc");
    assert_eq!(listed[0].key_type_id, TOKEN);
    assert_eq!(listed[0].key_type, "Token");
    assert_eq!(listed[0].expiration_date, None);
    let generated = open_key(&db, listed[0].id, ann);
    assert_eq!(generated.len(), 44);
    assert!(generated
        .chars()
        .all(|c| c.is_ascii_alphanumeric() || c == '+' || c == '/' || c == '='));
    let stored = db.find_key(listed[0].id, ann.0).unwrap();
    assert_ne!(stored.key_value, generated.as_bytes());
    assert_eq!(stored.salt.len(), 16);
    assert_eq!(stored.nonce.len(), 12);
    assert_eq!(stored.key_pair_value, None);
}

#[test]
fn an_api_key_is_generated_as_hex_and_a_supplied_value_is_kept() {
    let mut db = Database::new();
    let ann = sign_up(&mut db, "ann");
    assert_eq!(keys::create_key(&mut db, &key_request("api", API_KEY, ""), ann, NOW), Ok(()));
    let generated = open_key(&db, 1, ann);
    assert_eq!(generated.len(), 64);
    assert!(generated.chars().all(|c| c.is_ascii_digit() || ('a'..='f').contains(&c)));
    assert_eq!(
        keys::create_key(&mut db, &key_request("mine", API_KEY, "my-own-key"), ann, NOW),
        Ok(())
    );
    assert_eq!(open_key(&db, 2, ann), "my-own-key");
    let stored = db.find_key(2, ann.0).unwrap();
    assert_eq!(stored.key_description, Some("for tests".to_string()));
    assert_eq!(stored.key_tag, Some("tag".to_string()));
    assert_eq!(stored.key_type_id, API_KEY);
}

#[test]
fn a_password_secret_must_be_supplied_and_strong() {
    let mut db = Database::new();
    let ann = sign_up(&mut db, "ann");
    assert_eq!(
        keys::create_key(&mut db, &key_request("mail", PASSWORD, ""), ann, NOW),
        Err(Status::BadRequest)
    );
    assert_eq!(
        keys::create_key(&mut db, &key_request("mail", PASSWORD, "weakpass"), ann, NOW),
        Err(Status::UnprocessableEntity)
    );
    assert!(db.all_keys().is_empty());
    assert_eq!(
        keys::create_key(&mut db, &key_request("mail", PASSWORD, "Str0ngPass"), ann, NOW),
        Ok(())
    );
    assert_eq!(open_key(&db, 1, ann), "Str0ngPass");
}

#[test]
fn a_key_pair_is_generated_with_its_public_half_in_the_clear() {
    let mut db = Database::new();
    let ann = sign_up(&mut db, "ann");
    assert_eq!(keys::create_key(&mut db, &key_request("box", SSH_KEY, ""), ann, NOW), Ok(()));
    let stored = db.find_key(1, ann.0).unwrap();
    let public_key = stored.key_pair_value.unwrap();
    assert!(public_key.starts_with("ssh-ed25519 "));
    let private_key = open_key(&db, 1, ann);
    assert!(private_key.starts_with(&handlers_private_header()));
    assert_eq!(stored.expiration_date, None);
}

#[test]
fn creating_a_key_refuses_unknown_types_callers_and_dates() {
    let mut db = Database::new();
    let ann = sign_up(&mut db, "ann");
    assert_eq!(
        keys::create_key(&mut db, &key_request("x", 9, "value"), ann, NOW),
        Err(Status::UnprocessableEntity)
    );
    assert_eq!(
        keys::create_key(&mut db, &key_request("x", TOKEN, ""), LoggedUser(7), NOW),
        Err(Status::Unauthorized)
    );
    let mut dated = key_request("x", TOKEN, "");
    dated.expiration_date = Some("2023-11-14".to_string());
    assert_eq!(keys::create_key(&mut db, &dated, ann, NOW), Err(Status::UnprocessableEntity));
    assert!(db.all_keys().is_empty());
    dated.expiration_date = Some("23/11/14 22:12:20".to_string());
    assert_eq!(keys::create_key(&mut db, &dated, ann, NOW), Ok(()));
    assert_eq!(db.find_key(1, ann.0).unwrap().expiration_date, Some(1_699_999_940));
}

#[test]
fn an_expired_secret_gets_one_notice_and_one_record() {
    let mut db = Database::new();
    let ann = sign_up(&mut db, "ann");
    sign_up(&mut db, "bob");
    let mut request = key_request("svc", TOKEN, "");
    request.expiration_date = Some("23/11/14 22:12:20".to_string());
    assert_eq!(keys::create_key(&mut db, &request, ann, NOW - 3600), Ok(()));
    let mut mail = EmailService::new();
    init_email_service(&mut mail);
    let report = check_keys_relevance(&mut db, &mut mail, "vault@example.com", NOW);
    assert_eq!(report.due, 1);
    assert_eq!(report.queued, 1);
    assert_eq!(report.recorded, 1);
    assert_eq!(mail.pending_len(), 1);
    let job = mail.next_email().unwrap();
    assert_eq!(job.sender, "vault@example.com");
    assert_eq!(job.recipient, "ann@example.com");
    assert_eq!(job.subject, "Key Expiration Notification\u{26a0}\u{fe0f}");
    assert_eq!(
        job.body,
        "Your key 'svc'.\nType 'Token' \nDescription: 'for tests' \nCreated on 2023-11-14 \
         21:13:20 has expired on 2023-11-14 22:12:20. \n\nPlease take action to renew or \
         replace it."
    );
    let records = db.all_notifications();
    assert_eq!(records.len(), 1);
    assert_eq!(records[0].user_id, ann.0);
    assert_eq!(records[0].notification_type, "key_expiration");
    assert_eq!(records[0].message, "Key 'svc' expired");
    assert_eq!(keys::get_expired_keys(&db, ann, NOW).unwrap().len(), 1);
    assert_eq!(keys::expired(&db, ann, NOW).unwrap().len(), 1);
    assert!(keys::get_keys(&db, ann, NOW).unwrap().is_empty());
}

#[test]
fn a_scan_records_a_notice_that_the_queue_cannot_take() {
    let mut db = Database::new();
    let ann = sign_up(&mut db, "ann");
    let mut request = key_request("soon", API_KEY, "value");
    request.expiration_date = Some("23/11/14 22:14:20".to_string());
    assert_eq!(keys::create_key(&mut db, &request, ann, NOW), Ok(()));
    let mut mail = EmailService::new();
    let report = check_keys_relevance(&mut db, &mut mail, "vault@example.com", NOW);
    assert_eq!(report.due, 1);
    assert_eq!(report.queued, 0);
    assert_eq!(report.recorded, 1);
    assert_eq!(db.all_notifications()[0].message, "Key 'soon' is about to expire");
    assert_eq!(keys::expired(&db, ann, NOW), Err(Status::NotFound));
}

#[test]
fn a_scan_skips_keys_without_a_date_and_keys_long_expired() {
    let mut db = Database::new();
    let ann = sign_up(&mut db, "ann");
    assert_eq!(keys::create_key(&mut db, &key_request("plain", TOKEN, ""), ann, NOW), Ok(()));
    let mut old = key_request("old", TOKEN, "");
    old.expiration_date = Some("23/11/01 00:00:00".to_string());
    assert_eq!(keys::create_key(&mut db, &old, ann, NOW), Ok(()));
    let mut mail = EmailService::new();
    init_email_service(&mut mail);
    let report = check_keys_relevance(&mut db, &mut mail, "vault@example.com", NOW);
    assert_eq!(report.due, 0);
    assert_eq!(mail.pending_len(), 0);
    assert!(db.all_notifications().is_empty());
}

#[test]
fn a_notice_that_cannot_show_its_dates_is_not_built() {
    let row = KeyRelevanceService {
        user_id: 1,
        email: "ann@example.com".to_string(),
        key_name: "svc".to_string(),
        key_type: "Token".to_string(),
        key_description: String::new(),
        created_at: 0,
        expiration_date: i64::MAX,
    };
    assert_eq!(build_notice(&row, "vault@example.com", 0), None);
}

#[test]
fn an_import_that_is_not_openssh_is_refused_and_nothing_is_written() {
    let (private_key, public_key) = handlers_key_pair();
    let mut db = Database::new();
    let ann = sign_up(&mut db, "ann");
    let request = key_request("box", SSH_KEY, &public_key);
    assert_eq!(
        keys::import_ssh_key(&mut db, &request, "not a private key", ann, NOW),
        Err(Status::UnprocessableEntity)
    );
    assert_eq!(Status::UnprocessableEntity.code(), 422);
    let bad_public = key_request("box", SSH_KEY, "not a public key");
    assert_eq!(
        keys::import_ssh_key(&mut db, &bad_public, &private_key, ann, NOW),
        Err(Status::UnprocessableEntity)
    );
    assert!(db.all_keys().is_empty());
    assert_eq!(
        keys::import_ssh_key(&mut db, &request, &private_key, LoggedUser(9), NOW),
        Err(Status::Unauthorized)
    );
    assert!(db.all_keys().is_empty());
}

#[test]
fn an_imported_key_pair_is_sealed_beside_its_public_key() {
    let (private_key, public_key) = handlers_key_pair();
    let mut db = Database::new();
    let ann = sign_up(&mut db, "ann");
    let request = key_request("box", SSH_KEY, &public_key);
    assert_eq!(keys::import_ssh_key(&mut db, &request, &private_key, ann, NOW), Ok(()));
    let stored = db.find_key(1, ann.0).unwrap();
    assert_eq!(stored.key_pair_value, Some(public_key));
    assert_eq!(stored.key_type_id, SSH_KEY);
    assert_ne!(stored.key_value, private_key.as_bytes());
    assert_eq!(open_key(&db, 1, ann), private_key);
}

#[test]
fn one_user_never_reaches_the_secret_of_another() {
    let mut db = Database::new();
    let ann = sign_up(&mut db, "ann");
    let bob = sign_up(&mut db, "bob");
    assert_eq!(keys::create_key(&mut db, &key_request("anns", API_KEY, "v"), ann, NOW), Ok(()));
    let before = db.all_keys();
    assert!(keys::get_keys(&db, bob, NOW).unwrap().is_empty());
    assert!(keys::get_revoked_keys(&db, bob, NOW).unwrap().is_empty());
    assert!(keys::get_expired_keys(&db, bob, NOW).unwrap().is_empty());
    let change = PartialKeyRequest {
        key_value: None,
        key_name: None,
        key_type: None,
        key_description: None,
        expiration_date: Some(NOW + 10),
    };
    assert_eq!(keys::set_expiration(&mut db, 1, &change, bob), Err(Status::NotFound));
    assert_eq!(keys::delete(&mut db, 1, bob), Err(Status::NotFound));
    assert_eq!(db.find_key(1, bob.0), None);
    assert_eq!(db.all_keys(), before);
    assert_eq!(
        keys::set_expiration(&mut db, 1, &change, ann).unwrap().message,
        "Key expiration date updated successfully"
    );
    assert_eq!(keys::get_keys(&db, ann, NOW).unwrap()[0].expiration_date, Some(NOW + 10));
    assert_eq!(keys::delete(&mut db, 1, ann).unwrap().message, "Key deleted successfully");
    assert_eq!(keys::delete(&mut db, 1, ann), Err(Status::NotFound));
}

#[test]
fn setting_an_expiration_needs_a_date() {
    let mut db = Database::new();
    let ann = sign_up(&mut db, "ann");
    assert_eq!(keys::create_key(&mut db, &key_request("k", API_KEY, "v"), ann, NOW), Ok(()));
    let empty = PartialKeyRequest {
        key_value: None,
        key_name: None,
        key_type: None,
        key_description: None,
        expiration_date: None,
    };
    assert_eq!(keys::set_expiration(&mut db, 1, &empty, ann), Err(Status::UnprocessableEntity));
}

#[test]
fn a_reset_token_is_mailed_and_works_once() {
    let mut db = Database::new();
    sign_up(&mut db, "ann");
    let mut mail = ResetMailService::new();
    init_email_reset_password_service(&mut mail);
    let request = ResetPasswordRequest { email: "ann@example.com".to_string() };
    let message =
        auth::request_to_reset_password(&mut db, &mut mail, &request, "vault@example.com", NOW)
            .unwrap();
    assert_eq!(message.content, "Password reset email sent.");
    let tokens = db.all_reset_tokens();
    assert_eq!(tokens.len(), 1);
    assert_eq!(tokens[0].user_id, 1);
    assert_eq!(tokens[0].expiration_date, NOW + 3600);
    assert_eq!(tokens[0].created_at, NOW);
    assert_eq!(tokens[0].reset_token.len(), 36);
    let job = mail.next_email().unwrap();
    assert_eq!(job.sender, "vault@example.com");
    assert_eq!(job.recipient, "ann@example.com");
    assert_eq!(job.reset_password, tokens[0].reset_token);
    let reset = ResetData {
        reset_token: tokens[0].reset_token.clone(),
        new_password: "a-New-Passw0rd".to_string(),
    };
    assert_eq!(
        auth::reset_password(&mut db, &reset, NOW + 3600).unwrap().message,
        "Password reset successfully"
    );
    assert_eq!(auth::reset_password(&mut db, &reset, NOW + 3600), Err(Status::NotFound));
    assert!(db.all_reset_tokens().is_empty());
    let stored = db.find_user_by_id(1).unwrap();
    assert_eq!(hashing::verify("a-New-Passw0rd", &stored.password_hash), Ok(true));
    assert_eq!(hashing::verify("ann-Passw0rd", &stored.password_hash), Ok(false));
}

#[test]
fn a_second_reset_request_leaves_only_the_newest_token() {
    let mut db = Database::new();
    sign_up(&mut db, "ann");
    let mut mail = ResetMailService::new();
    init_email_reset_password_service(&mut mail);
    let request = ResetPasswordRequest { email: "ann@example.com".to_string() };
    auth::request_to_reset_password(&mut db, &mut mail, &request, "vault@example.com", NOW)
        .unwrap();
    let first = db.all_reset_tokens()[0].reset_token.clone();
    auth::request_to_reset_password(&mut db, &mut mail, &request, "vault@example.com", NOW + 1)
        .unwrap();
    let tokens = db.all_reset_tokens();
    assert_eq!(tokens.len(), 1);
    let second = tokens[0].reset_token.clone();
    assert_ne!(first, second);
    assert_eq!(mail.pending_len(), 2);
    let with_first =
        ResetData { reset_token: first, new_password: "a-New-Passw0rd".to_string() };
    assert_eq!(auth::reset_password(&mut db, &with_first, NOW + 2), Err(Status::NotFound));
    let with_second =
        ResetData { reset_token: second, new_password: "a-New-Passw0rd".to_string() };
    assert!(auth::reset_password(&mut db, &with_second, NOW + 2).is_ok());
}

#[test]
fn a_reset_is_refused_for_unknown_addresses_and_expired_tokens() {
    let mut db = Database::new();
    sign_up(&mut db, "ann");
    let mut mail = ResetMailService::new();
    let unknown = ResetPasswordRequest { email: "bob@example.com".to_string() };
    assert_eq!(
        auth::request_to_reset_password(&mut db, &mut mail, &unknown, "vault@example.com", NOW),
        Err(Status::NotFound)
    );
    assert!(db.all_reset_tokens().is_empty());
    let request = ResetPasswordRequest { email: "ann@example.com".to_string() };
    assert!(auth::request_to_reset_password(
        &mut db,
        &mut mail,
        &request,
        "vault@example.com",
        NOW
    )
    .is_ok());
    assert_eq!(mail.pending_len(), 0);
    let reset = ResetData {
        reset_token: db.all_reset_tokens()[0].reset_token.clone(),
        new_password: "a-New-Passw0rd".to_string(),
    };
    assert_eq!(auth::reset_password(&mut db, &reset, NOW + 3601), Err(Status::BadRequest));
    assert_eq!(db.all_reset_tokens().len(), 1);
    let stored = db.find_user_by_id(1).unwrap();
    assert_eq!(hashing::verify("ann-Passw0rd", &stored.password_hash), Ok(true));
}

#[test]
fn changing_the_password_keeps_the_secrets_readable() {
    let mut db = Database::new();
    let ann = sign_up(&mut db, "ann");
    let bob = sign_up(&mut db, "bob");
    assert_eq!(keys::create_key(&mut db, &key_request("a", API_KEY, "anns"), ann, NOW), Ok(()));
    assert_eq!(keys::create_key(&mut db, &key_request("b", API_KEY, "bobs"), bob, NOW), Ok(()));
    let anns_before = db.find_key(1, ann.0).unwrap();
    let bobs_before = db.find_key(2, bob.0).unwrap();
    let old_hash = db.find_user_by_id(ann.0).unwrap().password_hash;
    let change = UpdateUserRequest {
        username: None,
        email: None,
        old_password: Some("ann-Passw0rd".to_string()),
        new_password: Some("ann-Passw0rd-2".to_string()),
    };
    assert_eq!(
        users::change_password(&mut db, &change, ann).unwrap().message,
        "Password updated successfully"
    );
    let anns_after = db.find_key(1, ann.0).unwrap();
    assert_ne!(anns_after.key_value, anns_before.key_value);
    assert_ne!(anns_after.salt, anns_before.salt);
    assert_eq!(anns_after.key_name, anns_before.key_name);
    assert_eq!(open_key(&db, 1, ann), "anns");
    assert!(decrypt(&anns_after.key_value, &anns_after.salt, &anns_after.nonce, &old_hash)
        .is_err());
    assert_eq!(db.find_key(2, bob.0).unwrap(), bobs_before);
    let stored = db.find_user_by_id(ann.0).unwrap();
    assert_eq!(hashing::verify("ann-Passw0rd-2", &stored.password_hash), Ok(true));
}

#[test]
fn changing_the_password_needs_both_passwords_and_the_right_old_one() {
    let mut db = Database::new();
    let ann = sign_up(&mut db, "ann");
    let mut change = UpdateUserRequest {
        username: None,
        email: None,
        old_password: None,
        new_password: Some("ann-Passw0rd-2".to_string()),
    };
    assert_eq!(users::change_password(&mut db, &change, ann), Err(Status::BadRequest));
    change.old_password = Some("not-the-old-one".to_string());
    assert_eq!(users::change_password(&mut db, &change, ann), Err(Status::Unauthorized));
    change.new_password = Some("short".to_string());
    assert_eq!(users::change_password(&mut db, &change, ann), Err(Status::BadRequest));
    change.new_password = None;
    assert_eq!(users::change_password(&mut db, &change, ann), Err(Status::BadRequest));
    change.new_password = Some("ann-Passw0rd-2".to_string());
    change.old_password = Some("ann-Passw0rd".to_string());
    assert_eq!(
        users::change_password(&mut db, &change, LoggedUser(9)),
        Err(Status::InternalServerError)
    );
}

#[test]
fn a_reset_keeps_the_secrets_readable() {
    let mut db = Database::new();
    let ann = sign_up(&mut db, "ann");
    assert_eq!(keys::create_key(&mut db, &key_request("a", API_KEY, "anns"), ann, NOW), Ok(()));
    let mut mail = ResetMailService::new();
    let request = ResetPasswordRequest { email: "ann@example.com".to_string() };
    auth::request_to_reset_password(&mut db, &mut mail, &request, "vault@example.com", NOW)
        .unwrap();
    let reset = ResetData {
        reset_token: db.all_reset_tokens()[0].reset_token.clone(),
        new_password: "a-New-Passw0rd".to_string(),
    };
    assert!(auth::reset_password(&mut db, &reset, NOW + 1).is_ok());
    assert_eq!(open_key(&db, 1, ann), "anns");
}

#[test]
fn an_email_address_changes_unless_it_is_malformed_or_taken() {
    let mut db = Database::new();
    let ann = sign_up(&mut db, "ann");
    sign_up(&mut db, "bob");
    let mut change = UpdateUserRequest {
        username: None,
        email: None,
        old_password: None,
        new_password: None,
    };
    assert_eq!(users::change_email(&mut db, &change, ann), Err(Status::BadRequest));
    change.email = Some("not an address".to_string());
    assert_eq!(users::change_email(&mut db, &change, ann), Err(Status::BadRequest));
    change.email = Some("bob@example.com".to_string());
    assert_eq!(users::change_email(&mut db, &change, ann), Err(Status::Conflict));
    change.email = Some("ann@example.org".to_string());
    assert_eq!(users::change_email(&mut db, &change, LoggedUser(9)), Err(Status::NotFound));
    assert_eq!(
        users::change_email(&mut db, &change, ann).unwrap().message,
        "Email updated successfully"
    );
    assert_eq!(db.find_user_by_id(1).unwrap().email, "ann@example.org");
}

#[test]
fn a_user_name_changes_unless_it_is_out_of_bounds_or_taken() {
    let mut db = Database::new();
    let ann = sign_up(&mut db, "ann");
    sign_up(&mut db, "bob");
    let mut change = UpdateUserRequest {
        username: None,
        email: None,
        old_password: None,
        new_password: None,
    };
    assert_eq!(users::change_username(&mut db, &change, ann), Err(Status::BadRequest));
    change.username = Some("a".to_string());
    assert_eq!(users::change_username(&mut db, &change, ann), Err(Status::BadRequest));
    change.username = Some("bob".to_string());
    assert_eq!(users::change_username(&mut db, &change, ann), Err(Status::Conflict));
    change.username = Some("anna".to_string());
    assert_eq!(users::change_username(&mut db, &change, LoggedUser(9)), Err(Status::NotFound));
    assert_eq!(
        users::change_username(&mut db, &change, ann).unwrap().message,
        "Username updated successfully"
    );
    assert_eq!(db.find_user_by_id(1).unwrap().username, "anna");
}

#[test]
fn closing_an_account_needs_the_password_and_removes_everything_owned() {
    let mut db = Database::new();
    let ann = sign_up(&mut db, "ann");
    let bob = sign_up(&mut db, "bob");
    assert_eq!(keys::create_key(&mut db, &key_request("a", API_KEY, "anns"), ann, NOW), Ok(()));
    assert_eq!(keys::create_key(&mut db, &key_request("b", API_KEY, "bobs"), bob, NOW), Ok(()));
    let short = DeleteUserRequest { password: "short".to_string() };
    assert_eq!(users::delete_user_account(&mut db, &short, ann), Err(Status::BadRequest));
    let wrong = DeleteUserRequest { password: "not-the-password".to_string() };
    assert_eq!(users::delete_user_account(&mut db, &wrong, ann), Err(Status::Unauthorized));
    let right = DeleteUserRequest { password: "ann-Passw0rd".to_string() };
    assert_eq!(
        users::delete_user_account(&mut db, &right, LoggedUser(9)),
        Err(Status::InternalServerError)
    );
    assert_eq!(
        users::delete_user_account(&mut db, &right, ann).unwrap().message,
        "User account deleted successfully"
    );
    assert_eq!(db.find_user_by_id(ann.0), None);
    assert_eq!(db.all_keys().len(), 1);
    assert_eq!(db.all_keys()[0].user_id, bob.0);
    assert_eq!(users::check_user_exists(&db, ann.0), Err(Status::Unauthorized));
    assert_eq!(users::check_user_exists(&db, bob.0), Ok(()));
}

#[test]
fn a_password_is_generated_for_a_known_caller_within_the_length_bounds() {
    let mut db = Database::new();
    let ann = sign_up(&mut db, "ann");
    let mut request = GeneratePasswordRequest {
        length: 8,
        include_special_symbols: false,
        include_numbers: true,
        include_uppercase: false,
        include_lowercase: false,
    };
    let response = utils::password(&db, &request, ann).unwrap();
    assert_eq!(response.password.len(), 8);
    assert!(response.password.chars().all(|c| c.is_ascii_digit()));
    request.length = 256;
    assert_eq!(utils::password(&db, &request, ann).unwrap().password.len(), 256);
    request.length = 7;
    assert_eq!(utils::password(&db, &request, ann), Err(Status::BadRequest));
    request.length = 257;
    assert_eq!(utils::password(&db, &request, ann), Err(Status::BadRequest));
    request.length = 16;
    assert_eq!(utils::password(&db, &request, LoggedUser(9)), Err(Status::Unauthorized));
}

#[test]
fn registering_fails_plainly_when_no_id_is_left() {
    let last = key_manager::db::models::User {
        id: i32::MAX - 1,
        username: "ann".to_string(),
        email: "ann@example.com".to_string(),
        password_hash: "h".to_string(),
        created_at: 1,
    };
    let mut db = Database::from_rows(vec![last], vec![], vec![], vec![]).unwrap();
    let request = RegisterRequest {
        username: "bob".to_string(),
        email: "bob@example.com".to_string(),
        password: "bob-Passw0rd".to_string(),
    };
    assert_eq!(
        auth::register(&mut db, &request, SECRET, NOW),
        Err(Status::InternalServerError)
    );
    assert_eq!(Status::InternalServerError.code(), 500);
    assert_eq!(db.all_users().len(), 1);
}

#[test]
fn a_right_password_always_gets_the_token_of_its_claims() {
    let mut db = Database::new();
    sign_up(&mut db, "ann");
    let request = LoginRequest {
        email: "ann@example.com".to_string(),
        password: "ann-Passw0rd".to_string(),
    };
    let response = auth::login(&db, &request, SECRET, NOW + 7).unwrap();
    assert_eq!(
        Ok(response.token),
        key_manager::utils::jwt_token::generate_jwt_token(1, NOW + 7, SECRET)
    );
    assert_eq!(auth::login(&db, &request, SECRET, -1), Err(Status::InternalServerError));
    assert_eq!(
        auth::current_user(&db, LoggedUser(1), SECRET, i64::MAX),
        Err(Status::InternalServerError)
    );
}

#[test]
fn a_reset_mail_is_queued_exactly_where_the_queue_takes_it() {
    let mut db = Database::new();
    sign_up(&mut db, "ann");
    let request = ResetPasswordRequest { email: "ann@example.com".to_string() };
    let mut mail = ResetMailService::new();
    init_email_reset_password_service(&mut mail);
    for round in 0..20 {
        assert!(auth::request_to_reset_password(
            &mut db,
            &mut mail,
            &request,
            "vault@example.com",
            NOW + round
        )
        .is_ok());
        assert_eq!(mail.pending_len(), round as usize + 1);
    }
    assert!(auth::request_to_reset_password(
        &mut db,
        &mut mail,
        &request,
        "vault@example.com",
        NOW + 20
    )
    .is_ok());
    assert_eq!(mail.pending_len(), 20);
    let tokens = db.all_reset_tokens();
    assert_eq!(tokens.len(), 1);
    assert_eq!(tokens[0].created_at, NOW + 20);
    assert_eq!(
        auth::request_to_reset_password(
            &mut db,
            &mut mail,
            &request,
            "vault@example.com",
            i64::MAX
        ),
        Err(Status::InternalServerError)
    );
    assert_eq!(db.all_reset_tokens(), tokens);
}

#[test]
fn a_stored_ciphertext_is_the_material_and_a_tag() {
    let mut db = Database::new();
    let ann = sign_up(&mut db, "ann");
    assert_eq!(
        keys::create_key(&mut db, &key_request("mine", API_KEY, "my-own-key"), ann, NOW),
        Ok(())
    );
    assert_eq!(keys::create_key(&mut db, &key_request("svc", TOKEN, ""), ann, NOW), Ok(()));
    assert_eq!(keys::create_key(&mut db, &key_request("box", SSH_KEY, ""), ann, NOW), Ok(()));
    assert_eq!(db.find_key(1, ann.0).unwrap().key_value.len(), 10 + 16);
    assert_eq!(db.find_key(2, ann.0).unwrap().key_value.len(), 44 + 16);
    let pair = db.find_key(3, ann.0).unwrap();
    let private_key = open_key(&db, 3, ann);
    assert_eq!(pair.key_value.len(), private_key.len() + 16);
    assert_ne!(pair.key_value, private_key.as_bytes());
    assert_eq!(
        key_manager::utils::validation::public_key_of(&private_key),
        pair.key_pair_value
    );
}

use key_manager::constants::key_types::{
    get_type_class, get_type_name, KeyType, API_KEY, PASSWORD, SSH_KEY, TOKEN,
};
use key_manager::helpers::error_codes::get_error_message_from_code;
use key_manager::helpers::forms::{
    check_login, check_signup, is_import_valid, is_login_incomplete, is_save_valid,
    is_signup_incomplete, login_failed, signup_failed, string_or_none, FormError,
};
use key_manager::http::Status;
use key_manager::routes::{auth, health, keys, users, utils, Method, Route};

#[test]
fn each_key_type_has_its_badge_class() {
    assert_eq!(get_type_class(PASSWORD), "bg-success");
    assert_eq!(get_type_class(TOKEN), "bg-danger");
    assert_eq!(get_type_class(API_KEY), "bg-warning");
    assert_eq!(get_type_class(SSH_KEY), "bg-info");
    assert_eq!(get_type_class(0), "bg-secondary");
    assert_eq!(get_type_class(5), "bg-secondary");
    assert_eq!(get_type_class(-1), "bg-secondary");
}

#[test]
fn each_key_type_has_its_name_and_id() {
    assert_eq!(get_type_name(PASSWORD), "Password");
    assert_eq!(get_type_name(TOKEN), "Token");
    assert_eq!(get_type_name(API_KEY), "API Key");
    assert_eq!(get_type_name(SSH_KEY), "SSH Key");
    assert_eq!(get_type_name(77), "Unknown");
    assert_eq!(KeyType::from_id(1), Some(KeyType::Password));
    assert_eq!(KeyType::from_id(2), Some(KeyType::Token));
    assert_eq!(KeyType::from_id(3), Some(KeyType::ApiKey));
    assert_eq!(KeyType::from_id(4), Some(KeyType::SshKeyPair));
    assert_eq!(KeyType::from_id(0), None);
    assert_eq!(KeyType::from_id(5), None);
    assert_eq!(KeyType::SshKeyPair.id(), 4);
    assert_eq!(KeyType::from_id(KeyType::ApiKey.id()), Some(KeyType::ApiKey));
}

#[test]
fn each_status_has_its_code() {
    assert_eq!(Status::BadRequest.code(), 400);
    assert_eq!(Status::Unauthorized.code(), 401);
    assert_eq!(Status::Forbidden.code(), 403);
    assert_eq!(Status::NotFound.code(), 404);
    assert_eq!(Status::Conflict.code(), 409);
    assert_eq!(Status::UnprocessableEntity.code(), 422);
    assert_eq!(Status::InternalServerError.code(), 500);
}

#[test]
fn a_success_has_no_error_message() {
    assert_eq!(get_error_message_from_code(200), None);
    assert_eq!(get_error_message_from_code(204), None);
    assert_eq!(get_error_message_from_code(299), None);
}

#[test]
fn each_failure_has_its_message() {
    assert_eq!(
        get_error_message_from_code(401),
        Some("Your session is invalid. Please log in again.".to_string())
    );
    assert_eq!(
        get_error_message_from_code(403),
        Some("You don't have permission to access this resource.".to_string())
    );
    assert_eq!(
        get_error_message_from_code(404),
        Some("The requested resource was not found.".to_string())
    );
    assert_eq!(
        get_error_message_from_code(400),
        Some("Invalid request data provided.".to_string())
    );
    assert_eq!(
        get_error_message_from_code(500),
        Some("An internal server error occurred. Please try again later.".to_string())
    );
    assert_eq!(
        get_error_message_from_code(409),
        Some("A user with the same email or username already exists.".to_string())
    );
    assert_eq!(
        get_error_message_from_code(422),
        Some("The password is too short or not enough complex.".to_string())
    );
    let unexpected = Some("An unexpected error occurred. Please try again later.".to_string());
    assert_eq!(get_error_message_from_code(300), unexpected);
    assert_eq!(get_error_message_from_code(199), unexpected);
    assert_eq!(get_error_message_from_code(418), unexpected);
    assert_eq!(get_error_message_from_code(503), unexpected);
}

#[test]
fn an_empty_form_field_holds_nothing() {
    assert_eq!(string_or_none(String::new()), None);
    assert_eq!(string_or_none("x".to_string()), Some("x".to_string()));
    assert_eq!(string_or_none(" ".to_string()), Some(" ".to_string()));
}

#[test]
fn a_password_form_needs_a_name_and_a_value() {
    let value = Some("s3cret".to_string());
    assert!(is_save_valid(PASSWORD, "mail", &value));
    assert!(!is_save_valid(PASSWORD, "mail", &None));
    assert!(!is_save_valid(PASSWORD, "", &value));
    assert!(is_save_valid(TOKEN, "svc", &None));
    assert!(is_save_valid(SSH_KEY, "box", &None));
    assert!(!is_save_valid(API_KEY, "", &None));
}

#[test]
fn an_import_form_needs_name_public_key_and_file() {
    let key = Some("ssh-ed25519 AAAA".to_string());
    assert!(is_import_valid("box", &key, true));
    assert!(!is_import_valid("box", &key, false));
    assert!(!is_import_valid("box", &None, true));
    assert!(!is_import_valid("", &key, true));
}

#[test]
fn the_status_probe_answers_ok_without_authentication() {
    assert_eq!(health::status().status, "ok");
    assert_eq!(
        health::routes(),
        vec![Route { method: Method::Get, path: "/", handler: "status", guarded: false }]
    );
}

#[test]
fn the_auth_routes_are_open_but_for_the_current_user() {
    let table = auth::routes();
    assert_eq!(table.len(), 5);
    assert_eq!(
        table[0],
        Route { method: Method::Post, path: "/login", handler: "login", guarded: false }
    );
    assert_eq!(
        table[1],
        Route { method: Method::Post, path: "/register", handler: "register", guarded: false }
    );
    assert_eq!(
        table[2],
        Route {
            method: Method::Get,
            path: "/currentUser",
            handler: "current_user",
            guarded: true
        }
    );
    assert_eq!(
        table[3],
        Route {
            method: Method::Post,
            path: "/password/reset-request",
            handler: "request_to_reset_password",
            guarded: false
        }
    );
    assert_eq!(
        table[4],
        Route {
            method: Method::Post,
            path: "/password/reset",
            handler: "reset_password",
            guarded: false
        }
    );
}

#[test]
fn every_key_user_and_utility_route_is_guarded() {
    let key_routes = keys::routes();
    assert_eq!(key_routes.len(), 7);
    assert!(key_routes.iter().all(|r| r.guarded));
    assert_eq!(key_routes[0].handler, "get_keys");
    assert_eq!(key_routes[3].method, Method::Post);
    assert_eq!(key_routes[4].method, Method::Delete);
    assert_eq!(key_routes[5].path, "/<key_id>");
    assert_eq!(key_routes[6].path, "/import");
    let user_routes = users::routes();
    assert_eq!(user_routes.len(), 4);
    assert!(user_routes.iter().all(|r| r.guarded));
    assert_eq!(user_routes[0].path, "/email");
    assert_eq!(user_routes[3].method, Method::Delete);
    let utility_routes = utils::routes();
    assert_eq!(
        utility_routes,
        vec![Route {
            method: Method::Post,
            path: "/password/generate",
            handler: "password",
            guarded: true
        }]
    );
}

#[test]
fn a_sign_in_form_needs_both_fields_and_a_well_formed_address() {
    assert!(is_login_incomplete("", "pw"));
    assert!(is_login_incomplete("a@b.cd", ""));
    assert!(!is_login_incomplete("a@b.cd", "pw"));
    let request = check_login("ann@example.com", "pw").unwrap();
    assert_eq!(request.email, "ann@example.com");
    assert_eq!(request.password, "pw");
    assert_eq!(check_login("ann@example", "pw"), Err(FormError::InvalidEmail));
    assert_eq!(FormError::InvalidEmail.message(), "Invalid email format.");
    assert_eq!(login_failed("401"), "Login failed: 401");
}

#[test]
fn a_sign_up_form_checks_the_address_before_the_passwords() {
    assert!(is_signup_incomplete("a@b.cd", "", "pw", "pw"));
    assert!(is_signup_incomplete("", "ann", "pw", "pw"));
    assert!(is_signup_incomplete("a@b.cd", "ann", "", "pw"));
    assert!(is_signup_incomplete("a@b.cd", "ann", "pw", ""));
    assert!(!is_signup_incomplete("a@b.cd", "ann", "pw", "pw"));
    let request = check_signup("ann", "ann@example.com", "pw1", "pw1").unwrap();
    assert_eq!(request.username, "ann");
    assert_eq!(request.email, "ann@example.com");
    assert_eq!(request.password, "pw1");
    assert_eq!(
        check_signup("ann", "ann@example.com", "pw1", "pw2"),
        Err(FormError::PasswordMismatch)
    );
    assert_eq!(check_signup("ann", "nowhere", "pw1", "pw2"), Err(FormError::InvalidEmail));
    assert_eq!(FormError::PasswordMismatch.message(), "Passwords do not match.");
    assert_eq!(signup_failed("conflict"), "Signup failed: conflict");
}

#[test]
fn a_route_is_looked_up_by_method_path_and_handler() {
    let table = keys::routes();
    assert!(key_manager::routes::describes(&table, Method::Get, "/", "get_keys"));
    assert!(key_manager::routes::describes(&table, Method::Delete, "/<key_id>", "delete"));
    assert!(key_manager::routes::describes(&table, Method::Post, "/import", "import_ssh_key"));
    assert!(!key_manager::routes::describes(&table, Method::Post, "/", "get_keys"));
    assert!(!key_manager::routes::describes(&table, Method::Get, "/all", "get_keys"));
    assert!(!key_manager::routes::describes(&table, Method::Get, "/", "list"));
    assert!(!key_manager::routes::describes(&Vec::new(), Method::Get, "/", "get_keys"));
}

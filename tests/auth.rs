use auth_core::db::InMemDatabase;
use auth_core::error::ApiError;
use auth_core::jwt::{
    create_jwt, create_jwt_at, extract_header_value, handle_jwt_token, handle_jwt_token_at,
};
use auth_core::schemas::{LoginBody, NewUser, UserDbSchema};
use auth_core::session::{
    authorize, authorize_in, black_list_user_jwt, lapsed_tokens, login, login_in, logout,
    logout_in, prune_black_list, prune_black_list_in, signup, signup_in,
};
use auth_core::state::{AppState, Config};

const SECRET: &str = "test-hmac-secret";
const DAY: u64 = 86_400;

fn config() -> Config {
    Config {
        hmac_secret: SECRET.to_string(),
        log_level: "info".to_string(),
        token_ttl_secs: DAY,
        revoked_tokens: Vec::new(),
    }
}

fn new_user(email: &str, password: &str) -> NewUser {
    NewUser {
        email: email.to_string(),
        password: password.to_string(),
        first_name: "Ada".to_string(),
        last_name: "Lovelace".to_string(),
    }
}

fn login_body(email: &str, password: &str) -> LoginBody {
    LoginBody { email: email.to_string(), password: password.to_string() }
}

fn hashed_user(email: &str, password: &str, id: u128) -> UserDbSchema {
    let mut user = UserDbSchema::with_id(new_user(email, password), id);
    user.encrypt_password().expect("hashing succeeds")
}

#[test]
fn signup_twice_with_same_email_conflicts() {
    let state = AppState::build(config());
    assert_eq!(signup(new_user("a@x.com", "hunter2"), &state), Ok(()));
    assert_eq!(signup(new_user("a@x.com", "other"), &state), Err(ApiError::AlreadyExist));
    assert_eq!(signup(new_user("A@x.com", "hunter2"), &state), Ok(()));
}

#[test]
fn login_after_signup_returns_token_and_wrong_password_is_generic() {
    let state = AppState::build(config());
    signup(new_user("a@x.com", "hunter2"), &state).unwrap();
    let logged = login(login_body("a@x.com", "hunter2"), &state).unwrap();
    assert_eq!(logged.token().split('.').count(), 3);
    let wrong = login(login_body("a@x.com", "wrong"), &state).unwrap_err();
    assert_eq!(wrong, ApiError::InvalidCredentials);
    let unknown = login(login_body("b@x.com", "hunter2"), &state).unwrap_err();
    assert_eq!(unknown, ApiError::NonExistence);
    assert_eq!(wrong.outward_message(), "Invalid credentials");
    assert_eq!(unknown.outward_message(), wrong.outward_message());
    assert_eq!(wrong.status(), unknown.status());
}

#[test]
fn authorize_with_login_token_then_logout_revokes() {
    let state = AppState::build(config());
    signup(new_user("a@x.com", "hunter2"), &state).unwrap();
    let logged = login(login_body("a@x.com", "hunter2"), &state).unwrap();
    let header = format!("Bearer {}", logged.token());
    let claims = authorize(&header, &state).unwrap();
    let h = state.db.acquire_read();
    let user = h.borrow().get_user_by_email("a@x.com").unwrap();
    h.release_read();
    assert_eq!(claims.sub, user.id_text());
    assert_eq!(claims.name, "Ada");
    assert_eq!(logout(&header, &state), Ok(()));
    assert_eq!(authorize(&header, &state).unwrap_err(), ApiError::TokenBlacklisted);
    assert_eq!(logout(&header, &state), Ok(()));
}

#[test]
fn logout_with_malformed_header_fails() {
    let state = AppState::build(config());
    assert_eq!(logout("Token abc", &state), Err(ApiError::InvalidJWTFormat));
    assert_eq!(black_list_user_jwt("anything", &state), Ok(()));
    assert_eq!(authorize("Bearer anything", &state).unwrap_err(), ApiError::TokenBlacklisted);
}

#[test]
fn preconfigured_revoked_tokens_are_refused() {
    let mut cfg = config();
    cfg.revoked_tokens = vec!["abc.def.ghi".to_string()];
    let state = AppState::build(cfg);
    assert_eq!(authorize("Bearer abc.def.ghi", &state).unwrap_err(), ApiError::TokenBlacklisted);
}

#[test]
fn extract_bearer_accepts_exact_form() {
    assert_eq!(extract_header_value("Bearer abc.def.ghi"), Ok("abc.def.ghi"));
}

#[test]
fn extract_bearer_rejects_other_shapes() {
    assert_eq!(extract_header_value("abc.def.ghi"), Err(ApiError::InvalidJWTFormat));
    assert_eq!(extract_header_value("Bearer"), Err(ApiError::InvalidJWTFormat));
    assert_eq!(extract_header_value("Bearer a b"), Err(ApiError::InvalidJWTFormat));
    assert_eq!(extract_header_value("Bearer "), Err(ApiError::InvalidJWTFormat));
    assert_eq!(extract_header_value("Bearer  abc"), Err(ApiError::InvalidJWTFormat));
    assert_eq!(extract_header_value("bearer abc"), Err(ApiError::InvalidJWTFormat));
    assert_eq!(extract_header_value("Bearer a\tb"), Err(ApiError::InvalidJWTFormat));
    assert_eq!(extract_header_value(""), Err(ApiError::InvalidJWTFormat));
}

#[test]
fn password_round_trip_and_mismatch() {
    let user = hashed_user("a@x.com", "hunter2", 7);
    assert_ne!(user.encrypted_password, "hunter2");
    assert!(user.encrypted_password.starts_with("$argon2"));
    assert!(user.verify_password("hunter2", SECRET, DAY).is_ok());
    assert_eq!(user.verify_password("hunter3", SECRET, DAY).unwrap_err(), ApiError::InvalidCredentials);
    assert_eq!(user.verify_password("", SECRET, DAY).unwrap_err(), ApiError::InvalidCredentials);
}

#[test]
fn salts_are_fresh_for_each_hash() {
    let a = hashed_user("a@x.com", "hunter2", 1);
    let b = hashed_user("a@x.com", "hunter2", 1);
    assert_ne!(a.encrypted_password, b.encrypted_password);
    assert!(a.verify_password("hunter2", SECRET, DAY).is_ok());
    assert!(b.verify_password("hunter2", SECRET, DAY).is_ok());
}

#[test]
fn malformed_stored_hash_is_reported() {
    let user = UserDbSchema::with_id(new_user("a@x.com", "not a hash"), 3);
    assert_eq!(user.verify_password("not a hash", SECRET, DAY).unwrap_err(), ApiError::InvalidPasswordHash);
}

#[test]
fn encrypt_password_keeps_other_fields() {
    let mut user = UserDbSchema::with_id(new_user("a@x.com", "pw"), 42);
    let copy = user.encrypt_password().unwrap();
    assert_eq!(copy.id, 42);
    assert_eq!(copy.email, "a@x.com");
    assert_eq!(copy.first_name, "Ada");
    assert_eq!(copy.last_name, "Lovelace");
    assert_eq!(copy.encrypted_password, user.encrypted_password);
}

#[test]
fn token_round_trip_and_expiry() {
    let now: i64 = 1_700_000_000;
    let token = create_jwt_at("user-1", "Ada", SECRET, 100, now).unwrap();
    let claims = handle_jwt_token_at(&token, SECRET, now).unwrap();
    assert_eq!(claims.sub, "user-1");
    assert_eq!(claims.name, "Ada");
    assert_eq!(claims.exp(), 1_700_000_100);
    assert!(handle_jwt_token_at(&token, SECRET, now + 99).is_ok());
    assert_eq!(handle_jwt_token_at(&token, SECRET, now + 100).unwrap_err(), ApiError::ExpiredJWTs);
    assert_eq!(handle_jwt_token_at(&token, SECRET, now + 5000).unwrap_err(), ApiError::ExpiredJWTs);
}

#[test]
fn token_with_other_secret_has_invalid_signature() {
    let now: i64 = 1_700_000_000;
    let token = create_jwt_at("user-1", "Ada", SECRET, 100, now).unwrap();
    assert_eq!(handle_jwt_token_at(&token, "another-secret", now).unwrap_err(), ApiError::InvalidJWTSignature);
}

#[test]
fn current_time_tokens_validate() {
    let token = create_jwt("user-1", "Ada", SECRET, DAY).unwrap();
    let claims = handle_jwt_token(&token, SECRET).unwrap();
    assert_eq!(claims.sub(), "user-1");
    assert!(claims.exp() > 1_700_000_000);
    let past = create_jwt_at("user-1", "Ada", SECRET, 10, 1_000).unwrap();
    assert_eq!(handle_jwt_token(&past, SECRET).unwrap_err(), ApiError::ExpiredJWTs);
}

#[test]
fn garbage_token_is_malformed() {
    assert_eq!(handle_jwt_token_at("abc.def.ghi", SECRET, 0).unwrap_err(), ApiError::UnableToDecodeClaims);
    assert_eq!(handle_jwt_token_at("", SECRET, 0).unwrap_err(), ApiError::UnableToDecodeClaims);
}

#[test]
fn expiry_overflow_and_zero_ttl_fail() {
    assert_eq!(create_jwt_at("u", "n", SECRET, 0, 1_000).unwrap_err(), ApiError::WrongTimeStamp);
    assert_eq!(create_jwt_at("u", "n", SECRET, 10, -100).unwrap_err(), ApiError::WrongTimeStamp);
    assert_eq!(create_jwt_at("u", "n", SECRET, u64::MAX, 1).unwrap_err(), ApiError::WrongTimeStamp);
    assert!(create_jwt_at("u", "n", SECRET, u64::MAX - 1, 1).is_ok());
}

#[test]
fn store_insert_get_and_conflicts() {
    let mut db = InMemDatabase::new();
    let a = hashed_user("a@x.com", "pw", 1);
    assert_eq!(db.insert_user(a.clone()), Ok(()));
    assert_eq!(db.insert_user(hashed_user("a@x.com", "pw2", 2)), Err(ApiError::AlreadyExist));
    assert_eq!(db.insert_user(hashed_user("b@x.com", "pw", 1)), Err(ApiError::AlreadyExist));
    assert_eq!(db.insert_user(hashed_user("b@x.com", "pw", 2)), Ok(()));
    let got = db.get_user_by_email("a@x.com").unwrap();
    assert_eq!(got.id, 1);
    assert_eq!(got.encrypted_password, a.encrypted_password);
    assert_eq!(db.get_user_by_email("A@X.COM").unwrap_err(), ApiError::NonExistence);
    assert_eq!(got.get_email(), "a@x.com");
}

#[test]
fn store_user_exists_by_identifier_text() {
    let mut db = InMemDatabase::new();
    let user = hashed_user("a@x.com", "pw", 0x1234);
    let text = user.id_text();
    assert_eq!(text, "00000000-0000-0000-0000-000000001234");
    db.insert_user(user).unwrap();
    assert_eq!(db.assert_user_exists(&text), Ok(()));
    assert_eq!(db.assert_user_exists("00000000-0000-0000-0000-000000001235"), Err(ApiError::SubjectNotFound));
    assert_eq!(db.assert_user_exists("not-an-id"), Err(ApiError::SubjectNotFound));
}

#[test]
fn store_revocation_is_idempotent() {
    let mut db = InMemDatabase::new();
    assert_eq!(db.check_token_black_listed("t1"), Ok(()));
    db.insert_black_list("t1".to_string());
    db.insert_black_list("t1".to_string());
    assert_eq!(db.check_token_black_listed("t1"), Err(ApiError::TokenBlacklisted));
    assert_eq!(db.check_token_black_listed("t2"), Ok(()));
}

#[test]
fn snapshot_session_flow() {
    let mut db = InMemDatabase::new();
    db.insert_user(hashed_user("a@x.com", "hunter2", 99)).unwrap();
    let now: i64 = 1_700_000_000;
    let logged = login_in(&db, &login_body("a@x.com", "hunter2"), SECRET, 60, now).unwrap();
    let header = format!("Bearer {}", logged.token());
    let claims = authorize_in(&db, &header, SECRET, now + 1).unwrap();
    assert_eq!(claims.sub, "00000000-0000-0000-0000-000000000063");
    assert_eq!(authorize_in(&db, &header, SECRET, now + 60).unwrap_err(), ApiError::ExpiredJWTs);
    assert_eq!(authorize_in(&db, &header, "other", now + 1).unwrap_err(), ApiError::InvalidJWTSignature);
    assert_eq!(login_in(&db, &login_body("a@x.com", "nope"), SECRET, 60, now).unwrap_err(), ApiError::InvalidCredentials);
    assert_eq!(login_in(&db, &login_body("z@x.com", "hunter2"), SECRET, 60, now).unwrap_err(), ApiError::NonExistence);
    assert_eq!(logout_in(&mut db, &header), Ok(()));
    assert_eq!(authorize_in(&db, &header, SECRET, now + 1).unwrap_err(), ApiError::TokenBlacklisted);
    assert_eq!(logout_in(&mut db, "Bearer"), Err(ApiError::InvalidJWTFormat));
}

#[test]
fn token_for_unknown_subject_is_refused() {
    let db = InMemDatabase::new();
    let now: i64 = 1_700_000_000;
    let token = create_jwt_at("00000000-0000-0000-0000-000000000001", "Ghost", SECRET, 60, now).unwrap();
    let header = format!("Bearer {}", token);
    assert_eq!(authorize_in(&db, &header, SECRET, now).unwrap_err(), ApiError::SubjectNotFound);
}

#[test]
fn error_statuses_and_messages() {
    assert_eq!(ApiError::AlreadyExist.status(), 409);
    assert_eq!(ApiError::InvalidCredentials.status(), 401);
    assert_eq!(ApiError::TokenBlacklisted.status(), 401);
    assert_eq!(ApiError::UnableToDecodeClaims.status(), 401);
    assert_eq!(ApiError::FailedHashingPassword.status(), 500);
    assert_eq!(ApiError::WrongTimeStamp.status(), 500);
    assert_eq!(ApiError::ExpiredJWTs.outward_message(), "Unauthorized");
    assert_eq!(ApiError::InvalidJWTSignature.outward_message(), "Unauthorized");
    assert_eq!(ApiError::InvalidPasswordHash.outward_message(), "Internal Server Error");
    assert_eq!(ApiError::AlreadyExist.outward_message(), "User already exists");
}

#[test]
fn snapshot_signup_refuses_taken_email() {
    let mut db = InMemDatabase::new();
    assert_eq!(signup_in(&mut db, new_user("a@x.com", "hunter2")), Ok(()));
    assert_eq!(signup_in(&mut db, new_user("a@x.com", "hunter2")), Err(ApiError::AlreadyExist));
    let stored = db.get_user_by_email("a@x.com").unwrap();
    assert_ne!(stored.encrypted_password, "hunter2");
    assert!(stored.verify_password("hunter2", SECRET, DAY).is_ok());
}

#[test]
fn pruning_drops_only_tokens_that_cannot_validate() {
    let mut db = InMemDatabase::new();
    db.insert_user(hashed_user("a@x.com", "pw", 5)).unwrap();
    let now: i64 = 1_700_000_000;
    let live = create_jwt_at("00000000-0000-0000-0000-000000000005", "Ada", SECRET, 100, now).unwrap();
    let old = create_jwt_at("00000000-0000-0000-0000-000000000005", "Ada", SECRET, 10, now - 50).unwrap();
    db.insert_black_list(live.clone());
    db.insert_black_list(old.clone());
    db.insert_black_list("garbage".to_string());
    prune_black_list_in(&mut db, SECRET, now);
    assert_eq!(db.check_token_black_listed(&live), Err(ApiError::TokenBlacklisted));
    assert_eq!(db.check_token_black_listed(&old), Ok(()));
    assert_eq!(db.check_token_black_listed("garbage"), Ok(()));
    let live_header = format!("Bearer {}", live);
    assert_eq!(authorize_in(&db, &live_header, SECRET, now).unwrap_err(), ApiError::TokenBlacklisted);
    let old_header = format!("Bearer {}", old);
    assert_eq!(authorize_in(&db, &old_header, SECRET, now).unwrap_err(), ApiError::ExpiredJWTs);
    assert_eq!(db.revoked_tokens(), vec![live]);
}

#[test]
fn lapsed_tokens_lists_refused_ones() {
    let now: i64 = 1_700_000_000;
    let live = create_jwt_at("s", "n", SECRET, 100, now).unwrap();
    let tokens = vec![live.clone(), "x.y.z".to_string()];
    assert_eq!(lapsed_tokens(&tokens, SECRET, now), vec!["x.y.z".to_string()]);
    assert_eq!(lapsed_tokens(&tokens, SECRET, now + 100), tokens);
}

#[test]
fn shared_state_pruning_keeps_refusals() {
    let state = AppState::build(config());
    signup(new_user("a@x.com", "hunter2"), &state).unwrap();
    let logged = login(login_body("a@x.com", "hunter2"), &state).unwrap();
    let header = format!("Bearer {}", logged.token());
    logout(&header, &state).unwrap();
    logout("Bearer junk", &state).unwrap();
    prune_black_list(&state);
    assert_eq!(authorize(&header, &state).unwrap_err(), ApiError::TokenBlacklisted);
    assert_eq!(authorize("Bearer junk", &state).unwrap_err(), ApiError::UnableToDecodeClaims);
}

#[test]
fn extract_bearer_rejects_other_whitespace_and_non_ascii() {
    assert_eq!(extract_header_value("Bearer a\u{000B}b"), Err(ApiError::InvalidJWTFormat));
    assert_eq!(extract_header_value("Bearer \u{00e9}"), Err(ApiError::InvalidJWTFormat));
    assert_eq!(extract_header_value("Bearer a\u{00a0}b"), Err(ApiError::InvalidJWTFormat));
    assert_eq!(extract_header_value("Bearer a~!b"), Ok("a~!b"));
}

#[test]
fn subject_must_be_the_hyphenated_lower_case_text() {
    let mut db = InMemDatabase::new();
    db.insert_user(hashed_user("a@x.com", "pw", 0xabcd)).unwrap();
    assert_eq!(db.assert_user_exists("00000000-0000-0000-0000-00000000abcd"), Ok(()));
    assert_eq!(db.assert_user_exists("00000000-0000-0000-0000-00000000ABCD"), Err(ApiError::SubjectNotFound));
    assert_eq!(db.assert_user_exists("0000000000000000000000000000abcd"), Err(ApiError::SubjectNotFound));
    assert_eq!(db.assert_user_exists("{00000000-0000-0000-0000-00000000abcd}"), Err(ApiError::SubjectNotFound));
    assert_eq!(
        db.assert_user_exists("urn:uuid:00000000-0000-0000-0000-00000000abcd"),
        Err(ApiError::SubjectNotFound)
    );
}

#[test]
fn stored_hash_is_argon2id_encoding() {
    let user = hashed_user("a@x.com", "hunter2", 1);
    assert!(user.encrypted_password.starts_with("$argon2id$v=19$"));
    assert_eq!(user.encrypted_password.split('$').count(), 6);
}

#[test]
fn fresh_identifiers_are_version_4() {
    let user = UserDbSchema::from_new_user(new_user("a@x.com", "pw"));
    assert_eq!((user.id >> 76) & 0xF, 4);
    assert_eq!((user.id >> 62) & 0x3, 2);
    assert_eq!(user.id_text().as_bytes()[14], b'4');
}

#[test]
fn signing_failure_is_unauthorized() {
    assert_eq!(ApiError::InvalidJWTCredentials.status(), 401);
    assert_eq!(ApiError::InvalidJWTCredentials.outward_message(), "Unauthorized");
}

#[test]
fn claims_getters_match_fields() {
    let token = create_jwt_at("s", "Ada", SECRET, 10, 0).unwrap();
    let claims = handle_jwt_token_at(&token, SECRET, 5).unwrap();
    assert_eq!(claims.name(), "Ada");
    assert_eq!(claims.sub(), "s");
}

#[test]
fn store_with_revoked_tokens() {
    let db = InMemDatabase::with_revoked(&vec!["t1".to_string(), "t2".to_string(), "t1".to_string()]);
    assert_eq!(db.check_token_black_listed("t1"), Err(ApiError::TokenBlacklisted));
    assert_eq!(db.check_token_black_listed("t2"), Err(ApiError::TokenBlacklisted));
    assert_eq!(db.check_token_black_listed("t3"), Ok(()));
    assert_eq!(db.revoked_tokens().len(), 2);
}

#[test]
fn identifier_text_covers_every_digit() {
    let user = UserDbSchema::with_id(new_user("a@x.com", "pw"), 0x0123456789abcdeffedcba9876543210);
    assert_eq!(user.id_text(), "01234567-89ab-cdef-fedc-ba9876543210");
}

#[test]
fn tokens_without_three_parts_are_malformed() {
    let token = create_jwt_at("s", "n", SECRET, 10, 0).unwrap();
    let extra = format!("{}.x", token);
    assert_eq!(handle_jwt_token_at(&extra, SECRET, 1).unwrap_err(), ApiError::UnableToDecodeClaims);
    assert_eq!(handle_jwt_token_at("abc", SECRET, 1).unwrap_err(), ApiError::UnableToDecodeClaims);
    assert_eq!(handle_jwt_token_at("a.b", SECRET, 1).unwrap_err(), ApiError::UnableToDecodeClaims);
}

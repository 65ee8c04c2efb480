use madrigal::auth::{
    authenticate, bearer_token, hash_password, normalize_email, parse_session_id, parse_user_id,
    validate_new_email, validate_registration,
};
use madrigal::error::AppError;

#[test]
fn email_is_trimmed_and_lowercased() {
    assert_eq!(normalize_email("  Alice@Example.COM \n"), "alice@example.com");
    assert_eq!(normalize_email("\u{3000}BOB@x.io\u{a0}"), "bob@x.io");
}

#[test]
fn registration_accepts_valid_input() {
    assert_eq!(
        validate_registration(" User@Mail.org ", "12345678"),
        Ok("user@mail.org".to_string())
    );
}

#[test]
fn registration_rejects_empty_email() {
    assert_eq!(
        validate_registration("   ", "long enough password"),
        Err(AppError::BadRequest("invalid email or password".into()))
    );
}

#[test]
fn registration_rejects_short_password() {
    assert_eq!(
        validate_registration("a@b.c", "1234567"),
        Err(AppError::BadRequest("invalid email or password".into()))
    );
}

#[test]
fn password_length_counts_bytes() {
    // four two-byte characters are eight bytes
    assert!(validate_registration("a@b.c", "éééé").is_ok());
}

#[test]
fn new_email_must_not_be_empty() {
    assert_eq!(validate_new_email(" New@X.com"), Ok("new@x.com".to_string()));
    assert_eq!(
        validate_new_email(" \t "),
        Err(AppError::BadRequest("email cannot be empty".into()))
    );
}

#[test]
fn known_hashes_verify() {
    let h = "$2a$04$UuTkLRZZ6QofpDOlMz32MuuxEHA43WOemOYHPz6.SjsVsyO1tDU96";
    assert_eq!(authenticate(Some(h), "password"), Ok(()));
    let h2 = "$2b$04$EGdrhbKUv8Oc9vGiXX0HQOxSg445d458Muh7DAHskb6QbtCvdxcie";
    assert_eq!(authenticate(Some(h2), "correctbatteryhorsestapler"), Ok(()));
}

#[test]
fn wrong_password_or_missing_account_is_refused() {
    let h = "$2a$04$UuTkLRZZ6QofpDOlMz32MuuxEHA43WOemOYHPz6.SjsVsyO1tDU96";
    let refused = Err(AppError::Auth("invalid credentials".into()));
    assert_eq!(authenticate(Some(h), "wrong"), refused);
    assert_eq!(authenticate(None, "password"), refused);
    assert_eq!(authenticate(Some("not a hash"), "password"), refused);
}

#[test]
fn registered_password_logs_in() {
    let h = hash_password("hunter2hunter2").expect("hashing");
    assert_eq!(h.len(), 60);
    assert!(h.starts_with("$2b$12$"));
    assert_eq!(authenticate(Some(&h), "hunter2hunter2"), Ok(()));
    assert!(authenticate(Some(&h), "hunter2hunter3").is_err());
}

#[test]
fn session_and_user_ids_must_be_uuids() {
    assert_eq!(
        parse_session_id("a1a2a3a4-b1b2-c1c2-d1d2-d3d4d5d6d7d8"),
        Ok(0xa1a2a3a4b1b2c1c2d1d2d3d4d5d6d7d8)
    );
    assert_eq!(
        parse_session_id("nope"),
        Err(AppError::BadRequest("invalid session id".into()))
    );
    assert_eq!(parse_user_id("00000000-0000-0000-0000-000000000001"), Ok(1));
    assert_eq!(
        parse_user_id("1234"),
        Err(AppError::BadRequest("invalid user id".into()))
    );
}

#[test]
fn bearer_prefix_is_stripped() {
    assert_eq!(bearer_token(Some("Bearer abc.def")), Some("abc.def"));
    assert_eq!(bearer_token(Some("Bearer ")), Some(""));
    assert_eq!(bearer_token(Some("bearer abc")), None);
    assert_eq!(bearer_token(Some("Token abc")), None);
    assert_eq!(bearer_token(None), None);
}

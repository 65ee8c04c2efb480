use madrigal::apikey::{api_key_for, generate_key, validate_key_name};
use madrigal::error::AppError;

#[test]
fn key_is_prefix_and_simple_uuid() {
    assert_eq!(
        api_key_for(0xa1a2a3a4b1b2c1c2d1d2d3d4d5d6d7d8),
        "mdr_a1a2a3a4b1b2c1c2d1d2d3d4d5d6d7d8"
    );
    assert_eq!(api_key_for(0), format!("mdr_{}", "0".repeat(32)));
}

#[test]
fn generated_keys_are_fresh_v4_uuids() {
    let a = generate_key();
    let b = generate_key();
    assert_ne!(a, b);
    assert_eq!(a.len(), 36);
    assert!(a.starts_with("mdr_"));
    let hex = &a[4..];
    assert!(hex.chars().all(|c| c.is_ascii_hexdigit() && !c.is_ascii_uppercase()));
    // version nibble
    assert_eq!(&hex[12..13], "4");
}

#[test]
fn key_name_is_trimmed_and_required() {
    assert_eq!(validate_key_name("  production "), Ok("production".to_string()));
    assert_eq!(
        validate_key_name(" \n"),
        Err(AppError::BadRequest("name is required".into()))
    );
}

//! Claim-set construction and error-taxonomy tests.

use fluff_auth::claims::UserJWT;
use fluff_auth::errors::FluffError;
use fluff_auth::user::User;

const NOW: u64 = 1700000000;

fn sample_user() -> User {
    User {
        id: "u-1".to_string(),
        username: "alex".to_string(),
        display_name: "Alex".to_string(),
        email: None,
        profile_picture: None,
        permissions: vec!["a".to_string(), "b".to_string(), "c".to_string()],
    }
}

#[test]
fn claim_fields_are_exactly_the_construction_rule() {
    let user = sample_user();
    let c = UserJWT::generate_for_user_at(&user, NOW);
    assert_eq!(c.iss, "https://auth.fluffevent.fr");
    assert_eq!(c.sub, "u-1");
    assert_eq!(c.aud, vec!["fluffevent.fr".to_string()]);
    assert_eq!(c.nbf, NOW - 300);
    assert_eq!(c.exp, NOW + 604800);
    assert_eq!(c.iat, NOW);
    assert_eq!(c.name, "alex");
    assert_eq!(c.display_name, "Alex");
    assert_eq!(c.picture, "");
    assert_eq!(c.scope, vec!["a".to_string(), "b".to_string(), "c".to_string()]);
}

#[test]
fn validity_window_is_fixed() {
    let user = sample_user();
    let c = UserJWT::generate_for_user_at(&user, NOW);
    assert_eq!(c.nbf, c.iat - 300);
    assert_eq!(c.exp, c.iat + 604800);
    let c2 = UserJWT::generate_for_user_at(&user, 300);
    assert_eq!(c2.nbf, 0);
    assert_eq!(c2.exp, 300 + 604800);
}

#[test]
fn profile_picture_is_copied_when_present() {
    let mut user = sample_user();
    user.profile_picture = Some("https://example.com/a.png".to_string());
    let c = UserJWT::generate_for_user_at(&user, NOW);
    assert_eq!(c.picture, "https://example.com/a.png");
}

#[test]
fn generate_for_user_uses_the_wall_clock() {
    let user = sample_user();
    let c = UserJWT::generate_for_user(&user).unwrap();
    // Any sane wall clock reads far past the epoch.
    assert!(c.iat > 1600000000);
    assert_eq!(c.nbf, c.iat - 300);
    assert_eq!(c.exp, c.iat + 604800);
    assert_eq!(c.sub, user.id);
}

#[test]
fn user_from_jwt_recovers_identity_fields() {
    let user = sample_user();
    let c = UserJWT::generate_for_user_at(&user, NOW);
    let back = User::from_jwt(&c);
    assert_eq!(back.id, user.id);
    assert_eq!(back.username, user.username);
    assert_eq!(back.display_name, user.display_name);
    assert_eq!(back.email, None);
    assert_eq!(back.profile_picture, Some("".to_string()));
    assert_eq!(back.permissions, user.permissions);
}

#[test]
fn error_carries_status_and_reason() {
    let e = FluffError::new_u16(500, "SomethingBroke", "it broke", true);
    assert_eq!(e.http_code, 500);
    assert_eq!(e.http_reason, "Internal Server Error");
    assert_eq!(e.error_name, "SomethingBroke");
    assert_eq!(e.error_description, "it broke");
    assert!(e.can_retry);
    assert!(e.context.is_empty());
    let e2 = FluffError::new_u16(404, "Missing", "not found", false);
    assert_eq!(e2.http_reason, "Not Found");
    assert!(!e2.can_retry);
    let e3 = FluffError::new_u16(999, "Odd", "odd code", false);
    assert_eq!(e3.http_reason, "Error");
}

#[test]
fn error_context_accumulates_in_order() {
    let e = FluffError::new_u16(500, "X", "y", true)
        .add_context("inner")
        .add_context("outer");
    assert_eq!(e.context, vec!["inner".to_string(), "outer".to_string()]);
    let e = e.reset_context();
    assert!(e.context.is_empty());
}

use auth_core::errors::{error_response, AuthError};
use auth_core::middleware::auth_middleware;
use auth_core::handlers::{
    health_check, login, logout, profile, register, LoginRequest, RegisterRequest,
};
use auth_core::password::CredentialStore;
use auth_core::store::UserStore;
use auth_core::token::TokenCodec;

const NOW: usize = 1_700_000_000;
const TTL: usize = 86400;

fn codec() -> TokenCodec {
    TokenCodec::new("test-signing-secret".to_string()).unwrap()
}

fn reg(email: &str, password: &str, full_name: &str, role: Option<&str>) -> RegisterRequest {
    RegisterRequest {
        email: email.to_string(),
        password: password.to_string(),
        full_name: full_name.to_string(),
        role: role.map(|r| r.to_string()),
    }
}

#[test]
fn empty_secret_refused() {
    assert!(matches!(
        TokenCodec::new(String::new()),
        Err(AuthError::ValidationFailure)
    ));
    assert!(TokenCodec::new("k".to_string()).is_ok());
}

#[test]
fn register_token_verifies_with_submitted_role() {
    let cdc = codec();
    let mut store = UserStore::new();
    let r = register(
        &mut store,
        &cdc,
        reg("a@x.com", "pw123456", "A", Some("instructor")),
        "u-1".to_string(),
        NOW,
    )
    .unwrap();
    assert_eq!(r.user.role, "instructor");
    assert_eq!(r.user.id, "u-1");
    let claims = cdc.verify(&r.token, NOW + 1).unwrap();
    assert_eq!(claims.sub, "u-1");
    assert_eq!(claims.email, "a@x.com");
    assert_eq!(claims.role, "instructor");
    assert_eq!(claims.exp, NOW + TTL);
}

#[test]
fn register_defaults_to_student_role() {
    let cdc = codec();
    let mut store = UserStore::new();
    let r = register(
        &mut store,
        &cdc,
        reg("b@x.com", "pw123456", "B", None),
        "u-2".to_string(),
        NOW,
    )
    .unwrap();
    assert_eq!(r.user.role, "student");
    let claims = cdc.verify(&r.token, NOW).unwrap();
    assert_eq!(claims.role, "student");
}

#[test]
fn register_rejects_bad_input() {
    let cdc = codec();
    let mut store = UserStore::new();
    let bad_role = register(
        &mut store,
        &cdc,
        reg("a@x.com", "pw", "A", Some("admin")),
        "u-1".to_string(),
        NOW,
    );
    assert!(matches!(bad_role, Err(AuthError::ValidationFailure)));
    let no_email = register(
        &mut store,
        &cdc,
        reg("", "pw", "A", None),
        "u-1".to_string(),
        NOW,
    );
    assert!(matches!(no_email, Err(AuthError::ValidationFailure)));
    let no_name = register(
        &mut store,
        &cdc,
        reg("a@x.com", "pw", "", None),
        "u-1".to_string(),
        NOW,
    );
    assert!(matches!(no_name, Err(AuthError::ValidationFailure)));
    assert_eq!(store.len(), 0);
    assert_eq!(error_response(AuthError::ValidationFailure).0, 400);
}

#[test]
fn duplicate_email_rejected_and_first_registration_unaffected() {
    let cdc = codec();
    let mut store = UserStore::new();
    register(
        &mut store,
        &cdc,
        reg("a@x.com", "first-pw", "First", None),
        "u-1".to_string(),
        NOW,
    )
    .unwrap();
    let second = register(
        &mut store,
        &cdc,
        reg("a@x.com", "other-pw", "Other", Some("instructor")),
        "u-2".to_string(),
        NOW + 5,
    );
    assert!(matches!(second, Err(AuthError::DuplicateEmail)));
    assert_eq!(error_response(AuthError::DuplicateEmail).0, 409);
    assert_eq!(store.len(), 1);
    // The first registration still logs in with its own password.
    let li = login(
        &store,
        &cdc,
        LoginRequest {
            email: "a@x.com".to_string(),
            password: "first-pw".to_string(),
        },
        NOW,
    )
    .unwrap();
    assert_eq!(li.user.full_name, "First");
    assert_eq!(li.user.id, "u-1");
}

#[test]
fn duplicate_id_is_storage_failure() {
    let cdc = codec();
    let mut store = UserStore::new();
    register(
        &mut store,
        &cdc,
        reg("a@x.com", "pw123456", "A", None),
        "u-1".to_string(),
        NOW,
    )
    .unwrap();
    let clash = register(
        &mut store,
        &cdc,
        reg("b@x.com", "pw123456", "B", None),
        "u-1".to_string(),
        NOW,
    );
    assert!(matches!(clash, Err(AuthError::StorageFailure)));
    assert_eq!(store.len(), 1);
}

#[test]
fn login_uniform_errors_are_bit_identical() {
    let cdc = codec();
    let mut store = UserStore::new();
    register(
        &mut store,
        &cdc,
        reg("a@x.com", "pw123456", "A", None),
        "u-1".to_string(),
        NOW,
    )
    .unwrap();
    let wrong_password = login(
        &store,
        &cdc,
        LoginRequest {
            email: "a@x.com".to_string(),
            password: "wrong".to_string(),
        },
        NOW,
    )
    .unwrap_err();
    let unknown_email = login(
        &store,
        &cdc,
        LoginRequest {
            email: "nobody@x.com".to_string(),
            password: "pw123456".to_string(),
        },
        NOW,
    )
    .unwrap_err();
    assert_eq!(wrong_password, AuthError::InvalidCredentials);
    assert_eq!(unknown_email, AuthError::InvalidCredentials);
    let r1 = error_response(wrong_password);
    let r2 = error_response(unknown_email);
    assert_eq!(r1.0, r2.0);
    assert_eq!(r1.1, r2.1);
    assert_eq!(r1.0, 401);
    assert_eq!(r1.1, "Invalid email or password");
}

#[test]
fn tampered_signature_fails_expired_fails_valid_succeeds() {
    let cdc = codec();
    let mut store = UserStore::new();
    let r = register(
        &mut store,
        &cdc,
        reg("a@x.com", "pw123456", "A", None),
        "u-1".to_string(),
        NOW,
    )
    .unwrap();
    // A well-formed, unexpired, correctly signed token succeeds.
    assert!(cdc.verify(&r.token, NOW + TTL - 1).is_ok());
    // Flipping a character of the signature fails verification.
    let mut chars: Vec<char> = r.token.chars().collect();
    let last = chars.len() - 1;
    chars[last] = if chars[last] == 'A' { 'B' } else { 'A' };
    let tampered: String = chars.into_iter().collect();
    assert!(matches!(
        cdc.verify(&tampered, NOW + 1),
        Err(AuthError::InvalidToken)
    ));
    // A token whose expiry lies one second in the past fails verification.
    assert!(matches!(
        cdc.verify(&r.token, NOW + TTL + 1),
        Err(AuthError::InvalidToken)
    ));
    // Garbage fails too.
    assert!(cdc.verify("not-a-token", NOW).is_err());
    assert!(cdc.verify("HS256.3:abc", NOW).is_err());
}

#[test]
fn token_from_another_secret_is_rejected() {
    let cdc1 = TokenCodec::new("secret-one".to_string()).unwrap();
    let cdc2 = TokenCodec::new("secret-two".to_string()).unwrap();
    let mut store = UserStore::new();
    let r = register(
        &mut store,
        &cdc1,
        reg("a@x.com", "pw123456", "A", None),
        "u-1".to_string(),
        NOW,
    )
    .unwrap();
    assert!(cdc1.verify(&r.token, NOW).is_ok());
    assert!(matches!(
        cdc2.verify(&r.token, NOW),
        Err(AuthError::InvalidToken)
    ));
}

#[test]
fn roundtrip_holds_for_awkward_field_contents() {
    let cdc = codec();
    let cases = [
        ("dots.and:colons@x.com", "Na:me.with\"quotes\\"),
        ("unicode-\u{00e9}\u{6f22}@x.com", "\u{00c5}sa \u{1F600}"),
        ("a@x.com", "A"),
    ];
    let mut n: usize = 0;
    for (email, name) in cases.iter() {
        let mut store = UserStore::new();
        n += 1;
        let id = format!("user.{}:{}", n, email);
        let r = register(
            &mut store,
            &cdc,
            reg(email, "pw123456", name, None),
            id.clone(),
            NOW,
        )
        .unwrap();
        let claims = cdc.verify(&r.token, NOW + 1).unwrap();
        assert_eq!(claims.sub, id);
        assert_eq!(claims.email, *email);
        assert_eq!(claims.role, "student");
    }
}

#[test]
fn profile_requires_auth_and_reports_deleted_users() {
    let cdc = codec();
    let mut store = UserStore::new();
    let r = register(
        &mut store,
        &cdc,
        reg("a@x.com", "pw123456", "A", None),
        "u-1".to_string(),
        NOW,
    )
    .unwrap();
    // No authorization header: rejected without reaching the codec.
    assert!(matches!(
        auth_middleware(&cdc, None, NOW),
        Err(AuthError::Unauthenticated)
    ));
    // Wrong scheme: rejected.
    let wrong_scheme = format!("Token {}", r.token);
    assert!(matches!(
        auth_middleware(&cdc, Some(&wrong_scheme), NOW),
        Err(AuthError::Unauthenticated)
    ));
    // A valid bearer token is accepted and the profile comes back.
    let header = format!("Bearer {}", r.token);
    let claims = auth_middleware(&cdc, Some(&header), NOW).unwrap();
    let p = profile(&store, &claims).unwrap();
    assert_eq!(p.email, "a@x.com");
    assert_eq!(p.full_name, "A");
    // A valid token for an identity the store no longer holds: NotFound.
    let empty = UserStore::new();
    assert!(matches!(profile(&empty, &claims), Err(AuthError::NotFound)));
    assert_eq!(error_response(AuthError::NotFound).0, 404);
}

#[test]
fn concrete_scenario() {
    let cdc = codec();
    let mut store = UserStore::new();
    let r = register(
        &mut store,
        &cdc,
        reg("a@x.com", "pw123456", "A", Some("instructor")),
        "11111111-2222-3333-4444-555555555555".to_string(),
        NOW,
    )
    .unwrap();
    assert_eq!(r.user.role, "instructor");
    let header = format!("Bearer {}", r.token);
    let claims = auth_middleware(&cdc, Some(&header), NOW + 10).unwrap();
    let p = profile(&store, &claims).unwrap();
    assert_eq!(p.email, "a@x.com");
    let bad = login(
        &store,
        &cdc,
        LoginRequest {
            email: "a@x.com".to_string(),
            password: "wrong".to_string(),
        },
        NOW,
    )
    .unwrap_err();
    assert_eq!(bad, AuthError::InvalidCredentials);
    assert_eq!(error_response(bad).0, 401);
}

#[test]
fn credential_store_hash_and_verify() {
    let h = CredentialStore::hash("pw123456").unwrap();
    // A real bcrypt hash: self-describing, never the plaintext.
    assert!(h.starts_with("$2"));
    assert!(CredentialStore::verify("pw123456", &h).unwrap());
    assert!(!CredentialStore::verify("pw1234567", &h).unwrap());
    // A malformed stored hash is an internal fault, never a grant.
    assert!(matches!(
        CredentialStore::verify("pw123456", "not-a-hash"),
        Err(AuthError::VerificationFailure)
    ));
}

#[test]
fn malformed_stored_hash_is_denied_as_internal_fault() {
    let cdc = codec();
    let mut store = UserStore::new();
    store
        .insert(auth_core::store::User {
            id: "u-1".to_string(),
            email: "a@x.com".to_string(),
            password_hash: "not-a-bcrypt-hash".to_string(),
            full_name: "A".to_string(),
            role: "student".to_string(),
            created_at: NOW,
            updated_at: NOW,
        })
        .unwrap();
    let r = login(
        &store,
        &cdc,
        LoginRequest {
            email: "a@x.com".to_string(),
            password: "pw123456".to_string(),
        },
        NOW,
    );
    // Denied, not granted, and distinct from the credential answer only as a 500.
    assert!(matches!(r, Err(AuthError::VerificationFailure)));
    assert_eq!(error_response(AuthError::VerificationFailure).0, 500);
}

#[test]
fn logout_and_health() {
    assert_eq!(logout(), 204);
    let up = health_check(true);
    assert_eq!(up, (200, "ok".to_string(), "connected".to_string()));
    let down = health_check(false);
    assert_eq!(down, (503, "degraded".to_string(), "unreachable".to_string()));
}

#[test]
fn error_responses_leak_no_internals() {
    for (e, status) in [
        (AuthError::ValidationFailure, 400),
        (AuthError::DuplicateEmail, 409),
        (AuthError::InvalidCredentials, 401),
        (AuthError::InvalidToken, 401),
        (AuthError::Unauthenticated, 401),
        (AuthError::NotFound, 404),
        (AuthError::StorageFailure, 500),
        (AuthError::HashingFailure, 500),
        (AuthError::VerificationFailure, 500),
        (AuthError::TokenIssuanceFailure, 500),
    ] {
        let (s, m) = error_response(e);
        assert_eq!(s, status);
        assert!(!m.is_empty());
        assert!(!m.contains("bcrypt"));
        assert!(!m.contains("sql"));
        assert!(!m.contains("secret"));
    }
}

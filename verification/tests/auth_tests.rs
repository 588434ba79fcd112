use billing_core::ServiceError;
use billing_core::accounts::{login, register};
use billing_core::assist::describe_line_items;
use billing_core::auth::{authenticate, create_jwt, verify_jwt};
use billing_core::store::Store;

const SECRET: &str = "a-local-test-secret";

#[test]
fn jwt_round_trip_yields_subject() {
    let token = create_jwt(42, SECRET).unwrap();
    let claims = verify_jwt(&token, SECRET).unwrap();
    assert_eq!(claims.sub, 42);
    assert_eq!(claims.exp, claims.iat + 604800);
}

#[test]
fn jwt_rejects_wrong_secret() {
    let token = create_jwt(42, SECRET).unwrap();
    assert_eq!(verify_jwt(&token, "another-secret").err(), Some(ServiceError::Unauthenticated));
}

#[test]
fn jwt_rejects_tampering() {
    let token = create_jwt(42, SECRET).unwrap();
    let mut tampered = token.clone();
    tampered.push('x');
    assert!(verify_jwt(&tampered, SECRET).is_err());
    assert!(verify_jwt("not.a.token", SECRET).is_err());
}

#[test]
fn authenticate_accepts_bearer_header() {
    let token = create_jwt(7, SECRET).unwrap();
    let header = format!("Bearer {}", token);
    let ctx = authenticate(Some(&header), SECRET).unwrap();
    assert_eq!(ctx.user_id, 7);
}

#[test]
fn authenticate_rejects_bad_headers() {
    let token = create_jwt(7, SECRET).unwrap();
    assert_eq!(authenticate(None, SECRET).err(), Some(ServiceError::Unauthenticated));
    assert_eq!(
        authenticate(Some("Basic abc"), SECRET).err(),
        Some(ServiceError::Unauthenticated)
    );
    assert_eq!(authenticate(Some(""), SECRET).err(), Some(ServiceError::Unauthenticated));
    let no_prefix = token.clone();
    assert_eq!(
        authenticate(Some(&no_prefix), SECRET).err(),
        Some(ServiceError::Unauthenticated)
    );
}

#[test]
fn register_then_login() {
    let mut store = Store::new();
    let (token, user) = register(&mut store, "a@example.com".to_owned(), b"hunter2", SECRET)
        .unwrap();
    assert_eq!(user.email, "a@example.com");
    let claims = verify_jwt(&token, SECRET).unwrap();
    assert_eq!(claims.sub, user.id);
    let (token2, user2) = login(&store, "a@example.com", b"hunter2", SECRET).unwrap();
    assert_eq!(user2.id, user.id);
    let claims2 = verify_jwt(&token2, SECRET).unwrap();
    assert_eq!(claims2.sub, user.id);
}

#[test]
fn register_duplicate_email_conflicts() {
    let mut store = Store::new();
    register(&mut store, "a@example.com".to_owned(), b"pw1", SECRET).unwrap();
    let r = register(&mut store, "a@example.com".to_owned(), b"pw2", SECRET);
    assert_eq!(r.err(), Some(ServiceError::Conflict));
    // the rejected registration changed nothing: the first credential works
    let (_, user) = login(&store, "a@example.com", b"pw1", SECRET).unwrap();
    assert_eq!(user.email, "a@example.com");
}

#[test]
fn login_rejects_wrong_password_and_unknown_email() {
    let mut store = Store::new();
    register(&mut store, "a@example.com".to_owned(), b"hunter2", SECRET).unwrap();
    assert_eq!(
        login(&store, "a@example.com", b"wrong", SECRET).err(),
        Some(ServiceError::Unauthenticated)
    );
    assert_eq!(
        login(&store, "b@example.com", b"hunter2", SECRET).err(),
        Some(ServiceError::Unauthenticated)
    );
}

#[test]
fn line_item_suggestions() {
    let without = describe_line_items("site redesign", false);
    assert_eq!(without.len(), 1);
    assert_eq!(without[0].description, "AI Analysis: site redesign");
    assert_eq!(without[0].quantity, 100);
    assert_eq!(without[0].unit_price, 10000);
    let with = describe_line_items("site redesign", true);
    assert_eq!(with[0].description, "Smart Breakdown: site redesign");
    assert_eq!(with[0].quantity, 100);
    assert_eq!(with[0].unit_price, 0);
}

use book_catalog::errors::ServiceError;
use book_catalog::gateway::PermissionManager;
use book_catalog::jwt::Keeper;
use book_catalog::model::UserPermission;

fn past_instant() -> u64 {
    let now = std::time::SystemTime::now()
        .duration_since(std::time::UNIX_EPOCH)
        .unwrap()
        .as_secs();
    now - 3600
}

fn forge_token(secret: &str, permission: &str, exp: u64) -> String {
    let mut claims = serde_json::Map::new();
    claims.insert("user_id".to_string(), serde_json::Value::from(1u32));
    claims.insert("user_name".to_string(), serde_json::Value::from("x@y.z"));
    claims.insert("permission".to_string(), serde_json::Value::from(permission));
    claims.insert("exp".to_string(), serde_json::Value::from(exp));
    jsonwebtoken::encode(
        &jsonwebtoken::Header::default(),
        &serde_json::Value::Object(claims),
        &jsonwebtoken::EncodingKey::from_secret(secret.as_bytes()),
    )
    .unwrap()
}

#[test]
fn issued_token_carries_level_through_every_check() {
    let keeper = Keeper::new("a-signing-secret".to_string(), 2);
    let token = keeper
        .generate_token(7, "reader@example.com", UserPermission::PermUser)
        .unwrap();
    assert_eq!(keeper.has_permission(&token, UserPermission::PermNone), Ok(true));
    assert_eq!(keeper.has_permission(&token, UserPermission::PermUser), Ok(true));
    assert_eq!(keeper.has_permission(&token, UserPermission::PermAuthor), Ok(false));
    assert_eq!(keeper.has_permission(&token, UserPermission::PermAdmin), Ok(false));
}

#[test]
fn admin_token_passes_every_level() {
    let keeper = Keeper::new("a-signing-secret".to_string(), 2);
    let token = keeper
        .generate_token(1, "root@example.com", UserPermission::PermAdmin)
        .unwrap();
    assert_eq!(keeper.has_permission(&token, UserPermission::PermNone), Ok(true));
    assert_eq!(keeper.has_permission(&token, UserPermission::PermUser), Ok(true));
    assert_eq!(keeper.has_permission(&token, UserPermission::PermAuthor), Ok(true));
    assert_eq!(keeper.has_permission(&token, UserPermission::PermAdmin), Ok(true));
}

#[test]
fn extracted_claims_echo_what_was_issued() {
    let keeper = Keeper::new("a-signing-secret".to_string(), 2);
    let token = keeper
        .generate_token(42, "author@example.com", UserPermission::PermAuthor)
        .unwrap();
    let claims = keeper.extract_token(&token).unwrap();
    assert_eq!(claims.user_id, 42);
    assert_eq!(claims.user_name, "author@example.com");
    assert_eq!(claims.permission, UserPermission::PermAuthor);
    assert!(claims.exp > past_instant());
}

#[test]
fn tampered_token_fails_verification() {
    let keeper = Keeper::new("a-signing-secret".to_string(), 2);
    let mut token = keeper
        .generate_token(7, "reader@example.com", UserPermission::PermAdmin)
        .unwrap();
    token.push('x');
    assert_eq!(
        keeper.has_permission(&token, UserPermission::PermNone),
        Err(ServiceError::InvalidToken)
    );
}

#[test]
fn token_signed_with_another_secret_fails_verification() {
    let issuer = Keeper::new("secret-one".to_string(), 2);
    let verifier = Keeper::new("secret-two".to_string(), 2);
    let token = issuer
        .generate_token(7, "reader@example.com", UserPermission::PermAdmin)
        .unwrap();
    assert_eq!(
        verifier.has_permission(&token, UserPermission::PermNone),
        Err(ServiceError::InvalidToken)
    );
}

#[test]
fn expired_token_fails_verification_despite_valid_signature() {
    let keeper = Keeper::new("a-signing-secret".to_string(), 2);
    let token = forge_token("a-signing-secret", "PermAdmin", past_instant());
    assert_eq!(
        keeper.has_permission(&token, UserPermission::PermNone),
        Err(ServiceError::InvalidToken)
    );
}

#[test]
fn expired_token_fails_at_every_required_level() {
    let keeper = Keeper::new("a-signing-secret".to_string(), 2);
    let token = forge_token("a-signing-secret", "PermAdmin", past_instant());
    for required in [
        UserPermission::PermNone,
        UserPermission::PermUser,
        UserPermission::PermAuthor,
        UserPermission::PermAdmin,
    ] {
        assert_eq!(
            keeper.has_permission(&token, required),
            Err(ServiceError::InvalidToken)
        );
    }
}

#[test]
fn fresh_forged_claims_with_unknown_tier_name_fail() {
    let keeper = Keeper::new("a-signing-secret".to_string(), 2);
    let exp = past_instant() + 7200;
    let token = forge_token("a-signing-secret", "PermEmperor", exp);
    assert_eq!(
        keeper.has_permission(&token, UserPermission::PermNone),
        Err(ServiceError::InvalidToken)
    );
}

#[test]
fn build_token_overflow_is_the_expiry_error() {
    let keeper = Keeper::new("a-signing-secret".to_string(), 2);
    let r = keeper.build_token(7, "reader@example.com", UserPermission::PermUser, u64::MAX - 1);
    assert_eq!(r, Err(ServiceError::ExpiryOverflow));
}

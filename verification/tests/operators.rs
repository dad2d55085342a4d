use book_catalog::dto::{ReviewBody, UserCredential};
use book_catalog::errors::ServiceError;
use book_catalog::gateway::UserManager;
use book_catalog::jwt::Keeper;
use book_catalog::memory::{MemoryReviewStore, MemoryUserStore};
use book_catalog::model::{User, UserPermission};
use book_catalog::review_operator::ReviewOperator;
use book_catalog::user_operator::UserOperator;

fn fresh_operator() -> UserOperator<MemoryUserStore, Keeper> {
    UserOperator::new(MemoryUserStore::new(), Keeper::new("a-signing-secret".to_string(), 2))
}

fn credential(email: &str, password: &str) -> UserCredential {
    UserCredential { email: email.to_string(), password: password.to_string() }
}

#[test]
fn sign_up_with_empty_email_fails_before_any_store_call() {
    let mut op = fresh_operator();
    let r = op.create_user(&credential("", "pw"));
    assert!(matches!(r, Err(ServiceError::EmptyEmail)));
    // Nothing was stored: the same email cannot be signed in.
    assert!(matches!(op.sign_in("", "pw"), Err(ServiceError::EmptyEmail)));
}

#[test]
fn sign_up_with_empty_password_fails_before_any_store_call() {
    let mut op = fresh_operator();
    let r = op.create_user(&credential("a@b.c", ""));
    assert!(matches!(r, Err(ServiceError::EmptyPassword)));
    // Nothing was stored under that email.
    assert!(matches!(op.sign_in("a@b.c", "pw"), Err(ServiceError::UserNotFound)));
}

#[test]
fn sign_up_then_sign_in_round_trips() {
    let mut op = fresh_operator();
    let u = op.create_user(&credential("a@b.c", "hunter2")).unwrap();
    assert_eq!(u.email, "a@b.c");
    let ut = op.sign_in("a@b.c", "hunter2").unwrap();
    assert_eq!(ut.user.id, u.id);
    assert_eq!(ut.user.email, "a@b.c");
    assert!(!ut.token.is_empty());
    // The issued token carries the ordinary user tier.
    assert_eq!(op.has_permission(&ut.token, UserPermission::PermUser), Ok(true));
    assert_eq!(op.has_permission(&ut.token, UserPermission::PermAuthor), Ok(false));
}

#[test]
fn wrong_password_and_unknown_email_fail_distinctly() {
    let mut op = fresh_operator();
    op.create_user(&credential("a@b.c", "right")).unwrap();
    let wrong = op.sign_in("a@b.c", "wrong").unwrap_err();
    let missing = op.sign_in("x@y.z", "right").unwrap_err();
    assert_eq!(wrong, ServiceError::WrongPassword);
    assert_eq!(missing, ServiceError::UserNotFound);
    assert_ne!(wrong, missing);
    assert_ne!(wrong.message(), missing.message());
}

#[test]
fn stored_digest_is_the_sha1_hex_of_password_and_salt() {
    // sign-in must recompute exactly SHA-1("a" + "bc") = SHA-1("abc"),
    // whose hexadecimal rendering is a published reference value.
    let mut store = MemoryUserStore::new();
    store
        .create_user(&User {
            id: 0,
            email: "vector@example.com".to_string(),
            password: "a9993e364706816aba3e25717850c26c9cd0d89d".to_string(),
            salt: "bc".to_string(),
            is_admin: false,
            created_at: "t".to_string(),
            updated_at: "t".to_string(),
        })
        .unwrap();
    let op = UserOperator::new(store, Keeper::new("a-signing-secret".to_string(), 2));
    assert!(op.sign_in("vector@example.com", "a").is_ok());
    assert!(matches!(
        op.sign_in("vector@example.com", "b"),
        Err(ServiceError::WrongPassword)
    ));
}

#[test]
fn admin_accounts_sign_in_at_the_admin_tier() {
    let mut store = MemoryUserStore::new();
    store
        .create_user(&User {
            id: 0,
            email: "root@example.com".to_string(),
            password: "a9993e364706816aba3e25717850c26c9cd0d89d".to_string(),
            salt: "bc".to_string(),
            is_admin: true,
            created_at: "t".to_string(),
            updated_at: "t".to_string(),
        })
        .unwrap();
    let op = UserOperator::new(store, Keeper::new("a-signing-secret".to_string(), 2));
    let ut = op.sign_in("root@example.com", "a").unwrap();
    assert_eq!(op.has_permission(&ut.token, UserPermission::PermAdmin), Ok(true));
}

#[test]
fn review_update_rejects_empty_title_or_content() {
    let mut op = ReviewOperator::new(MemoryReviewStore::new());
    let body = ReviewBody {
        book_id: 1,
        author: "r".to_string(),
        title: "t".to_string(),
        content: "c".to_string(),
    };
    let created = op.create_review(&body).unwrap();
    let empty_title = ReviewBody {
        book_id: 1,
        author: "r".to_string(),
        title: String::new(),
        content: "c".to_string(),
    };
    assert!(matches!(
        op.update_review(&created.id, empty_title),
        Err(ServiceError::EmptyReviewField)
    ));
    let empty_content = ReviewBody {
        book_id: 1,
        author: "r".to_string(),
        title: "t".to_string(),
        content: String::new(),
    };
    assert!(matches!(
        op.update_review(&created.id, empty_content),
        Err(ServiceError::EmptyReviewField)
    ));
}

#[test]
fn review_create_timestamps_match_and_update_preserves_identity() {
    let mut op = ReviewOperator::new(MemoryReviewStore::new());
    let body = ReviewBody {
        book_id: 7,
        author: "first author".to_string(),
        title: "original".to_string(),
        content: "original words".to_string(),
    };
    let created = op.create_review(&body).unwrap();
    assert_eq!(created.created_at, created.updated_at);
    let replacement = ReviewBody {
        book_id: 9,
        author: "other author".to_string(),
        title: "revised".to_string(),
        content: "revised words".to_string(),
    };
    op.update_review(&created.id, replacement).unwrap();
    let stored = op.get_review(&created.id).unwrap().unwrap();
    assert_eq!(stored.title, "revised");
    assert_eq!(stored.content, "revised words");
    assert_eq!(stored.book_id, 7);
    assert_eq!(stored.author, "first author");
    assert_eq!(stored.created_at, created.created_at);
}

#[test]
fn error_messages_are_the_documented_texts() {
    assert_eq!(ServiceError::EmptyEmail.message(), "empty email");
    assert_eq!(ServiceError::EmptyPassword.message(), "empty password");
    assert_eq!(ServiceError::WrongPassword.message(), "wrong password");
    assert_eq!(ServiceError::UserNotFound.message(), "user does not exist");
    assert_eq!(
        ServiceError::EmptyReviewField.message(),
        "Required field cannot be empty"
    );
    assert_eq!(
        ServiceError::ExpiryOverflow.message(),
        "Overflow when adding expire time"
    );
}

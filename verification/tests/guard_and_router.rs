use book_catalog::dto::{ReviewBody, UserCredential};
use book_catalog::gateway::PermissionManager;
use book_catalog::jwt::Keeper;
use book_catalog::memory::{MemoryBookStore, MemoryCache, MemoryReviewStore, MemoryUserStore};
use book_catalog::middleware::{extract_bearer, GuardOutcome, PermCheck};
use book_catalog::model::{Book, UserPermission};
use book_catalog::router::{
    create_book, create_review, delete_book, delete_review, get_book, get_books, get_review,
    get_reviews_of_book, health_check, make_router, update_book, update_review, user_sign_in,
    user_sign_up, RestHandler,
};

type Handler = RestHandler<MemoryBookStore, MemoryCache, MemoryReviewStore, MemoryUserStore, Keeper>;

fn fresh_handler() -> Handler {
    make_router(
        MemoryBookStore::new(10),
        MemoryCache::new(),
        MemoryReviewStore::new(),
        MemoryUserStore::new(),
        Keeper::new("a-signing-secret".to_string(), 2),
    )
}

fn mk_book(title: &str, author: &str) -> Book {
    Book {
        id: 0,
        title: title.to_string(),
        author: author.to_string(),
        published_at: "2001-01-01".to_string(),
        description: "d".to_string(),
        isbn: "i".to_string(),
        total_pages: 100,
        created_at: "c".to_string(),
        updated_at: "u".to_string(),
    }
}

#[test]
fn health_answer_is_fixed() {
    assert_eq!(health_check(), "{\"status\":\"ok\"}");
}

#[test]
fn bearer_marker_is_stripped_repeatedly() {
    assert_eq!(extract_bearer("Bearer abc"), "abc");
    assert_eq!(extract_bearer("Bearer Bearer abc"), "abc");
    assert_eq!(extract_bearer("abc"), "abc");
    assert_eq!(extract_bearer(""), "");
    assert_eq!(extract_bearer("bearer abc"), "bearer abc");
}

#[test]
fn guard_rejects_a_missing_credential_without_checking() {
    let keeper = Keeper::new("a-signing-secret".to_string(), 2);
    let outcome = PermCheck::evaluate(&keeper, None, UserPermission::PermAuthor);
    assert_eq!(outcome, GuardOutcome::MissingToken);
}

#[test]
fn guard_distinguishes_invalid_forbidden_and_admitted() {
    let keeper = Keeper::new("a-signing-secret".to_string(), 2);
    let low = keeper.generate_token(1, "u@e.c", UserPermission::PermUser).unwrap();
    let high = keeper.generate_token(2, "a@e.c", UserPermission::PermAuthor).unwrap();

    let garbled = PermCheck::evaluate(&keeper, Some("Bearer not-a-token"), UserPermission::PermAuthor);
    assert_eq!(garbled, GuardOutcome::InvalidToken);

    let header_low = format!("Bearer {}", low);
    let forbidden = PermCheck::evaluate(&keeper, Some(header_low.as_str()), UserPermission::PermAuthor);
    assert_eq!(forbidden, GuardOutcome::Forbidden);

    let header_high = format!("Bearer {}", high);
    let admitted = PermCheck::evaluate(&keeper, Some(header_high.as_str()), UserPermission::PermAuthor);
    assert_eq!(admitted, GuardOutcome::Admitted);
}

#[test]
fn book_routes_cover_create_read_update_delete() {
    let mut h = fresh_handler();
    let created = create_book(&mut h, mk_book("Alpha", "A")).unwrap();
    assert!(created.id > 0);

    let fetched = get_book(&h, created.id).unwrap();
    assert_eq!(fetched.title, "Alpha");

    let mut newer = mk_book("Beta", "B");
    newer.id = created.id;
    let echoed = update_book(&mut h, created.id, newer).unwrap();
    assert_eq!(echoed.title, "Beta");
    assert_eq!(get_book(&h, created.id).unwrap().title, "Beta");

    delete_book(&mut h, created.id).unwrap();
    let gone = get_book(&h, created.id).unwrap_err();
    assert_eq!(gone.0, 404);
}

#[test]
fn missing_book_answers_404_naming_the_id() {
    let h = fresh_handler();
    let e = get_book(&h, 5).unwrap_err();
    assert_eq!(e.0, 404);
    assert_eq!(e.1.error, "book 5 not found");
}

#[test]
fn missing_review_answers_404_naming_the_id() {
    let h = fresh_handler();
    let e = get_review(&h, "zzz").unwrap_err();
    assert_eq!(e.0, 404);
    assert_eq!(e.1.error, "review zzz not found");
}

#[test]
fn listing_route_defaults_offset_and_keyword() {
    let mut h = fresh_handler();
    create_book(&mut h, mk_book("Alpha", "A")).unwrap();
    create_book(&mut h, mk_book("Beta", "B")).unwrap();
    let all = get_books(&mut h, None, None).unwrap();
    assert_eq!(all.len(), 2);
    let hits = get_books(&mut h, None, Some("beta")).unwrap();
    assert_eq!(hits.len(), 1);
    assert_eq!(hits[0].title, "Beta");
}

#[test]
fn review_routes_cover_create_read_update_delete() {
    let mut h = fresh_handler();
    let body = ReviewBody {
        book_id: 3,
        author: "r".to_string(),
        title: "nice".to_string(),
        content: "words".to_string(),
    };
    let created = create_review(&mut h, body).unwrap();
    assert!(!created.id.is_empty());

    let listed = get_reviews_of_book(&h, 3, None).unwrap();
    assert_eq!(listed.len(), 1);

    let filtered = get_reviews_of_book(&h, 3, Some("WORDS")).unwrap();
    assert_eq!(filtered.len(), 1);
    let unmatched = get_reviews_of_book(&h, 3, Some("absent")).unwrap();
    assert_eq!(unmatched.len(), 0);

    let newer = ReviewBody {
        book_id: 3,
        author: "r".to_string(),
        title: "revised".to_string(),
        content: "better words".to_string(),
    };
    update_review(&mut h, &created.id, newer).unwrap();
    assert_eq!(get_review(&h, &created.id).unwrap().title, "revised");

    delete_review(&mut h, &created.id).unwrap();
    assert_eq!(get_review(&h, &created.id).unwrap_err().0, 404);
}

#[test]
fn empty_review_update_surfaces_the_validation_message() {
    let mut h = fresh_handler();
    let empty = ReviewBody {
        book_id: 1,
        author: "r".to_string(),
        title: String::new(),
        content: "c".to_string(),
    };
    let e = update_review(&mut h, "1", empty).unwrap_err();
    assert_eq!(e.0, 500);
    assert_eq!(e.1.error, "Required field cannot be empty");
}

#[test]
fn sign_up_and_sign_in_through_the_routes() {
    let mut h = fresh_handler();
    let cred = UserCredential { email: "a@b.c".to_string(), password: "pw".to_string() };
    let u = user_sign_up(&mut h, cred).unwrap();
    assert_eq!(u.email, "a@b.c");

    let good = UserCredential { email: "a@b.c".to_string(), password: "pw".to_string() };
    let ut = user_sign_in(&h, good).unwrap();
    assert_eq!(ut.user.email, "a@b.c");
    assert!(!ut.token.is_empty());

    let bad = UserCredential { email: "a@b.c".to_string(), password: "nope".to_string() };
    let wrong = user_sign_in(&h, bad).unwrap_err();
    assert_eq!(wrong.1.error, "wrong password");

    let unknown = UserCredential { email: "x@y.z".to_string(), password: "pw".to_string() };
    let missing = user_sign_in(&h, unknown).unwrap_err();
    assert_eq!(missing.1.error, "user does not exist");
}

#[test]
fn empty_credentials_surface_their_messages_through_the_routes() {
    let mut h = fresh_handler();
    let no_email = UserCredential { email: String::new(), password: "pw".to_string() };
    let e = user_sign_up(&mut h, no_email).unwrap_err();
    assert_eq!((e.0, e.1.error.as_str()), (500, "empty email"));

    let no_password = UserCredential { email: "a@b.c".to_string(), password: String::new() };
    let e2 = user_sign_up(&mut h, no_password).unwrap_err();
    assert_eq!((e2.0, e2.1.error.as_str()), (500, "empty password"));
}

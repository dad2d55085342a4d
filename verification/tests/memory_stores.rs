use book_catalog::cache::Helper;
use book_catalog::gateway::{BookManager, ReviewManager, UserManager};
use book_catalog::memory::{MemoryBookStore, MemoryCache, MemoryReviewStore, MemoryUserStore};
use book_catalog::model::{Book, Review, User};

fn mk_book(title: &str, author: &str) -> Book {
    Book {
        id: 0,
        title: title.to_string(),
        author: author.to_string(),
        published_at: "2001-01-01".to_string(),
        description: "d".to_string(),
        isbn: "i".to_string(),
        total_pages: 100,
        created_at: "c0".to_string(),
        updated_at: "u0".to_string(),
    }
}

fn mk_review(book_id: u32, title: &str, content: &str) -> Review {
    Review {
        id: String::new(),
        book_id,
        author: "critic".to_string(),
        title: title.to_string(),
        content: content.to_string(),
        created_at: 1000,
        updated_at: 1000,
    }
}

#[test]
fn cache_save_then_load_returns_the_value() {
    let mut cache = MemoryCache::new();
    assert_eq!(cache.load("k"), Ok(None));
    cache.save("k", "v1").unwrap();
    assert_eq!(cache.load("k"), Ok(Some("v1".to_string())));
    cache.save("k", "v2").unwrap();
    assert_eq!(cache.load("k"), Ok(Some("v2".to_string())));
    assert_eq!(cache.load("other"), Ok(None));
}

#[test]
fn book_store_assigns_distinct_ids_and_finds_by_id() {
    let mut store = MemoryBookStore::new(10);
    let id1 = store.create_book(&mk_book("One", "A")).unwrap();
    let id2 = store.create_book(&mk_book("Two", "B")).unwrap();
    assert_ne!(id1, id2);
    let found = store.get_book(id2).unwrap().unwrap();
    assert_eq!(found.id, id2);
    assert_eq!(found.title, "Two");
    assert!(store.get_book(9999).unwrap().is_none());
}

#[test]
fn book_update_replaces_fields_but_keeps_id_and_creation() {
    let mut store = MemoryBookStore::new(10);
    let id = store.create_book(&mk_book("Before", "A")).unwrap();
    let mut replacement = mk_book("After", "B");
    replacement.created_at = "c9".to_string();
    store.update_book(id, &replacement).unwrap();
    let got = store.get_book(id).unwrap().unwrap();
    assert_eq!(got.id, id);
    assert_eq!(got.title, "After");
    assert_eq!(got.author, "B");
    assert_eq!(got.created_at, "c0");
}

#[test]
fn book_delete_removes_only_the_id() {
    let mut store = MemoryBookStore::new(10);
    let id1 = store.create_book(&mk_book("One", "A")).unwrap();
    let id2 = store.create_book(&mk_book("Two", "B")).unwrap();
    store.delete_book(id1).unwrap();
    assert!(store.get_book(id1).unwrap().is_none());
    assert!(store.get_book(id2).unwrap().is_some());
}

#[test]
fn listing_pages_window_the_store() {
    let mut store = MemoryBookStore::new(2);
    for i in 0..5 {
        store.create_book(&mk_book(&format!("T{}", i), "A")).unwrap();
    }
    let p0 = store.get_books(0, "").unwrap();
    assert_eq!(p0.len(), 2);
    assert_eq!(p0[0].title, "T0");
    assert_eq!(p0[1].title, "T1");
    let p2 = store.get_books(4, "").unwrap();
    assert_eq!(p2.len(), 1);
    assert_eq!(p2[0].title, "T4");
    assert_eq!(store.get_books(9, "").unwrap().len(), 0);
}

#[test]
fn keyword_matches_title_and_author_ignoring_ascii_case() {
    let mut store = MemoryBookStore::new(10);
    store.create_book(&mk_book("The Rust Book", "Steve")).unwrap();
    store.create_book(&mk_book("Gardening", "Trustworthy Tom")).unwrap();
    store.create_book(&mk_book("Cooking", "Carol")).unwrap();
    let hits = store.get_books(0, "rUSt").unwrap();
    assert_eq!(hits.len(), 2);
    assert_eq!(hits[0].title, "The Rust Book");
    assert_eq!(hits[1].author, "Trustworthy Tom");
    assert_eq!(store.get_books(0, "quantum").unwrap().len(), 0);
}

#[test]
fn user_store_finds_by_email_or_reports_absence() {
    let mut store = MemoryUserStore::new();
    let user = User {
        id: 0,
        email: "a@b.c".to_string(),
        password: "digest".to_string(),
        salt: "ssss".to_string(),
        is_admin: false,
        created_at: "t".to_string(),
        updated_at: "t".to_string(),
    };
    let id = store.create_user(&user).unwrap();
    let found = store.get_user_by_email("a@b.c").unwrap().unwrap();
    assert_eq!(found.id, id);
    assert_eq!(found.salt, "ssss");
    assert!(store.get_user_by_email("x@y.z").unwrap().is_none());
}

#[test]
fn review_store_assigns_string_ids_and_updates_in_place() {
    let mut store = MemoryReviewStore::new();
    let id = store.create_review(&mk_review(3, "ok", "fine")).unwrap();
    assert!(!id.is_empty());
    let mut newer = mk_review(9, "great", "loved it");
    newer.author = "someone else".to_string();
    newer.created_at = 2000;
    newer.updated_at = 2000;
    store.update_review(&id, &newer).unwrap();
    let got = store.get_review(&id).unwrap().unwrap();
    assert_eq!(got.title, "great");
    assert_eq!(got.content, "loved it");
    assert_eq!(got.book_id, 3);
    assert_eq!(got.author, "critic");
    assert_eq!(got.created_at, 1000);
}

#[test]
fn review_listing_filters_by_book_and_keyword() {
    let mut store = MemoryReviewStore::new();
    store.create_review(&mk_review(1, "Superb", "really GOOD stuff")).unwrap();
    store.create_review(&mk_review(1, "Meh", "boring")).unwrap();
    store.create_review(&mk_review(2, "Good", "also good")).unwrap();
    let all_of_1 = store.get_reviews_of_book(1, "").unwrap();
    assert_eq!(all_of_1.len(), 2);
    let good_of_1 = store.get_reviews_of_book(1, "good").unwrap();
    assert_eq!(good_of_1.len(), 1);
    assert_eq!(good_of_1[0].title, "Superb");
}

#[test]
fn review_delete_removes_by_id() {
    let mut store = MemoryReviewStore::new();
    let id1 = store.create_review(&mk_review(1, "a", "b")).unwrap();
    let id2 = store.create_review(&mk_review(1, "c", "d")).unwrap();
    store.delete_review(&id1).unwrap();
    assert!(store.get_review(&id1).unwrap().is_none());
    assert!(store.get_review(&id2).unwrap().is_some());
}

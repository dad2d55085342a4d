use book_catalog::book_operator::BookOperator;
use book_catalog::cache::Helper;
use book_catalog::errors::ServiceError;
use book_catalog::gateway::BookManager;
use book_catalog::memory::{MemoryBookStore, MemoryCache};
use book_catalog::model::Book;

fn mk_book(title: &str, author: &str) -> Book {
    Book {
        id: 0,
        title: title.to_string(),
        author: author.to_string(),
        published_at: "2001-01-01".to_string(),
        description: "d".to_string(),
        isbn: "i".to_string(),
        total_pages: 100,
        created_at: "c".to_string(),
        updated_at: "u".to_string(),
    }
}

fn titles(page: &[Book]) -> Vec<String> {
    page.iter().map(|b| b.title.clone()).collect()
}

/// A cache double that fails on any call, proving a code path never touches
/// the cache.
struct ExplodingCache;

impl Helper for ExplodingCache {
    fn cache(&self) -> vstd::map::Map<vstd::seq::Seq<char>, vstd::seq::Seq<char>> {
        unreachable!()
    }

    fn save(&mut self, _key: &str, _value: &str) -> Result<(), ServiceError> {
        panic!("the cache was consulted");
    }

    fn load(&self, _key: &str) -> Result<Option<String>, ServiceError> {
        panic!("the cache was consulted");
    }
}

#[test]
fn listing_within_ttl_ignores_store_changes() {
    let mut store = MemoryBookStore::new(10);
    store.create_book(&mk_book("Original", "A")).unwrap();
    let mut op = BookOperator::new(store, MemoryCache::new());

    let first = op.get_books(0, "").unwrap();
    assert_eq!(titles(&first), vec!["Original"]);

    op.create_book(mk_book("Late Arrival", "B")).unwrap();

    let second = op.get_books(0, "").unwrap();
    assert_eq!(titles(&second), titles(&first));
}

#[test]
fn search_bypasses_a_cache_that_fails_on_any_call() {
    let mut store = MemoryBookStore::new(10);
    store.create_book(&mk_book("Needle in Hay", "A")).unwrap();
    store.create_book(&mk_book("Other", "B")).unwrap();
    let mut op = BookOperator::new(store, ExplodingCache);

    let hits = op.get_books(0, "needle").unwrap();
    assert_eq!(titles(&hits), vec!["Needle in Hay"]);
}

#[test]
fn search_always_reflects_the_live_store() {
    let mut op = BookOperator::new(MemoryBookStore::new(10), MemoryCache::new());
    op.create_book(mk_book("Seed", "A")).unwrap();
    assert_eq!(op.get_books(0, "seed").unwrap().len(), 1);
    op.create_book(mk_book("Seedling", "B")).unwrap();
    assert_eq!(op.get_books(0, "seed").unwrap().len(), 2);
}

#[test]
fn end_to_end_staleness_window() {
    let mut op = BookOperator::new(MemoryBookStore::new(10), MemoryCache::new());

    let created = op.create_book(mk_book("First Edition", "A")).unwrap();

    // A miss snapshots the page holding the new book.
    let page = op.get_books(0, "").unwrap();
    assert_eq!(titles(&page), vec!["First Edition"]);

    // The update reaches the store...
    let mut second = mk_book("Second Edition", "A");
    second.id = created.id;
    op.update_book(created.id, second).unwrap();
    let live = op.get_book(created.id).unwrap().unwrap();
    assert_eq!(live.title, "Second Edition");

    // ...but within the TTL the cached listing still shows the old snapshot.
    let stale = op.get_books(0, "").unwrap();
    assert_eq!(titles(&stale), vec!["First Edition"]);
}

#[test]
fn distinct_offsets_use_distinct_cache_entries() {
    let mut store = MemoryBookStore::new(1);
    for i in 0..3 {
        store.create_book(&mk_book(&format!("T{}", i), "A")).unwrap();
    }
    let mut op = BookOperator::new(store, MemoryCache::new());
    assert_eq!(titles(&op.get_books(0, "").unwrap()), vec!["T0"]);
    assert_eq!(titles(&op.get_books(1, "").unwrap()), vec!["T1"]);
    assert_eq!(titles(&op.get_books(2, "").unwrap()), vec!["T2"]);
}

#[test]
fn cache_failure_fails_the_listing_rather_than_degrading() {
    let mut store = MemoryBookStore::new(10);
    store.create_book(&mk_book("Anything", "A")).unwrap();
    let mut op = BookOperator::new(store, RefusingCache);
    assert!(matches!(op.get_books(0, ""), Err(ServiceError::CacheFailure)));
}

/// A cache double whose calls fail with an error instead of panicking.
struct RefusingCache;

impl Helper for RefusingCache {
    fn cache(&self) -> vstd::map::Map<vstd::seq::Seq<char>, vstd::seq::Seq<char>> {
        unreachable!()
    }

    fn save(&mut self, _key: &str, _value: &str) -> Result<(), ServiceError> {
        Err(ServiceError::CacheFailure)
    }

    fn load(&self, _key: &str) -> Result<Option<String>, ServiceError> {
        Err(ServiceError::CacheFailure)
    }
}

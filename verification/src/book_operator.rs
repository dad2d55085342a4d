//! The catalog flows, with the cache-aside read path for listings.
//!
//! Listing with an empty keyword is the hottest query: its pages are served
//! from a key-value cache keyed by offset, populated on miss with the page
//! fetched from the store, and never proactively invalidated — a write to
//! the catalog leaves cached pages as they are, so listings may be stale
//! until the cache entry's time-to-live runs out. Keyword searches bypass
//! the cache entirely. `list_outcome` pins the whole policy down, and the
//! lemmas at the end of this module state its consequences.

use vstd::prelude::*;

use crate::cache::Helper;
use crate::codec::{
    book_fits, decode_page, decode_page_spec, dec_rep, encode_page, encode_page_spec, push_dec,
};
use crate::errors::ServiceError;
use crate::gateway::{book_created, book_updated, page_of, BookManager};
use crate::model::{views_of, Book, BookView};

verus! {

/// The cache key under which the listing page at an offset is stored.
pub open spec fn books_key(offset: u32) -> Seq<char> {
    "lr-books-"@ + dec_rep(offset as nat)
}

/// Builds the cache key for the listing page at an offset.
pub fn books_key_exec(offset: u32) -> (r: String)
    ensures
        r@ == books_key(offset),
{
    let mut s = String::from_str("lr-books-");
    push_dec(&mut s, offset as u64);
    s
}

/// What one listing returns and what it leaves in the cache, as a function
/// of the cache contents, the store contents and the query: a non-empty
/// keyword reads the store and leaves the cache alone; an empty keyword is
/// served from the cache when its page is present — nothing says the cached
/// page agrees with the store — and otherwise from the store, whose page is
/// written back. A cached text that does not decode yields no page.
pub open spec fn list_outcome(
    cache: Map<Seq<char>, Seq<char>>,
    books: Seq<BookView>,
    psz: int,
    offset: u32,
    query: Seq<char>,
) -> (Option<Seq<BookView>>, Map<Seq<char>, Seq<char>>) {
    if query.len() > 0 {
        (Some(page_of(books, offset as int, psz, query)), cache)
    } else {
        let key = books_key(offset);
        if cache.contains_key(key) {
            (decode_page_spec(cache[key]), cache)
        } else {
            let page = page_of(books, offset as int, psz, Seq::empty());
            (Some(page), cache.insert(key, encode_page_spec(page)))
        }
    }
}

/// The catalog flows over any book store and any cache.
pub struct BookOperator<B: BookManager, C: Helper> {
    book_manager: B,
    cache_helper: C,
}

impl<B: BookManager, C: Helper> BookOperator<B, C> {
    /// The books of the underlying store.
    pub closed spec fn books(&self) -> Seq<BookView> {
        self.book_manager.books()
    }

    /// The store's listing page size.
    pub closed spec fn page_size(&self) -> int {
        self.book_manager.page_size()
    }

    /// The contents of the cache.
    pub closed spec fn cache(&self) -> Map<Seq<char>, Seq<char>> {
        self.cache_helper.cache()
    }

    /// Wires the operator to its store and cache.
    pub fn new(b: B, c: C) -> (r: Self)
        ensures
            r.books() == b.books(),
            r.page_size() == b.page_size(),
            r.cache() == c.cache(),
    {
        BookOperator { book_manager: b, cache_helper: c }
    }

    /// Stores a new book; the cache is left untouched, stale pages included.
    pub fn create_book(&mut self, b: Book) -> (r: Result<Book, ServiceError>)
        ensures
            final(self).cache() == old(self).cache(),
            final(self).page_size() == old(self).page_size(),
            r is Err ==> final(self).books() == old(self).books(),
            match r {
                Ok(bk) => {
                    &&& final(self).books().len() == old(self).books().len() + 1
                    &&& final(self).books().subrange(0, old(self).books().len() as int) == old(
                        self,
                    ).books()
                    &&& book_created(final(self).books().last(), b@, bk.id)
                    &&& forall|k: int|
                        0 <= k < old(self).books().len() ==> (#[trigger] old(
                            self,
                        ).books()[k]).id != bk.id
                    &&& bk@.title == b@.title
                    &&& bk@.author == b@.author
                    &&& bk@.published_at == b@.published_at
                    &&& bk@.description == b@.description
                    &&& bk@.isbn == b@.isbn
                    &&& bk@.total_pages == b@.total_pages
                },
                Err(_) => true,
            },
    {
        match self.book_manager.create_book(&b) {
            Err(e) => Err(e),
            Ok(id) => {
                let mut book = b;
                book.id = id;
                Ok(book)
            },
        }
    }

    /// Looks one book up by id, straight from the store.
    pub fn get_book(&self, id: u32) -> (r: Result<Option<Book>, ServiceError>)
        ensures
            match r {
                Ok(Some(bk)) => self.books().contains(bk@) && bk@.id == id,
                Ok(None) => forall|k: int|
                    0 <= k < self.books().len() ==> (#[trigger] self.books()[k]).id != id,
                Err(_) => true,
            },
    {
        self.book_manager.get_book(id)
    }

    /// The cache-aside listing; see `list_outcome` for the policy it is held
    /// to. In particular a non-empty keyword never consults or populates the
    /// cache, and a cache hit is returned without re-validation against the
    /// store.
    pub fn get_books(&mut self, offset: u32, query: &str) -> (r: Result<Vec<Book>, ServiceError>)
        ensures
            final(self).books() == old(self).books(),
            final(self).page_size() == old(self).page_size(),
            query@.len() > 0 ==> final(self).cache() == old(self).cache(),
            match r {
                Ok(page) => {
                    let (expect, after) = list_outcome(
                        old(self).cache(),
                        old(self).books(),
                        old(self).page_size(),
                        offset,
                        query@,
                    );
                    expect == Some(views_of(page@)) && final(self).cache() == after
                },
                Err(_) => true,
            },
            query@.len() == 0 && old(self).cache().contains_key(books_key(offset))
                && decode_page_spec(old(self).cache()[books_key(offset)]) is None ==> r is Err,
            r matches Err(e) ==> e == ServiceError::StoreFailure || e
                == ServiceError::CacheFailure,
            query@.len() > 0 ==> (r matches Err(e) ==> e == ServiceError::StoreFailure),
    {
        if !query.is_empty() {
            return match self.book_manager.get_books(offset, query) {
                Err(_) => Err(ServiceError::StoreFailure),
                Ok(page) => Ok(page),
            };
        }
        let key = books_key_exec(offset);
        let cached = match self.cache_helper.load(key.as_str()) {
            Err(_) => {
                return Err(ServiceError::CacheFailure);
            },
            Ok(cached) => cached,
        };
        match cached {
            Some(text) => match decode_page(text.as_str()) {
                None => Err(ServiceError::CacheFailure),
                Some(page) => Ok(page),
            },
            None => {
                let fetched = match self.book_manager.get_books(offset, "") {
                    Err(_) => {
                        return Err(ServiceError::StoreFailure);
                    },
                    Ok(fetched) => fetched,
                };
                proof {
                    reveal_strlit("");
                    assert(""@ =~= Seq::<char>::empty());
                }
                let encoded = encode_page(&fetched);
                match self.cache_helper.save(key.as_str(), encoded.as_str()) {
                    Err(_) => Err(ServiceError::CacheFailure),
                    Ok(_) => Ok(fetched),
                }
            },
        }
    }

    /// Rewrites the stored books carrying the given id and echoes the
    /// caller's book back unchanged; the cache is left untouched, so cached
    /// pages may keep showing the pre-update snapshot until they expire.
    pub fn update_book(&mut self, id: u32, b: Book) -> (r: Result<Book, ServiceError>)
        ensures
            final(self).cache() == old(self).cache(),
            final(self).page_size() == old(self).page_size(),
            r is Err ==> final(self).books() == old(self).books(),
            match r {
                Ok(bk) => {
                    &&& bk == b
                    &&& final(self).books().len() == old(self).books().len()
                    &&& forall|k: int|
                        0 <= k < old(self).books().len() && old(self).books()[k].id == id
                            ==> book_updated(
                            old(self).books()[k],
                            #[trigger] final(self).books()[k],
                            b@,
                        )
                    &&& forall|k: int|
                        0 <= k < old(self).books().len() && old(self).books()[k].id != id
                            ==> #[trigger] final(self).books()[k] == old(self).books()[k]
                },
                Err(_) => true,
            },
    {
        match self.book_manager.update_book(id, &b) {
            Err(e) => Err(e),
            Ok(_) => Ok(b),
        }
    }

    /// Removes the stored books carrying the given id; the cache is left
    /// untouched.
    pub fn delete_book(&mut self, id: u32) -> (r: Result<(), ServiceError>)
        ensures
            final(self).cache() == old(self).cache(),
            final(self).page_size() == old(self).page_size(),
            match r {
                Ok(_) => final(self).books() == old(self).books().filter(
                    |bk: BookView| bk.id != id,
                ),
                Err(_) => final(self).books() == old(self).books(),
            },
    {
        self.book_manager.delete_book(id)
    }
}

/// Every element of a filtered sequence is an element of the original.
proof fn lemma_filter_subset<A>(s: Seq<A>, pred: spec_fn(A) -> bool)
    ensures
        forall|i: int|
            0 <= i < s.filter(pred).len() ==> s.contains(#[trigger] s.filter(pred)[i]),
    decreases s.len(),
{
    reveal(Seq::filter);
    if s.len() > 0 {
        lemma_filter_subset(s.drop_last(), pred);
        let f = s.filter(pred);
        let df = s.drop_last().filter(pred);
        assert forall|i: int| 0 <= i < f.len() implies s.contains(#[trigger] f[i]) by {
            if i < df.len() {
                assert(df[i] == f[i]);
                let j = choose|j: int| 0 <= j < s.drop_last().len() && s.drop_last()[j] == df[i];
                assert(s[j] == f[i]);
            } else {
                assert(f[i] == s.last());
                assert(s[s.len() - 1] == f[i]);
            }
        }
    }
}

/// Cache-hit consistency: while a page sits in the cache under the offset's
/// key, listings with an empty keyword are determined by the cache alone —
/// two consecutive listings return the same page and leave the cache as it
/// was, whatever happened to the store's books or page size in between.
pub proof fn lemma_cache_hit_consistency(
    cache: Map<Seq<char>, Seq<char>>,
    books1: Seq<BookView>,
    books2: Seq<BookView>,
    psz1: int,
    psz2: int,
    offset: u32,
)
    requires
        cache.contains_key(books_key(offset)),
    ensures
        ({
            let (r1, c1) = list_outcome(cache, books1, psz1, offset, Seq::empty());
            let (r2, c2) = list_outcome(cache, books2, psz2, offset, Seq::empty());
            r1 == r2 && c1 == cache && c2 == cache
        }),
{
}

/// Keyword-search bypass: a listing with a non-empty keyword returns the
/// store's matching page and leaves the cache exactly as it was, hit or no
/// hit.
pub proof fn lemma_search_bypasses_cache(
    cache: Map<Seq<char>, Seq<char>>,
    books: Seq<BookView>,
    psz: int,
    offset: u32,
    query: Seq<char>,
)
    requires
        query.len() > 0,
    ensures
        list_outcome(cache, books, psz, offset, query) == (
            Some(page_of(books, offset as int, psz, query)),
            cache,
        ),
{
}

/// The staleness window: a listing miss snapshots the store's page into the
/// cache, and every later listing at that offset inside the entry's lifetime
/// returns that snapshot — not the live page — whatever the store holds by
/// then.
pub proof fn lemma_staleness_window(
    cache: Map<Seq<char>, Seq<char>>,
    books1: Seq<BookView>,
    books2: Seq<BookView>,
    psz1: int,
    psz2: int,
    offset: u32,
)
    requires
        !cache.contains_key(books_key(offset)),
        psz1 >= 0,
        forall|k: int| 0 <= k < books1.len() ==> book_fits(#[trigger] books1[k]),
        books1.len() <= u64::MAX,
    ensures
        ({
            let (r1, c1) = list_outcome(cache, books1, psz1, offset, Seq::empty());
            let (r2, c2) = list_outcome(c1, books2, psz2, offset, Seq::empty());
            &&& r1 == Some(page_of(books1, offset as int, psz1, Seq::empty()))
            &&& r2 == r1
            &&& c2 == c1
        }),
{
    let q = Seq::<char>::empty();
    let page = page_of(books1, offset as int, psz1, q);
    let m = crate::gateway::matching_books(books1, q);
    lemma_filter_subset(books1, |b: BookView| crate::gateway::book_matches(b, q));
    books1.lemma_filter_len(|b: BookView| crate::gateway::book_matches(b, q));
    assert(m.len() <= books1.len());
    if offset as int <= m.len() {
        assert(page.len() <= m.len());
        assert forall|k: int| 0 <= k < page.len() implies book_fits(#[trigger] page[k]) by {
            assert(page[k] == m[offset as int + k]);
            assert(books1.contains(m[offset as int + k]));
            let l = choose|l: int| 0 <= l < books1.len() && books1[l] == m[offset as int + k];
            assert(book_fits(books1[l]));
        }
    } else {
        assert(page.len() == 0);
    }
    assert(page.len() <= u64::MAX);
    crate::codec::lemma_decode_encode(page);
}

} // verus!

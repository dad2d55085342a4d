//! In-memory backends: one verified implementation of each storage-gateway
//! capability and of the cache contract. They serve as the embedded engine
//! of the service and as the reference against which the gateway contracts
//! are kept honest.

use vstd::prelude::*;

use crate::cache::Helper;
use crate::codec::{dec_rep, dec_string};
use crate::errors::ServiceError;
use crate::gateway::{
    book_matches, book_updated, matching_books, page_of, review_matches, review_updated,
    BookManager, ReviewManager, UserManager,
};
use crate::model::{
    review_views_of, user_views_of, views_of, Book, BookView, Review, ReviewView, User, UserView,
};
use crate::text::{contains_ci_exec, str_eq};

verus! {

/// Splitting a filter at a pushed element.
proof fn lemma_filter_push<A>(s: Seq<A>, pred: spec_fn(A) -> bool, x: A)
    ensures
        s.push(x).filter(pred) == if pred(x) {
            s.filter(pred).push(x)
        } else {
            s.filter(pred)
        },
{
    reveal(Seq::filter);
    assert(s.push(x).drop_last() =~= s);
    assert(s.push(x).last() == x);
}

/// One stored cache line.
struct CacheEntry {
    key: String,
    value: String,
}

/// The contents that a run of cache lines denotes: later lines override
/// earlier ones.
spec fn entries_map(es: Seq<CacheEntry>) -> Map<Seq<char>, Seq<char>>
    decreases es.len(),
{
    if es.len() == 0 {
        Map::empty()
    } else {
        entries_map(es.drop_last()).insert(es.last().key@, es.last().value@)
    }
}

/// Looking a key up among the lines finds the latest line that carries it.
proof fn lemma_entries_map_found(es: Seq<CacheEntry>, i: int, k: Seq<char>)
    requires
        0 <= i < es.len(),
        es[i].key@ == k,
        forall|j: int| i < j < es.len() ==> (#[trigger] es[j]).key@ != k,
    ensures
        entries_map(es).contains_key(k),
        entries_map(es)[k] == es[i].value@,
    decreases es.len(),
{
    if i == es.len() - 1 {
    } else {
        assert(es.last().key@ != k);
        assert(forall|j: int|
            i < j < es.drop_last().len() ==> (#[trigger] es.drop_last()[j]).key@ != k);
        lemma_entries_map_found(es.drop_last(), i, k);
    }
}

/// A key carried by no line is absent from the contents.
proof fn lemma_entries_map_absent(es: Seq<CacheEntry>, k: Seq<char>)
    requires
        forall|j: int| 0 <= j < es.len() ==> (#[trigger] es[j]).key@ != k,
    ensures
        !entries_map(es).contains_key(k),
    decreases es.len(),
{
    if es.len() > 0 {
        assert(es.last().key@ != k);
        lemma_entries_map_absent(es.drop_last(), k);
    }
}

/// An in-memory key-value cache.
pub struct MemoryCache {
    entries: Vec<CacheEntry>,
}

impl MemoryCache {
    /// An empty cache.
    pub fn new() -> (r: Self)
        ensures
            r.cache() == Map::<Seq<char>, Seq<char>>::empty(),
    {
        MemoryCache { entries: Vec::new() }
    }
}

impl Helper for MemoryCache {
    closed spec fn cache(&self) -> Map<Seq<char>, Seq<char>> {
        entries_map(self.entries@)
    }

    fn save(&mut self, key: &str, value: &str) -> (r: Result<(), ServiceError>)
        ensures
            r is Ok,
    {
        let entry = CacheEntry { key: String::from_str(key), value: String::from_str(value) };
        self.entries.push(entry);
        proof {
            assert(self.entries@.drop_last() =~= old(self).entries@);
        }
        Ok(())
    }

    fn load(&self, key: &str) -> (r: Result<Option<String>, ServiceError>)
        ensures
            r is Ok,
    {
        let mut i = self.entries.len();
        while i > 0
            invariant
                0 <= i <= self.entries@.len(),
                forall|j: int|
                    i <= j < self.entries@.len() ==> (#[trigger] self.entries@[j]).key@ != key@,
            decreases i,
        {
            i = i - 1;
            if str_eq(self.entries[i].key.as_str(), key) {
                proof {
                    lemma_entries_map_found(self.entries@, i as int, key@);
                }
                return Ok(Some(self.entries[i].value.clone()));
            }
        }
        proof {
            lemma_entries_map_absent(self.entries@, key@);
        }
        Ok(None)
    }
}

/// An in-memory book store with a fixed listing page size.
pub struct MemoryBookStore {
    items: Vec<Book>,
    next_id: u32,
    page_size: u32,
}

impl MemoryBookStore {
    /// Whether the next assignable id is exhausted or already carried by a
    /// stored book; creation fails exactly then. A store built by `new` and
    /// grown only through this interface never collides.
    pub closed spec fn at_capacity(&self) -> bool {
        self.next_id == u32::MAX || exists|k: int|
            0 <= k < self.items@.len() && (#[trigger] self.items@[k])@.id == self.next_id
    }

    /// An empty store whose listings return pages of the given size.
    pub fn new(page_size: u32) -> (r: Self)
        ensures
            r.books() == Seq::<BookView>::empty(),
            r.page_size() == page_size as int,
            !r.at_capacity(),
    {
        let r = MemoryBookStore { items: Vec::new(), next_id: 1, page_size };
        proof {
            assert(views_of(r.items@) =~= Seq::<BookView>::empty());
        }
        r
    }
}

impl BookManager for MemoryBookStore {
    closed spec fn books(&self) -> Seq<BookView> {
        views_of(self.items@)
    }

    closed spec fn page_size(&self) -> int {
        self.page_size as int
    }

    fn create_book(&mut self, b: &Book) -> (r: Result<u32, ServiceError>)
        ensures
            (r is Err) == old(self).at_capacity(),
    {
        if self.next_id == u32::MAX {
            return Err(ServiceError::StoreFailure);
        }
        let id = self.next_id;
        let mut i: usize = 0;
        while i < self.items.len()
            invariant
                0 <= i <= self.items@.len(),
                self == old(self),
                id == self.next_id,
                forall|k: int| 0 <= k < i ==> (#[trigger] self.items@[k])@.id != id,
            decreases self.items@.len() - i,
        {
            if self.items[i].id == id {
                return Err(ServiceError::StoreFailure);
            }
            i += 1;
        }
        self.next_id = id + 1;
        let mut nb = b.clone();
        nb.id = id;
        self.items.push(nb);
        proof {
            assert(views_of(self.items@) =~= views_of(old(self).items@).push(nb@));
            assert(views_of(self.items@).subrange(0, old(self).items@.len() as int) =~= views_of(
                old(self).items@,
            ));
            assert(forall|k: int|
                0 <= k < old(self).items@.len() ==> (#[trigger] views_of(old(self).items@)[k])
                    == old(self).items@[k]@);
        }
        Ok(id)
    }

    fn update_book(&mut self, id: u32, b: &Book) -> (r: Result<(), ServiceError>)
        ensures
            r is Ok,
    {
        let mut i: usize = 0;
        while i < self.items.len()
            invariant
                0 <= i <= self.items@.len(),
                self.items@.len() == old(self).items@.len(),
                self.page_size == old(self).page_size,
                forall|k: int|
                    i <= k < self.items@.len() ==> #[trigger] self.items@[k] == old(
                        self,
                    ).items@[k],
                forall|k: int|
                    0 <= k < i && old(self).items@[k]@.id == id ==> book_updated(
                        old(self).items@[k]@,
                        (#[trigger] self.items@[k])@,
                        b@,
                    ),
                forall|k: int|
                    0 <= k < i && old(self).items@[k]@.id != id ==> #[trigger] self.items@[k]
                        == old(self).items@[k],
            decreases self.items@.len() - i,
        {
            let ghost before = self.items@;
            if self.items[i].id == id {
                let mut nb = b.clone();
                nb.id = id;
                nb.created_at = self.items[i].created_at.clone();
                self.items[i] = nb;
                proof {
                    assert(self.items@[i as int] == nb);
                    assert(book_updated(old(self).items@[i as int]@, nb@, b@));
                }
            }
            proof {
                assert(forall|k: int|
                    0 <= k < self.items@.len() && k != i ==> #[trigger] self.items@[k]
                        == before[k]);
            }
            i += 1;
        }
        proof {
            assert(self.books().len() == old(self).books().len());
            assert forall|k: int|
                0 <= k < old(self).books().len() && old(self).books()[k].id == id implies
                book_updated(old(self).books()[k], #[trigger] self.books()[k], b@) by {
                assert(old(self).books()[k] == old(self).items@[k]@);
                assert(self.books()[k] == self.items@[k]@);
            }
            assert forall|k: int|
                0 <= k < old(self).books().len() && old(self).books()[k].id != id implies
                #[trigger] self.books()[k] == old(self).books()[k] by {
                assert(old(self).books()[k] == old(self).items@[k]@);
                assert(self.books()[k] == self.items@[k]@);
            }
        }
        Ok(())
    }

    fn delete_book(&mut self, id: u32) -> (r: Result<(), ServiceError>)
        ensures
            r is Ok,
    {
        let mut out: Vec<Book> = Vec::new();
        let mut i: usize = 0;
        while i < self.items.len()
            invariant
                0 <= i <= self.items@.len(),
                self == old(self),
                views_of(out@) == views_of(self.items@.take(i as int)).filter(
                    |bk: BookView| bk.id != id,
                ),
            decreases self.items@.len() - i,
        {
            let ghost prefix = views_of(self.items@.take(i as int));
            let keep = self.items[i].id != id;
            if keep {
                let ghost before = out@;
                let copy = self.items[i].clone();
                out.push(copy);
                proof {
                    assert(views_of(out@) =~= views_of(before).push(self.items@[i as int]@));
                }
            }
            proof {
                assert(views_of(self.items@.take(i + 1)) =~= prefix.push(self.items@[i as int]@));
                lemma_filter_push(prefix, |bk: BookView| bk.id != id, self.items@[i as int]@);
            }
            i += 1;
        }
        proof {
            assert(self.items@.take(self.items@.len() as int) =~= self.items@);
        }
        self.items = out;
        Ok(())
    }

    fn get_book(&self, id: u32) -> (r: Result<Option<Book>, ServiceError>)
        ensures
            r is Ok,
    {
        let mut i: usize = 0;
        while i < self.items.len()
            invariant
                0 <= i <= self.items@.len(),
                forall|k: int| 0 <= k < i ==> (#[trigger] self.books()[k]).id != id,
            decreases self.items@.len() - i,
        {
            if self.items[i].id == id {
                let found = self.items[i].clone();
                proof {
                    assert(self.books()[i as int] == found@);
                }
                return Ok(Some(found));
            }
            i += 1;
        }
        Ok(None)
    }

    fn get_books(&self, offset: u32, keyword: &str) -> (r: Result<Vec<Book>, ServiceError>)
        ensures
            r is Ok,
    {
        let empty = keyword.is_empty();
        let mut hits: Vec<Book> = Vec::new();
        let mut i: usize = 0;
        while i < self.items.len()
            invariant
                0 <= i <= self.items@.len(),
                views_of(hits@) == matching_books(views_of(self.items@.take(i as int)), keyword@),
                empty == (keyword@.len() == 0),
            decreases self.items@.len() - i,
        {
            let ghost prefix = views_of(self.items@.take(i as int));
            let hit = empty || contains_ci_exec(self.items[i].title.as_str(), keyword)
                || contains_ci_exec(self.items[i].author.as_str(), keyword);
            if hit {
                let ghost before = hits@;
                let copy = self.items[i].clone();
                hits.push(copy);
                proof {
                    assert(views_of(hits@) =~= views_of(before).push(self.items@[i as int]@));
                }
            }
            proof {
                assert(views_of(self.items@.take(i + 1)) =~= prefix.push(self.items@[i as int]@));
                lemma_filter_push(
                    prefix,
                    |bk: BookView| book_matches(bk, keyword@),
                    self.items@[i as int]@,
                );
            }
            i += 1;
        }
        proof {
            assert(self.items@.take(self.items@.len() as int) =~= self.items@);
        }
        let ghost m = matching_books(self.books(), keyword@);
        let off = offset as usize;
        let mut page: Vec<Book> = Vec::new();
        if off >= hits.len() {
            proof {
                assert(views_of(page@) =~= page_of(
                    self.books(),
                    offset as int,
                    self.page_size(),
                    keyword@,
                ));
            }
            return Ok(page);
        }
        let end = if (self.page_size as usize) > hits.len() - off {
            hits.len()
        } else {
            off + self.page_size as usize
        };
        let mut j = off;
        while j < end
            invariant
                off <= j <= end,
                end <= hits@.len(),
                views_of(hits@) == m,
                views_of(page@) == m.subrange(off as int, j as int),
            decreases end - j,
        {
            let ghost before = page@;
            let copy = hits[j].clone();
            page.push(copy);
            proof {
                assert(m[j as int] == hits@[j as int]@);
                assert(copy@ == m[j as int]);
                assert(views_of(page@) =~= views_of(before).push(copy@));
                assert(views_of(page@) =~= m.subrange(off as int, j + 1));
            }
            j += 1;
        }
        proof {
            assert(views_of(page@) =~= page_of(
                self.books(),
                offset as int,
                self.page_size(),
                keyword@,
            ));
        }
        Ok(page)
    }
}

/// An in-memory review store.
pub struct MemoryReviewStore {
    items: Vec<Review>,
    next_id: u64,
}

impl MemoryReviewStore {
    /// Whether the next assignable id is exhausted or already carried by a
    /// stored review; creation fails exactly then. A store built by `new`
    /// and grown only through this interface never collides.
    pub closed spec fn at_capacity(&self) -> bool {
        self.next_id == u64::MAX || exists|k: int|
            0 <= k < self.items@.len() && (#[trigger] self.items@[k])@.id == dec_rep(
                self.next_id as nat,
            )
    }

    /// An empty store.
    pub fn new() -> (r: Self)
        ensures
            r.reviews() == Seq::<ReviewView>::empty(),
            !r.at_capacity(),
    {
        let r = MemoryReviewStore { items: Vec::new(), next_id: 1 };
        proof {
            assert(review_views_of(r.items@) =~= Seq::<ReviewView>::empty());
        }
        r
    }
}

impl ReviewManager for MemoryReviewStore {
    closed spec fn reviews(&self) -> Seq<ReviewView> {
        review_views_of(self.items@)
    }

    fn create_review(&mut self, rv: &Review) -> (r: Result<String, ServiceError>)
        ensures
            (r is Err) == old(self).at_capacity(),
    {
        if self.next_id == u64::MAX {
            return Err(ServiceError::StoreFailure);
        }
        let id = dec_string(self.next_id);
        let mut i: usize = 0;
        while i < self.items.len()
            invariant
                0 <= i <= self.items@.len(),
                self == old(self),
                id@ == dec_rep(self.next_id as nat),
                forall|k: int| 0 <= k < i ==> (#[trigger] self.items@[k])@.id != id@,
            decreases self.items@.len() - i,
        {
            if str_eq(self.items[i].id.as_str(), id.as_str()) {
                return Err(ServiceError::StoreFailure);
            }
            i += 1;
        }
        self.next_id = self.next_id + 1;
        let mut nr = rv.clone();
        nr.id = id.clone();
        self.items.push(nr);
        proof {
            assert(review_views_of(self.items@) =~= review_views_of(old(self).items@).push(nr@));
            assert(review_views_of(self.items@).subrange(0, old(self).items@.len() as int)
                =~= review_views_of(old(self).items@));
            assert(forall|k: int|
                0 <= k < old(self).items@.len() ==> (#[trigger] review_views_of(
                    old(self).items@,
                )[k]) == old(self).items@[k]@);
        }
        Ok(id)
    }

    fn update_review(&mut self, id: &str, rv: &Review) -> (r: Result<(), ServiceError>)
        ensures
            r is Ok,
    {
        let mut i: usize = 0;
        while i < self.items.len()
            invariant
                0 <= i <= self.items@.len(),
                self.items@.len() == old(self).items@.len(),
                forall|k: int|
                    i <= k < self.items@.len() ==> #[trigger] self.items@[k] == old(
                        self,
                    ).items@[k],
                forall|k: int|
                    0 <= k < i && old(self).items@[k]@.id == id@ ==> review_updated(
                        old(self).items@[k]@,
                        (#[trigger] self.items@[k])@,
                        rv@,
                    ),
                forall|k: int|
                    0 <= k < i && old(self).items@[k]@.id != id@ ==> #[trigger] self.items@[k]
                        == old(self).items@[k],
            decreases self.items@.len() - i,
        {
            let ghost before = self.items@;
            if str_eq(self.items[i].id.as_str(), id) {
                let mut nr = self.items[i].clone();
                nr.title = rv.title.clone();
                nr.content = rv.content.clone();
                nr.updated_at = rv.updated_at;
                self.items[i] = nr;
                proof {
                    assert(self.items@[i as int] == nr);
                    assert(review_updated(old(self).items@[i as int]@, nr@, rv@));
                }
            }
            proof {
                assert(forall|k: int|
                    0 <= k < self.items@.len() && k != i ==> #[trigger] self.items@[k]
                        == before[k]);
            }
            i += 1;
        }
        proof {
            assert(self.reviews().len() == old(self).reviews().len());
            assert forall|k: int|
                0 <= k < old(self).reviews().len() && old(self).reviews()[k].id == id@ implies
                review_updated(old(self).reviews()[k], #[trigger] self.reviews()[k], rv@) by {
                assert(old(self).reviews()[k] == old(self).items@[k]@);
                assert(self.reviews()[k] == self.items@[k]@);
            }
            assert forall|k: int|
                0 <= k < old(self).reviews().len() && old(self).reviews()[k].id != id@ implies
                #[trigger] self.reviews()[k] == old(self).reviews()[k] by {
                assert(old(self).reviews()[k] == old(self).items@[k]@);
                assert(self.reviews()[k] == self.items@[k]@);
            }
        }
        Ok(())
    }

    fn delete_review(&mut self, id: &str) -> (r: Result<(), ServiceError>)
        ensures
            r is Ok,
    {
        let mut out: Vec<Review> = Vec::new();
        let mut i: usize = 0;
        while i < self.items.len()
            invariant
                0 <= i <= self.items@.len(),
                self == old(self),
                review_views_of(out@) == review_views_of(self.items@.take(i as int)).filter(
                    |rv: ReviewView| rv.id != id@,
                ),
            decreases self.items@.len() - i,
        {
            let ghost prefix = review_views_of(self.items@.take(i as int));
            let keep = !str_eq(self.items[i].id.as_str(), id);
            if keep {
                let ghost before = out@;
                let copy = self.items[i].clone();
                out.push(copy);
                proof {
                    assert(review_views_of(out@) =~= review_views_of(before).push(
                        self.items@[i as int]@,
                    ));
                }
            }
            proof {
                assert(review_views_of(self.items@.take(i + 1)) =~= prefix.push(
                    self.items@[i as int]@,
                ));
                lemma_filter_push(prefix, |rv: ReviewView| rv.id != id@, self.items@[i as int]@);
            }
            i += 1;
        }
        proof {
            assert(self.items@.take(self.items@.len() as int) =~= self.items@);
        }
        self.items = out;
        Ok(())
    }

    fn get_review(&self, id: &str) -> (r: Result<Option<Review>, ServiceError>)
        ensures
            r is Ok,
    {
        let mut i: usize = 0;
        while i < self.items.len()
            invariant
                0 <= i <= self.items@.len(),
                forall|k: int| 0 <= k < i ==> (#[trigger] self.reviews()[k]).id != id@,
            decreases self.items@.len() - i,
        {
            if str_eq(self.items[i].id.as_str(), id) {
                let found = self.items[i].clone();
                proof {
                    assert(self.reviews()[i as int] == found@);
                }
                return Ok(Some(found));
            }
            i += 1;
        }
        Ok(None)
    }

    fn get_reviews_of_book(&self, book_id: u32, keyword: &str) -> (r: Result<
        Vec<Review>,
        ServiceError,
    >)
        ensures
            r is Ok,
    {
        let empty = keyword.is_empty();
        let mut hits: Vec<Review> = Vec::new();
        let mut i: usize = 0;
        while i < self.items.len()
            invariant
                0 <= i <= self.items@.len(),
                review_views_of(hits@) == review_views_of(self.items@.take(i as int)).filter(
                    |rv: ReviewView| rv.book_id == book_id && review_matches(rv, keyword@),
                ),
                empty == (keyword@.len() == 0),
            decreases self.items@.len() - i,
        {
            let ghost prefix = review_views_of(self.items@.take(i as int));
            let hit = self.items[i].book_id == book_id && (empty || contains_ci_exec(
                self.items[i].title.as_str(),
                keyword,
            ) || contains_ci_exec(self.items[i].content.as_str(), keyword));
            if hit {
                let ghost before = hits@;
                let copy = self.items[i].clone();
                hits.push(copy);
                proof {
                    assert(review_views_of(hits@) =~= review_views_of(before).push(
                        self.items@[i as int]@,
                    ));
                }
            }
            proof {
                assert(review_views_of(self.items@.take(i + 1)) =~= prefix.push(
                    self.items@[i as int]@,
                ));
                lemma_filter_push(
                    prefix,
                    |rv: ReviewView| rv.book_id == book_id && review_matches(rv, keyword@),
                    self.items@[i as int]@,
                );
            }
            i += 1;
        }
        proof {
            assert(self.items@.take(self.items@.len() as int) =~= self.items@);
        }
        Ok(hits)
    }
}

/// An in-memory account store.
pub struct MemoryUserStore {
    items: Vec<User>,
    next_id: u32,
}

impl MemoryUserStore {
    /// Whether the next assignable id is exhausted or already carried by a
    /// stored account; creation fails exactly then. A store built by `new`
    /// and grown only through this interface never collides.
    pub closed spec fn at_capacity(&self) -> bool {
        self.next_id == u32::MAX || exists|k: int|
            0 <= k < self.items@.len() && (#[trigger] self.items@[k])@.id == self.next_id
    }

    /// An empty store.
    pub fn new() -> (r: Self)
        ensures
            r.users() == Seq::<UserView>::empty(),
            !r.at_capacity(),
    {
        let r = MemoryUserStore { items: Vec::new(), next_id: 1 };
        proof {
            assert(user_views_of(r.items@) =~= Seq::<UserView>::empty());
        }
        r
    }
}

impl UserManager for MemoryUserStore {
    closed spec fn users(&self) -> Seq<UserView> {
        user_views_of(self.items@)
    }

    fn create_user(&mut self, u: &User) -> (r: Result<u32, ServiceError>)
        ensures
            (r is Err) == old(self).at_capacity(),
    {
        if self.next_id == u32::MAX {
            return Err(ServiceError::StoreFailure);
        }
        let id = self.next_id;
        let mut i: usize = 0;
        while i < self.items.len()
            invariant
                0 <= i <= self.items@.len(),
                self == old(self),
                id == self.next_id,
                forall|k: int| 0 <= k < i ==> (#[trigger] self.items@[k])@.id != id,
            decreases self.items@.len() - i,
        {
            if self.items[i].id == id {
                return Err(ServiceError::StoreFailure);
            }
            i += 1;
        }
        self.next_id = id + 1;
        let mut nu = u.clone();
        nu.id = id;
        self.items.push(nu);
        proof {
            assert(user_views_of(self.items@) =~= user_views_of(old(self).items@).push(nu@));
            assert(user_views_of(self.items@).subrange(0, old(self).items@.len() as int)
                =~= user_views_of(old(self).items@));
            assert(forall|k: int|
                0 <= k < old(self).items@.len() ==> (#[trigger] user_views_of(
                    old(self).items@,
                )[k]) == old(self).items@[k]@);
        }
        Ok(id)
    }

    fn get_user_by_email(&self, email: &str) -> (r: Result<Option<User>, ServiceError>)
        ensures
            r is Ok,
    {
        let mut i: usize = 0;
        while i < self.items.len()
            invariant
                0 <= i <= self.items@.len(),
                forall|k: int| 0 <= k < i ==> (#[trigger] self.users()[k]).email != email@,
            decreases self.items@.len() - i,
        {
            if str_eq(self.items[i].email.as_str(), email) {
                let found = self.items[i].clone();
                proof {
                    assert(self.users()[i as int] == found@);
                }
                return Ok(Some(found));
            }
            i += 1;
        }
        Ok(None)
    }
}

} // verus!

//! The storage-gateway contracts: the persistence capabilities that any
//! backend — relational, document-oriented or in-memory — must satisfy to
//! serve the catalog. Backends are mutually substitutable; the operators are
//! written against these traits alone.
//!
//! Every mutating operation either fully applies or fails leaving the store
//! as it was; a lookup miss is a distinct non-error outcome.

use vstd::prelude::*;

use crate::errors::ServiceError;
use crate::model::{views_of, review_views_of, Book, BookView, Review, ReviewView, User, UserView, UserPermission};
use crate::text::contains_ci;

verus! {

/// Whether a book answers a search keyword: an empty keyword answers every
/// book, a non-empty one must occur in the title or the author, ignoring
/// ASCII case.
pub open spec fn book_matches(b: BookView, q: Seq<char>) -> bool {
    q.len() == 0 || contains_ci(b.title, q) || contains_ci(b.author, q)
}

/// Whether a review answers a search keyword, against its title or content.
pub open spec fn review_matches(r: ReviewView, q: Seq<char>) -> bool {
    q.len() == 0 || contains_ci(r.title, q) || contains_ci(r.content, q)
}

/// The books of the store that answer the keyword, in store order.
pub open spec fn matching_books(books: Seq<BookView>, q: Seq<char>) -> Seq<BookView> {
    books.filter(|b: BookView| book_matches(b, q))
}

/// The page a listing must return: of the matching books, skip `offset`
/// and take at most `page_size`.
pub open spec fn page_of(books: Seq<BookView>, offset: int, page_size: int, q: Seq<char>) -> Seq<
    BookView,
> {
    let m = matching_books(books, q);
    if offset > m.len() || offset < 0 {
        Seq::empty()
    } else if offset + page_size <= m.len() {
        m.subrange(offset, offset + page_size)
    } else {
        m.subrange(offset, m.len() as int)
    }
}

/// How an update changes one stored book: the caller's fields replace the
/// stored ones, while the identity and the creation instant survive. The
/// update instant is the backend's business and is not constrained here.
pub open spec fn book_updated(stored: BookView, now_stored: BookView, b: BookView) -> bool {
    &&& now_stored.id == stored.id
    &&& now_stored.created_at == stored.created_at
    &&& now_stored.title == b.title
    &&& now_stored.author == b.author
    &&& now_stored.published_at == b.published_at
    &&& now_stored.description == b.description
    &&& now_stored.isbn == b.isbn
    &&& now_stored.total_pages == b.total_pages
}

/// How a freshly created book relates to what the caller handed in: the
/// caller's descriptive fields are stored, the backend assigns the id and
/// the timestamps.
pub open spec fn book_created(stored: BookView, b: BookView, id: u32) -> bool {
    &&& stored.id == id
    &&& stored.title == b.title
    &&& stored.author == b.author
    &&& stored.published_at == b.published_at
    &&& stored.description == b.description
    &&& stored.isbn == b.isbn
    &&& stored.total_pages == b.total_pages
}

/// The persistence contract for books.
pub trait BookManager: Sized {
    /// The stored books, in store order.
    spec fn books(&self) -> Seq<BookView>;

    /// How many books one listing page holds.
    spec fn page_size(&self) -> int;

    /// Stores a new book and returns its assigned id. On failure nothing is
    /// written.
    fn create_book(&mut self, b: &Book) -> (r: Result<u32, ServiceError>)
        ensures
            final(self).page_size() == old(self).page_size(),
            match r {
                Ok(id) => {
                    &&& final(self).books().len() == old(self).books().len() + 1
                    &&& final(self).books().subrange(0, old(self).books().len() as int) == old(
                        self,
                    ).books()
                    &&& book_created(final(self).books().last(), b@, id)
                    &&& forall|k: int|
                        0 <= k < old(self).books().len() ==> (#[trigger] old(
                            self,
                        ).books()[k]).id != id
                },
                Err(_) => final(self).books() == old(self).books(),
            },
    ;

    /// Rewrites every stored book carrying the given id, touching its update
    /// instant. A missing id is not an error: nothing changes.
    fn update_book(&mut self, id: u32, b: &Book) -> (r: Result<(), ServiceError>)
        ensures
            final(self).page_size() == old(self).page_size(),
            match r {
                Ok(_) => {
                    &&& final(self).books().len() == old(self).books().len()
                    &&& forall|k: int|
                        0 <= k < old(self).books().len() && old(self).books()[k].id == id
                            ==> book_updated(
                            old(self).books()[k],
                            #[trigger] final(self).books()[k],
                            b@,
                        )
                    &&& forall|k: int|
                        0 <= k < old(self).books().len() && old(self).books()[k].id != id
                            ==> #[trigger] final(self).books()[k] == old(self).books()[k]
                },
                Err(_) => final(self).books() == old(self).books(),
            },
    ;

    /// Removes every stored book carrying the given id.
    fn delete_book(&mut self, id: u32) -> (r: Result<(), ServiceError>)
        ensures
            final(self).page_size() == old(self).page_size(),
            match r {
                Ok(_) => final(self).books() == old(self).books().filter(
                    |bk: BookView| bk.id != id,
                ),
                Err(_) => final(self).books() == old(self).books(),
            },
    ;

    /// Looks one book up by id; absence is a non-error outcome.
    fn get_book(&self, id: u32) -> (r: Result<Option<Book>, ServiceError>)
        ensures
            match r {
                Ok(Some(bk)) => self.books().contains(bk@) && bk@.id == id,
                Ok(None) => forall|k: int|
                    0 <= k < self.books().len() ==> (#[trigger] self.books()[k]).id != id,
                Err(_) => true,
            },
    ;

    /// Returns the listing page for an offset and keyword.
    fn get_books(&self, offset: u32, keyword: &str) -> (r: Result<Vec<Book>, ServiceError>)
        ensures
            match r {
                Ok(page) => views_of(page@) == page_of(
                    self.books(),
                    offset as int,
                    self.page_size(),
                    keyword@,
                ),
                Err(_) => true,
            },
    ;
}

/// How a freshly created review relates to what the caller handed in: the
/// backend assigns only the opaque id.
pub open spec fn review_created(stored: ReviewView, rv: ReviewView, id: Seq<char>) -> bool {
    &&& stored.id == id
    &&& stored.book_id == rv.book_id
    &&& stored.author == rv.author
    &&& stored.title == rv.title
    &&& stored.content == rv.content
    &&& stored.created_at == rv.created_at
    &&& stored.updated_at == rv.updated_at
}

/// How an update changes one stored review: the title and content are
/// replaced and the update instant is touched; the id, the book reference,
/// the author and the creation instant survive.
pub open spec fn review_updated(stored: ReviewView, now_stored: ReviewView, rv: ReviewView) -> bool {
    &&& now_stored.id == stored.id
    &&& now_stored.book_id == stored.book_id
    &&& now_stored.author == stored.author
    &&& now_stored.created_at == stored.created_at
    &&& now_stored.title == rv.title
    &&& now_stored.content == rv.content
}

/// The persistence contract for reviews.
pub trait ReviewManager: Sized {
    /// The stored reviews, in store order.
    spec fn reviews(&self) -> Seq<ReviewView>;

    /// Stores a new review and returns its assigned opaque id. On failure
    /// nothing is written.
    fn create_review(&mut self, rv: &Review) -> (r: Result<String, ServiceError>)
        ensures
            match r {
                Ok(id) => {
                    &&& final(self).reviews().len() == old(self).reviews().len() + 1
                    &&& final(self).reviews().subrange(0, old(self).reviews().len() as int) == old(
                        self,
                    ).reviews()
                    &&& review_created(final(self).reviews().last(), rv@, id@)
                    &&& forall|k: int|
                        0 <= k < old(self).reviews().len() ==> (#[trigger] old(
                            self,
                        ).reviews()[k]).id != id@
                },
                Err(_) => final(self).reviews() == old(self).reviews(),
            },
    ;

    /// Rewrites the title and content of every stored review carrying the
    /// given id. A missing id is not an error: nothing changes.
    fn update_review(&mut self, id: &str, rv: &Review) -> (r: Result<(), ServiceError>)
        ensures
            match r {
                Ok(_) => {
                    &&& final(self).reviews().len() == old(self).reviews().len()
                    &&& forall|k: int|
                        0 <= k < old(self).reviews().len() && old(self).reviews()[k].id == id@
                            ==> review_updated(
                            old(self).reviews()[k],
                            #[trigger] final(self).reviews()[k],
                            rv@,
                        )
                    &&& forall|k: int|
                        0 <= k < old(self).reviews().len() && old(self).reviews()[k].id != id@
                            ==> #[trigger] final(self).reviews()[k] == old(self).reviews()[k]
                },
                Err(_) => final(self).reviews() == old(self).reviews(),
            },
    ;

    /// Removes every stored review carrying the given id.
    fn delete_review(&mut self, id: &str) -> (r: Result<(), ServiceError>)
        ensures
            match r {
                Ok(_) => final(self).reviews() == old(self).reviews().filter(
                    |rv: ReviewView| rv.id != id@,
                ),
                Err(_) => final(self).reviews() == old(self).reviews(),
            },
    ;

    /// Looks one review up by id; absence is a non-error outcome.
    fn get_review(&self, id: &str) -> (r: Result<Option<Review>, ServiceError>)
        ensures
            match r {
                Ok(Some(rv)) => self.reviews().contains(rv@) && rv@.id == id@,
                Ok(None) => forall|k: int|
                    0 <= k < self.reviews().len() ==> (#[trigger] self.reviews()[k]).id != id@,
                Err(_) => true,
            },
    ;

    /// Returns the reviews of one book, optionally filtered by a keyword.
    fn get_reviews_of_book(&self, book_id: u32, keyword: &str) -> (r: Result<
        Vec<Review>,
        ServiceError,
    >)
        ensures
            match r {
                Ok(rs) => review_views_of(rs@) == self.reviews().filter(
                    |rv: ReviewView| rv.book_id == book_id && review_matches(rv, keyword@),
                ),
                Err(_) => true,
            },
    ;
}

/// How a freshly created account relates to what the caller handed in: the
/// backend assigns only the numeric id.
pub open spec fn user_created(stored: UserView, u: UserView, id: u32) -> bool {
    &&& stored.id == id
    &&& stored.email == u.email
    &&& stored.password == u.password
    &&& stored.salt == u.salt
    &&& stored.is_admin == u.is_admin
    &&& stored.created_at == u.created_at
    &&& stored.updated_at == u.updated_at
}

/// The persistence contract for accounts.
pub trait UserManager: Sized {
    /// The stored accounts, in store order.
    spec fn users(&self) -> Seq<UserView>;

    /// Stores a new account and returns its assigned id. On failure nothing
    /// is written.
    fn create_user(&mut self, u: &User) -> (r: Result<u32, ServiceError>)
        ensures
            match r {
                Ok(id) => {
                    &&& final(self).users().len() == old(self).users().len() + 1
                    &&& final(self).users().subrange(0, old(self).users().len() as int) == old(
                        self,
                    ).users()
                    &&& user_created(final(self).users().last(), u@, id)
                    &&& forall|k: int|
                        0 <= k < old(self).users().len() ==> (#[trigger] old(
                            self,
                        ).users()[k]).id != id
                },
                Err(_) => final(self).users() == old(self).users(),
            },
    ;

    /// Looks one account up by its email; absence is a non-error outcome.
    fn get_user_by_email(&self, email: &str) -> (r: Result<Option<User>, ServiceError>)
        ensures
            match r {
                Ok(Some(u)) => self.users().contains(u@) && u@.email == email@,
                Ok(None) => forall|k: int|
                    0 <= k < self.users().len() ==> (#[trigger] self.users()[k]).email != email@,
                Err(_) => true,
            },
    ;
}

/// The token authority contract: issues and checks the self-contained signed
/// credentials of the service. Each authority says through `issued` which
/// token texts are its own issue for an identity and tier; beyond that, what
/// a token embeds and when checking it succeeds is the concrete authority's
/// business.
pub trait PermissionManager: Sized {
    /// Whether a token text is this authority's issue for the given account
    /// id, email and permission tier.
    spec fn issued(&self, token: Seq<char>, user_id: u32, email: Seq<char>, perm: UserPermission) -> bool;

    /// Issues a signed token embedding the identity and the permission tier.
    fn generate_token(&self, user_id: u32, email: &str, perm: UserPermission) -> (r: Result<
        String,
        ServiceError,
    >)
        ensures
            r matches Ok(t) ==> self.issued(t@, user_id, email@, perm),
    ;

    /// Checks a presented token against a required tier. A verification
    /// failure is an error, kept distinct from a verified-but-insufficient
    /// `Ok(false)`.
    fn has_permission(&self, token: &str, perm: UserPermission) -> (r: Result<bool, ServiceError>);
}

} // verus!

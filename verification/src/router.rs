//! The request-boundary surface: one handler per route, each mapping an
//! operator's outcome to a payload or to a status code with an error body.
//!
//! The mapping is uniform: an absent entity answers 404 with a "not found"
//! message, and every service error answers 500 carrying the error's
//! message. No error is swallowed or retried here.

use vstd::prelude::*;

use crate::book_operator::{list_outcome, BookOperator};
use crate::cache::Helper;
use crate::codec::{dec_rep, push_dec};
use crate::dto::{ReviewBody, User, UserCredential, UserToken};
use crate::errors::ServiceError;
use crate::gateway::{
    book_created, book_updated, review_matches, BookManager, PermissionManager, ReviewManager,
    UserManager,
};
use crate::model::{review_views_of, views_of, Book, BookView, Review, ReviewView, UserView};
use crate::review_operator::ReviewOperator;
use crate::user_operator::{sha1_hex_of, UserOperator, SALT_LEN};

verus! {

/// The error body a failing route answers with.
#[derive(Debug)]
pub struct ErrorResponse {
    pub error: String,
}

/// The handlers' shared state: one operator per entity family, each over
/// pluggable backends.
pub struct RestHandler<B: BookManager, C: Helper, R: ReviewManager, U: UserManager, P: PermissionManager> {
    book_operator: BookOperator<B, C>,
    review_operator: ReviewOperator<R>,
    user_operator: UserOperator<U, P>,
}

impl<B: BookManager, C: Helper, R: ReviewManager, U: UserManager, P: PermissionManager> RestHandler<
    B,
    C,
    R,
    U,
    P,
> {
    /// The stored books.
    pub closed spec fn books(&self) -> Seq<BookView> {
        self.book_operator.books()
    }

    /// The listing page size.
    pub closed spec fn page_size(&self) -> int {
        self.book_operator.page_size()
    }

    /// The cache contents.
    pub closed spec fn cache(&self) -> Map<Seq<char>, Seq<char>> {
        self.book_operator.cache()
    }

    /// The stored reviews.
    pub closed spec fn reviews(&self) -> Seq<ReviewView> {
        self.review_operator.reviews()
    }

    /// The stored accounts.
    pub closed spec fn users(&self) -> Seq<UserView> {
        self.user_operator.users()
    }

    /// The token authority sign-in goes through.
    pub closed spec fn authority(&self) -> P {
        self.user_operator.authority()
    }
}

/// Wires a handler from one backend of each capability.
pub fn make_router<
    B: BookManager,
    C: Helper,
    R: ReviewManager,
    U: UserManager,
    P: PermissionManager,
>(
    book_manager: B,
    cache_helper: C,
    review_manager: R,
    user_manager: U,
    perm_manager: P,
) -> (r: RestHandler<B, C, R, U, P>)
    ensures
        r.books() == book_manager.books(),
        r.page_size() == book_manager.page_size(),
        r.cache() == cache_helper.cache(),
        r.reviews() == review_manager.reviews(),
        r.users() == user_manager.users(),
{
    RestHandler {
        book_operator: BookOperator::new(book_manager, cache_helper),
        review_operator: ReviewOperator::new(review_manager),
        user_operator: UserOperator::new(user_manager, perm_manager),
    }
}

/// The health probe's answer.
pub fn health_check() -> (r: &'static str)
    ensures
        r@ == "{\"status\":\"ok\"}"@,
{
    "{\"status\":\"ok\"}"
}

fn failure(e: &ServiceError) -> (r: (u16, ErrorResponse))
    ensures
        r.0 == 500,
        r.1.error@ == e.message_spec(),
{
    (500, ErrorResponse { error: e.message() })
}

/// The paginated, optionally keyword-filtered listing; the one route served
/// through the cache-aside path.
pub fn get_books<B: BookManager, C: Helper, R: ReviewManager, U: UserManager, P: PermissionManager>(
    rest_handler: &mut RestHandler<B, C, R, U, P>,
    o: Option<u32>,
    q: Option<&str>,
) -> (r: Result<Vec<Book>, (u16, ErrorResponse)>)
    ensures
        final(rest_handler).books() == old(rest_handler).books(),
        final(rest_handler).page_size() == old(rest_handler).page_size(),
        ({
            let offset: u32 = match o {
                Some(x) => x,
                None => 0u32,
            };
            let query: Seq<char> = match q {
                Some(s) => s@,
                None => Seq::empty(),
            };
            &&& query.len() > 0 ==> final(rest_handler).cache() == old(rest_handler).cache()
            &&& match r {
                Ok(page) => {
                    let (expect, after) = list_outcome(
                        old(rest_handler).cache(),
                        old(rest_handler).books(),
                        old(rest_handler).page_size(),
                        offset,
                        query,
                    );
                    expect == Some(views_of(page@)) && final(rest_handler).cache() == after
                },
                Err(e) => e.0 == 500,
            }
        }),
{
    let offset = match o {
        Some(x) => x,
        None => 0,
    };
    let outcome = match q {
        Some(s) => rest_handler.book_operator.get_books(offset, s),
        None => {
            proof {
                reveal_strlit("");
                assert(""@ =~= Seq::<char>::empty());
            }
            rest_handler.book_operator.get_books(offset, "")
        },
    };
    match outcome {
        Ok(books) => Ok(books),
        Err(e) => Err(failure(&e)),
    }
}

/// One book by id: absence answers 404 naming the id, a backend failure 500.
pub fn get_book<B: BookManager, C: Helper, R: ReviewManager, U: UserManager, P: PermissionManager>(
    rest_handler: &RestHandler<B, C, R, U, P>,
    id: u32,
) -> (r: Result<Book, (u16, ErrorResponse)>)
    ensures
        match r {
            Ok(bk) => rest_handler.books().contains(bk@) && bk@.id == id,
            Err(e) => e.0 == 404 || e.0 == 500,
        },
        r matches Err(e) ==> (e.0 == 404 ==> (forall|k: int|
            0 <= k < rest_handler.books().len() ==> (#[trigger] rest_handler.books()[k]).id != id)
            && e.1.error@ == "book "@ + dec_rep(id as nat) + " not found"@),
{
    match rest_handler.book_operator.get_book(id) {
        Ok(Some(b)) => Ok(b),
        Ok(None) => {
            let mut msg = String::from_str("book ");
            push_dec(&mut msg, id as u64);
            msg.append(" not found");
            Err((404, ErrorResponse { error: msg }))
        },
        Err(e) => Err(failure(&e)),
    }
}

/// Creates a book; the store assigns the id echoed in the answer. The cache
/// is not invalidated.
pub fn create_book<
    B: BookManager,
    C: Helper,
    R: ReviewManager,
    U: UserManager,
    P: PermissionManager,
>(rest_handler: &mut RestHandler<B, C, R, U, P>, book: Book) -> (r: Result<
    Book,
    (u16, ErrorResponse),
>)
    ensures
        final(rest_handler).cache() == old(rest_handler).cache(),
        r is Err ==> final(rest_handler).books() == old(rest_handler).books(),
        match r {
            Ok(bk) => {
                &&& final(rest_handler).books().len() == old(rest_handler).books().len() + 1
                &&& final(rest_handler).books().subrange(
                    0,
                    old(rest_handler).books().len() as int,
                ) == old(rest_handler).books()
                &&& book_created(final(rest_handler).books().last(), book@, bk.id)
            },
            Err(e) => e.0 == 500,
        },
{
    match rest_handler.book_operator.create_book(book) {
        Ok(b) => Ok(b),
        Err(e) => Err(failure(&e)),
    }
}

/// Rewrites the stored books carrying the id and echoes the caller's book.
/// The cache is not invalidated: listings may stay stale until expiry.
pub fn update_book<
    B: BookManager,
    C: Helper,
    R: ReviewManager,
    U: UserManager,
    P: PermissionManager,
>(rest_handler: &mut RestHandler<B, C, R, U, P>, id: u32, book: Book) -> (r: Result<
    Book,
    (u16, ErrorResponse),
>)
    ensures
        final(rest_handler).cache() == old(rest_handler).cache(),
        r is Err ==> final(rest_handler).books() == old(rest_handler).books(),
        match r {
            Ok(bk) => {
                &&& bk == book
                &&& final(rest_handler).books().len() == old(rest_handler).books().len()
                &&& forall|k: int|
                    0 <= k < old(rest_handler).books().len() && old(rest_handler).books()[k].id
                        == id ==> book_updated(
                        old(rest_handler).books()[k],
                        #[trigger] final(rest_handler).books()[k],
                        book@,
                    )
                &&& forall|k: int|
                    0 <= k < old(rest_handler).books().len() && old(rest_handler).books()[k].id
                        != id ==> #[trigger] final(rest_handler).books()[k] == old(
                        rest_handler,
                    ).books()[k]
            },
            Err(e) => e.0 == 500,
        },
{
    match rest_handler.book_operator.update_book(id, book) {
        Ok(b) => Ok(b),
        Err(e) => Err(failure(&e)),
    }
}

/// Removes the stored books carrying the id. The cache is not invalidated.
pub fn delete_book<
    B: BookManager,
    C: Helper,
    R: ReviewManager,
    U: UserManager,
    P: PermissionManager,
>(rest_handler: &mut RestHandler<B, C, R, U, P>, id: u32) -> (r: Result<(), (u16, ErrorResponse)>)
    ensures
        final(rest_handler).cache() == old(rest_handler).cache(),
        match r {
            Ok(_) => final(rest_handler).books() == old(rest_handler).books().filter(
                |bk: BookView| bk.id != id,
            ),
            Err(e) => e.0 == 500 && final(rest_handler).books() == old(rest_handler).books(),
        },
{
    match rest_handler.book_operator.delete_book(id) {
        Ok(_) => Ok(()),
        Err(e) => Err(failure(&e)),
    }
}

/// The reviews of one book, optionally keyword-filtered; never cached.
pub fn get_reviews_of_book<
    B: BookManager,
    C: Helper,
    R: ReviewManager,
    U: UserManager,
    P: PermissionManager,
>(rest_handler: &RestHandler<B, C, R, U, P>, id: u32, q: Option<&str>) -> (r: Result<
    Vec<Review>,
    (u16, ErrorResponse),
>)
    ensures
        ({
            let query: Seq<char> = match q {
                Some(s) => s@,
                None => Seq::empty(),
            };
            match r {
                Ok(rs) => review_views_of(rs@) == rest_handler.reviews().filter(
                    |rv: ReviewView| rv.book_id == id && review_matches(rv, query),
                ),
                Err(e) => e.0 == 500,
            }
        }),
{
    let outcome = match q {
        Some(s) => rest_handler.review_operator.get_reviews_of_book(id, s),
        None => {
            proof {
                reveal_strlit("");
                assert(""@ =~= Seq::<char>::empty());
            }
            rest_handler.review_operator.get_reviews_of_book(id, "")
        },
    };
    match outcome {
        Ok(reviews) => Ok(reviews),
        Err(e) => Err(failure(&e)),
    }
}

/// One review by id: absence answers 404 naming the id.
pub fn get_review<
    B: BookManager,
    C: Helper,
    R: ReviewManager,
    U: UserManager,
    P: PermissionManager,
>(rest_handler: &RestHandler<B, C, R, U, P>, id: &str) -> (r: Result<Review, (u16, ErrorResponse)>)
    ensures
        match r {
            Ok(rv) => rest_handler.reviews().contains(rv@) && rv@.id == id@,
            Err(e) => e.0 == 404 || e.0 == 500,
        },
        r matches Err(e) ==> (e.0 == 404 ==> (forall|k: int|
            0 <= k < rest_handler.reviews().len() ==> (#[trigger] rest_handler.reviews()[k]).id
                != id@) && e.1.error@ == "review "@ + id@ + " not found"@),
{
    match rest_handler.review_operator.get_review(id) {
        Ok(Some(rv)) => Ok(rv),
        Ok(None) => {
            let mut msg = String::from_str("review ");
            msg.append(id);
            msg.append(" not found");
            Err((404, ErrorResponse { error: msg }))
        },
        Err(e) => Err(failure(&e)),
    }
}

/// Creates a review timestamped now; the store assigns its opaque id.
pub fn create_review<
    B: BookManager,
    C: Helper,
    R: ReviewManager,
    U: UserManager,
    P: PermissionManager,
>(rest_handler: &mut RestHandler<B, C, R, U, P>, review: ReviewBody) -> (r: Result<
    Review,
    (u16, ErrorResponse),
>)
    ensures
        r is Err ==> final(rest_handler).reviews() == old(rest_handler).reviews(),
        match r {
            Ok(rv) => {
                &&& rv.book_id == review.book_id
                &&& rv.author@ == review.author@
                &&& rv.title@ == review.title@
                &&& rv.content@ == review.content@
                &&& rv.created_at == rv.updated_at
                &&& final(rest_handler).reviews().len() == old(rest_handler).reviews().len() + 1
                &&& final(rest_handler).reviews().last() == rv@
                &&& final(rest_handler).reviews().subrange(
                    0,
                    old(rest_handler).reviews().len() as int,
                ) == old(rest_handler).reviews()
            },
            Err(e) => e.0 == 500,
        },
{
    match rest_handler.review_operator.create_review(&review) {
        Ok(rv) => Ok(rv),
        Err(e) => Err(failure(&e)),
    }
}

/// Rewrites a review's title and content, rejecting empty ones; everything
/// else about the stored review survives.
pub fn update_review<
    B: BookManager,
    C: Helper,
    R: ReviewManager,
    U: UserManager,
    P: PermissionManager,
>(rest_handler: &mut RestHandler<B, C, R, U, P>, id: &str, review: ReviewBody) -> (r: Result<
    Review,
    (u16, ErrorResponse),
>)
    ensures
        r is Err ==> final(rest_handler).reviews() == old(rest_handler).reviews(),
        review.title@.len() == 0 || review.content@.len() == 0 ==> (r matches Err(e) && e.0 == 500
            && e.1.error@ == ServiceError::EmptyReviewField.message_spec()),
        match r {
            Ok(rv) => {
                &&& rv.id@ == id@
                &&& rv.title@ == review.title@
                &&& rv.content@ == review.content@
                &&& final(rest_handler).reviews().len() == old(rest_handler).reviews().len()
                &&& forall|k: int|
                    0 <= k < old(rest_handler).reviews().len() && old(
                        rest_handler,
                    ).reviews()[k].id != id@ ==> #[trigger] final(rest_handler).reviews()[k] == old(
                        rest_handler,
                    ).reviews()[k]
                &&& forall|k: int|
                    0 <= k < old(rest_handler).reviews().len() && old(
                        rest_handler,
                    ).reviews()[k].id == id@ ==> {
                        let was = old(rest_handler).reviews()[k];
                        let is_now = #[trigger] final(rest_handler).reviews()[k];
                        &&& is_now.id == was.id
                        &&& is_now.book_id == was.book_id
                        &&& is_now.author == was.author
                        &&& is_now.created_at == was.created_at
                        &&& is_now.title == review.title@
                        &&& is_now.content == review.content@
                    }
            },
            Err(e) => e.0 == 500,
        },
{
    match rest_handler.review_operator.update_review(id, review) {
        Ok(rv) => Ok(rv),
        Err(e) => Err(failure(&e)),
    }
}

/// Removes the reviews carrying the id.
pub fn delete_review<
    B: BookManager,
    C: Helper,
    R: ReviewManager,
    U: UserManager,
    P: PermissionManager,
>(rest_handler: &mut RestHandler<B, C, R, U, P>, id: &str) -> (r: Result<(), (u16, ErrorResponse)>)
    ensures
        match r {
            Ok(_) => final(rest_handler).reviews() == old(rest_handler).reviews().filter(
                |rv: ReviewView| rv.id != id@,
            ),
            Err(e) => e.0 == 500 && final(rest_handler).reviews() == old(rest_handler).reviews(),
        },
{
    match rest_handler.review_operator.delete_review(id) {
        Ok(_) => Ok(()),
        Err(e) => Err(failure(&e)),
    }
}

/// Sign-up: an empty email or password is rejected, with its message in the
/// body, before any store call; success stores the salted digest, never the
/// password, and echoes the account's public face.
pub fn user_sign_up<
    B: BookManager,
    C: Helper,
    R: ReviewManager,
    U: UserManager,
    P: PermissionManager,
>(rest_handler: &mut RestHandler<B, C, R, U, P>, uc: UserCredential) -> (r: Result<
    User,
    (u16, ErrorResponse),
>)
    ensures
        r is Err ==> final(rest_handler).users() == old(rest_handler).users(),
        uc.email@.len() == 0 ==> (r matches Err(e) && e.0 == 500 && e.1.error@
            == ServiceError::EmptyEmail.message_spec()),
        uc.email@.len() > 0 && uc.password@.len() == 0 ==> (r matches Err(e) && e.0 == 500
            && e.1.error@ == ServiceError::EmptyPassword.message_spec()),
        match r {
            Ok(u) => {
                &&& u.email@ == uc.email@
                &&& final(rest_handler).users().len() == old(rest_handler).users().len() + 1
                &&& final(rest_handler).users().subrange(
                    0,
                    old(rest_handler).users().len() as int,
                ) == old(rest_handler).users()
                &&& {
                    let stored = final(rest_handler).users().last();
                    &&& stored.id == u.id
                    &&& stored.email == uc.email@
                    &&& stored.is_admin == false
                    &&& stored.salt.len() == SALT_LEN
                    &&& stored.password == sha1_hex_of(uc.password@ + stored.salt)
                }
            },
            Err(e) => e.0 == 500,
        },
{
    match rest_handler.user_operator.create_user(&uc) {
        Ok(u) => Ok(u),
        Err(e) => Err(failure(&e)),
    }
}

/// Sign-in: a matching salted digest earns a fresh token; a wrong password
/// and an unknown email answer with distinct messages in the body.
pub fn user_sign_in<
    B: BookManager,
    C: Helper,
    R: ReviewManager,
    U: UserManager,
    P: PermissionManager,
>(rest_handler: &RestHandler<B, C, R, U, P>, uc: UserCredential) -> (r: Result<
    UserToken,
    (u16, ErrorResponse),
>)
    ensures
        uc.email@.len() == 0 ==> (r matches Err(e) && e.0 == 500 && e.1.error@
            == ServiceError::EmptyEmail.message_spec()),
        uc.email@.len() > 0 && uc.password@.len() == 0 ==> (r matches Err(e) && e.0 == 500
            && e.1.error@ == ServiceError::EmptyPassword.message_spec()),
        r matches Err(e) ==> (e.1.error@ == ServiceError::UserNotFound.message_spec()
            ==> forall|k: int|
                0 <= k < rest_handler.users().len() ==> (#[trigger] rest_handler.users()[k]).email
                    != uc.email@),
        r matches Err(e) ==> (e.1.error@ == ServiceError::WrongPassword.message_spec()
            ==> exists|k: int|
                0 <= k < rest_handler.users().len() && (#[trigger] rest_handler.users()[k]).email
                    == uc.email@ && rest_handler.users()[k].password != sha1_hex_of(
                    uc.password@ + rest_handler.users()[k].salt,
                )),
        match r {
            Ok(ut) => exists|k: int|
                0 <= k < rest_handler.users().len() && {
                    let u = #[trigger] rest_handler.users()[k];
                    &&& u.email == uc.email@
                    &&& u.password == sha1_hex_of(uc.password@ + u.salt)
                    &&& ut.user.id == u.id
                    &&& ut.user.email@ == u.email
                    &&& rest_handler.authority().issued(
                        ut.token@,
                        u.id,
                        u.email,
                        if u.is_admin {
                            crate::model::UserPermission::PermAdmin
                        } else {
                            crate::model::UserPermission::PermUser
                        },
                    )
                },
            Err(e) => e.0 == 500,
        },
{
    let outcome = rest_handler.user_operator.sign_in(uc.email.as_str(), uc.password.as_str());
    proof {
        assert forall|k: int|
            0 <= k < rest_handler.user_operator.users().len() implies (
        #[trigger] rest_handler.user_operator.users()[k]) == rest_handler.users()[k] by {}
    }
    match outcome {
        Ok(ut) => Ok(ut),
        Err(e) => {
            proof {
                if e.message_spec() == ServiceError::UserNotFound.message_spec() {
                    crate::errors::lemma_message_identifies(e, ServiceError::UserNotFound);
                }
                if e.message_spec() == ServiceError::WrongPassword.message_spec() {
                    crate::errors::lemma_message_identifies(e, ServiceError::WrongPassword);
                }
            }
            Err(failure(&e))
        },
    }
}

} // verus!

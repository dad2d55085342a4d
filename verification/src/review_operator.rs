//! The review flows: creation, lookup, listing, update and deletion, over
//! any review store.

use vstd::prelude::*;

use crate::dto::ReviewBody;
use crate::errors::ServiceError;
use crate::gateway::{review_matches, ReviewManager};
use crate::jwt::now_unix_seconds;
use crate::model::{review_views_of, Review, ReviewView};

verus! {

/// The review flows, over any review store.
pub struct ReviewOperator<R: ReviewManager> {
    review_manager: R,
}

impl<R: ReviewManager> ReviewOperator<R> {
    /// The reviews of the underlying store.
    pub closed spec fn reviews(&self) -> Seq<ReviewView> {
        self.review_manager.reviews()
    }

    /// Wires the operator to its store.
    pub fn new(b: R) -> (r: Self)
        ensures
            r.reviews() == b.reviews(),
    {
        ReviewOperator { review_manager: b }
    }

    /// Creates a review from the caller's body, timestamping it now: the
    /// stored review carries the body's fields, equal creation and update
    /// instants, and the store-assigned id.
    pub fn create_review(&mut self, body: &ReviewBody) -> (r: Result<Review, ServiceError>)
        ensures
            r is Err ==> final(self).reviews() == old(self).reviews(),
            match r {
                Ok(rv) => {
                    &&& rv.book_id == body.book_id
                    &&& rv.author@ == body.author@
                    &&& rv.title@ == body.title@
                    &&& rv.content@ == body.content@
                    &&& rv.created_at == rv.updated_at
                    &&& final(self).reviews().len() == old(self).reviews().len() + 1
                    &&& final(self).reviews().subrange(0, old(self).reviews().len() as int) == old(
                        self,
                    ).reviews()
                    &&& final(self).reviews().last() == rv@
                    &&& forall|k: int|
                        0 <= k < old(self).reviews().len() ==> (#[trigger] old(
                            self,
                        ).reviews()[k]).id != rv.id@
                },
                Err(e) => e == ServiceError::StoreFailure,
            },
    {
        let now = now_unix_seconds();
        let review = Review {
            id: String::new(),
            book_id: body.book_id,
            author: body.author.clone(),
            title: body.title.clone(),
            content: body.content.clone(),
            created_at: now,
            updated_at: now,
        };
        match self.review_manager.create_review(&review) {
            Err(_) => Err(ServiceError::StoreFailure),
            Ok(id) => Ok(Review { id, ..review }),
        }
    }

    /// Looks one review up by its opaque id.
    pub fn get_review(&self, id: &str) -> (r: Result<Option<Review>, ServiceError>)
        ensures
            match r {
                Ok(Some(rv)) => self.reviews().contains(rv@) && rv@.id == id@,
                Ok(None) => forall|k: int|
                    0 <= k < self.reviews().len() ==> (#[trigger] self.reviews()[k]).id != id@,
                Err(_) => true,
            },
    {
        self.review_manager.get_review(id)
    }

    /// Returns the reviews of one book, optionally filtered by a keyword
    /// matched case-insensitively against title and content.
    pub fn get_reviews_of_book(&self, book_id: u32, query: &str) -> (r: Result<
        Vec<Review>,
        ServiceError,
    >)
        ensures
            match r {
                Ok(rs) => review_views_of(rs@) == self.reviews().filter(
                    |rv: ReviewView| rv.book_id == book_id && review_matches(rv, query@),
                ),
                Err(_) => true,
            },
    {
        self.review_manager.get_reviews_of_book(book_id, query)
    }

    /// Rewrites the title and content of the reviews carrying the given id,
    /// rejecting an empty title or content before any store call. The id,
    /// book reference, author and creation instant of a stored review
    /// survive the update. The returned review echoes the caller's body.
    pub fn update_review(&mut self, id: &str, body: ReviewBody) -> (r: Result<Review, ServiceError>)
        ensures
            (r == Err::<Review, ServiceError>(ServiceError::EmptyReviewField)) == (body.title@.len()
                == 0 || body.content@.len() == 0),
            r is Err ==> final(self).reviews() == old(self).reviews(),
            match r {
                Ok(rv) => {
                    &&& rv.id@ == id@
                    &&& rv.book_id == body.book_id
                    &&& rv.author@ == body.author@
                    &&& rv.title@ == body.title@
                    &&& rv.content@ == body.content@
                    &&& rv.created_at == rv.updated_at
                    &&& final(self).reviews().len() == old(self).reviews().len()
                    &&& forall|k: int|
                        0 <= k < old(self).reviews().len() && old(self).reviews()[k].id != id@
                            ==> #[trigger] final(self).reviews()[k] == old(self).reviews()[k]
                    &&& forall|k: int|
                        0 <= k < old(self).reviews().len() && old(self).reviews()[k].id == id@
                            ==> {
                            let was = old(self).reviews()[k];
                            let is_now = #[trigger] final(self).reviews()[k];
                            &&& is_now.id == was.id
                            &&& is_now.book_id == was.book_id
                            &&& is_now.author == was.author
                            &&& is_now.created_at == was.created_at
                            &&& is_now.title == body.title@
                            &&& is_now.content == body.content@
                        }
                },
                Err(e) => e == ServiceError::EmptyReviewField || e == ServiceError::StoreFailure,
            },
    {
        if body.title.as_str().is_empty() || body.content.as_str().is_empty() {
            return Err(ServiceError::EmptyReviewField);
        }
        let now = now_unix_seconds();
        let review = Review {
            id: String::from_str(id),
            book_id: body.book_id,
            author: body.author.clone(),
            title: body.title.clone(),
            content: body.content.clone(),
            created_at: now,
            updated_at: now,
        };
        match self.review_manager.update_review(id, &review) {
            Err(_) => Err(ServiceError::StoreFailure),
            Ok(_) => Ok(review),
        }
    }

    /// Removes the reviews carrying the given id.
    pub fn delete_review(&mut self, id: &str) -> (r: Result<(), ServiceError>)
        ensures
            match r {
                Ok(_) => final(self).reviews() == old(self).reviews().filter(
                    |rv: ReviewView| rv.id != id@,
                ),
                Err(_) => final(self).reviews() == old(self).reviews(),
            },
    {
        match self.review_manager.delete_review(id) {
            Err(_) => Err(ServiceError::StoreFailure),
            Ok(_) => Ok(()),
        }
    }
}

} // verus!

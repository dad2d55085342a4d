//! Domain data types: books, reviews, accounts, and the ordered permission
//! hierarchy shared by token issuance and the authorization guard.

use vstd::prelude::*;

verus! {

/// A catalog entry. The id is assigned by the store on creation; the
/// timestamps are store-assigned strings.
#[derive(Debug)]
pub struct Book {
    pub id: u32,
    pub title: String,
    pub author: String,
    pub published_at: String,
    pub description: String,
    pub isbn: String,
    pub total_pages: u32,
    pub created_at: String,
    pub updated_at: String,
}

/// Mathematical image of a `Book`, used by all contracts.
pub ghost struct BookView {
    pub id: u32,
    pub title: Seq<char>,
    pub author: Seq<char>,
    pub published_at: Seq<char>,
    pub description: Seq<char>,
    pub isbn: Seq<char>,
    pub total_pages: u32,
    pub created_at: Seq<char>,
    pub updated_at: Seq<char>,
}

impl View for Book {
    type V = BookView;

    open spec fn view(&self) -> BookView {
        BookView {
            id: self.id,
            title: self.title@,
            author: self.author@,
            published_at: self.published_at@,
            description: self.description@,
            isbn: self.isbn@,
            total_pages: self.total_pages,
            created_at: self.created_at@,
            updated_at: self.updated_at@,
        }
    }
}

/// The views of a sequence of books, element by element.
pub open spec fn views_of(bs: Seq<Book>) -> Seq<BookView> {
    bs.map_values(|b: Book| b@)
}

/// The views of a sequence of reviews, element by element.
pub open spec fn review_views_of(rs: Seq<Review>) -> Seq<ReviewView> {
    rs.map_values(|r: Review| r@)
}

/// The views of a sequence of users, element by element.
pub open spec fn user_views_of(us: Seq<User>) -> Seq<UserView> {
    us.map_values(|u: User| u@)
}

impl Clone for Book {
    fn clone(&self) -> (r: Self)
        ensures
            r == *self,
    {
        Book {
            id: self.id,
            title: self.title.clone(),
            author: self.author.clone(),
            published_at: self.published_at.clone(),
            description: self.description.clone(),
            isbn: self.isbn.clone(),
            total_pages: self.total_pages,
            created_at: self.created_at.clone(),
            updated_at: self.updated_at.clone(),
        }
    }
}

/// A reader's review of one book. The id is an opaque string assigned by the
/// store on creation; the timestamps are seconds since the Unix epoch,
/// assigned by the service at write time.
#[derive(Debug)]
pub struct Review {
    pub id: String,
    pub book_id: u32,
    pub author: String,
    pub title: String,
    pub content: String,
    pub created_at: i64,
    pub updated_at: i64,
}

/// Mathematical image of a `Review`.
pub ghost struct ReviewView {
    pub id: Seq<char>,
    pub book_id: u32,
    pub author: Seq<char>,
    pub title: Seq<char>,
    pub content: Seq<char>,
    pub created_at: i64,
    pub updated_at: i64,
}

impl View for Review {
    type V = ReviewView;

    open spec fn view(&self) -> ReviewView {
        ReviewView {
            id: self.id@,
            book_id: self.book_id,
            author: self.author@,
            title: self.title@,
            content: self.content@,
            created_at: self.created_at,
            updated_at: self.updated_at,
        }
    }
}

impl Clone for Review {
    fn clone(&self) -> (r: Self)
        ensures
            r == *self,
    {
        Review {
            id: self.id.clone(),
            book_id: self.book_id,
            author: self.author.clone(),
            title: self.title.clone(),
            content: self.content.clone(),
            created_at: self.created_at,
            updated_at: self.updated_at,
        }
    }
}

/// An account record. The email is the unique lookup key; the password is
/// stored only as a salted digest, never in clear form; the salt is drawn
/// once at creation.
#[derive(Debug)]
pub struct User {
    pub id: u32,
    pub email: String,
    pub password: String,
    pub salt: String,
    pub is_admin: bool,
    pub created_at: String,
    pub updated_at: String,
}

/// Mathematical image of a `User`.
pub ghost struct UserView {
    pub id: u32,
    pub email: Seq<char>,
    pub password: Seq<char>,
    pub salt: Seq<char>,
    pub is_admin: bool,
    pub created_at: Seq<char>,
    pub updated_at: Seq<char>,
}

impl View for User {
    type V = UserView;

    open spec fn view(&self) -> UserView {
        UserView {
            id: self.id,
            email: self.email@,
            password: self.password@,
            salt: self.salt@,
            is_admin: self.is_admin,
            created_at: self.created_at@,
            updated_at: self.updated_at@,
        }
    }
}

impl Clone for User {
    fn clone(&self) -> (r: Self)
        ensures
            r == *self,
    {
        User {
            id: self.id,
            email: self.email.clone(),
            password: self.password.clone(),
            salt: self.salt.clone(),
            is_admin: self.is_admin,
            created_at: self.created_at.clone(),
            updated_at: self.updated_at.clone(),
        }
    }
}

/// An ordered permission tier: PermNone < PermUser < PermAuthor < PermAdmin.
#[derive(Clone, Copy, PartialEq, Eq, Structural, Debug)]
pub enum UserPermission {
    PermNone,
    PermUser,
    PermAuthor,
    PermAdmin,
}

impl UserPermission {
    /// Rank of the tier in the total order.
    pub open spec fn level(self) -> int {
        match self {
            UserPermission::PermNone => 0,
            UserPermission::PermUser => 1,
            UserPermission::PermAuthor => 2,
            UserPermission::PermAdmin => 3,
        }
    }

    /// Executable rank, equal to `level`.
    pub fn rank(&self) -> (r: u8)
        ensures
            r as int == self.level(),
    {
        match self {
            UserPermission::PermNone => 0,
            UserPermission::PermUser => 1,
            UserPermission::PermAuthor => 2,
            UserPermission::PermAdmin => 3,
        }
    }

    /// "Has permission X" means the caller's tier is at least X in the
    /// total order.
    pub fn satisfies(&self, required: &UserPermission) -> (r: bool)
        ensures
            r == (self.level() >= required.level()),
    {
        self.rank() >= required.rank()
    }
}

/// The permission comparison is a total order: reflexive, transitive,
/// antisymmetric up to rank, and total.
pub proof fn lemma_permission_total_order(a: UserPermission, b: UserPermission, c: UserPermission)
    ensures
        a.level() >= a.level(),
        a.level() >= b.level() && b.level() >= c.level() ==> a.level() >= c.level(),
        a.level() >= b.level() || b.level() >= a.level(),
        a.level() >= b.level() && b.level() >= a.level() ==> a == b,
{
}

} // verus!

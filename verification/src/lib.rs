//! A small book-catalog service core: domain models, storage-gateway traits,
//! a cache-aside read path for book listings, and a signed-token permission
//! scheme with an ordered permission hierarchy.

pub mod book_operator;
pub mod cache;
pub mod codec;
pub mod config;
pub mod dto;
pub mod errors;
pub mod gateway;
pub mod jwt;
pub mod memory;
pub mod middleware;
pub mod model;
pub mod review_operator;
pub mod router;
pub mod text;
pub mod user_operator;

use vstd::prelude::*;

verus! {

} // verus!

//! The key-value cache contract for the cache-aside read path.
//!
//! The cache is modelled as a map from keys to stored texts. A failure of
//! the cache backend is an error in its own right, never silently treated
//! as a miss.

use vstd::prelude::*;

use crate::errors::ServiceError;

verus! {

/// The cache contract.
pub trait Helper: Sized {
    /// The current contents of the cache.
    spec fn cache(&self) -> Map<Seq<char>, Seq<char>>;

    /// Stores a value under a key, overwriting any earlier value. On an
    /// error the state of the cache is not specified.
    fn save(&mut self, key: &str, value: &str) -> (r: Result<(), ServiceError>)
        ensures
            r matches Ok(_) ==> final(self).cache() == old(self).cache().insert(key@, value@),
    ;

    /// Loads the value under a key; a miss is a non-error outcome.
    fn load(&self, key: &str) -> (r: Result<Option<String>, ServiceError>)
        ensures
            match r {
                Ok(Some(v)) => self.cache().contains_key(key@) && self.cache()[key@] == v@,
                Ok(None) => !self.cache().contains_key(key@),
                Err(_) => true,
            },
    ;
}

} // verus!

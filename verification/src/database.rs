//! The handle the library keeps for the mail store: the store's path,
//! which a caller turns into an open store outside this library.

use vstd::prelude::*;

verus! {

/// The location of the mail store.
pub struct Database {
    pub path: String,
}

impl Database {
    /// A handle for the store at the given path.
    pub fn new(path: String) -> (r: Self)
        ensures
            r.path@ == path@,
    {
        Database { path }
    }

    /// The store's path.
    pub fn path(&self) -> (r: &String)
        ensures
            r@ == self.path@,
    {
        &self.path
    }
}

} // verus!

use vstd::prelude::*;
use std::collections::HashMap;

verus! {

/// The logged-in moderators: a map from a hashed client address to a user
/// name, shared by all requests.
pub struct SessionStore<A, B> where A: Eq + std::hash::Hash {
    pub store: HashMap<A, B>,
}

impl<A, B> SessionStore<A, B> where A: Eq + std::hash::Hash {
    /// An empty store: nobody is logged in.
    pub fn new() -> (s: Self)
        ensures
            s.store@ == Map::<A, B>::empty(),
    {
        SessionStore { store: HashMap::new() }
    }
}

} // verus!

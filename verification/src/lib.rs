//! Generates, for a struct, a trait that hides the struct's generic
//! parameters, together with the impls that tie the two together.
use vstd::prelude::*;

pub mod attribute;
pub mod function_like;
pub mod laws;
pub mod token;

verus! {

/// A simple wrapper over the contained value, that dereferences to it.
pub struct Wrapper<T>(pub T);

impl<T> core::ops::Deref for Wrapper<T> {
    type Target = T;

    fn deref(&self) -> (r: &T)
        ensures
            r == &self.0,
    {
        &self.0
    }
}

} // verus!

//! Decoding of multi-part request bodies into a keyed document, and binding
//! of that document against a declared shape.
use vstd::prelude::*;

pub mod coerce;
pub mod decoder;
pub mod document;
pub mod file;
pub mod schema;
pub mod text;
pub mod value;

verus! {

/// A value decoded from a multi-part request.
pub struct Multipart<T> {
    data: T,
}

impl<T> Multipart<T> {
    pub closed spec fn inner(&self) -> T {
        self.data
    }

    /// Wraps a decoded value.
    pub fn new(data: T) -> (r: Self)
        ensures
            r.inner() == data,
    {
        Multipart { data }
    }

    /// The decoded value.
    pub fn into_inner(self) -> (r: T)
        ensures
            r == self.inner(),
    {
        self.data
    }
}

impl<T> core::ops::Deref for Multipart<T> {
    type Target = T;

    fn deref(&self) -> &T {
        &self.data
    }
}

impl<T> core::ops::DerefMut for Multipart<T> {
    fn deref_mut(&mut self) -> &mut T {
        &mut self.data
    }
}

} // verus!

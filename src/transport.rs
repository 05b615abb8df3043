//! A byte stream that messages are written to and read from.
use vstd::prelude::*;

verus! {

/// Holds the stream of one connection.
pub struct Transport<T> {
    c: T,
}

impl<T> Transport<T> {
    pub closed spec fn spec_stream(&self) -> T {
        self.c
    }

    pub fn new(c: T) -> (r: Self)
        ensures
            r.spec_stream() == c,
    {
        Transport { c }
    }

    /// The stream, for reading and writing.
    pub fn stream(&mut self) -> (r: &mut T)
        ensures
            *r == old(self).spec_stream(),
            final(self).spec_stream() == *final(r),
    {
        &mut self.c
    }

    pub fn into_inner(self) -> (r: T)
        ensures
            r == self.spec_stream(),
    {
        self.c
    }
}

} // verus!

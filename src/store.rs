//! A document held in memory together with the file it was loaded from.

use vstd::prelude::*;

verus! {

/// tokio's `File`, the open handle of a document's file; it is carried along and
/// handed back, never looked into.
#[verifier::external_type_specification]
#[verifier::external_body]
pub struct ExFile(tokio::fs::File);

/// A document and the open file it was loaded from. The document is changed in
/// memory only; the file is rewritten when the caller persists it.
pub struct Stored<T> {
    inner: T,
    fd: tokio::fs::File,
}

impl<T> Stored<T> {
    /// The document held.
    pub closed spec fn document(&self) -> T {
        self.inner
    }

    /// Pairs a document with its file.
    pub fn new(inner: T, fd: tokio::fs::File) -> (r: Stored<T>)
        ensures
            r.document() == inner,
    {
        Stored { inner, fd }
    }

    /// The document.
    pub fn get(&self) -> (r: &T)
        ensures
            *r == self.document(),
    {
        &self.inner
    }

    /// The document, to change in place.
    pub fn get_mut(&mut self) -> (r: &mut T)
        ensures
            *r == old(self).document(),
            final(self).document() == *final(r),
    {
        &mut self.inner
    }

    /// The document and its file, to write the one into the other.
    pub fn into_parts(self) -> (r: (T, tokio::fs::File))
        ensures
            r.0 == self.document(),
    {
        (self.inner, self.fd)
    }
}

} // verus!

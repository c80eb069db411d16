//! Walking the chain of causes beneath an error.
//!
//! The decoder's errors are terminal and carry no payload, so the chain below
//! any of them is empty; the iterator records that shape explicitly, and a
//! richer error type would extend [`Error::source`].

use vstd::prelude::*;

use crate::song::Error;

verus! {

impl Error {
    /// The error that caused this one. Decoding errors are leaf conditions,
    /// so there is never a cause.
    pub fn source(&self) -> (r: Option<Error>)
        ensures
            r is None,
    {
        match *self {
            Error::FileLength => None,
            Error::InvalidWaveform => None,
            Error::InvalidFilter => None,
        }
    }
}

/// An iterator over the chained sources of an [`Error`].
pub struct ErrorIter {
    /// The error whose source is reported next, if any.
    pub inner: Option<Error>,
}

/// Create an iterator over the chained error sources of `error`.
pub fn iter_sources(error: &Error) -> (it: ErrorIter)
    ensures
        it.inner == Some(*error),
{
    ErrorIter { inner: Some(*error) }
}

impl ErrorIter {
    /// The next source in the chain. Every decoding error is a leaf, so this
    /// always reports the end of the chain and leaves the iterator exhausted.
    pub fn next(&mut self) -> (r: Option<Error>)
        ensures
            r is None,
            final(self).inner is None,
    {
        let taken = self.inner;
        self.inner = None;
        match taken {
            Some(error) => {
                match error.source() {
                    Some(source) => {
                        self.inner = Some(source);
                        Some(source)
                    },
                    None => None,
                }
            },
            None => None,
        }
    }
}

} // verus!

//! The one capability the reader asks of a source.

use core::task::Context;
use tokio::io::ReadBuf;
use vstd::prelude::*;

verus! {

/// `core::task::Context`, carried through to the sources as an opaque value.
#[verifier::external_type_specification]
#[verifier::external_body]
pub struct ExContext<'a>(core::task::Context<'a>);

/// How an attempt to read ended.
#[derive(Debug, PartialEq, Eq)]
pub enum Polled<E> {
    /// Nothing could be read yet; the task will be woken when it is worth
    /// trying again.
    Pending,
    /// The read completed. How much was read shows in the buffer.
    Ready,
    /// The source failed.
    Failed(E),
}

/// Something bytes can be read from, one buffer at a time.
///
/// Nothing is assumed of an implementation: whatever a source does to the
/// buffer and whatever it answers, the reader's guarantees hold.
pub trait Source {
    /// The error a failed read reports.
    type Error;

    /// Tries to read into the unfilled part of `buf`.
    ///
    /// A source that answers [`Polled::Ready`] and leaves the remaining
    /// capacity of `buf` as it was is taken to be exhausted.
    fn poll_read(&mut self, cx: &mut Context<'_>, buf: &mut ReadBuf<'_>) -> Polled<Self::Error>;
}

} // verus!

//! What the reader needs to know of `tokio::io::ReadBuf`.
//!
//! The buffer type belongs to tokio and is opaque here. Its state is described
//! by two uninterpreted functions, and the one method that the reader calls
//! is given a contract over them. That contract is assumed, not proved.

use tokio::io::ReadBuf;
use vstd::prelude::*;

verus! {

/// `tokio::io::ReadBuf`, carried through as an opaque value.
#[verifier::external_type_specification]
#[verifier::external_body]
pub struct ExReadBuf<'a>(tokio::io::ReadBuf<'a>);

/// The bytes of the filled region of a buffer, in order: what
/// `ReadBuf::filled` would hand out.
pub uninterp spec fn filled(buf: ReadBuf<'_>) -> Seq<u8>;

/// The total number of bytes a buffer can hold: what `ReadBuf::capacity`
/// would return.
pub uninterp spec fn capacity(buf: ReadBuf<'_>) -> nat;

/// The number of bytes that can still be put into a buffer.
pub open spec fn room(buf: ReadBuf<'_>) -> nat {
    (capacity(buf) - filled(buf).len()) as nat
}

/// `ReadBuf::remaining` returns the capacity less the length of the filled
/// region. The filled region never exceeds the capacity, so the subtraction
/// does not wrap and the call does not panic.
pub assume_specification<'a>[ tokio::io::ReadBuf::<'a>::remaining ](buf: &ReadBuf<'a>) -> (n: usize)
    ensures
        n == capacity(*buf) - filled(*buf).len(),
;

} // verus!

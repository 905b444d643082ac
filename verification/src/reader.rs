//! The reader: an ordered list of sources read one after another.

use crate::buffer::room;
use crate::source::{Polled, Source};
use crate::state::{decide, read_outcome, ReaderView};
use core::task::Context;
use tokio::io::ReadBuf;
use vstd::prelude::*;

verus! {

/// Reads a list of sources in sequence, as if they were one.
pub struct FilesReader<R> {
    files: Vec<R>,
    index: usize,
}

impl<R> View for FilesReader<R> {
    type V = ReaderView<R>;

    closed spec fn view(&self) -> ReaderView<R> {
        ReaderView { sources: self.files@, cursor: self.index as nat }
    }
}

impl<R> FilesReader<R> {
    #[verifier::type_invariant]
    spec fn inv(self) -> bool {
        self.index <= self.files.len()
    }

    /// A reader over `files`, in that order, with the cursor on the first.
    pub fn new(files: Vec<R>) -> (reader: Self)
        ensures
            reader@.sources == files@,
            reader@.cursor == 0,
    {
        FilesReader { files, index: 0 }
    }

    /// The index of the source that is read next; the number of sources once
    /// all are exhausted.
    pub fn cursor(&self) -> (cursor: usize)
        ensures
            cursor == self@.cursor,
            self@.wf(),
    {
        proof {
            use_type_invariant(self);
        }
        self.index
    }

    /// The number of sources, exhausted or not.
    pub fn len(&self) -> (len: usize)
        ensures
            len == self@.sources.len(),
    {
        self.files.len()
    }

    /// Takes note of the answer `polled` that the source under the cursor
    /// gave to a read, where the buffer had `before` bytes of room before the
    /// source was asked and has `after` bytes of room now.
    ///
    /// Returns what to report to the caller, or `None` where the source
    /// turned out to be exhausted: the cursor has then moved on, and the next
    /// source is to be asked.
    pub fn settle<E>(&mut self, polled: Polled<E>, before: usize, after: usize) -> (report:
        Option<Polled<E>>)
        ensures
            report == decide(polled, before as nat, after as nat),
            final(self)@ == old(self)@.settled(polled, before as nat, after as nat),
            final(self)@.wf(),
    {
        proof {
            use_type_invariant(&*self);
        }
        match polled {
            Polled::Ready => {
                if after == before {
                    if self.index < self.files.len() {
                        self.index += 1;
                    }
                    None
                } else {
                    Some(Polled::Ready)
                }
            },
            other => Some(other),
        }
    }
}

impl<R: Source> FilesReader<R> {
    /// Reads from the sources in sequence into `buf`.
    ///
    /// The source under the cursor is asked first. If it completes the read
    /// without using any room in `buf`, the cursor moves on and the next
    /// source is asked, within this same call. The call returns as soon as a
    /// source has put something into `buf`, is not ready, or fails; and with
    /// [`Polled::Ready`] and `buf` as it stands once no source is left.
    ///
    /// A read that completes may well leave room in `buf`, and sources unread:
    /// the caller reads again. A read that completes without using any room
    /// is the end of the data, and so is every read after it.
    ///
    /// A failure is the failure of the source under the cursor, handed on as
    /// it is. The cursor stays on that source, so a further read would ask it
    /// again; nothing else is promised of reading on after a failure.
    ///
    /// What the sources do is up to them. The contract says what holds
    /// whatever they do; what the reader makes of each answer is stated
    /// exactly by [`FilesReader::settle`], which this function calls on every
    /// answer it gets.
    pub fn poll_read(&mut self, cx: &mut Context<'_>, buf: &mut ReadBuf<'_>) -> (report: Polled<
        R::Error,
    >)
        ensures
            read_outcome(
                old(self)@,
                room(*old(buf)),
                report,
                final(self)@,
                room(*final(buf)),
            ),
            old(self)@.exhausted() ==> *final(buf) == *old(buf),
    {
        proof {
            use_type_invariant(&*self);
        }
        while self.index < self.files.len()
            invariant
                self.index <= self.files.len(),
                self.files.len() == old(self).files.len(),
                old(self).index <= self.index,
                forall|i: int|
                    0 <= i < self.files.len() && (i < old(self).index || self.index <= i)
                        ==> self.files@[i] == old(self).files@[i],
                room(*buf) == room(*old(buf)),
                self.index == old(self).index ==> self@ == old(self)@ && *buf == *old(buf),
            decreases self.files.len() - self.index,
        {
            let before: usize = buf.remaining();
            let polled = self.files[self.index].poll_read(cx, buf);
            let after: usize = buf.remaining();
            if let Some(report) = self.settle(polled, before, after) {
                return report;
            }
        }
        Polled::Ready
    }
}

/// A reader over `r`, in that order: [`FilesReader::new`] under a shorter
/// name.
pub fn cat<R>(r: Vec<R>) -> (reader: FilesReader<R>)
    ensures
        reader@.sources == r@,
        reader@.cursor == 0,
{
    FilesReader::new(r)
}

} // verus!

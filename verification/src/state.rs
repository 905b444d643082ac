//! The state of a reader as its contracts see it, and what follows from
//! those contracts over more than one read.

use crate::source::Polled;
use vstd::prelude::*;

verus! {

/// The abstract state of a [`FilesReader`](crate::reader::FilesReader).
pub struct ReaderView<R> {
    /// The sources, in the order in which they are read.
    pub sources: Seq<R>,
    /// The index of the source that is read next.
    pub cursor: nat,
}

impl<R> ReaderView<R> {
    /// The cursor stays within the list, or stands just behind it.
    pub open spec fn wf(self) -> bool {
        self.cursor <= self.sources.len()
    }

    /// No source is left to read.
    pub open spec fn exhausted(self) -> bool {
        self.cursor >= self.sources.len()
    }

    /// The state once the source under the cursor has been found exhausted:
    /// the cursor stands one further, unless it was already behind the last
    /// source.
    pub open spec fn advance(self) -> Self {
        if self.exhausted() {
            self
        } else {
            ReaderView { sources: self.sources, cursor: self.cursor + 1 }
        }
    }

    /// Whether `later` can be a later state of this reader: the cursor has
    /// not moved back, no source has joined or left the list, and every
    /// source that the cursor had passed before, or has not reached since,
    /// is as it was.
    pub open spec fn reads_on_to(self, later: Self) -> bool {
        &&& later.wf()
        &&& later.sources.len() == self.sources.len()
        &&& self.cursor <= later.cursor
        &&& forall|i: int|
            0 <= i < self.sources.len() && (i < self.cursor || later.cursor < i)
                ==> later.sources[i] == self.sources[i]
    }

    /// The state once the source under the cursor has answered `polled`,
    /// with `before` bytes of room in the buffer before it was asked and
    /// `after` bytes since: the cursor moves on exactly where [`decide`]
    /// finds the source exhausted.
    pub open spec fn settled<E>(self, polled: Polled<E>, before: nat, after: nat) -> Self {
        if decide(polled, before, after) is None {
            self.advance()
        } else {
            self
        }
    }
}

/// What a read reports to its caller once the source under the cursor has
/// answered `polled`, with `before` bytes of room in the buffer before the
/// source was asked and `after` bytes of room since.
///
/// `None` stands for no report at all: the source completed the read without
/// using any room, so it is exhausted and the next one is to be asked.
pub open spec fn decide<E>(polled: Polled<E>, before: nat, after: nat) -> Option<Polled<E>> {
    match polled {
        Polled::Ready => if after == before {
            None
        } else {
            Some(Polled::Ready)
        },
        _ => Some(polled),
    }
}

/// What one read promises, whatever the sources do: between the state
/// `before` with `room_before` bytes of room in the buffer, and the state
/// `after` with `room_after` bytes of room, where the read reported `report`.
///
/// The reader has read on, touching no source but those from the old cursor
/// to the new. A read that completes has used room in the buffer unless the
/// reader is exhausted, and then it has used none. A read that does not
/// complete leaves the cursor on a source. An exhausted reader changes
/// nothing.
pub open spec fn read_outcome<R, E>(
    before: ReaderView<R>,
    room_before: nat,
    report: Polled<E>,
    after: ReaderView<R>,
    room_after: nat,
) -> bool {
    &&& before.reads_on_to(after)
    &&& report is Ready ==> (after.exhausted() <==> room_after == room_before)
    &&& !(report is Ready) ==> !after.exhausted()
    &&& before.exhausted() ==> report is Ready && after == before && room_after == room_before
}

/// Whether a read reported the end of the data: it completed, and used no
/// room in the buffer.
pub open spec fn end_of_data<E>(room_before: nat, report: Polled<E>, room_after: nat) -> bool {
    report is Ready && room_after == room_before
}

/// Settling an answer is reading on: the cursor does not move back, moves by
/// one source at most and stays within bounds, and the list of sources is as
/// it was. On an exhausted reader it changes nothing at all.
pub proof fn lemma_settled_moves_forward<R, E>(
    v: ReaderView<R>,
    polled: Polled<E>,
    before: nat,
    after: nat,
)
    requires
        v.wf(),
    ensures
        v.reads_on_to(v.settled(polled, before, after)),
        v.settled(polled, before, after).sources == v.sources,
        v.settled(polled, before, after).cursor <= v.cursor + 1,
        v.exhausted() ==> v.settled(polled, before, after) == v,
{
}

/// The cursor never returns to an index it has left, over any number of
/// reads: reading on from a state that was itself read on to is reading on
/// from the first, and a source that the cursor has passed stays untouched
/// for good.
pub proof fn lemma_reading_on_is_an_order<R>(
    first: ReaderView<R>,
    second: ReaderView<R>,
    third: ReaderView<R>,
)
    requires
        first.wf(),
        first.reads_on_to(second),
        second.reads_on_to(third),
    ensures
        first.reads_on_to(first),
        first.reads_on_to(third),
{
}

/// Once a read has reported the end of the data, the reader is exhausted,
/// and the next read reports the end of the data again and leaves the reader
/// as it is. So does the read after that, and every later one.
pub proof fn lemma_end_of_data_repeats<R, E>(
    before: ReaderView<R>,
    room_before: nat,
    report: Polled<E>,
    after: ReaderView<R>,
    room_after: nat,
    next_room_before: nat,
    next_report: Polled<E>,
    next_after: ReaderView<R>,
    next_room_after: nat,
)
    requires
        read_outcome(before, room_before, report, after, room_after),
        end_of_data(room_before, report, room_after),
        read_outcome(after, next_room_before, next_report, next_after, next_room_after),
    ensures
        after.exhausted(),
        end_of_data(next_room_before, next_report, next_room_after),
        next_after == after,
{
}

/// A reader without sources reports the end of the data on its first read.
pub proof fn lemma_no_sources_no_data<R, E>(
    before: ReaderView<R>,
    room_before: nat,
    report: Polled<E>,
    after: ReaderView<R>,
    room_after: nat,
)
    requires
        before.sources.len() == 0,
        read_outcome(before, room_before, report, after, room_after),
    ensures
        end_of_data(room_before, report, room_after),
        after == before,
{
}

} // verus!

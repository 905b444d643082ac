//! What comes out of a reader over a whole run of reads.
//!
//! The reader itself never looks at a byte: it only sees whether a source
//! used any room in the buffer. This module follows a reader whose sources
//! are known by their content, answer by answer, and proves that what the
//! caller receives is the content of the sources, one after another.
//!
//! A state here is a [`ReaderView`] over byte sequences: each source stands
//! for the bytes it has not handed over yet. The states follow each other by
//! the same [`decide`] and [`ReaderView::settled`] that the reader's own
//! contracts are stated with.
//!
//! A run is made of the answers after which reading goes on. A failure ends
//! it: the reader hands the failure on and changes nothing.

use crate::state::{decide, lemma_settled_moves_forward, ReaderView};
use crate::source::Polled;
use vstd::prelude::*;
use vstd::seq_lib::lemma_flatten_concat;

verus! {

/// What the source under the cursor did when it was asked to read.
pub enum Answer {
    /// It was not ready, and read nothing.
    Pending,
    /// It completed the read: the buffer had `room` bytes of room, and the
    /// source put its next `taken` bytes there.
    Filled { room: nat, taken: nat },
}

/// Whether a source that still has `left` to give may answer so: it hands
/// over no more than it has and no more than there is room for, and it hands
/// over nothing only when it has nothing left or there is no room.
pub open spec fn faithful(left: Seq<u8>, answer: Answer) -> bool {
    match answer {
        Answer::Pending => true,
        Answer::Filled { room, taken } => {
            &&& taken <= room
            &&& taken <= left.len()
            &&& taken == 0 ==> left.len() == 0 || room == 0
        },
    }
}

/// The bytes that an answer puts into the buffer.
pub open spec fn handed_over(left: Seq<u8>, answer: Answer) -> Seq<u8> {
    match answer {
        Answer::Pending => Seq::empty(),
        Answer::Filled { taken, .. } => left.take(taken as int),
    }
}

/// The bytes that the source still has to give after an answer.
pub open spec fn kept_back(left: Seq<u8>, answer: Answer) -> Seq<u8> {
    match answer {
        Answer::Pending => left,
        Answer::Filled { taken, .. } => left.skip(taken as int),
    }
}

/// The answer as the reader is told of it. No source fails within a run, so
/// the type of the error does not matter.
pub open spec fn polled(answer: Answer) -> Polled<()> {
    match answer {
        Answer::Pending => Polled::Pending,
        Answer::Filled { .. } => Polled::Ready,
    }
}

/// The room in the buffer before the source was asked.
pub open spec fn room_before(answer: Answer) -> nat {
    match answer {
        Answer::Pending => 0,
        Answer::Filled { room, .. } => room,
    }
}

/// The room in the buffer after the answer.
pub open spec fn room_after(answer: Answer) -> nat {
    match answer {
        Answer::Pending => 0,
        Answer::Filled { room, taken } => (room - taken) as nat,
    }
}

/// What the reader reports to its caller on an answer; `None` where it goes
/// on to the next source instead.
pub open spec fn report_on(answer: Answer) -> Option<Polled<()>> {
    decide(polled(answer), room_before(answer), room_after(answer))
}

/// The state after the source under the cursor has given `answer`: the
/// source has parted with what it handed over, and the reader has settled
/// the answer. An exhausted reader has no source under the cursor, and stays
/// as it is.
pub open spec fn step(v: ReaderView<Seq<u8>>, answer: Answer) -> ReaderView<Seq<u8>> {
    let at = v.cursor as int;
    if v.exhausted() {
        v
    } else {
        ReaderView {
            sources: v.sources.update(at, kept_back(v.sources[at], answer)),
            cursor: v.cursor,
        }.settled(polled(answer), room_before(answer), room_after(answer))
    }
}

/// The state of a reader newly made over sources with these contents.
pub open spec fn fresh(contents: Seq<Seq<u8>>) -> ReaderView<Seq<u8>> {
    ReaderView { sources: contents, cursor: 0 }
}

/// The state after a run of answers, each given by the source that was under
/// the cursor at the time.
pub open spec fn state_after(v: ReaderView<Seq<u8>>, answers: Seq<Answer>) -> ReaderView<Seq<u8>>
    decreases answers.len(),
{
    if answers.len() == 0 {
        v
    } else {
        step(state_after(v, answers.drop_last()), answers.last())
    }
}

/// Whether a run of answers can occur: a source is only asked while the
/// reader is not exhausted, and every answer is faithful to what the source
/// under the cursor has left.
pub open spec fn admits(v: ReaderView<Seq<u8>>, answers: Seq<Answer>) -> bool
    decreases answers.len(),
{
    answers.len() > 0 ==> {
        let s = state_after(v, answers.drop_last());
        &&& admits(v, answers.drop_last())
        &&& !s.exhausted()
        &&& faithful(s.sources[s.cursor as int], answers.last())
    }
}

/// All the bytes that a run of answers puts into the caller's buffers, in
/// the order in which they arrive.
pub open spec fn output(v: ReaderView<Seq<u8>>, answers: Seq<Answer>) -> Seq<u8>
    decreases answers.len(),
{
    if answers.len() == 0 {
        Seq::empty()
    } else {
        let s = state_after(v, answers.drop_last());
        output(v, answers.drop_last()) + handed_over(s.sources[s.cursor as int], answers.last())
    }
}

/// The bytes still to come: what the sources from the cursor on have left,
/// one after another.
pub open spec fn unread(v: ReaderView<Seq<u8>>) -> Seq<u8> {
    v.sources.skip(v.cursor as int).flatten()
}

/// Whether an answer leaves bytes behind for good: the source completed a
/// read into a buffer without room while it still had bytes to give. It could
/// hand nothing over, and the reader takes it for exhausted.
pub open spec fn passes_by(left: Seq<u8>, answer: Answer) -> bool {
    answer matches Answer::Filled { room, .. } && room == 0 && left.len() > 0
}

/// No answer of the run left bytes behind.
pub open spec fn loses_nothing(v: ReaderView<Seq<u8>>, answers: Seq<Answer>) -> bool
    decreases answers.len(),
{
    answers.len() > 0 ==> {
        let s = state_after(v, answers.drop_last());
        &&& loses_nothing(v, answers.drop_last())
        &&& !passes_by(s.sources[s.cursor as int], answers.last())
    }
}

/// Every completed read of the run was made into a buffer with room in it.
pub open spec fn has_room(answers: Seq<Answer>) -> bool {
    forall|i: int|
        0 <= i < answers.len() ==> (#[trigger] answers[i] matches Answer::Filled { room, .. }
            ==> room > 0)
}

/// The caller is told of every byte, and of nothing else: an answer that the
/// reader passes over in silence has handed nothing over, and a read that is
/// reported as complete has brought at least one byte.
pub proof fn lemma_reports_carry_the_bytes(left: Seq<u8>, answer: Answer)
    requires
        faithful(left, answer),
    ensures
        report_on(answer) is None <==> answer is Filled && handed_over(left, answer).len() == 0,
        report_on(answer) == Some(Polled::<()>::Ready) <==> handed_over(left, answer).len() > 0,
        report_on(answer) == Some(Polled::<()>::Pending) <==> answer is Pending,
{
}

/// Whatever the source under the cursor answers, the cursor does not move
/// back, stays within bounds, and no source joins or leaves the list.
pub proof fn lemma_step_moves_forward(v: ReaderView<Seq<u8>>, answer: Answer)
    requires
        v.wf(),
    ensures
        step(v, answer).wf(),
        step(v, answer).sources.len() == v.sources.len(),
        v.cursor <= step(v, answer).cursor <= v.cursor + 1,
        v.exhausted() ==> step(v, answer) == v,
{
    if !v.exhausted() {
        let at = v.cursor as int;
        let read = ReaderView {
            sources: v.sources.update(at, kept_back(v.sources[at], answer)),
            cursor: v.cursor,
        };
        lemma_settled_moves_forward(read, polled(answer), room_before(answer), room_after(answer));
    }
}

/// Over any run of answers, however the sources cut their content into
/// reads, the cursor never returns to an index it has left: at every earlier
/// moment of the run it stood no further than at any later one.
pub proof fn lemma_cursor_never_moves_back(
    v: ReaderView<Seq<u8>>,
    answers: Seq<Answer>,
    earlier: int,
    later: int,
)
    requires
        v.wf(),
        0 <= earlier <= later <= answers.len(),
    ensures
        v.cursor <= state_after(v, answers.take(earlier)).cursor,
        state_after(v, answers.take(earlier)).cursor <= state_after(v, answers.take(later)).cursor,
        state_after(v, answers.take(later)).wf(),
        state_after(v, answers.take(later)).sources.len() == v.sources.len(),
    decreases later,
{
    if later == 0 {
        assert(answers.take(0).len() == 0);
    } else if earlier == later {
        lemma_cursor_never_moves_back(v, answers, earlier - 1, later - 1);
        assert(answers.take(later).drop_last() =~= answers.take(later - 1));
        lemma_step_moves_forward(state_after(v, answers.take(later - 1)), answers[later - 1]);
    } else {
        lemma_cursor_never_moves_back(v, answers, earlier, later - 1);
        assert(answers.take(later).drop_last() =~= answers.take(later - 1));
        lemma_step_moves_forward(state_after(v, answers.take(later - 1)), answers[later - 1]);
    }
}

/// Once the reader is exhausted it stays so, and no source is asked again:
/// the only run it admits is the empty one, which produces nothing.
pub proof fn lemma_exhaustion_is_final(v: ReaderView<Seq<u8>>, answers: Seq<Answer>)
    requires
        v.wf(),
        v.exhausted(),
    ensures
        state_after(v, answers) == v,
        admits(v, answers) ==> answers.len() == 0 && output(v, answers) == Seq::<u8>::empty(),
    decreases answers.len(),
{
    if answers.len() > 0 {
        lemma_exhaustion_is_final(v, answers.drop_last());
        lemma_cursor_never_moves_back(v, answers.drop_last(), 0, answers.len() - 1);
        assert(answers.drop_last().take(answers.len() - 1) =~= answers.drop_last());
        lemma_step_moves_forward(state_after(v, answers.drop_last()), answers.last());
    }
}

/// A faithful answer that leaves no bytes behind hands over the very bytes
/// that were next to come.
pub proof fn lemma_step_hands_over_next(v: ReaderView<Seq<u8>>, answer: Answer)
    requires
        v.wf(),
        !v.exhausted(),
        faithful(v.sources[v.cursor as int], answer),
        !passes_by(v.sources[v.cursor as int], answer),
    ensures
        handed_over(v.sources[v.cursor as int], answer) + unread(step(v, answer)) == unread(v),
{
    let at = v.cursor as int;
    let left = v.sources[at];
    let kept = kept_back(left, answer);
    let read = v.sources.update(at, kept);
    assert(v.sources.skip(at).drop_first() =~= v.sources.skip(at + 1));
    assert(read.skip(at).drop_first() =~= v.sources.skip(at + 1));
    assert(read.skip(at + 1) =~= v.sources.skip(at + 1));
    assert(read.skip(at).first() == kept);
    assert(handed_over(left, answer) + kept =~= left);
    if step(v, answer).cursor == v.cursor {
        assert(handed_over(left, answer) + (kept + v.sources.skip(at + 1).flatten()) =~= left
            + v.sources.skip(at + 1).flatten());
    } else {
        assert(left.len() == 0);
        assert(handed_over(left, answer) + v.sources.skip(at + 1).flatten() =~= left
            + v.sources.skip(at + 1).flatten());
    }
}

/// At any moment of a run that leaves no bytes behind, what has come out so
/// far, followed by what is still to come, is what was to come at the start.
pub proof fn lemma_output_then_unread(v: ReaderView<Seq<u8>>, answers: Seq<Answer>)
    requires
        v.wf(),
        admits(v, answers),
        loses_nothing(v, answers),
    ensures
        output(v, answers) + unread(state_after(v, answers)) == unread(v),
    decreases answers.len(),
{
    if answers.len() == 0 {
        assert(output(v, answers) + unread(v) =~= unread(v));
    } else {
        let before = answers.drop_last();
        let s = state_after(v, before);
        lemma_output_then_unread(v, before);
        lemma_cursor_never_moves_back(v, before, 0, before.len() as int);
        assert(before.take(before.len() as int) =~= before);
        lemma_step_hands_over_next(s, answers.last());
        let handed = handed_over(s.sources[s.cursor as int], answers.last());
        assert(output(v, before) + handed + unread(step(s, answers.last())) =~= output(v, before)
            + (handed + unread(step(s, answers.last()))));
    }
}

/// A run whose reads all found room in the buffer leaves no bytes behind.
pub proof fn lemma_room_loses_nothing(v: ReaderView<Seq<u8>>, answers: Seq<Answer>)
    requires
        has_room(answers),
    ensures
        loses_nothing(v, answers),
    decreases answers.len(),
{
    if answers.len() > 0 {
        let before = answers.drop_last();
        assert forall|i: int| 0 <= i < before.len() implies (#[trigger] before[i] matches Answer::Filled {
            room,
            ..
        } ==> room > 0) by {
            assert(before[i] == answers[i]);
        }
        lemma_room_loses_nothing(v, before);
        assert(answers.last() == answers[answers.len() - 1]);
    }
}

/// The combined output is the content of the sources, one after another.
///
/// A reader that starts on its first source and is followed until it is
/// exhausted has handed to its caller exactly the bytes of its sources in
/// their order, whatever the number and the sizes of the reads in which each
/// source gave its content, and however often a source was not ready.
///
/// The run must not have left bytes behind: a source asked to read into a
/// buffer without room completes without handing anything over, and is passed
/// by with what it still had. [`lemma_room_loses_nothing`] shows that this
/// cannot happen to a caller who only reads into buffers with room.
pub proof fn lemma_drained_output_is_concatenation(contents: Seq<Seq<u8>>, answers: Seq<Answer>)
    requires
        admits(fresh(contents), answers),
        loses_nothing(fresh(contents), answers),
        state_after(fresh(contents), answers).exhausted(),
    ensures
        output(fresh(contents), answers) == contents.flatten(),
{
    let v = fresh(contents);
    let end = state_after(v, answers);
    lemma_output_then_unread(v, answers);
    lemma_cursor_never_moves_back(v, answers, 0, answers.len() as int);
    assert(answers.take(answers.len() as int) =~= answers);
    assert(end.sources.skip(end.cursor as int) =~= Seq::<Seq<u8>>::empty());
    assert(contents.skip(0) =~= contents);
    assert(output(v, answers) + Seq::<u8>::empty() =~= output(v, answers));
}

/// With a single source, the combined output is that source's content.
pub proof fn lemma_single_source_is_passed_through(content: Seq<u8>, answers: Seq<Answer>)
    requires
        admits(fresh(seq![content]), answers),
        loses_nothing(fresh(seq![content]), answers),
        state_after(fresh(seq![content]), answers).exhausted(),
    ensures
        output(fresh(seq![content]), answers) == content,
{
    lemma_drained_output_is_concatenation(seq![content], answers);
    seq![content].lemma_flatten_one_element();
}

/// A source without content adds nothing and takes nothing away: with an
/// empty source between the sources `front` and the sources `back`, the
/// combined output is the content of `front` followed by that of `back`.
pub proof fn lemma_empty_source_adds_nothing(
    front: Seq<Seq<u8>>,
    back: Seq<Seq<u8>>,
    answers: Seq<Answer>,
)
    requires
        admits(fresh(front + seq![Seq::<u8>::empty()] + back), answers),
        loses_nothing(fresh(front + seq![Seq::<u8>::empty()] + back), answers),
        state_after(fresh(front + seq![Seq::<u8>::empty()] + back), answers).exhausted(),
    ensures
        output(fresh(front + seq![Seq::<u8>::empty()] + back), answers) == front.flatten()
            + back.flatten(),
{
    let hole = seq![Seq::<u8>::empty()];
    lemma_drained_output_is_concatenation(front + hole + back, answers);
    lemma_flatten_concat(front + hole, back);
    lemma_flatten_concat(front, hole);
    hole.lemma_flatten_one_element();
    assert(front.flatten() + hole.flatten() =~= front.flatten());
}

} // verus!

//! What holds of commands and processes over the whole of their events.
use vstd::prelude::*;

use crate::api::{ProcessOutputEvent, ProcessOutputStream, RunProcessEvent};
use crate::error::BackendError;
use crate::http::HttpStatus;
use crate::process::{
    after_read, after_send, exit_step, is_eof, line_bytes, next_output, ExitStep, StdinRead,
    StdinStep,
};
use crate::run::{
    as_status, comes_to, exit_status, framed, next_payload, Collected, RunOutcome,
};
use crate::sse::{line_break, Frame, PollView, SseState};
use crate::sse_laws::{delivered, law_chunking_is_invisible, law_polling_delivers_what_is_owed};

verus! {

/// The data of the events that carry any, in order.
pub open spec fn payloads(frames: Seq<Frame>) -> Seq<Seq<char>>
    decreases frames.len(),
{
    if frames.len() == 0 {
        Seq::empty()
    } else if frames.first().data.len() == 0 {
        payloads(frames.drop_first())
    } else {
        seq![frames.first().data] + payloads(frames.drop_first())
    }
}

/// Polling a run hands out the data of every event that carries any, in order,
/// and passes over nothing else.
pub proof fn law_a_run_hands_out_every_payload(state: SseState)
    ensures
        match next_payload(state) {
            (next, PollView::Event(frame)) => payloads(state.owed()) == seq![frame.data] + payloads(
                next.owed(),
            ),
            (next, PollView::NeedMore) => payloads(state.owed()).len() == 0 && !state.finished,
            (next, PollView::End) => payloads(state.owed()).len() == 0 && state.finished,
        },
    decreases state.owed().len(),
{
    law_polling_delivers_what_is_owed(state);
    if let (next, PollView::Event(frame)) = state.polled() {
        assert(state.owed().drop_first() =~= next.owed());
        if frame.data.len() == 0 {
            law_a_run_hands_out_every_payload(next);
        }
    }
}

/// Polls a run until it has no more data to hand out.
pub open spec fn polled_out(state: SseState) -> (SseState, Seq<Seq<char>>)
    decreases state.owed().len(),
{
    match next_payload(state) {
        (next, PollView::Event(frame)) if next.owed().len() < state.owed().len() => {
            let (last, rest) = polled_out(next);
            (last, seq![frame.data] + rest)
        },
        (next, _) => (next, Seq::empty()),
    }
}

/// Pushes the chunks of a stream one after the other, polls the run dry after
/// each of them and once more at the end of the stream.
pub open spec fn run_payloads(state: SseState, chunks: Seq<Seq<u8>>) -> Seq<Seq<char>>
    decreases chunks.len(),
{
    if chunks.len() == 0 {
        polled_out(state.ended()).1
    } else {
        let (next, data) = polled_out(state.with_chunk(chunks.first()));
        data + run_payloads(next, chunks.drop_first())
    }
}

proof fn lemma_next_payload(state: SseState)
    ensures
        match next_payload(state) {
            (next, PollView::Event(frame)) => {
                &&& next.owed().len() < state.owed().len()
                &&& next.finished == state.finished
                &&& !state.finished ==> next.drained().0 == state.drained().0
            },
            (next, _) => !state.finished ==> next == state.drained().0,
        },
    decreases state.owed().len(),
{
    law_polling_delivers_what_is_owed(state);
    if let (next, PollView::Event(frame)) = state.polled() {
        if frame.data.len() == 0 {
            lemma_next_payload(next);
        }
    }
}

proof fn lemma_polled_out(state: SseState)
    ensures
        polled_out(state).1 == payloads(state.owed()),
        !state.finished ==> polled_out(state).0 == state.drained().0,
    decreases state.owed().len(),
{
    lemma_next_payload(state);
    law_a_run_hands_out_every_payload(state);
    match next_payload(state) {
        (next, PollView::Event(frame)) => {
            lemma_polled_out(next);
        },
        _ => {
            assert(payloads(state.owed()) =~= Seq::<Seq<char>>::empty());
        },
    }
}

proof fn lemma_payloads_add_up(first: Seq<Frame>, second: Seq<Frame>)
    ensures
        payloads(first + second) == payloads(first) + payloads(second),
    decreases first.len(),
{
    if first.len() == 0 {
        assert(first + second =~= second);
        assert(payloads(first) + payloads(second) =~= payloads(second));
    } else {
        let whole = first + second;
        assert(whole.drop_first() =~= first.drop_first() + second);
        lemma_payloads_add_up(first.drop_first(), second);
        assert(payloads(whole) =~= payloads(first) + payloads(second));
    }
}

/// The data that a run hands out is the data of the events of its stream, in
/// order, however the stream is cut into chunks.
pub proof fn law_a_run_reads_its_whole_stream(state: SseState, chunks: Seq<Seq<u8>>)
    requires
        !state.finished,
    ensures
        run_payloads(state, chunks) == payloads(
            state.with_chunk(chunks.flatten()).ended().owed(),
        ),
{
    law_chunking_is_invisible(state, chunks);
    lemma_run_payloads(state, chunks);
}

proof fn lemma_run_payloads(state: SseState, chunks: Seq<Seq<u8>>)
    requires
        !state.finished,
    ensures
        run_payloads(state, chunks) == payloads(delivered(state, chunks)),
    decreases chunks.len(),
{
    if chunks.len() == 0 {
        lemma_polled_out(state.ended());
    } else {
        let pushed = state.with_chunk(chunks.first());
        lemma_polled_out(pushed);
        let (next, frames) = pushed.drained();
        lemma_drained_unfinished(pushed);
        lemma_run_payloads(next, chunks.drop_first());
        lemma_payloads_add_up(frames, delivered(next, chunks.drop_first()));
    }
}

proof fn lemma_drained_unfinished(state: SseState)
    ensures
        state.drained().0.finished == state.finished,
    decreases state.buffer.len(),
{
    if let Some(at) = line_break(state.buffer) {
        if 0 <= at < state.buffer.len() {
            lemma_drained_unfinished(state.past_line().0);
        }
    }
}

/// The data of the events up to the one that says that the output is complete.
pub open spec fn outputs(frames: Seq<Frame>) -> Seq<Seq<char>>
    decreases frames.len(),
{
    if frames.len() == 0 || is_eof(frames.first()) {
        Seq::empty()
    } else if frames.first().data.len() == 0 {
        outputs(frames.drop_first())
    } else {
        seq![frames.first().data] + outputs(frames.drop_first())
    }
}

/// Following output hands out the data of every event that carries any, in
/// order, up to the event that says that the output is complete.
pub proof fn law_following_hands_out_every_output(state: SseState)
    ensures
        match next_output(state) {
            (next, PollView::Event(frame)) => outputs(state.owed()) == seq![frame.data] + outputs(
                next.owed(),
            ),
            (next, PollView::NeedMore) => outputs(state.owed()).len() == 0 && !state.finished,
            (next, PollView::End) => outputs(state.owed()).len() == 0,
        },
    decreases state.owed().len(),
{
    law_polling_delivers_what_is_owed(state);
    if let (next, PollView::Event(frame)) = state.polled() {
        assert(state.owed().drop_first() =~= next.owed());
        if !is_eof(frame) && frame.data.len() == 0 {
            law_following_hands_out_every_output(next);
        }
    }
}

/// Whether an event says that the output is complete.
pub open spec fn has_eof(frames: Seq<Frame>) -> bool
    decreases frames.len(),
{
    frames.len() > 0 && (is_eof(frames.first()) || has_eof(frames.drop_first()))
}

/// Polls a follower until it has no more data to hand out. The flag says that
/// the output is complete.
pub open spec fn followed_out(state: SseState) -> (SseState, Seq<Seq<char>>, bool)
    decreases state.owed().len(),
{
    match next_output(state) {
        (next, PollView::Event(frame)) if next.owed().len() < state.owed().len() => {
            let (last, rest, complete) = followed_out(next);
            (last, seq![frame.data] + rest, complete)
        },
        (next, PollView::End) => (next, Seq::empty(), true),
        (next, _) => (next, Seq::empty(), false),
    }
}

/// Pushes the chunks of a stream one after the other and polls the follower dry
/// after each of them and once more at the end of the stream. What comes after
/// the output is complete is not read.
pub open spec fn followed_payloads(state: SseState, chunks: Seq<Seq<u8>>) -> Seq<Seq<char>>
    decreases chunks.len(),
{
    if chunks.len() == 0 {
        followed_out(state.ended()).1
    } else {
        let (next, data, complete) = followed_out(state.with_chunk(chunks.first()));
        if complete {
            data
        } else {
            data + followed_payloads(next, chunks.drop_first())
        }
    }
}

proof fn lemma_next_output(state: SseState)
    ensures
        match next_output(state) {
            (next, PollView::Event(frame)) => {
                &&& next.owed().len() < state.owed().len()
                &&& next.finished == state.finished
                &&& !state.finished ==> next.drained().0 == state.drained().0
                &&& has_eof(next.owed()) == has_eof(state.owed())
            },
            (next, PollView::NeedMore) => {
                &&& !state.finished
                &&& !has_eof(state.owed())
                &&& next == state.drained().0
            },
            (next, PollView::End) => state.finished || has_eof(state.owed()),
        },
    decreases state.owed().len(),
{
    law_polling_delivers_what_is_owed(state);
    if let (next, PollView::Event(frame)) = state.polled() {
        assert(state.owed().drop_first() =~= next.owed());
        assert(state.owed().first() == frame);
        if !is_eof(frame) && frame.data.len() == 0 {
            lemma_next_output(next);
        }
    }
}

proof fn lemma_followed_out(state: SseState)
    ensures
        followed_out(state).1 == outputs(state.owed()),
        !state.finished ==> followed_out(state).2 == has_eof(state.owed()),
        !state.finished && !followed_out(state).2 ==> followed_out(state).0 == state.drained().0,
    decreases state.owed().len(),
{
    lemma_next_output(state);
    law_following_hands_out_every_output(state);
    match next_output(state) {
        (next, PollView::Event(frame)) => {
            lemma_followed_out(next);
        },
        _ => {
            assert(outputs(state.owed()) =~= Seq::<Seq<char>>::empty());
        },
    }
}

proof fn lemma_outputs_add_up(first: Seq<Frame>, second: Seq<Frame>)
    ensures
        outputs(first + second) == if has_eof(first) {
            outputs(first)
        } else {
            outputs(first) + outputs(second)
        },
    decreases first.len(),
{
    let whole = first + second;
    if first.len() == 0 {
        assert(whole =~= second);
        assert(outputs(first) + outputs(second) =~= outputs(second));
    } else if !is_eof(first.first()) {
        assert(whole.drop_first() =~= first.drop_first() + second);
        lemma_outputs_add_up(first.drop_first(), second);
        if !has_eof(first) {
            assert(outputs(whole) =~= outputs(first) + outputs(second));
        }
    }
}

proof fn lemma_followed_payloads(state: SseState, chunks: Seq<Seq<u8>>)
    requires
        !state.finished,
    ensures
        followed_payloads(state, chunks) == outputs(delivered(state, chunks)),
    decreases chunks.len(),
{
    if chunks.len() == 0 {
        lemma_followed_out(state.ended());
    } else {
        let pushed = state.with_chunk(chunks.first());
        let (next, frames) = pushed.drained();
        let rest = chunks.drop_first();
        lemma_followed_out(pushed);
        lemma_drained_unfinished(pushed);
        lemma_outputs_add_up(frames, delivered(next, rest));
        assert(pushed.owed() == frames);
        if !has_eof(frames) {
            lemma_followed_payloads(next, rest);
        }
    }
}

/// The data that a follower hands out is the data of the events of its stream
/// up to the one that says that the output is complete, in order, however the
/// stream is cut into chunks.
pub proof fn law_a_follower_reads_its_whole_stream(state: SseState, chunks: Seq<Seq<u8>>)
    requires
        !state.finished,
    ensures
        followed_payloads(state, chunks) == outputs(
            state.with_chunk(chunks.flatten()).ended().owed(),
        ),
{
    law_chunking_is_invisible(state, chunks);
    lemma_followed_payloads(state, chunks);
}

/// What is known after a number of events.
pub open spec fn collected_from(events: Seq<RunProcessEvent>) -> Collected
    decreases events.len(),
{
    if events.len() == 0 {
        Collected::nothing()
    } else {
        collected_from(events.drop_last()).with(events.last())
    }
}

/// The lines that the events report for standard error, or for standard output.
/// A line that names no stream is one of standard output.
pub open spec fn lines_of(events: Seq<RunProcessEvent>, stderr: bool) -> Seq<Seq<char>>
    decreases events.len(),
{
    if events.len() == 0 {
        Seq::empty()
    } else {
        let before = lines_of(events.drop_last(), stderr);
        match events.last().line {
            Some(line) if (events.last().stream == Some(ProcessOutputStream::Stderr)) == stderr =>
                before.push(line@),
            _ => before,
        }
    }
}

/// The event reports the exit of the process.
pub open spec fn is_exit(event: RunProcessEvent) -> bool {
    event.line is None && event.started_at is None
}

/// The exit that was reported last.
pub open spec fn last_exit(events: Seq<RunProcessEvent>) -> Option<Option<int>>
    decreases events.len(),
{
    if events.len() == 0 {
        None
    } else if is_exit(events.last()) {
        Some(exit_status(events.last().exit_code, events.last().signal))
    } else {
        last_exit(events.drop_last())
    }
}

/// Collecting keeps every line, on its stream and in order, and the exit that
/// was reported last.
pub proof fn law_collecting_keeps_every_line(events: Seq<RunProcessEvent>)
    ensures
        collected_from(events) == (Collected {
            stdout: lines_of(events, false),
            stderr: lines_of(events, true),
            exit: last_exit(events),
        }),
    decreases events.len(),
{
    if events.len() > 0 {
        law_collecting_keeps_every_line(events.drop_last());
    }
}

/// A run has a result exactly if its exit was reported.
pub proof fn law_a_result_needs_an_exit(events: Seq<RunProcessEvent>)
    ensures
        collected_from(events).exit is Some <==> exists|i: int|
            0 <= i < events.len() && is_exit(#[trigger] events[i]),
    decreases events.len(),
{
    law_collecting_keeps_every_line(events);
    if events.len() > 0 {
        let init = events.drop_last();
        law_collecting_keeps_every_line(init);
        law_a_result_needs_an_exit(init);
        if is_exit(events.last()) {
            assert(is_exit(events[events.len() - 1]));
        } else {
            assert(forall|i: int| 0 <= i < init.len() ==> init[i] == events[i]);
            if exists|i: int| 0 <= i < events.len() && is_exit(#[trigger] events[i]) {
                let i = choose|i: int| 0 <= i < events.len() && is_exit(#[trigger] events[i]);
                assert(is_exit(init[i]));
            }
            if exists|i: int| 0 <= i < init.len() && is_exit(#[trigger] init[i]) {
                let i = choose|i: int| 0 <= i < init.len() && is_exit(#[trigger] init[i]);
                assert(is_exit(events[i]));
            }
        }
    }
}

/// No line holds a line feed.
pub open spec fn are_lines(lines: Seq<Seq<char>>) -> bool {
    forall|i: int| 0 <= i < lines.len() ==> !(#[trigger] lines[i]).contains('\n')
}

/// Text that ends with a line and a line feed tells where that line begins.
proof fn lemma_last_line(first: Seq<char>, line: Seq<char>, second: Seq<char>, other: Seq<char>)
    requires
        first + line.push('\n') == second + other.push('\n'),
        !line.contains('\n'),
        !other.contains('\n'),
        first.len() == 0 || first.last() == '\n',
        second.len() == 0 || second.last() == '\n',
    ensures
        first == second,
        line == other,
{
    let whole = first + line.push('\n');
    let same = second + other.push('\n');
    assert(whole.len() == first.len() + line.len() + 1);
    assert(same.len() == second.len() + other.len() + 1);
    if line.len() < other.len() {
        // The end of `first` lies within `other`.
        let at = other.len() - line.len() - 1;
        assert(first.len() - 1 == second.len() + at);
        assert(whole[first.len() - 1] == first.last());
        assert(same[second.len() + at] == other[at]);
        assert(other.contains(other[at]));
    } else if other.len() < line.len() {
        let at = line.len() - other.len() - 1;
        assert(second.len() - 1 == first.len() + at);
        assert(same[second.len() - 1] == second.last());
        assert(whole[first.len() + at] == line[at]);
        assert(line.contains(line[at]));
    }
    assert(first.len() == second.len());
    assert forall|i: int| 0 <= i < first.len() implies first[i] == second[i] by {
        assert(whole[i] == first[i]);
        assert(same[i] == second[i]);
    }
    assert(first =~= second);
    assert forall|i: int| 0 <= i < line.len() implies line[i] == other[i] by {
        assert(whole[first.len() + i] == line[i]);
        assert(same[first.len() + i] == other[i]);
    }
    assert(line =~= other);
}

proof fn lemma_framed_ends_with_a_line(lines: Seq<Seq<char>>)
    ensures
        framed(lines).len() == 0 <==> lines.len() == 0,
        framed(lines).len() > 0 ==> framed(lines).last() == '\n',
{
    if lines.len() > 0 {
        assert(framed(lines).last() == lines.last().push('\n').last());
    }
}

/// The text of an output tells its lines apart: different lines make different
/// texts.
pub proof fn law_output_text_tells_its_lines(lines: Seq<Seq<char>>, other: Seq<Seq<char>>)
    requires
        are_lines(lines),
        are_lines(other),
        framed(lines) == framed(other),
    ensures
        lines == other,
    decreases lines.len(),
{
    lemma_framed_ends_with_a_line(lines);
    lemma_framed_ends_with_a_line(other);
    if lines.len() > 0 {
        let init = lines.drop_last();
        let other_init = other.drop_last();
        lemma_framed_ends_with_a_line(init);
        lemma_framed_ends_with_a_line(other_init);
        assert(!lines[lines.len() - 1].contains('\n'));
        assert(!other[other.len() - 1].contains('\n'));
        lemma_last_line(framed(init), lines.last(), framed(other_init), other.last());
        assert forall|i: int| 0 <= i < init.len() implies !(#[trigger] init[i]).contains(
            '\n',
        ) by {
            assert(init[i] == lines[i]);
        }
        assert forall|i: int| 0 <= i < other_init.len() implies !(
        #[trigger] other_init[i]).contains('\n') by {
            assert(other_init[i] == other[i]);
        }
        law_output_text_tells_its_lines(init, other_init);
        assert(lines =~= init.push(lines.last()));
        assert(other =~= other_init.push(other.last()));
    } else {
        assert(lines =~= other);
    }
}

/// Output that comes in two parts reads as the two parts one after the other.
pub proof fn law_output_text_adds_up(first: Seq<Seq<char>>, second: Seq<Seq<char>>)
    ensures
        framed(first + second) == framed(first) + framed(second),
    decreases second.len(),
{
    if second.len() == 0 {
        assert(first + second =~= first);
        assert(framed(first) + framed(second) =~= framed(first));
    } else {
        let whole = first + second;
        assert(whole.drop_last() =~= first + second.drop_last());
        law_output_text_adds_up(first, second.drop_last());
        assert(framed(whole) =~= framed(first) + framed(second));
    }
}

/// The steps that can come after a step of the input forwarder.
pub open spec fn stdin_follows(step: StdinStep, next: StdinStep) -> bool {
    match step {
        StdinStep::Read => exists|read: StdinRead| next == #[trigger] after_read(read),
        StdinStep::Send { .. } => exists|status: Option<HttpStatus>|
            next == #[trigger] after_send(status),
        StdinStep::Close => next == StdinStep::Finished,
        StdinStep::Finished => false,
    }
}

pub open spec fn is_stdin_run(steps: Seq<StdinStep>) -> bool {
    &&& steps.len() > 0
    &&& steps.first() == StdinStep::Read
    &&& forall|i: int|
        #![trigger steps[i]]
        0 <= i < steps.len() - 1 ==> stdin_follows(steps[i], steps[i + 1])
}

proof fn lemma_stdin_ends_with_close(steps: Seq<StdinStep>, i: int)
    requires
        is_stdin_run(steps),
        0 <= i < steps.len(),
        steps[i] is Close,
    ensures
        i >= steps.len() - 2,
{
    if i < steps.len() - 2 {
        assert(stdin_follows(steps[i], steps[i + 1]));
        assert(stdin_follows(steps[i + 1], steps[i + 1 + 1]));
    }
}

/// A forwarder that is finished has closed the input exactly once, and that was
/// the last thing it did.
pub proof fn law_input_is_closed_once_and_last(steps: Seq<StdinStep>)
    requires
        is_stdin_run(steps),
        steps.last() is Finished,
    ensures
        steps.len() >= 3,
        forall|i: int|
            0 <= i < steps.len() ==> (#[trigger] steps[i] is Close <==> i == steps.len() - 2),
{
    let n = steps.len() as int;
    assert(n > 1);
    assert(stdin_follows(steps[n - 2], steps[n - 2 + 1]));
    assert(steps[n - 2] is Close);
    assert(n > 2);
    assert forall|i: int| 0 <= i < n implies (#[trigger] steps[i] is Close <==> i == n - 2) by {
        if steps[i] is Close {
            lemma_stdin_ends_with_close(steps, i);
        }
    }
}

/// What a forwarder went through: a piece of input and the answer to sending
/// it.
pub struct Piece {
    pub read: StdinRead,
    pub status: Option<HttpStatus>,
}

/// Input that was forwarded: the steps of each piece led to the next one.
pub open spec fn was_forwarded(pieces: Seq<Piece>) -> bool {
    forall|i: int|
        #![trigger pieces[i]]
        0 <= i < pieces.len() ==> {
            &&& after_read(pieces[i].read) is Send
            &&& after_send(pieces[i].status) is Read
        }
}

/// What the input read so far adds up to.
pub open spec fn bytes_read(pieces: Seq<Piece>) -> Seq<u8>
    decreases pieces.len(),
{
    if pieces.len() == 0 {
        Seq::empty()
    } else {
        bytes_read(pieces.drop_last()) + match pieces.last().read {
            StdinRead::Bytes { bytes } => bytes@,
            StdinRead::Broken => Seq::empty(),
        }
    }
}

/// What the bytes sent so far add up to.
pub open spec fn bytes_sent(pieces: Seq<Piece>) -> Seq<u8>
    decreases pieces.len(),
{
    if pieces.len() == 0 {
        Seq::empty()
    } else {
        bytes_sent(pieces.drop_last()) + match after_read(pieces.last().read) {
            StdinStep::Send { bytes } => bytes@,
            _ => Seq::empty(),
        }
    }
}

/// Every byte of the input is sent, once and in order, and each piece only
/// after the one before it was taken.
pub proof fn law_input_is_forwarded_as_it_is(pieces: Seq<Piece>)
    requires
        was_forwarded(pieces),
    ensures
        bytes_sent(pieces) == bytes_read(pieces),
        forall|i: int|
            0 <= i < pieces.len() ==> ((#[trigger] pieces[i]).status matches Some(
                status,
            ) && status.succeeded()),
    decreases pieces.len(),
{
    if pieces.len() > 0 {
        let init = pieces.drop_last();
        assert forall|i: int|
            #![trigger init[i]]
            0 <= i < init.len() implies after_read(init[i].read) is Send && after_send(
            init[i].status,
        ) is Read by {
            assert(init[i] == pieces[i]);
        }
        law_input_is_forwarded_as_it_is(init);
        assert(after_read(pieces[pieces.len() - 1].read) is Send);
    }
}

/// The last piece of the input was refused, or its answer did not come; the ones
/// before it were taken.
pub open spec fn was_refused(pieces: Seq<Piece>) -> bool {
    &&& pieces.len() > 0
    &&& was_forwarded(pieces.drop_last())
    &&& after_read(pieces.last().read) is Send
    &&& !(pieces.last().status matches Some(status) && status.succeeded())
}

/// The steps of a forwarder that went through these pieces.
pub open spec fn goes_through(steps: Seq<StdinStep>, pieces: Seq<Piece>) -> bool {
    &&& steps.len() > 2 * pieces.len()
    &&& forall|i: int|
        #![trigger pieces[i]]
        0 <= i < pieces.len() ==> {
            &&& steps[2 * i] == StdinStep::Read
            &&& steps[2 * i + 1] == after_read(pieces[i].read)
            &&& steps[2 * i + 2] == after_send(pieces[i].status)
        }
}

/// Input that is refused is the last that is sent: everything that was read
/// until then has been sent, once and in order, and the forwarder does nothing
/// more but close the input, once.
pub proof fn law_refused_input_is_the_last(pieces: Seq<Piece>, steps: Seq<StdinStep>)
    requires
        was_refused(pieces),
        is_stdin_run(steps),
        goes_through(steps, pieces),
    ensures
        bytes_sent(pieces) == bytes_read(pieces),
        steps[2 * pieces.len() as int] is Close,
        steps.len() <= 2 * pieces.len() + 2,
        forall|i: int|
            2 * pieces.len() < i < steps.len() ==> #[trigger] steps[i] == StdinStep::Finished,
{
    let n = pieces.len() as int;
    law_input_is_forwarded_as_it_is(pieces.drop_last());
    assert(pieces[n - 1] == pieces.last());
    assert(steps[2 * (n - 1) + 2] is Close);
    lemma_stdin_ends_with_close(steps, 2 * n);
    assert forall|i: int| 2 * n < i < steps.len() implies #[trigger] steps[i]
        == StdinStep::Finished by {
        assert(stdin_follows(steps[2 * n], steps[2 * n + 1]));
    }
}

/// What is done once a process has exited: each step comes after one more
/// follower has been waited for.
pub open spec fn is_exit_run(code: i32, steps: Seq<ExitStep>) -> bool {
    &&& steps.len() > 0
    &&& steps.first() == exit_step(code, 0)
    &&& forall|i: int|
        #![trigger steps[i]]
        0 <= i < steps.len() - 1 ==> (steps[i] matches ExitStep::Drain { code: kept, .. }
            && steps[i + 1] == exit_step(kept, (i + 1) as nat))
}

/// The exit code is reported as it was read, after each follower has been waited
/// for once and for a limited time. Nothing that becomes of a follower changes
/// it.
pub proof fn law_followers_do_not_change_the_exit_code(code: i32, steps: Seq<ExitStep>)
    requires
        is_exit_run(code, steps),
    ensures
        steps.len() <= 3,
        forall|i: int|
            0 <= i < steps.len() ==> #[trigger] steps[i] == exit_step(code, i as nat),
        steps.len() == 3 ==> steps.last() == ExitStep::Exited(code),
{
    if steps.len() > 1 {
        assert(steps[0] is Drain);
        assert(steps[1] == exit_step(code, 1));
    }
    if steps.len() > 2 {
        assert(steps[1] is Drain);
        assert(steps[2] == exit_step(code, 2));
    }
    if steps.len() > 3 {
        assert(steps[2] is Drain);
    }
}

/// How the data of an event of a run is decoded.
pub type DecodeRun = spec_fn(Seq<char>) -> Result<RunProcessEvent, String>;

/// What is known after the data of a number of events, or the first data that
/// cannot be decoded.
pub open spec fn told(collected: Collected, data: Seq<Seq<char>>, decode: DecodeRun) -> Result<
    Collected,
    Seq<char>,
>
    decreases data.len(),
{
    if data.len() == 0 {
        Ok(collected)
    } else {
        match decode(data.first()) {
            Ok(event) => told(collected.with(event), data.drop_first(), decode),
            Err(_) => Err(data.first()),
        }
    }
}

/// Polls a run until it has no more data to hand out, and takes in each event.
pub open spec fn taken_dry(state: SseState, collected: Collected, decode: DecodeRun) -> (
    SseState,
    Result<Collected, Seq<char>>,
)
    decreases state.owed().len(),
{
    match next_payload(state) {
        (next, PollView::Event(frame)) if next.owed().len() < state.owed().len() => match decode(
            frame.data,
        ) {
            Ok(event) => taken_dry(next, collected.with(event), decode),
            Err(_) => (next, Err(frame.data)),
        },
        (next, _) => (next, Ok(collected)),
    }
}

/// Pushes the chunks of a stream one after the other, takes in every event after
/// each of them and once more at the end of the stream. Data that cannot be
/// decoded ends the run.
pub open spec fn run_over(
    state: SseState,
    collected: Collected,
    chunks: Seq<Seq<u8>>,
    decode: DecodeRun,
) -> Result<Collected, Seq<char>>
    decreases chunks.len(),
{
    if chunks.len() == 0 {
        taken_dry(state.ended(), collected, decode).1
    } else {
        match taken_dry(state.with_chunk(chunks.first()), collected, decode) {
            (next, Ok(more)) => run_over(next, more, chunks.drop_first(), decode),
            (_, Err(data)) => Err(data),
        }
    }
}

proof fn lemma_taken_dry(state: SseState, collected: Collected, decode: DecodeRun)
    ensures
        taken_dry(state, collected, decode).1 == told(collected, polled_out(state).1, decode),
        taken_dry(state, collected, decode).1 is Ok ==> taken_dry(state, collected, decode).0
            == polled_out(state).0,
    decreases state.owed().len(),
{
    match next_payload(state) {
        (next, PollView::Event(frame)) if next.owed().len() < state.owed().len() => {
            let (last, rest) = polled_out(next);
            let all = seq![frame.data] + rest;
            assert(all.drop_first() =~= rest);
            assert(all.first() == frame.data);
            if let Ok(event) = decode(frame.data) {
                lemma_taken_dry(next, collected.with(event), decode);
            }
        },
        _ => {},
    }
}

proof fn lemma_told_adds_up(
    collected: Collected,
    first: Seq<Seq<char>>,
    second: Seq<Seq<char>>,
    decode: DecodeRun,
)
    ensures
        told(collected, first + second, decode) == (match told(collected, first, decode) {
            Ok(more) => told(more, second, decode),
            Err(data) => Err(data),
        }),
    decreases first.len(),
{
    if first.len() == 0 {
        assert(first + second =~= second);
    } else {
        let whole = first + second;
        assert(whole.drop_first() =~= first.drop_first() + second);
        assert(whole.first() == first.first());
        if let Ok(event) = decode(first.first()) {
            lemma_told_adds_up(collected.with(event), first.drop_first(), second, decode);
        }
    }
}

proof fn lemma_run_over(
    state: SseState,
    collected: Collected,
    chunks: Seq<Seq<u8>>,
    decode: DecodeRun,
)
    ensures
        run_over(state, collected, chunks, decode) == told(
            collected,
            run_payloads(state, chunks),
            decode,
        ),
    decreases chunks.len(),
{
    if chunks.len() == 0 {
        lemma_taken_dry(state.ended(), collected, decode);
    } else {
        let pushed = state.with_chunk(chunks.first());
        let (next, data) = polled_out(pushed);
        let rest = chunks.drop_first();
        lemma_taken_dry(pushed, collected, decode);
        lemma_told_adds_up(collected, data, run_payloads(next, rest), decode);
        if let Ok(more) = told(collected, data, decode) {
            lemma_run_over(next, more, rest, decode);
        }
    }
}

/// The data of the events of a stream that carry any.
pub open spec fn stream_payloads(stream: Seq<u8>) -> Seq<Seq<char>> {
    payloads(SseState::fresh().with_chunk(stream).ended().owed())
}

/// The events that the data stands for.
pub open spec fn events_of(data: Seq<Seq<char>>, decode: DecodeRun) -> Seq<RunProcessEvent> {
    Seq::new(data.len(), |i: int| decode(data[i])->Ok_0)
}

/// The position of the first data that cannot be decoded.
pub open spec fn is_first_undecodable(data: Seq<Seq<char>>, decode: DecodeRun, i: int) -> bool {
    &&& 0 <= i < data.len()
    &&& decode(data[i]) is Err
    &&& forall|j: int| 0 <= j < i ==> decode(#[trigger] data[j]) is Ok
}

proof fn lemma_told(seen: Seq<RunProcessEvent>, data: Seq<Seq<char>>, decode: DecodeRun)
    ensures
        match told(collected_from(seen), data, decode) {
            Ok(collected) => {
                &&& forall|i: int| 0 <= i < data.len() ==> decode(#[trigger] data[i]) is Ok
                &&& collected == collected_from(seen + events_of(data, decode))
            },
            Err(failed) => exists|i: int|
                #[trigger] is_first_undecodable(data, decode, i) && failed == data[i],
        },
    decreases data.len(),
{
    if data.len() == 0 {
        assert(seen + events_of(data, decode) =~= seen);
    } else {
        let rest = data.drop_first();
        match decode(data.first()) {
            Ok(event) => {
                let more = seen.push(event);
                assert(more.drop_last() =~= seen);
                lemma_told(more, rest, decode);
                assert(forall|i: int| 0 < i < data.len() ==> data[i] == rest[i - 1]);
                match told(collected_from(more), rest, decode) {
                    Ok(collected) => {
                        assert(more + events_of(rest, decode) =~= seen + events_of(data, decode));
                    },
                    Err(failed) => {
                        let i = choose|i: int|
                            #[trigger] is_first_undecodable(rest, decode, i) && failed == rest[i];
                        assert(is_first_undecodable(data, decode, i + 1));
                    },
                }
            },
            Err(_) => {
                assert(is_first_undecodable(data, decode, 0));
            },
        }
    }
}

/// The bytes of a stream fix what comes of a run, however they are cut into
/// chunks: its output and its errors are the lines that the events report, and
/// its exit code is the one that was reported last. Without a reported exit
/// there is no result, and data that cannot be decoded ends the run where it
/// first occurs.
pub proof fn law_a_stream_fixes_the_result(
    chunks: Seq<Seq<u8>>,
    decode: DecodeRun,
    res: Result<RunOutcome, BackendError>,
)
    ensures
        ({
            let data = stream_payloads(chunks.flatten());
            let events = events_of(data, decode);
            match run_over(SseState::fresh(), Collected::nothing(), chunks, decode) {
                Ok(collected) => {
                    &&& forall|i: int| 0 <= i < data.len() ==> decode(#[trigger] data[i]) is Ok
                    &&& comes_to(collected, res) <==> (match last_exit(events) {
                        Some(status) => res matches Ok(outcome) && {
                            &&& as_status(outcome.exit_code) == status
                            &&& outcome.stdout@ == framed(lines_of(events, false))
                            &&& outcome.stderr@ == framed(lines_of(events, true))
                        },
                        None => res == Err::<RunOutcome, _>(BackendError::MissingExit),
                    })
                },
                Err(failed) => exists|i: int|
                    #[trigger] is_first_undecodable(data, decode, i) && failed == data[i],
            }
        }),
{
    let state = SseState::fresh();
    let data = stream_payloads(chunks.flatten());
    let none = Seq::<RunProcessEvent>::empty();
    law_a_run_reads_its_whole_stream(state, chunks);
    lemma_run_over(state, Collected::nothing(), chunks, decode);
    lemma_told(none, data, decode);
    assert(none + events_of(data, decode) =~= events_of(data, decode));
    law_collecting_keeps_every_line(events_of(data, decode));
}

/// How the data of an event of a follower is decoded.
pub type DecodeOutput = spec_fn(Seq<char>) -> Result<ProcessOutputEvent, String>;

/// The bytes that the data of a number of events adds to the output. Data that
/// cannot be decoded ends it, and is given beside the bytes.
pub open spec fn copied(written: Seq<u8>, data: Seq<Seq<char>>, decode: DecodeOutput) -> (
    Seq<u8>,
    Option<Seq<char>>,
)
    decreases data.len(),
{
    if data.len() == 0 {
        (written, None)
    } else {
        match decode(data.first()) {
            Ok(event) => copied(written + line_bytes(event), data.drop_first(), decode),
            Err(_) => (written, Some(data.first())),
        }
    }
}

/// Polls a follower until it has no more data to hand out, and writes what each
/// event adds. The flag says that the output is complete.
pub open spec fn copied_dry(state: SseState, written: Seq<u8>, decode: DecodeOutput) -> (
    SseState,
    (Seq<u8>, Option<Seq<char>>),
    bool,
)
    decreases state.owed().len(),
{
    match next_output(state) {
        (next, PollView::Event(frame)) if next.owed().len() < state.owed().len() => match decode(
            frame.data,
        ) {
            Ok(event) => copied_dry(next, written + line_bytes(event), decode),
            Err(_) => (next, (written, Some(frame.data)), false),
        },
        (next, PollView::End) => (next, (written, None), true),
        (next, _) => (next, (written, None), false),
    }
}

/// Pushes the chunks of a stream one after the other, and writes what every
/// event adds after each of them and once more at the end of the stream. The
/// follower stops where the output is complete or data cannot be decoded.
pub open spec fn follow_over(
    state: SseState,
    written: Seq<u8>,
    chunks: Seq<Seq<u8>>,
    decode: DecodeOutput,
) -> (Seq<u8>, Option<Seq<char>>)
    decreases chunks.len(),
{
    if chunks.len() == 0 {
        copied_dry(state.ended(), written, decode).1
    } else {
        let (next, (more, failed), complete) = copied_dry(
            state.with_chunk(chunks.first()),
            written,
            decode,
        );
        if complete || failed is Some {
            (more, failed)
        } else {
            follow_over(next, more, chunks.drop_first(), decode)
        }
    }
}

proof fn lemma_copied_dry(state: SseState, written: Seq<u8>, decode: DecodeOutput)
    ensures
        copied_dry(state, written, decode).1 == copied(written, followed_out(state).1, decode),
        copied_dry(state, written, decode).1.1 is None ==> {
            &&& copied_dry(state, written, decode).0 == followed_out(state).0
            &&& copied_dry(state, written, decode).2 == followed_out(state).2
        },
    decreases state.owed().len(),
{
    match next_output(state) {
        (next, PollView::Event(frame)) if next.owed().len() < state.owed().len() => {
            let (last, rest, complete) = followed_out(next);
            let all = seq![frame.data] + rest;
            assert(all.drop_first() =~= rest);
            assert(all.first() == frame.data);
            if let Ok(event) = decode(frame.data) {
                lemma_copied_dry(next, written + line_bytes(event), decode);
            }
        },
        _ => {},
    }
}

proof fn lemma_copied_adds_up(
    written: Seq<u8>,
    first: Seq<Seq<char>>,
    second: Seq<Seq<char>>,
    decode: DecodeOutput,
)
    ensures
        copied(written, first + second, decode) == (match copied(written, first, decode) {
            (more, None) => copied(more, second, decode),
            failed => failed,
        }),
    decreases first.len(),
{
    if first.len() == 0 {
        assert(first + second =~= second);
    } else {
        let whole = first + second;
        assert(whole.drop_first() =~= first.drop_first() + second);
        assert(whole.first() == first.first());
        if let Ok(event) = decode(first.first()) {
            lemma_copied_adds_up(written + line_bytes(event), first.drop_first(), second, decode);
        }
    }
}

proof fn lemma_follow_over(
    state: SseState,
    written: Seq<u8>,
    chunks: Seq<Seq<u8>>,
    decode: DecodeOutput,
)
    ensures
        follow_over(state, written, chunks, decode) == copied(
            written,
            followed_payloads(state, chunks),
            decode,
        ),
    decreases chunks.len(),
{
    if chunks.len() == 0 {
        lemma_copied_dry(state.ended(), written, decode);
    } else {
        let pushed = state.with_chunk(chunks.first());
        let (next, data, complete) = followed_out(pushed);
        let rest = chunks.drop_first();
        lemma_copied_dry(pushed, written, decode);
        lemma_copied_adds_up(written, data, followed_payloads(next, rest), decode);
        if let (more, None) = copied(written, data, decode) {
            if !complete {
                lemma_follow_over(next, more, rest, decode);
            }
        }
    }
}

/// The data of the events of a stream up to the one that says that the output is
/// complete.
pub open spec fn stream_outputs(stream: Seq<u8>) -> Seq<Seq<char>> {
    outputs(SseState::fresh().with_chunk(stream).ended().owed())
}

/// The bytes of a stream fix what a follower writes, however they are cut into
/// chunks: the lines that its events carry, in order and each with a line feed,
/// up to the end of the output or to the first data that cannot be decoded.
pub proof fn law_a_stream_fixes_the_output(chunks: Seq<Seq<u8>>, decode: DecodeOutput)
    ensures
        follow_over(SseState::fresh(), Seq::empty(), chunks, decode) == copied(
            Seq::empty(),
            stream_outputs(chunks.flatten()),
            decode,
        ),
{
    law_a_follower_reads_its_whole_stream(SseState::fresh(), chunks);
    lemma_follow_over(SseState::fresh(), Seq::empty(), chunks, decode);
}

} // verus!

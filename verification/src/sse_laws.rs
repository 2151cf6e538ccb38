//! What holds of [`SseReader`](crate::sse::SseReader) over a whole stream.
use vstd::prelude::*;
use vstd::utf8::{
    encode_scalar, encode_utf8, encode_utf8_decode_utf8, encode_utf8_valid_utf8,
    has_width_1_encoding, last_continuation_byte, leading_byte_width_1, leading_byte_width_2,
    leading_byte_width_3, leading_byte_width_4, second_last_continuation_byte,
    third_last_continuation_byte,
};

use crate::sse::{
    after_line, data_value, extended_data, lemma_line_break, lemma_line_break_at, line_break,
    line_text, Frame, PollView, SseState,
};
use crate::text::{trimmed, trimmed_end, trimmed_start, without_prefix, CharClass};

verus! {

/// More bytes behind a line feed do not move the first one.
proof fn lemma_line_break_extends(bytes: Seq<u8>, more: Seq<u8>)
    requires
        line_break(bytes) is Some,
    ensures
        line_break(bytes + more) == line_break(bytes),
    decreases bytes.len(),
{
    if bytes[0] != 10u8 {
        assert((bytes + more).drop_first() =~= bytes.drop_first() + more);
        lemma_line_break_extends(bytes.drop_first(), more);
    }
}

/// Reading all lines delivers the event of the next poll first.
proof fn lemma_drained_after_advanced(state: SseState)
    ensures
        match state.advanced() {
            (next, Some(frame)) => {
                &&& next.finished == state.finished
                &&& state.drained().0 == next.drained().0
                &&& state.drained().1 == seq![frame] + next.drained().1
            },
            (next, None) => {
                &&& next.finished == state.finished
                &&& state.drained() == (next, Seq::<Frame>::empty())
                &&& line_break(next.buffer) is None
            },
        },
    decreases state.buffer.len(),
{
    lemma_line_break(state.buffer);
    if line_break(state.buffer) is Some {
        let (next, frame) = state.past_line();
        if frame is None {
            lemma_drained_after_advanced(next);
        }
    }
}

/// Polling hands out the events that a reader owes one by one, in order, and
/// loses none: it asks for more bytes only when it owes nothing, and it reports
/// the end of the stream only when it owes nothing and nothing more can come,
/// and goes on reporting it. What it has read by then does not depend on how
/// often it was asked.
pub proof fn law_polling_delivers_what_is_owed(state: SseState)
    ensures
        match state.polled() {
            (next, PollView::Event(frame)) => {
                &&& state.owed() == seq![frame] + next.owed()
                &&& next.finished == state.finished
                &&& !state.finished ==> next.drained().0 == state.drained().0
            },
            (next, PollView::NeedMore) => {
                &&& state.owed() == Seq::<Frame>::empty()
                &&& !state.finished
                &&& next == state.drained().0
            },
            (next, PollView::End) => {
                &&& state.owed() == Seq::<Frame>::empty()
                &&& state.finished
                &&& next.polled() == (next, PollView::End)
            },
        },
{
    lemma_drained_after_advanced(state);
    let (next, answer) = state.polled();
    match state.advanced() {
        (reached, Some(frame)) => {
            assert(state.owed() =~= seq![frame] + next.owed());
        },
        (reached, None) => {
            lemma_line_break(reached.buffer);
            if reached.finished && !reached.closing().is_blank() {
                assert(state.owed() =~= seq![reached.closing()] + next.owed());
            }
        },
    }
}

/// Reading lines before or after more bytes arrive comes to the same: the
/// events of the buffer are the same, and so is what is left over.
pub proof fn law_reading_early_changes_nothing(state: SseState, chunk: Seq<u8>)
    ensures
        ({
            let (between, first) = state.drained();
            let (last, second) = between.with_chunk(chunk).drained();
            state.with_chunk(chunk).drained() == (last, first + second)
        }),
    decreases state.buffer.len(),
{
    lemma_line_break(state.buffer);
    match line_break(state.buffer) {
        Some(at) => {
            lemma_line_break_extends(state.buffer, chunk);
            let (next, frame) = state.past_line();
            let whole = state.with_chunk(chunk);
            assert(whole.buffer.take(at + 1) =~= state.buffer.take(at + 1));
            assert(whole.buffer.skip(at + 1) =~= state.buffer.skip(at + 1) + chunk);
            assert(whole.past_line() == (next.with_chunk(chunk), frame));
            law_reading_early_changes_nothing(next, chunk);
            let (between, first) = next.drained();
            let (last, second) = between.with_chunk(chunk).drained();
            if let Some(frame) = frame {
                assert(seq![frame] + (first + second) =~= (seq![frame] + first) + second);
            }
        },
        None => {
            let (last, second) = state.with_chunk(chunk).drained();
            assert(Seq::<Frame>::empty() + second =~= second);
        },
    }
}

proof fn lemma_ended_drained(state: SseState)
    ensures
        state.ended().drained() == (state.drained().0.ended(), state.drained().1),
    decreases state.buffer.len(),
{
    lemma_line_break(state.buffer);
    if line_break(state.buffer) is Some {
        let (next, frame) = state.past_line();
        assert(state.ended().past_line() == (next.ended(), frame));
        lemma_ended_drained(next);
    }
}

/// The events that come out when the chunks are pushed one after the other,
/// with every complete line read before the next chunk, and the stream then
/// ends.
pub open spec fn delivered(state: SseState, chunks: Seq<Seq<u8>>) -> Seq<Frame>
    decreases chunks.len(),
{
    if chunks.len() == 0 {
        state.ended().owed()
    } else {
        let (next, frames) = state.with_chunk(chunks.first()).drained();
        frames + delivered(next, chunks.drop_first())
    }
}

/// The events of a stream do not depend on how its bytes are cut into chunks.
pub proof fn law_chunking_is_invisible(state: SseState, chunks: Seq<Seq<u8>>)
    ensures
        delivered(state, chunks) == state.with_chunk(chunks.flatten()).ended().owed(),
    decreases chunks.len(),
{
    if chunks.len() == 0 {
        assert(state.with_chunk(chunks.flatten()) =~= state);
    } else {
        let rest = chunks.drop_first();
        let (next, frames) = state.with_chunk(chunks.first()).drained();
        law_chunking_is_invisible(next, rest);
        law_reading_early_changes_nothing(state.with_chunk(chunks.first()), rest.flatten());
        let whole = state.with_chunk(chunks.flatten());
        assert(whole =~= state.with_chunk(chunks.first()).with_chunk(rest.flatten()));
        lemma_ended_drained(whole);
        lemma_ended_drained(next.with_chunk(rest.flatten()));
        assert(whole.ended().owed() =~= frames + next.with_chunk(
            rest.flatten(),
        ).ended().owed());
    }
}

/// The bytes of a character: its own value below 128, bytes from 128 on
/// otherwise. None of them is 255, and only the line feed has the byte 10.
pub proof fn lemma_scalar_bytes(c: char)
    ensures
        encode_scalar(c as u32).len() > 0,
        (c as u32) < 128 ==> encode_scalar(c as u32) == seq![c as u8],
        (c as u32) >= 128 ==> forall|i: int|
            0 <= i < encode_scalar(c as u32).len() ==> #[trigger] encode_scalar(c as u32)[i] >= 128,
        forall|i: int|
            0 <= i < encode_scalar(c as u32).len() ==> #[trigger] encode_scalar(c as u32)[i] < 255,
        c != '\n' ==> forall|i: int|
            0 <= i < encode_scalar(c as u32).len() ==> #[trigger] encode_scalar(c as u32)[i] != 10,
{
    let s = c as u32;
    assert(has_width_1_encoding(s) ==> leading_byte_width_1(s) == s as u8
        && leading_byte_width_1(s) < 255) by (bit_vector);
    assert(128 <= leading_byte_width_2(s) < 255) by (bit_vector);
    assert(128 <= leading_byte_width_3(s) < 255) by (bit_vector);
    assert(128 <= leading_byte_width_4(s) < 255) by (bit_vector);
    assert(128 <= last_continuation_byte(s) < 255) by (bit_vector);
    assert(128 <= second_last_continuation_byte(s) < 255) by (bit_vector);
    assert(128 <= third_last_continuation_byte(s) < 255) by (bit_vector);
}

/// Encoding keeps concatenation.
pub proof fn lemma_encode_concat(first: Seq<char>, second: Seq<char>)
    ensures
        encode_utf8(first + second) == encode_utf8(first) + encode_utf8(second),
    decreases first.len(),
{
    if first.len() == 0 {
        assert(first + second =~= second);
        assert(encode_utf8(first) + encode_utf8(second) =~= encode_utf8(second));
    } else {
        assert((first + second).drop_first() =~= first.drop_first() + second);
        lemma_encode_concat(first.drop_first(), second);
        assert(encode_utf8(first + second) =~= encode_utf8(first) + encode_utf8(second));
    }
}

pub proof fn lemma_no_line_feed(text: Seq<char>)
    requires
        !text.contains('\n'),
    ensures
        forall|i: int| 0 <= i < encode_utf8(text).len() ==> encode_utf8(text)[i] != 10u8,
    decreases text.len(),
{
    if text.len() > 0 {
        lemma_scalar_bytes(text[0]);
        assert(text.contains(text[0]));
        let rest = text.drop_first();
        assert forall|c: char| rest.contains(c) implies text.contains(c) by {
            let i = choose|i: int| 0 <= i < rest.len() && rest[i] == c;
            assert(text[i + 1] == c);
        }
        lemma_no_line_feed(rest);
        let head = encode_scalar(text[0] as u32);
        assert forall|i: int| 0 <= i < encode_utf8(text).len() implies encode_utf8(text)[i]
            != 10u8 by {
            if i < head.len() {
                assert(encode_utf8(text)[i] == head[i]);
            } else {
                assert(encode_utf8(text)[i] == encode_utf8(rest)[i - head.len()]);
            }
        }
    }
}

/// Texts that can stand on a line of a stream.
pub open spec fn fits_a_line(text: Seq<char>) -> bool {
    &&& !text.contains('\n')
    &&& text.len() > 0 ==> text.last() != '\r'
}

/// A line in front of the buffer is read as that line.
proof fn lemma_read_line(state: SseState, line: Seq<char>, rest: Seq<u8>)
    requires
        fits_a_line(line),
        state.buffer == encode_utf8(line.push('\n')) + rest,
    ensures
        line_break(state.buffer) is Some,
        0 <= line_break(state.buffer)->0 < state.buffer.len(),
        state.past_line() == ({
            let (pending, frame) = after_line(state.pending, line);
            (SseState { buffer: rest, pending, ..state }, frame)
        }),
{
    let feed = seq!['\n'];
    assert(line.push('\n') =~= line + feed);
    lemma_encode_concat(line, feed);
    lemma_scalar_bytes('\n');
    assert(feed.drop_first() =~= Seq::<char>::empty());
    assert(encode_utf8(feed.drop_first()) =~= Seq::<u8>::empty());
    assert(encode_utf8(feed) =~= seq![10u8]);
    let bytes = encode_utf8(line);
    lemma_no_line_feed(line);
    let at = bytes.len() as int;
    assert(state.buffer[at] == 10u8);
    assert forall|i: int| 0 <= i < at implies state.buffer[i] != 10u8 by {
        assert(state.buffer[i] == bytes[i]);
    }
    lemma_line_break_at(state.buffer, at);
    assert(state.buffer.take(at + 1) =~= encode_utf8(line.push('\n')));
    assert(state.buffer.skip(at + 1) =~= rest);
    encode_utf8_valid_utf8(line.push('\n'));
    encode_utf8_decode_utf8(line.push('\n'));
    assert(line.push('\n').drop_last() =~= line);
    assert(line.push('\n').last() == '\n');
    assert(trimmed_end(line.push('\n'), CharClass::LineEnd) == trimmed_end(
        line,
        CharClass::LineEnd,
    ));
    assert(line.len() > 0 ==> line.contains(line.last()));
    assert(trimmed_end(line, CharClass::LineEnd) == line);
}

/// The `data:` lines for the given lines of data.
pub open spec fn data_text(lines: Seq<Seq<char>>) -> Seq<char>
    decreases lines.len(),
{
    if lines.len() == 0 {
        Seq::empty()
    } else {
        ("data: "@ + lines.first()).push('\n') + data_text(lines.drop_first())
    }
}

/// An event as it is written to a stream: its name where it has one, its data
/// line by line, and a blank line.
pub open spec fn event_text(name: Seq<char>, lines: Seq<Seq<char>>) -> Seq<char> {
    let body = data_text(lines).push('\n');
    if name.len() == 0 {
        body
    } else {
        ("event: "@ + name).push('\n') + body
    }
}

/// `data` with the lines added to it.
pub open spec fn gathered(data: Seq<char>, lines: Seq<Seq<char>>) -> Seq<char>
    decreases lines.len(),
{
    if lines.len() == 0 {
        data
    } else {
        gathered(extended_data(data, lines.first()), lines.drop_first())
    }
}

proof fn lemma_field_lines(value: Seq<char>)
    requires
        fits_a_line(value),
    ensures
        fits_a_line("data: "@ + value),
        fits_a_line("event: "@ + value),
        without_prefix("data: "@ + value, "event:"@) is None,
        without_prefix("data: "@ + value, "data:"@) == Some(seq![' '] + value),
        without_prefix("event: "@ + value, "event:"@) == Some(seq![' '] + value),
        data_value(seq![' '] + value) == value,
{
    reveal_strlit("data: ");
    reveal_strlit("event: ");
    reveal_strlit("data:");
    reveal_strlit("event:");
    reveal_strlit(" ");
    let data = "data: "@ + value;
    let event = "event: "@ + value;
    assert forall|i: int| 0 <= i < data.len() implies data[i] != '\n' by {
        if i >= 6 {
            assert(data[i] == value[i - 6]);
            assert(value.contains(value[i - 6]));
        }
    }
    assert forall|i: int| 0 <= i < event.len() implies event[i] != '\n' by {
        if i >= 7 {
            assert(event[i] == value[i - 7]);
            assert(value.contains(value[i - 7]));
        }
    }
    assert(data[0] == 'd' && "event:"@[0] == 'e');
    assert(!("event:"@ =~= data.subrange(0, 6))) by {
        assert(data.subrange(0, 6)[0] == 'd');
    }
    assert("data:"@ =~= data.subrange(0, 5));
    assert("event:"@ =~= event.subrange(0, 6));
    assert(data.skip(5) =~= seq![' '] + value);
    assert(event.skip(6) =~= seq![' '] + value);
    let padded = seq![' '] + value;
    assert(" "@ =~= padded.subrange(0, 1));
    assert(padded.skip(1) =~= value);
}

proof fn lemma_read_data(state: SseState, lines: Seq<Seq<char>>, rest: Seq<u8>)
    requires
        forall|i: int| 0 <= i < lines.len() ==> fits_a_line(#[trigger] lines[i]),
        state.buffer == encode_utf8(data_text(lines)) + rest,
    ensures
        state.advanced() == (SseState {
            buffer: rest,
            pending: Frame { data: gathered(state.pending.data, lines), ..state.pending },
            ..state
        }).advanced(),
    decreases lines.len(),
{
    if lines.len() == 0 {
        assert(encode_utf8(data_text(lines)) + rest =~= rest);
        assert(state =~= (SseState {
            buffer: rest,
            pending: Frame { data: gathered(state.pending.data, lines), ..state.pending },
            ..state
        }));
    } else {
        let value = lines.first();
        assert(fits_a_line(lines[0]));
        let line = "data: "@ + value;
        let others = lines.drop_first();
        lemma_field_lines(value);
        lemma_encode_concat(line.push('\n'), data_text(others));
        let behind = encode_utf8(data_text(others)) + rest;
        assert(state.buffer =~= encode_utf8(line.push('\n')) + behind);
        lemma_read_line(state, line, behind);
        let (next, frame) = state.past_line();
        assert forall|i: int| 0 <= i < others.len() implies fits_a_line(#[trigger] others[i]) by {
            assert(others[i] == lines[i + 1]);
        }
        assert(line.len() > 0) by {
            reveal_strlit("data: ");
        }
        lemma_read_data(next, others, rest);
    }
}

/// An `event:` line in front of the buffer names the event.
proof fn lemma_read_name(state: SseState, name: Seq<char>, rest: Seq<u8>)
    requires
        !name.contains('\n'),
        trimmed(name) == name,
        name.len() > 0,
        state.buffer == encode_utf8(("event: "@ + name).push('\n')) + rest,
    ensures
        state.advanced() == (SseState {
            buffer: rest,
            pending: Frame { event: name, ..state.pending },
            ..state
        }).advanced(),
{
    let line = "event: "@ + name;
    lemma_trimmed_ends(name);
    lemma_field_lines(name);
    lemma_read_line(state, line, rest);
    assert(line.len() > 0) by {
        reveal_strlit("event: ");
    }
    assert((seq![' '] + name).drop_first() =~= name);
    assert(trimmed(seq![' '] + name) == name);
}

/// An empty line in front of the buffer delivers the event begun so far.
proof fn lemma_read_blank(state: SseState, rest: Seq<u8>)
    requires
        !state.pending.is_blank(),
        state.buffer == encode_utf8(Seq::<char>::empty().push('\n')) + rest,
    ensures
        state.advanced() == (
            SseState { buffer: rest, pending: Frame::blank(), ..state },
            Some(state.pending),
        ),
{
    lemma_read_line(state, Seq::empty(), rest);
}

/// A reader gives back the event that was written: its name, and its data with
/// the lines joined by line feeds. Lines that come before the first line with
/// any text in it are dropped from the data.
pub proof fn law_written_event_is_read_back(
    state: SseState,
    name: Seq<char>,
    lines: Seq<Seq<char>>,
    rest: Seq<u8>,
)
    requires
        state.pending.is_blank(),
        state.buffer == encode_utf8(event_text(name, lines)) + rest,
        !name.contains('\n'),
        trimmed(name) == name,
        forall|i: int| 0 <= i < lines.len() ==> fits_a_line(#[trigger] lines[i]),
        name.len() > 0 || gathered(Seq::empty(), lines).len() > 0,
    ensures
        state.polled() == (
            SseState { buffer: rest, pending: Frame::blank(), ..state },
            PollView::Event(Frame { event: name, data: gathered(Seq::empty(), lines) }),
        ),
{
    let feed = Seq::<char>::empty().push('\n');
    let body = data_text(lines).push('\n');
    assert(body =~= data_text(lines) + feed);
    lemma_encode_concat(data_text(lines), feed);
    let tail = encode_utf8(feed) + rest;
    let named = SseState {
        buffer: encode_utf8(body) + rest,
        pending: Frame { event: name, data: Seq::empty() },
        ..state
    };
    assert(state.pending =~= Frame::blank());
    if name.len() == 0 {
        assert(named =~= state);
    } else {
        let line = ("event: "@ + name).push('\n');
        lemma_encode_concat(line, body);
        assert(state.buffer =~= encode_utf8(line) + named.buffer);
        lemma_read_name(state, name, named.buffer);
    }
    assert(state.advanced() == named.advanced());
    assert(named.buffer =~= encode_utf8(data_text(lines)) + tail);
    lemma_read_data(named, lines, tail);
    let full = SseState {
        buffer: tail,
        pending: Frame { event: name, data: gathered(Seq::empty(), lines) },
        ..state
    };
    assert(named.advanced() == full.advanced());
    lemma_read_blank(full, rest);
}

/// A line at the end of a stream is read as that line, though no line feed ends
/// it.
proof fn lemma_read_cut_off(state: SseState, line: Seq<char>)
    requires
        state.finished,
        fits_a_line(line),
        line.len() > 0,
        state.buffer == encode_utf8(line),
    ensures
        state.advanced() == (state, None::<Frame>),
        state.closing() == (match after_line(state.pending, line) {
            (_, Some(frame)) => frame,
            (pending, None) => pending,
        }),
{
    lemma_no_line_feed(line);
    lemma_line_break(state.buffer);
    lemma_encode_concat(seq![line.first()], line.drop_first());
    lemma_scalar_bytes(line.first());
    assert(seq![line.first()] + line.drop_first() =~= line);
    assert(state.buffer.len() > 0);
    encode_utf8_valid_utf8(line);
    encode_utf8_decode_utf8(line);
    assert(line.contains(line.last()));
    assert(trimmed_end(line, CharClass::LineEnd) == line);
    assert(line_text(state.buffer) == line);
}

/// The beginning of an event as it is written to a stream: its name where it has
/// one, and its data line by line.
pub open spec fn begun_text(name: Seq<char>, lines: Seq<Seq<char>>) -> Seq<char> {
    if name.len() == 0 {
        data_text(lines)
    } else {
        ("event: "@ + name).push('\n') + data_text(lines)
    }
}

/// A reader gives back an event that the end of the stream cuts off, with
/// everything that was written of it: also the last line of its data, though
/// neither a line feed nor a blank line follows.
pub proof fn law_cut_off_event_is_read_back(
    state: SseState,
    name: Seq<char>,
    lines: Seq<Seq<char>>,
    value: Seq<char>,
)
    requires
        state.finished,
        state.pending.is_blank(),
        state.buffer == encode_utf8(begun_text(name, lines) + ("data: "@ + value)),
        !name.contains('\n'),
        trimmed(name) == name,
        forall|i: int| 0 <= i < lines.len() ==> fits_a_line(#[trigger] lines[i]),
        fits_a_line(value),
        name.len() > 0 || gathered(Seq::empty(), lines).len() > 0 || value.len() > 0,
    ensures
        state.polled() == (
            SseState { buffer: Seq::empty(), pending: Frame::blank(), ..state },
            PollView::Event(
                Frame {
                    event: name,
                    data: extended_data(gathered(Seq::empty(), lines), value),
                },
            ),
        ),
{
    let line = "data: "@ + value;
    let tail = encode_utf8(line);
    lemma_encode_concat(begun_text(name, lines), line);
    let named = SseState {
        buffer: encode_utf8(data_text(lines)) + tail,
        pending: Frame { event: name, data: Seq::empty() },
        ..state
    };
    assert(state.pending =~= Frame::blank());
    if name.len() == 0 {
        assert(named =~= state);
    } else {
        let title = ("event: "@ + name).push('\n');
        lemma_encode_concat(title, data_text(lines));
        assert(state.buffer =~= encode_utf8(title) + named.buffer);
        lemma_read_name(state, name, named.buffer);
    }
    assert(state.advanced() == named.advanced());
    lemma_read_data(named, lines, tail);
    let begun = SseState {
        buffer: tail,
        pending: Frame { event: name, data: gathered(Seq::empty(), lines) },
        ..state
    };
    assert(named.advanced() == begun.advanced());
    lemma_field_lines(value);
    assert(line.len() > 0) by {
        reveal_strlit("data: ");
    }
    lemma_read_cut_off(begun, line);
}

proof fn lemma_trimmed_ends(text: Seq<char>)
    requires
        trimmed(text) == text,
        text.len() > 0,
    ensures
        !CharClass::White.has(text.last()),
{
    let front = trimmed_start(text, CharClass::White);
    lemma_trimmed_shortens(text);
    assert(front.len() <= text.len());
    lemma_trimmed_end_shortens(front);
    lemma_trimmed_end_last(front);
}

proof fn lemma_trimmed_shortens(text: Seq<char>)
    ensures
        trimmed_start(text, CharClass::White).len() <= text.len(),
    decreases text.len(),
{
    if text.len() > 0 && CharClass::White.has(text.first()) {
        lemma_trimmed_shortens(text.drop_first());
    }
}

proof fn lemma_trimmed_end_shortens(text: Seq<char>)
    ensures
        trimmed_end(text, CharClass::White).len() <= text.len(),
    decreases text.len(),
{
    if text.len() > 0 && CharClass::White.has(text.last()) {
        lemma_trimmed_end_shortens(text.drop_last());
    }
}

proof fn lemma_trimmed_end_last(text: Seq<char>)
    ensures
        ({
            let cut = trimmed_end(text, CharClass::White);
            cut.len() > 0 ==> !CharClass::White.has(cut.last())
        }),
    decreases text.len(),
{
    if text.len() > 0 && CharClass::White.has(text.last()) {
        lemma_trimmed_end_last(text.drop_last());
    }
}

} // verus!

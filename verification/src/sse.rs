//! A minimal `text/event-stream` reader.
//!
//! The reader never waits: bytes are pushed in as they arrive, and
//! [`SseReader::next_event`] says whether they complete an event, whether more
//! bytes are needed, or whether the stream is over.
use vstd::prelude::*;
use vstd::utf8::{decode_utf8, valid_utf8};

use crate::text::{
    strip_prefix_text, trim_end_text, trim_text, trimmed, trimmed_end, without_prefix, CharClass,
};

verus! {

/// What `String::from_utf8_lossy` makes of bytes that are not UTF-8.
pub uninterp spec fn utf8_replaced(bytes: Seq<u8>) -> Seq<char>;

/// The text of `bytes`, with what is not UTF-8 replaced.
pub open spec fn lossy(bytes: Seq<u8>) -> Seq<char> {
    if valid_utf8(bytes) {
        decode_utf8(bytes)
    } else {
        utf8_replaced(bytes)
    }
}

/// Calls `String::from_utf8_lossy`: bytes that are UTF-8 come back as the text
/// they encode. What becomes of other bytes depends on the bytes alone.
#[verifier::external_body]
fn decode_lossy(bytes: &Vec<u8>) -> (text: String)
    ensures
        text@ == (if valid_utf8(bytes@) {
            decode_utf8(bytes@)
        } else {
            utf8_replaced(bytes@)
        }),
{
    String::from_utf8_lossy(bytes).into_owned()
}

/// One event of the stream: its name and its data, either possibly empty.
#[verifier::ext_equal]
pub struct Frame {
    pub event: Seq<char>,
    pub data: Seq<char>,
}

impl Frame {
    pub open spec fn blank() -> Frame {
        Frame { event: Seq::empty(), data: Seq::empty() }
    }

    pub open spec fn is_blank(self) -> bool {
        self.event.len() == 0 && self.data.len() == 0
    }
}

/// What a reader holds: the bytes that it has not looked at yet, whether more
/// will come, and the event that the lines so far have begun.
#[verifier::ext_equal]
pub struct SseState {
    pub buffer: Seq<u8>,
    pub finished: bool,
    pub pending: Frame,
}

/// The position of the first line feed.
pub open spec fn line_break(bytes: Seq<u8>) -> Option<int>
    decreases bytes.len(),
{
    if bytes.len() == 0 {
        None
    } else if bytes[0] == 10u8 {
        Some(0)
    } else {
        match line_break(bytes.drop_first()) {
            Some(at) => Some(at + 1),
            None => None,
        }
    }
}

/// The text of a line, given with its line feed if it has one: the line ending
/// is cut off.
pub open spec fn line_text(line: Seq<u8>) -> Seq<char> {
    trimmed_end(lossy(line), CharClass::LineEnd)
}

/// The value of a `data` field: one leading space is not part of it.
pub open spec fn data_value(field: Seq<char>) -> Seq<char> {
    match without_prefix(field, " "@) {
        Some(value) => value,
        None => field,
    }
}

/// The data of an event once the line `value` is added to it.
pub open spec fn extended_data(data: Seq<char>, value: Seq<char>) -> Seq<char> {
    if data.len() == 0 {
        value
    } else {
        data.push('\n') + value
    }
}

/// What one line does to the event begun so far: an empty line delivers it,
/// `event:` and `data:` lines add to it, any other line is ignored.
pub open spec fn after_line(pending: Frame, line: Seq<char>) -> (Frame, Option<Frame>) {
    if line.len() == 0 {
        if pending.is_blank() {
            (pending, None)
        } else {
            (Frame::blank(), Some(pending))
        }
    } else {
        match without_prefix(line, "event:"@) {
            Some(value) => (Frame { event: trimmed(value), ..pending }, None),
            None => match without_prefix(line, "data:"@) {
                Some(value) => (
                    Frame { data: extended_data(pending.data, data_value(value)), ..pending },
                    None,
                ),
                None => (pending, None),
            },
        }
    }
}

impl SseState {
    pub open spec fn fresh() -> SseState {
        SseState { buffer: Seq::empty(), finished: false, pending: Frame::blank() }
    }

    /// The state once the first line of the buffer has been read.
    pub open spec fn past_line(self) -> (SseState, Option<Frame>)
        recommends
            line_break(self.buffer) is Some,
    {
        let at = line_break(self.buffer)->0;
        let (pending, frame) = after_line(self.pending, line_text(self.buffer.take(at + 1)));
        (SseState { buffer: self.buffer.skip(at + 1), pending, ..self }, frame)
    }

    /// Reads complete lines up to the first one that delivers an event.
    pub open spec fn advanced(self) -> (SseState, Option<Frame>)
        decreases self.buffer.len(),
    {
        match line_break(self.buffer) {
            Some(at) if 0 <= at < self.buffer.len() => match self.past_line() {
                (next, Some(frame)) => (next, Some(frame)),
                (next, None) => next.advanced(),
            },
            _ => (self, None),
        }
    }

    /// The event that is still owed when the stream ends here. What is left in
    /// the buffer counts as a last line, though no line feed ends it.
    pub open spec fn closing(self) -> Frame {
        if self.buffer.len() == 0 {
            self.pending
        } else {
            match after_line(self.pending, line_text(self.buffer)) {
                (_, Some(frame)) => frame,
                (pending, None) => pending,
            }
        }
    }

    /// What the next poll answers, and the state it leaves.
    pub open spec fn polled(self) -> (SseState, PollView) {
        match self.advanced() {
            (next, Some(frame)) => (next, PollView::Event(frame)),
            (next, None) => if !next.finished {
                (next, PollView::NeedMore)
            } else {
                let last = SseState { buffer: Seq::empty(), pending: Frame::blank(), ..next };
                if next.closing().is_blank() {
                    (last, PollView::End)
                } else {
                    (last, PollView::Event(next.closing()))
                }
            },
        }
    }

    /// Every event that the complete lines of the buffer deliver, in order,
    /// and the state after the last of these lines.
    pub open spec fn drained(self) -> (SseState, Seq<Frame>)
        decreases self.buffer.len(),
    {
        match line_break(self.buffer) {
            Some(at) if 0 <= at < self.buffer.len() => {
                let (next, frame) = self.past_line();
                let (last, frames) = next.drained();
                (
                    last,
                    match frame {
                        Some(frame) => seq![frame] + frames,
                        None => frames,
                    },
                )
            },
            _ => (self, Seq::empty()),
        }
    }

    /// Every event still to come out of this state if nothing more is pushed.
    pub open spec fn owed(self) -> Seq<Frame> {
        let (last, frames) = self.drained();
        if last.finished && !last.closing().is_blank() {
            frames.push(last.closing())
        } else {
            frames
        }
    }

    pub open spec fn with_chunk(self, chunk: Seq<u8>) -> SseState {
        SseState { buffer: self.buffer + chunk, ..self }
    }

    pub open spec fn ended(self) -> SseState {
        SseState { finished: true, ..self }
    }
}

/// The answer of a poll, over texts as character sequences.
pub enum PollView {
    Event(Frame),
    NeedMore,
    End,
}

/// One event of the stream.
#[derive(Debug)]
pub struct SseEvent {
    pub event: String,
    pub data: String,
}

impl View for SseEvent {
    type V = Frame;

    open spec fn view(&self) -> Frame {
        Frame { event: self.event@, data: self.data@ }
    }
}

/// What a reader has to say when asked for the next event.
#[derive(Debug)]
pub enum SsePoll {
    /// An event is complete.
    Event(SseEvent),
    /// The bytes so far complete no further event.
    NeedMore,
    /// The stream is over and every event has been delivered.
    End,
}

impl View for SsePoll {
    type V = PollView;

    open spec fn view(&self) -> PollView {
        match self {
            SsePoll::Event(event) => PollView::Event(event@),
            SsePoll::NeedMore => PollView::NeedMore,
            SsePoll::End => PollView::End,
        }
    }
}

/// Accumulates `event:` and `data:` field lines and yields one event per blank
/// line.
#[derive(Debug)]
pub struct SseReader {
    buffer: Vec<u8>,
    finished: bool,
    event: String,
    data: String,
}

impl View for SseReader {
    type V = SseState;

    closed spec fn view(&self) -> SseState {
        SseState {
            buffer: self.buffer@,
            finished: self.finished,
            pending: Frame { event: self.event@, data: self.data@ },
        }
    }
}

/// The first line feed is where [`line_break`] says.
pub proof fn lemma_line_break(bytes: Seq<u8>)
    ensures
        match line_break(bytes) {
            Some(at) => {
                &&& 0 <= at < bytes.len()
                &&& bytes[at] == 10u8
                &&& forall|i: int| 0 <= i < at ==> bytes[i] != 10u8
            },
            None => forall|i: int| 0 <= i < bytes.len() ==> bytes[i] != 10u8,
        },
    decreases bytes.len(),
{
    if bytes.len() > 0 && bytes[0] != 10u8 {
        let rest = bytes.drop_first();
        lemma_line_break(rest);
        assert(forall|i: int| 0 < i < bytes.len() ==> bytes[i] == rest[i - 1]);
    }
}

/// A line feed with none before it is the first.
pub proof fn lemma_line_break_at(bytes: Seq<u8>, at: int)
    requires
        0 <= at < bytes.len(),
        bytes[at] == 10u8,
        forall|i: int| 0 <= i < at ==> bytes[i] != 10u8,
    ensures
        line_break(bytes) == Some(at),
{
    lemma_line_break(bytes);
}

impl SseReader {
    /// A reader that has seen nothing yet.
    pub fn new() -> (reader: Self)
        ensures
            reader@ == SseState::fresh(),
    {
        SseReader {
            buffer: Vec::new(),
            finished: false,
            event: String::new(),
            data: String::new(),
        }
    }

    /// Takes in the next bytes of the stream.
    pub fn push_chunk(&mut self, chunk: &[u8])
        ensures
            final(self)@ == old(self)@.with_chunk(chunk@),
    {
        let mut i: usize = 0;
        while i < chunk.len()
            invariant
                i <= chunk@.len(),
                self.buffer@ == old(self).buffer@ + chunk@.take(i as int),
                self.finished == old(self).finished,
                self.event == old(self).event,
                self.data == old(self).data,
            decreases chunk.len() - i,
        {
            self.buffer.push(chunk[i]);
            assert(chunk@.take(i + 1) =~= chunk@.take(i as int).push(chunk@[i as int]));
            i = i + 1;
        }
        assert(chunk@.take(i as int) =~= chunk@);
    }

    /// Records that no more bytes will come.
    pub fn end_of_stream(&mut self)
        ensures
            final(self)@ == old(self)@.ended(),
    {
        self.finished = true;
    }

    /// The next event, if the bytes so far complete one. A stream that ends in
    /// the middle of an event, or of a line, still delivers that event.
    pub fn next_event(&mut self) -> (poll: SsePoll)
        ensures
            (final(self)@, poll@) == old(self)@.polled(),
    {
        loop
            invariant
                self@.advanced() == old(self)@.advanced(),
            decreases self@.buffer.len(),
        {
            let ghost before = self@;
            proof {
                lemma_line_break(self@.buffer);
            }
            match self.take_line() {
                Some(line) => {
                    if let Some(event) = self.consume_line(line.as_str()) {
                        return SsePoll::Event(event);
                    }
                },
                None => {
                    if !self.finished {
                        return SsePoll::NeedMore;
                    }
                    if let Some(event) = self.take_last_line() {
                        return SsePoll::Event(event);
                    }
                    return match self.take_pending_event() {
                        Some(event) => SsePoll::Event(event),
                        None => SsePoll::End,
                    };
                },
            }
        }
    }

    /// Applies what is left in the buffer as a line, once no more bytes will
    /// come.
    fn take_last_line(&mut self) -> (delivered: Option<SseEvent>)
        ensures
            ({
                let (pending, frame) = if old(self)@.buffer.len() == 0 {
                    (old(self)@.pending, None)
                } else {
                    after_line(old(self)@.pending, line_text(old(self)@.buffer))
                };
                &&& final(self)@ == (SseState { buffer: Seq::empty(), pending, ..old(self)@ })
                &&& frame == (match delivered {
                    Some(event) => Some(event@),
                    None => None,
                })
            }),
    {
        if self.buffer.len() == 0 {
            assert(self@.buffer =~= Seq::empty());
            return None;
        }
        let mut line: Vec<u8> = Vec::new();
        std::mem::swap(&mut line, &mut self.buffer);
        let text = decode_lossy(&line);
        let last = trim_end_text(text.as_str(), CharClass::LineEnd);
        self.consume_line(last.as_str())
    }

    /// Takes the first complete line off the buffer, without its line ending.
    pub fn take_line(&mut self) -> (line: Option<String>)
        ensures
            match line_break(old(self)@.buffer) {
                Some(at) => {
                    &&& line matches Some(text) && text@ == line_text(
                        old(self)@.buffer.take(at + 1),
                    )
                    &&& final(self)@ == (SseState {
                        buffer: old(self)@.buffer.skip(at + 1),
                        ..old(self)@
                    })
                },
                None => line is None && final(self)@ == old(self)@,
            },
    {
        proof {
            lemma_line_break(self.buffer@);
        }
        let mut at: usize = 0;
        while at < self.buffer.len() && self.buffer[at] != 10u8
            invariant
                at <= self.buffer@.len(),
                forall|i: int| 0 <= i < at ==> self.buffer@[i] != 10u8,
            decreases self.buffer@.len() - at,
        {
            at = at + 1;
        }
        if at == self.buffer.len() {
            return None;
        }
        proof {
            lemma_line_break_at(self.buffer@, at as int);
        }
        let mut line = self.buffer.split_off(at + 1);
        std::mem::swap(&mut line, &mut self.buffer);
        assert(line@ =~= old(self).buffer@.take(at + 1));
        assert(self.buffer@ =~= old(self).buffer@.skip(at + 1));
        let text = decode_lossy(&line);
        Some(trim_end_text(text.as_str(), CharClass::LineEnd))
    }

    /// Applies one line to the event begun so far.
    pub fn consume_line(&mut self, line: &str) -> (delivered: Option<SseEvent>)
        ensures
            ({
                let (pending, frame) = after_line(old(self)@.pending, line@);
                &&& final(self)@ == (SseState { pending, ..old(self)@ })
                &&& frame == (match delivered {
                    Some(event) => Some(event@),
                    None => None,
                })
            }),
    {
        if line.is_empty() {
            return self.take_pending_event();
        }
        if let Some(value) = strip_prefix_text(line, "event:") {
            self.event = trim_text(value.as_str());
        } else if let Some(value) = strip_prefix_text(line, "data:") {
            let text = match strip_prefix_text(value.as_str(), " ") {
                Some(rest) => rest,
                None => value,
            };
            if !self.data.as_str().is_empty() {
                proof {
                    reveal_strlit("\n");
                }
                self.data.append("\n");
                assert(self@.pending.data =~= old(self)@.pending.data.push('\n'));
            }
            self.data.append(text.as_str());
            assert(self@.pending.data =~= extended_data(old(self)@.pending.data, text@));
        }
        None
    }

    /// Hands out the event begun so far, unless there is none.
    pub fn take_pending_event(&mut self) -> (delivered: Option<SseEvent>)
        ensures
            match delivered {
                Some(event) => !old(self)@.pending.is_blank() && event@ == old(self)@.pending,
                None => old(self)@.pending.is_blank(),
            },
            final(self)@ == (SseState { pending: Frame::blank(), ..old(self)@ }),
    {
        if self.event.as_str().is_empty() && self.data.as_str().is_empty() {
            assert(self@.pending =~= Frame::blank());
            return None;
        }
        let mut event = String::new();
        let mut data = String::new();
        std::mem::swap(&mut event, &mut self.event);
        std::mem::swap(&mut data, &mut self.data);
        Some(SseEvent { event, data })
    }
}

} // verus!

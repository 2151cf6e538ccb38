//! What the things that are read piece by piece do with each piece, said of the
//! functions that take it.
use vstd::prelude::*;
use vstd::utf8::encode_utf8;

use crate::api::{ProcessOutputStream, RunProcessEvent};
use crate::error::BackendError;
use crate::handle::Session;
use crate::lifecycle::TensorlakeSandboxTarget;
use crate::process::{FollowPoll, OutputFollower};
use crate::process_laws::{
    law_a_run_hands_out_every_payload, law_following_hands_out_every_output, outputs, payloads,
};
use crate::run::{as_status, resolve_exit_code, OutputLines, RunCollector, RunPoll};
use crate::sse::{
    lemma_line_break, lemma_line_break_at, line_text, Frame, SseEvent, SsePoll, SseReader, SseState,
};
use crate::sse_laws::{
    law_polling_delivers_what_is_owed, lemma_encode_concat, lemma_no_line_feed, lemma_scalar_bytes,
};
use crate::text::{trimmed_end, without_prefix, CharClass};
use crate::text_laws::{is_trim_of, lemma_trimmed_end_cuts, lemma_trimmed_keeps, runs_out_in};

verus! {

/// Nothing but the event that is being read has changed.
pub open spec fn only_pending_differs(before: SseState, after: SseState) -> bool {
    before.buffer == after.buffer && before.finished == after.finished
}

/// A blank line delivers the event that is being read, if there is any of it,
/// and begins a new one.
pub proof fn law_a_blank_line_delivers(
    reader: &mut SseReader,
    line: &str,
    delivered: Option<SseEvent>,
)
    requires
        line@.len() == 0,
        call_ensures(SseReader::consume_line, (reader, line), delivered),
    ensures
        delivered is Some <==> old(reader)@.pending.event.len() > 0
            || old(reader)@.pending.data.len() > 0,
        delivered matches Some(event) ==> event.event@ == old(reader)@.pending.event && event.data@
            == old(reader)@.pending.data,
        final(reader)@.pending.event.len() == 0 && final(reader)@.pending.data.len() == 0,
        only_pending_differs(old(reader)@, final(reader)@),
{
}

proof fn lemma_prefix(text: Seq<char>, prefix: Seq<char>, rest: Seq<char>)
    requires
        text == prefix + rest,
    ensures
        without_prefix(text, prefix) == Some(rest),
{
    assert(text.subrange(0, prefix.len() as int) =~= prefix);
    assert(text.skip(prefix.len() as int) =~= rest);
}

/// An `event:` line names the event, without the white space around the name, and
/// does nothing else.
pub proof fn law_an_event_line_names_the_event(
    reader: &mut SseReader,
    line: &str,
    value: Seq<char>,
    delivered: Option<SseEvent>,
)
    requires
        line@ == "event:"@ + value,
        call_ensures(SseReader::consume_line, (reader, line), delivered),
    ensures
        delivered is None,
        is_trim_of(value, final(reader)@.pending.event),
        final(reader)@.pending.data == old(reader)@.pending.data,
        only_pending_differs(old(reader)@, final(reader)@),
{
    reveal_strlit("event:");
    lemma_prefix(line@, "event:"@, value);
    lemma_trimmed_keeps(value);
}

/// A `data:` line adds its value to the data, on a line of its own if there is
/// data already. One space in front of the value is not part of it, and any
/// other is.
pub proof fn law_a_data_line_adds_to_the_data(
    reader: &mut SseReader,
    line: &str,
    field: Seq<char>,
    value: Seq<char>,
    delivered: Option<SseEvent>,
)
    requires
        line@ == "data:"@ + field,
        field == seq![' '] + value || (field == value && (value.len() == 0 || value[0] != ' ')),
        call_ensures(SseReader::consume_line, (reader, line), delivered),
    ensures
        delivered is None,
        ({
            let before = old(reader)@.pending.data;
            final(reader)@.pending.data =~= if before.len() == 0 {
                value
            } else {
                before + seq!['\n'] + value
            }
        }),
        final(reader)@.pending.event == old(reader)@.pending.event,
        only_pending_differs(old(reader)@, final(reader)@),
{
    reveal_strlit("data:");
    reveal_strlit("event:");
    reveal_strlit(" ");
    lemma_prefix(line@, "data:"@, field);
    assert(line@[0] == 'd');
    assert(without_prefix(line@, "event:"@) is None) by {
        if line@.len() >= 6 {
            assert(line@.subrange(0, 6)[0] == 'd');
            assert("event:"@[0] == 'e');
        }
    }
    assert(" "@ =~= seq![' ']);
    if field == seq![' '] + value {
        lemma_prefix(field, " "@, value);
    } else if field.len() > 0 {
        assert(field.subrange(0, 1)[0] == field[0]);
        assert(without_prefix(field, " "@) is None);
    }
}

/// Any other line is passed over.
pub proof fn law_other_lines_are_passed_over(
    reader: &mut SseReader,
    line: &str,
    delivered: Option<SseEvent>,
)
    requires
        line@.len() > 0,
        forall|rest: Seq<char>| line@ != #[trigger] ("event:"@ + rest),
        forall|rest: Seq<char>| line@ != #[trigger] ("data:"@ + rest),
        call_ensures(SseReader::consume_line, (reader, line), delivered),
    ensures
        delivered is None,
        final(reader)@ == old(reader)@,
{
    assert(without_prefix(line@, "event:"@) is None) by {
        if let Some(rest) = without_prefix(line@, "event:"@) {
            assert(line@ =~= "event:"@ + rest);
        }
    }
    assert(without_prefix(line@, "data:"@) is None) by {
        if let Some(rest) = without_prefix(line@, "data:"@) {
            assert(line@ =~= "data:"@ + rest);
        }
    }
}

/// What is begun of an event is handed out as it is, and once.
pub proof fn law_a_begun_event_is_handed_out_once(
    reader: &mut SseReader,
    delivered: Option<SseEvent>,
)
    requires
        call_ensures(SseReader::take_pending_event, (reader,), delivered),
    ensures
        delivered is Some <==> old(reader)@.pending.event.len() > 0
            || old(reader)@.pending.data.len() > 0,
        delivered matches Some(event) ==> event.event@ == old(reader)@.pending.event && event.data@
            == old(reader)@.pending.data,
        final(reader)@.pending.event.len() == 0 && final(reader)@.pending.data.len() == 0,
        only_pending_differs(old(reader)@, final(reader)@),
{
}

/// A line is taken off the buffer exactly if a line feed ends it; nothing else
/// changes.
pub proof fn law_only_complete_lines_are_taken(reader: &mut SseReader, line: Option<String>)
    requires
        call_ensures(SseReader::take_line, (reader,), line),
    ensures
        line is Some <==> old(reader)@.buffer.contains(10u8),
        line is None ==> final(reader)@ == old(reader)@,
        line is Some ==> {
            let cut = old(reader)@.buffer.len() - final(reader)@.buffer.len();
            &&& 0 < cut <= old(reader)@.buffer.len()
            &&& final(reader)@.buffer =~= old(reader)@.buffer.skip(cut)
            &&& old(reader)@.buffer[cut - 1] == 10
            &&& forall|i: int| 0 <= i < cut - 1 ==> #[trigger] old(reader)@.buffer[i] != 10
        },
        final(reader)@.pending == old(reader)@.pending,
        final(reader)@.finished == old(reader)@.finished,
{
    let buffer = old(reader)@.buffer;
    lemma_line_break(buffer);
    if buffer.contains(10u8) {
        let at = buffer.index_of(10u8);
        assert(buffer[at] == 10);
    }
}

/// A line is the text before its line feed, without the carriage returns at its
/// end.
pub proof fn law_a_line_is_read_as_its_text(
    reader: &mut SseReader,
    text: Seq<char>,
    rest: Seq<u8>,
    line: Option<String>,
)
    requires
        !text.contains('\n'),
        old(reader)@.buffer == encode_utf8(text.push('\n')) + rest,
        call_ensures(SseReader::take_line, (reader,), line),
    ensures
        line matches Some(read) && runs_out_in(text, read@, |c: char| c == '\r'),
        final(reader)@.buffer =~= rest,
{
    let buffer = old(reader)@.buffer;
    let bytes = encode_utf8(text);
    let feed = seq!['\n'];
    assert(text.push('\n') =~= text + feed);
    lemma_encode_concat(text, feed);
    lemma_scalar_bytes('\n');
    assert(feed.drop_first() =~= Seq::<char>::empty());
    assert(encode_utf8(feed.drop_first()) =~= Seq::<u8>::empty());
    assert(encode_utf8(feed) =~= seq![10u8]);
    lemma_no_line_feed(text);
    let at = bytes.len() as int;
    assert forall|i: int| 0 <= i < at implies buffer[i] != 10u8 by {
        assert(buffer[i] == bytes[i]);
    }
    assert(buffer[at] == 10u8);
    lemma_line_break_at(buffer, at);
    assert(buffer.take(at + 1) =~= encode_utf8(text.push('\n')));
    vstd::utf8::encode_utf8_valid_utf8(text.push('\n'));
    vstd::utf8::encode_utf8_decode_utf8(text.push('\n'));
    let whole = text.push('\n');
    assert(whole.drop_last() =~= text);
    let read = trimmed_end(whole, CharClass::LineEnd);
    assert(read == trimmed_end(text, CharClass::LineEnd));
    lemma_trimmed_end_cuts(text, CharClass::LineEnd);
    assert forall|i: int| read.len() <= i < text.len() implies #[trigger] text[i] == '\r' by {
        assert(CharClass::LineEnd.has(text[i]));
        assert(text.contains(text[i]));
    }
}

/// The end of a stream ends its last line: what a reader owes is the same whether
/// or not a line feed came before the end.
pub proof fn law_the_end_of_a_stream_ends_its_last_line(state: SseState, text: Seq<char>)
    requires
        state.finished,
        text.len() > 0,
        !text.contains('\n'),
        state.buffer == encode_utf8(text),
    ensures
        state.owed() == state.with_chunk(seq![10u8]).owed(),
{
    let ended = state.with_chunk(seq![10u8]);
    let feed = seq!['\n'];
    assert(text.push('\n') =~= text + feed);
    lemma_encode_concat(text, feed);
    lemma_scalar_bytes('\n');
    assert(feed.drop_first() =~= Seq::<char>::empty());
    assert(encode_utf8(feed.drop_first()) =~= Seq::<u8>::empty());
    assert(encode_utf8(feed) =~= seq![10u8]);
    assert(ended.buffer =~= encode_utf8(text.push('\n')));
    lemma_no_line_feed(text);
    lemma_line_break(state.buffer);
    let at = state.buffer.len() as int;
    assert forall|i: int| 0 <= i < at implies ended.buffer[i] != 10u8 by {
        assert(ended.buffer[i] == state.buffer[i]);
    }
    lemma_line_break_at(ended.buffer, at);
    lemma_encode_concat(seq![text.first()], text.drop_first());
    lemma_scalar_bytes(text.first());
    assert(seq![text.first()] + text.drop_first() =~= text);
    assert(state.buffer.len() > 0);
    vstd::utf8::encode_utf8_valid_utf8(text);
    vstd::utf8::encode_utf8_decode_utf8(text);
    vstd::utf8::encode_utf8_valid_utf8(text.push('\n'));
    vstd::utf8::encode_utf8_decode_utf8(text.push('\n'));
    assert(text.push('\n').drop_last() =~= text);
    assert(ended.buffer.take(at + 1) =~= ended.buffer);
    assert(line_text(ended.buffer) == line_text(state.buffer));
    let (next, frame) = ended.past_line();
    assert(next.buffer =~= Seq::empty());
    lemma_line_break(next.buffer);
    assert(next.drained() == (next, Seq::<Frame>::empty()));
    assert(state.drained() == (state, Seq::<Frame>::empty()));
    assert(next.closing() == next.pending);
    assert(state.owed() =~= ended.owed());
}

/// Bytes are taken in behind those that came before, and the end of the stream
/// adds none.
pub proof fn law_bytes_are_taken_in_order(
    reader: &mut SseReader,
    chunk: &[u8],
    ended: &mut SseReader,
    fresh: SseReader,
)
    requires
        call_ensures(SseReader::push_chunk, (reader, chunk), ()),
        call_ensures(SseReader::end_of_stream, (ended,), ()),
        call_ensures(SseReader::new, (), fresh),
    ensures
        final(reader)@.buffer == old(reader)@.buffer + chunk@,
        final(reader)@.pending == old(reader)@.pending,
        final(reader)@.finished == old(reader)@.finished,
        final(ended)@.buffer == old(ended)@.buffer,
        final(ended)@.pending == old(ended)@.pending,
        final(ended)@.finished,
        fresh@.buffer.len() == 0 && !fresh@.finished,
        fresh@.pending.event.len() == 0 && fresh@.pending.data.len() == 0,
{
}

/// A reader hands out the events that it owes one by one. It asks for more only
/// before the end of the stream, and ends only after it.
pub proof fn law_a_reader_hands_out_what_it_owes(reader: &mut SseReader, poll: SsePoll)
    requires
        call_ensures(SseReader::next_event, (reader,), poll),
    ensures
        match poll {
            SsePoll::Event(event) => old(reader)@.owed() == seq![
                Frame { event: event.event@, data: event.data@ },
            ] + final(reader)@.owed(),
            SsePoll::NeedMore => old(reader)@.owed().len() == 0 && !old(reader)@.finished,
            SsePoll::End => old(reader)@.owed().len() == 0 && old(reader)@.finished,
        },
{
    law_polling_delivers_what_is_owed(old(reader)@);
}

/// A run hands out the data of every event that carries any, in order, and what
/// was collected stays as it is meanwhile.
pub proof fn law_a_collector_hands_out_every_payload(collector: &mut RunCollector, poll: RunPoll)
    requires
        call_ensures(RunCollector::next_event, (collector,), poll),
    ensures
        match poll {
            RunPoll::Decode(data) => payloads(old(collector).events@.owed()) == seq![data@]
                + payloads(final(collector).events@.owed()),
            RunPoll::NeedMore => payloads(old(collector).events@.owed()).len() == 0 && !old(
                collector,
            ).events@.finished,
            RunPoll::End => payloads(old(collector).events@.owed()).len() == 0 && old(
                collector,
            ).events@.finished,
        },
        final(collector).stdout@ == old(collector).stdout@,
        final(collector).stderr@ == old(collector).stderr@,
        final(collector).saw_exit == old(collector).saw_exit,
{
    law_a_run_hands_out_every_payload(old(collector).events@);
    assert(final(collector).collected().stdout == old(collector).collected().stdout);
    assert(final(collector).collected().stderr == old(collector).collected().stderr);
    assert(final(collector).collected().exit == old(collector).collected().exit);
}

/// A follower hands out the data of every event that carries any, in order, up to
/// the end of the output.
pub proof fn law_a_follower_hands_out_every_output(follower: &mut OutputFollower, poll: FollowPoll)
    requires
        call_ensures(OutputFollower::next_event, (follower,), poll),
    ensures
        match poll {
            FollowPoll::Decode(data) => outputs(old(follower).events@.owed()) == seq![data@]
                + outputs(final(follower).events@.owed()),
            FollowPoll::NeedMore => outputs(old(follower).events@.owed()).len() == 0 && !old(
                follower,
            ).events@.finished,
            FollowPoll::End => outputs(old(follower).events@.owed()).len() == 0,
        },
{
    law_following_hands_out_every_output(old(follower).events@);
}

/// A line that a run reports is kept on its stream, behind the lines before it:
/// on standard error exactly if it says so.
pub proof fn law_a_reported_line_is_kept(
    collector: &mut RunCollector,
    data: String,
    event: RunProcessEvent,
    res: Result<(), BackendError>,
)
    requires
        event.line is Some,
        call_ensures(RunCollector::take_event, (collector, data, Ok(event)), res),
    ensures
        res is Ok,
        event.stream == Some(ProcessOutputStream::Stderr) ==> final(collector).stderr@ == old(
            collector,
        ).stderr@.push(event.line->0@) && final(collector).stdout@ == old(collector).stdout@,
        event.stream != Some(ProcessOutputStream::Stderr) ==> final(collector).stdout@ == old(
            collector,
        ).stdout@.push(event.line->0@) && final(collector).stderr@ == old(collector).stderr@,
        final(collector).saw_exit == old(collector).saw_exit,
        old(collector).saw_exit ==> final(collector).exit_code == old(collector).exit_code,
{
    assert(final(collector).collected().stdout == old(collector).collected().with(event).stdout);
    assert(final(collector).collected().stderr == old(collector).collected().with(event).stderr);
    assert(final(collector).collected().exit == old(collector).collected().exit);
}

/// An event without a line and without a start is the exit of the process, with
/// the exit code that it resolves to. One with a start changes nothing.
pub proof fn law_a_reported_exit_is_kept(
    collector: &mut RunCollector,
    data: String,
    event: RunProcessEvent,
    code: Option<i32>,
    res: Result<(), BackendError>,
)
    requires
        event.line is None,
        event.started_at is None ==> call_ensures(
            resolve_exit_code,
            (event.exit_code, event.signal),
            code,
        ),
        call_ensures(RunCollector::take_event, (collector, data, Ok(event)), res),
    ensures
        res is Ok,
        final(collector).stdout@ == old(collector).stdout@,
        final(collector).stderr@ == old(collector).stderr@,
        event.started_at is None ==> final(collector).saw_exit && final(collector).exit_code
            == code,
        event.started_at is Some ==> final(collector).saw_exit == old(collector).saw_exit,
{
    assert(final(collector).collected().stdout == old(collector).collected().with(event).stdout);
    assert(final(collector).collected().stderr == old(collector).collected().with(event).stderr);
    assert(final(collector).collected().exit == old(collector).collected().with(event).exit);
    assert(event.started_at is None ==> as_status(final(collector).exit_code) == as_status(code));
}

/// Data that cannot be decoded is an error that shows it, and changes nothing.
pub proof fn law_undecodable_data_changes_nothing(
    collector: &mut RunCollector,
    data: String,
    cause: String,
    res: Result<(), BackendError>,
)
    requires
        call_ensures(RunCollector::take_event, (collector, data, Err(cause)), res),
    ensures
        res == Err::<(), _>(BackendError::UndecodableRunEvent { data, cause }),
        *final(collector) == *old(collector),
{
}

/// A run begins with nothing, and takes in the bytes of its stream in order.
pub proof fn law_a_run_takes_in_its_stream(
    fresh: RunCollector,
    collector: &mut RunCollector,
    chunk: &[u8],
    ended: &mut RunCollector,
)
    requires
        call_ensures(RunCollector::new, (), fresh),
        call_ensures(RunCollector::push_chunk, (collector, chunk), ()),
        call_ensures(RunCollector::end_of_stream, (ended,), ()),
    ensures
        fresh.stdout@.len() == 0 && fresh.stderr@.len() == 0 && !fresh.saw_exit,
        fresh.events@.buffer.len() == 0 && !fresh.events@.finished,
        fresh.events@.pending.event.len() == 0 && fresh.events@.pending.data.len() == 0,
        final(collector).events@.buffer == old(collector).events@.buffer + chunk@,
        final(collector).events@.pending == old(collector).events@.pending,
        final(collector).events@.finished == old(collector).events@.finished,
        final(collector).collected() == old(collector).collected(),
        final(ended).events@.buffer == old(ended).events@.buffer,
        final(ended).events@.pending == old(ended).events@.pending,
        final(ended).events@.finished,
        final(ended).collected() == old(ended).collected(),
{
    assert(fresh.collected().stdout.len() == 0 && fresh.collected().stderr.len() == 0);
    assert(fresh.collected().exit is None);
}

/// A follower begins with nothing, and takes in the bytes of its stream in order.
pub proof fn law_a_follower_takes_in_its_stream(
    fresh: OutputFollower,
    follower: &mut OutputFollower,
    chunk: &[u8],
    ended: &mut OutputFollower,
)
    requires
        call_ensures(OutputFollower::new, (), fresh),
        call_ensures(OutputFollower::push_chunk, (follower, chunk), ()),
        call_ensures(OutputFollower::end_of_stream, (ended,), ()),
    ensures
        fresh.events@.buffer.len() == 0 && !fresh.events@.finished,
        fresh.events@.pending.event.len() == 0 && fresh.events@.pending.data.len() == 0,
        final(follower).events@.buffer == old(follower).events@.buffer + chunk@,
        final(follower).events@.pending == old(follower).events@.pending,
        final(follower).events@.finished == old(follower).events@.finished,
        final(ended).events@.buffer == old(ended).events@.buffer,
        final(ended).events@.pending == old(ended).events@.pending,
        final(ended).events@.finished,
{
}

/// Lines of output are kept in order.
pub proof fn law_lines_are_kept_in_order(output: &mut OutputLines, line: String, fresh: OutputLines)
    requires
        call_ensures(OutputLines::new, (), fresh),
        call_ensures(OutputLines::push, (output, line), ()),
    ensures
        fresh@.len() == 0,
        final(output)@.len() == old(output)@.len() + 1,
        final(output)@.last() == line@,
        final(output)@.drop_last() =~= old(output)@,
{
}

/// A sandbox that is out of reach is known to be, and where it was last is not
/// forgotten. One that is found again is reachable where it was found.
pub proof fn law_a_session_knows_where_its_sandbox_is(
    lost: &mut Session,
    regained: &mut Session,
    target: TensorlakeSandboxTarget,
    fresh: Session,
)
    requires
        call_ensures(Session::mark_unreachable, (lost,), ()),
        call_ensures(Session::found_again, (regained, target), ()),
        call_ensures(Session::new, (target,), fresh),
    ensures
        !final(lost).live,
        final(lost).target == old(lost).target,
        final(regained).live,
        final(regained).target == target,
        fresh.live,
        fresh.target == target,
{
}

} // verus!

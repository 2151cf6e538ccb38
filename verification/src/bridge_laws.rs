//! What becomes of a process that is bridged, said of the functions that decide
//! it.
use vstd::prelude::*;
use vstd::utf8::encode_utf8;

use crate::acquire_laws::{
    is_carried_out, is_two_hundreds, says, says_nothing, tells_refusal, tells_why, turns_down,
};
use crate::api::{
    ProcessInfo, ProcessOutputEvent, ProcessOutputStream, ProcessStatus, StartProcessBody,
};
use crate::command_laws::is_away;
use crate::error::{Activity, BackendError, Operation};
use crate::handle::ProxyCallError;
use crate::http::{ApiRequest, HttpStatus, Method, Reply, ReplyBody};
use crate::process::{
    after_exit, follow_opened, follow_output, is_eof, line_bytes, process_fits, process_seen,
    process_started, start_process, stdin_closed, stdin_read, stdin_request, stdin_sent,
    wait_for_process_exit, ExitStep, StartedProcess, StdinRead, StdinStep, WaitStep,
};
use crate::process_laws::{copied, DecodeOutput};
use crate::run::{framed, resolve_exit_code};
use crate::sandbox::SandboxCommand;
use crate::sse::Frame;
use crate::sse_laws::{lemma_encode_concat, lemma_scalar_bytes};
use crate::text::decimal_signed_text;

verus! {

/// What a sandbox is told to start is the command, with its input kept open and
/// its output captured.
pub proof fn law_a_sandbox_is_told_what_to_start(
    base_url: &str,
    cwd: &String,
    command: &SandboxCommand,
    sent: (ApiRequest, StartProcessBody),
)
    requires
        command.argv@.len() > 0,
        call_ensures(start_process, (base_url, cwd, command), sent),
    ensures
        sent.0.method == Method::Post,
        sent.0.url@ == base_url@ + "/api/v1/processes"@,
        seq![sent.1.command] + sent.1.args@ =~= command.argv@,
        sent.1.env@ == command.env@,
        cwd@.len() == 0 <==> sent.1.working_dir is None,
        sent.1.working_dir matches Some(dir) ==> dir@ == cwd@,
        sent.1.stdin_mode@ == "pipe"@,
        sent.1.stdout_mode@ == "capture"@,
        sent.1.stderr_mode@ == "capture"@,
{
}

/// A process that was started is reached by its number, and each of its streams
/// under its own name.
pub proof fn law_a_started_process_is_reached_by_its_number(
    base_url: &str,
    reply: Reply<ProcessInfo>,
    process: ProcessInfo,
    number: String,
    res: Result<StartedProcess, ProxyCallError>,
)
    requires
        says(reply, process),
        call_ensures(decimal_signed_text, (process.pid,), number),
        call_ensures(process_started, (base_url, reply), res),
    ensures
        res matches Ok(started) && {
            let url = base_url@ + "/api/v1/processes/"@ + number@;
            &&& started.process_url@ =~= url
            &&& started.stdout_url@ =~= url + "/stdout/follow"@
            &&& started.stderr_url@ =~= url + "/stderr/follow"@
        },
{
}

/// A start fails exactly if no answer says what was started. It did not reach the
/// sandbox exactly if no answer came or one of four statuses did; a start that was
/// carried out is never one of these.
pub proof fn law_a_start_fails_without_an_answer(
    base_url: &str,
    reply: Reply<ProcessInfo>,
    res: Result<StartedProcess, ProxyCallError>,
)
    requires
        call_ensures(process_started, (base_url, reply), res),
    ensures
        res is Err <==> says_nothing(reply) || reply is Unsent,
        (res matches Err(ProxyCallError::Unavailable(_))) <==> match reply {
            Reply::Unsent { .. } => true,
            Reply::Answered { status, .. } => is_away(status),
        },
        reply matches Reply::Unsent { cause } ==> res == Err::<StartedProcess, _>(
            ProxyCallError::Unavailable(
                BackendError::Transport { activity: Activity::StartingProcess, cause },
            ),
        ),
        forall|status: HttpStatus, text: Seq<char>|
            #![trigger turns_down(reply, status, text)]
            turns_down(reply, status, text) ==> {
                let error = match res->Err_0 {
                    ProxyCallError::Unavailable(error) => error,
                    ProxyCallError::Failed(error) => error,
                };
                tells_refusal(error, Operation::StartProcess, status, text)
            },
        is_carried_out(reply) && says_nothing(reply) ==> (res matches Err(
            ProxyCallError::Failed(BackendError::UndecodableStart { cause }),
        ) && match reply {
            Reply::Answered { body: ReplyBody::Unreadable { cause: kept }, .. } => cause == kept,
            Reply::Answered { body: ReplyBody::Text { parsed: Err(kept), .. }, .. } => cause == kept,
            _ => false,
        }),
{
}

/// A follower begins exactly if its request is carried out.
pub proof fn law_a_follower_begins_with_a_success(
    url: String,
    reply: Reply<()>,
    res: Result<(), BackendError>,
)
    requires
        call_ensures(follow_opened, (url, reply), res),
    ensures
        res is Ok <==> is_carried_out(reply),
        reply matches Reply::Unsent { cause } ==> res == Err::<(), _>(
            BackendError::Transport { activity: Activity::FollowingOutput { url }, cause },
        ),
        forall|status: HttpStatus, text: Seq<char>|
            #![trigger turns_down(reply, status, text)]
            turns_down(reply, status, text) ==> tells_refusal(
                res->Err_0,
                Operation::FollowOutput,
                status,
                text,
            ),
{
}

/// An event that carries a line adds the bytes of the line and one line feed
/// behind them, also where the line is empty. One that carries none adds nothing.
pub proof fn law_an_event_adds_its_line_and_a_line_feed(
    data: String,
    event: ProcessOutputEvent,
    res: Result<Option<Vec<u8>>, BackendError>,
)
    requires
        call_ensures(follow_output, (data, Ok(event)), res),
    ensures
        event.line matches Some(line) ==> (res matches Ok(Some(bytes)) && {
            &&& bytes@.len() == encode_utf8(line@).len() + 1
            &&& bytes@.last() == 10
            &&& bytes@.drop_last() =~= encode_utf8(line@)
        }),
        event.line is None ==> res == Ok::<Option<Vec<u8>>, BackendError>(None),
{
}

/// An event that cannot be decoded is an error that shows its data.
pub proof fn law_an_undecodable_event_is_shown(
    data: String,
    cause: String,
    res: Result<Option<Vec<u8>>, BackendError>,
)
    requires
        call_ensures(follow_output, (data, Err(cause)), res),
    ensures
        res == Err::<Option<Vec<u8>>, _>(BackendError::UndecodableOutputEvent { data, cause }),
{
}

/// Each data decodes to an event that carries the line beside it.
pub open spec fn carry(data: Seq<Seq<char>>, lines: Seq<Seq<char>>, decode: DecodeOutput) -> bool {
    &&& data.len() == lines.len()
    &&& forall|i: int|
        0 <= i < data.len() ==> (decode(#[trigger] data[i]) matches Ok(event)
            && event.line matches Some(line) && line@ == lines[i])
}

/// What is written of events that carry lines is the text of these lines, in
/// order and each with a line feed behind it: the text that a command with the
/// same output would be reported with.
pub proof fn law_followed_lines_are_written_as_output(
    written: Seq<u8>,
    data: Seq<Seq<char>>,
    lines: Seq<Seq<char>>,
    decode: DecodeOutput,
)
    requires
        carry(data, lines, decode),
    ensures
        copied(written, data, decode) == (written + encode_utf8(framed(lines)), None::<Seq<char>>),
    decreases data.len(),
{
    if data.len() == 0 {
        assert(encode_utf8(framed(lines)) =~= Seq::empty());
        assert(written + encode_utf8(framed(lines)) =~= written);
    } else {
        let rest = data.drop_first();
        let others = lines.drop_first();
        assert(decode(data[0]) is Ok);
        let event = decode(data.first())->Ok_0;
        let line = lines.first();
        let more = written + line_bytes(event);
        assert forall|i: int| 0 <= i < rest.len() implies (decode(#[trigger] rest[i]) matches Ok(
            event,
        ) && event.line matches Some(line) && line@ == others[i]) by {
            assert(rest[i] == data[i + 1]);
        }
        law_followed_lines_are_written_as_output(more, rest, others, decode);
        lemma_line_feed(line);
        assert(lines =~= seq![line] + others);
        crate::process_laws::law_output_text_adds_up(seq![line], others);
        crate::command_laws::law_every_line_ends_with_a_line_feed(line);
        lemma_encode_concat(line.push('\n'), framed(others));
        assert(more + encode_utf8(framed(others)) =~= written + encode_utf8(framed(lines)));
    }
}

proof fn lemma_line_feed(line: Seq<char>)
    ensures
        encode_utf8(line.push('\n')) == encode_utf8(line).push(10u8),
{
    let feed = seq!['\n'];
    assert(line.push('\n') =~= line + feed);
    lemma_encode_concat(line, feed);
    lemma_scalar_bytes('\n');
    assert(feed.drop_first() =~= Seq::<char>::empty());
    assert(encode_utf8(feed.drop_first()) =~= Seq::<u8>::empty());
    assert(encode_utf8(feed) =~= seq![10u8]);
}

/// Events that carry no line leave what was written as it was.
pub proof fn law_events_without_a_line_write_nothing(
    written: Seq<u8>,
    data: Seq<Seq<char>>,
    decode: DecodeOutput,
)
    requires
        forall|i: int|
            0 <= i < data.len() ==> (decode(#[trigger] data[i]) matches Ok(event) && event.line
                is None),
    ensures
        copied(written, data, decode) == (written, None::<Seq<char>>),
    decreases data.len(),
{
    if data.len() > 0 {
        let rest = data.drop_first();
        assert(decode(data[0]) is Ok);
        assert forall|i: int| 0 <= i < rest.len() implies (decode(#[trigger] rest[i]) matches Ok(
            event,
        ) && event.line is None) by {
            assert(rest[i] == data[i + 1]);
        }
        assert(written + line_bytes(decode(data.first())->Ok_0) =~= written);
        law_events_without_a_line_write_nothing(written, rest, decode);
    }
}

/// Exactly the events that are called `eof` say that the output is complete.
pub proof fn law_only_eof_completes_the_output(frame: Frame)
    ensures
        is_eof(frame) <==> frame.event =~= seq!['e', 'o', 'f'],
{
    reveal_strlit("eof");
    assert("eof"@ =~= seq!['e', 'o', 'f']);
}

/// Input that was read is sent as it is. Its end, and an input that cannot be
/// read, close the input of the process.
pub proof fn law_input_is_sent_as_it_was_read(bytes: Vec<u8>, sent: StdinStep, broken: StdinStep)
    requires
        call_ensures(stdin_read, (StdinRead::Bytes { bytes },), sent),
        call_ensures(stdin_read, (StdinRead::Broken,), broken),
    ensures
        bytes@.len() > 0 ==> (sent matches StdinStep::Send { bytes: kept } && kept@ == bytes@),
        bytes@.len() == 0 ==> sent is Close,
        broken is Close,
{
}

/// More input is read exactly if the input before it was taken; else the input of
/// the process is closed, and then nothing more is done.
pub proof fn law_input_goes_on_only_if_it_is_taken(
    status: Option<HttpStatus>,
    next: StdinStep,
    closed: StdinStep,
)
    requires
        call_ensures(stdin_sent, (status,), next),
        call_ensures(stdin_closed, (), closed),
    ensures
        next is Read <==> (status matches Some(given) && is_two_hundreds(given)),
        next is Read || next is Close,
        closed is Finished,
{
}

/// Input goes to the input of the process, and its end is told there too. Nothing
/// else is sent.
pub proof fn law_input_goes_to_the_process(
    process_url: &str,
    step: &StdinStep,
    request: Option<ApiRequest>,
)
    requires
        call_ensures(stdin_request, (process_url, step), request),
    ensures
        step is Send ==> (request matches Some(sent) && sent.method == Method::Post && sent.url@
            == process_url@ + "/stdin"@),
        step is Close ==> (request matches Some(sent) && sent.method == Method::Post && sent.url@
            == process_url@ + "/stdin/close"@),
        step is Read || step is Finished ==> request is None,
{
}

/// A look at a process sees what its answer says, or says why it does not.
pub proof fn law_a_look_sees_the_process(
    url: String,
    reply: Reply<ProcessInfo>,
    res: Result<ProcessInfo, BackendError>,
)
    requires
        call_ensures(process_seen, (url, reply), res),
    ensures
        forall|info: ProcessInfo|
            #![trigger says(reply, info)]
            says(reply, info) ==> res == Ok::<ProcessInfo, BackendError>(info),
        res matches Ok(info) ==> says(reply, info),
        reply matches Reply::Unsent { cause } ==> res == Err::<ProcessInfo, _>(
            BackendError::Transport { activity: Activity::PollingProcess { url }, cause },
        ),
        says_nothing(reply) ==> (res matches Err(error) && tells_why(
            reply,
            Operation::GetProcess,
            error,
        )),
{
}

/// A process is waited for exactly while it is running. Once it is not, its exit
/// code is reported, or zero if it has none; and only a look that failed fails.
pub proof fn law_a_process_is_awaited_while_it_runs(
    info: ProcessInfo,
    error: BackendError,
    fits: bool,
    code: Option<i32>,
    next: WaitStep,
    failed: WaitStep,
)
    requires
        call_ensures(process_fits, (&Ok::<ProcessInfo, BackendError>(info),), fits),
        fits && info.status != ProcessStatus::Running ==> call_ensures(
            resolve_exit_code,
            (info.exit_code, info.signal),
            code,
        ),
        fits ==> call_ensures(wait_for_process_exit, (Ok::<ProcessInfo, BackendError>(info),), next),
        call_ensures(wait_for_process_exit, (Err::<ProcessInfo, BackendError>(error),), failed),
    ensures
        fits <==> info.status is Running || info.exit_code is Some || info.signal is None
            || info.signal->0 <= i32::MAX - 128,
        fits && info.status is Running ==> next is Wait,
        fits && !(info.status is Running) ==> (next matches WaitStep::Exited(told) && match code {
            Some(known) => told == known,
            None => told == 0,
        }),
        failed == WaitStep::Failed(error),
{
}

/// Once a process has exited, its two followers are waited for, one after the
/// other and five seconds each, and then the exit code is reported as it was.
pub proof fn law_an_exit_waits_for_both_followers(code: i32, drained: usize, next: ExitStep)
    requires
        call_ensures(after_exit, (code, drained), next),
    ensures
        drained == 0 ==> next == (ExitStep::Drain {
            follower: ProcessOutputStream::Stdout,
            millis: 5000,
            code,
        }),
        drained == 1 ==> next == (ExitStep::Drain {
            follower: ProcessOutputStream::Stderr,
            millis: 5000,
            code,
        }),
        drained >= 2 ==> next == ExitStep::Exited(code),
{
}

} // verus!

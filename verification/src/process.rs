//! Processes that run on while their input and output are bridged.
//!
//! A process is started with its standard input kept open. Its output is
//! followed over event streams, its input is forwarded in pieces, and its exit
//! is awaited by looking at it again and again.
use vstd::prelude::*;
use vstd::slice::slice_to_vec;
use vstd::utf8::encode_utf8;

use crate::api::{
    ProcessInfo, ProcessOutputEvent, ProcessOutputStream, ProcessStatus, StartProcessBody,
};
use crate::error::{Activity, BackendError, Operation};
use crate::handle::{
    classify_proxy_status, classify_transport_error, says_unreachable, ProxyCall, ProxyCallError,
};
use crate::http::{ApiRequest, HttpStatus, Method, Reply, ReplyBody};
use crate::lifecycle::{decode_json_response, decoded, reports_refusal};
use crate::run::{
    command_line, exit_code_fits, exit_status, has_exit_status, passed_dir, resolve_exit_code,
};
use crate::sandbox::SandboxCommand;
use crate::sse::{Frame, PollView, SsePoll, SseReader, SseState};
use crate::sse_laws::law_polling_delivers_what_is_owed;
use crate::text::{concat_text, decimal_signed, decimal_signed_text};

verus! {

/// How many bytes of input or output can wait in a pipe.
pub const PROCESS_PIPE_BUFFER_SIZE: usize = 65536;

/// The pause between two looks at a process that is still running.
pub const PROCESS_WAIT_POLL_MILLIS: u64 = 250;

/// How long an output follower may go on once the process has exited.
pub const PROCESS_OUTPUT_DRAIN_MILLIS: u64 = 5000;

/// The request that starts a process.
pub fn start_process(base_url: &str, cwd: &String, command: &SandboxCommand) -> (res: (
    ApiRequest,
    StartProcessBody,
))
    requires
        command.argv@.len() > 0,
    ensures
        res.0.is(Method::Post, base_url@ + "/api/v1/processes"@),
        res.1.command == command.argv@[0],
        res.1.args@ == command.argv@.skip(1),
        res.1.env@ == command.env@,
        res.1.working_dir == passed_dir(*cwd),
        res.1.stdin_mode@ == "pipe"@,
        res.1.stdout_mode@ == "capture"@,
        res.1.stderr_mode@ == "capture"@,
{
    let line = command_line(cwd, command);
    (
        ApiRequest { method: Method::Post, url: concat_text(base_url, "/api/v1/processes") },
        StartProcessBody {
            command: line.command,
            args: line.args,
            env: line.env,
            working_dir: line.working_dir,
            stdin_mode: "pipe".to_string(),
            stdout_mode: "capture".to_string(),
            stderr_mode: "capture".to_string(),
        },
    )
}

/// Where a process that was started is reached.
#[derive(Debug)]
pub struct StartedProcess {
    pub process_url: String,
    pub stdout_url: String,
    pub stderr_url: String,
}

pub open spec fn process_endpoint(base_url: Seq<char>, pid: i32) -> Seq<char> {
    base_url + "/api/v1/processes/"@ + decimal_signed(pid as int)
}

impl StartedProcess {
    /// The process with the number `pid` is reached here.
    pub open spec fn is_at(self, base_url: Seq<char>, pid: i32) -> bool {
        &&& self.process_url@ == process_endpoint(base_url, pid)
        &&& self.stdout_url@ == process_endpoint(base_url, pid) + "/stdout/follow"@
        &&& self.stderr_url@ == process_endpoint(base_url, pid) + "/stderr/follow"@
    }
}

/// `res` is what the answer to a start says.
pub open spec fn starts(
    base_url: Seq<char>,
    reply: Reply<ProcessInfo>,
    res: Result<StartedProcess, ProxyCallError>,
) -> bool {
    let call = ProxyCall::StartProcess;
    match reply {
        Reply::Unsent { cause } => res == Err::<StartedProcess, _>(
            ProxyCallError::Unavailable(
                BackendError::Transport { activity: call.activity(), cause },
            ),
        ),
        Reply::Answered { status, body } => if !status.succeeded() {
            if says_unreachable(status) {
                res matches Err(ProxyCallError::Unavailable(error)) && reports_refusal(
                    error,
                    call.operation(),
                    status,
                    body.shown(),
                )
            } else {
                res matches Err(ProxyCallError::Failed(error)) && reports_refusal(
                    error,
                    call.operation(),
                    status,
                    body.shown(),
                )
            }
        } else {
            match body {
                ReplyBody::Text { parsed: Ok(process), .. } => res matches Ok(started)
                    && started.is_at(base_url, process.pid),
                ReplyBody::Text { parsed: Err(cause), .. } => res == Err::<StartedProcess, _>(
                    ProxyCallError::Failed(BackendError::UndecodableStart { cause }),
                ),
                ReplyBody::Unreadable { cause } => res == Err::<StartedProcess, _>(
                    ProxyCallError::Failed(BackendError::UndecodableStart { cause }),
                ),
            }
        },
    }
}

/// Reads the answer to a start.
pub fn process_started(base_url: &str, reply: Reply<ProcessInfo>) -> (res: Result<
    StartedProcess,
    ProxyCallError,
>)
    ensures
        starts(base_url@, reply, res),
{
    match reply {
        Reply::Unsent { cause } => Err(classify_transport_error(cause, ProxyCall::StartProcess)),
        Reply::Answered { status, body } => {
            if !status.is_success() {
                return Err(
                    classify_proxy_status(status, ProxyCall::StartProcess, body.into_text()),
                );
            }
            match body {
                ReplyBody::Text { parsed: Ok(process), .. } => {
                    let mut process_url = concat_text(base_url, "/api/v1/processes/");
                    process_url.append(decimal_signed_text(process.pid).as_str());
                    let stdout_url = concat_text(process_url.as_str(), "/stdout/follow");
                    let stderr_url = concat_text(process_url.as_str(), "/stderr/follow");
                    Ok(StartedProcess { process_url, stdout_url, stderr_url })
                },
                ReplyBody::Text { parsed: Err(cause), .. } => Err(
                    ProxyCallError::Failed(BackendError::UndecodableStart { cause }),
                ),
                ReplyBody::Unreadable { cause } => Err(
                    ProxyCallError::Failed(BackendError::UndecodableStart { cause }),
                ),
            }
        },
    }
}

/// Reads the first part of the answer to a request for the output of a process.
pub fn follow_opened(url: String, reply: Reply<()>) -> (res: Result<(), BackendError>)
    ensures
        match reply {
            Reply::Unsent { cause } => res == Err::<(), _>(
                BackendError::Transport { activity: Activity::FollowingOutput { url }, cause },
            ),
            Reply::Answered { status, body } => if status.succeeded() {
                res is Ok
            } else {
                res matches Err(error) && reports_refusal(
                    error,
                    Operation::FollowOutput,
                    status,
                    body.shown(),
                )
            },
        },
{
    match reply {
        Reply::Unsent { cause } => Err(
            BackendError::Transport { activity: Activity::FollowingOutput { url }, cause },
        ),
        Reply::Answered { status, body } => {
            if status.is_success() {
                return Ok(());
            }
            Err(
                BackendError::Refused {
                    operation: Operation::FollowOutput,
                    status,
                    body: body.into_text(),
                },
            )
        },
    }
}

/// Whether an event says that the output is complete.
pub open spec fn is_eof(frame: Frame) -> bool {
    frame.event == "eof"@
}

/// Polls for the next event that carries data, up to the one that says that the
/// output is complete.
pub open spec fn next_output(state: SseState) -> (SseState, PollView)
    decreases state.owed().len(),
{
    match state.polled() {
        (next, PollView::Event(frame)) => if is_eof(frame) {
            (next, PollView::End)
        } else if frame.data.len() == 0 && next.owed().len() < state.owed().len() {
            next_output(next)
        } else {
            (next, PollView::Event(frame))
        },
        other => other,
    }
}

/// What a follower has to say when asked for the next event.
#[derive(Debug)]
pub enum FollowPoll {
    /// An event came whose data is to be decoded.
    Decode(String),
    /// The bytes so far complete no further event.
    NeedMore,
    /// The output is complete.
    End,
}

fn is_eof_name(name: &String) -> (eof: bool)
    ensures
        eof == (name@ == "eof"@),
{
    proof {
        reveal_strlit("eof");
    }
    let text = name.as_str();
    if text.unicode_len() != 3 {
        return false;
    }
    if text.get_char(0) == 'e' && text.get_char(1) == 'o' && text.get_char(2) == 'f' {
        assert(name@ =~= "eof"@);
        true
    } else {
        false
    }
}

/// Follows the output of a process.
#[derive(Debug)]
pub struct OutputFollower {
    pub events: SseReader,
}

impl OutputFollower {
    pub fn new() -> (follower: Self)
        ensures
            follower.events@ == SseState::fresh(),
    {
        OutputFollower { events: SseReader::new() }
    }

    /// Takes in the next bytes of the stream.
    pub fn push_chunk(&mut self, chunk: &[u8])
        ensures
            final(self).events@ == old(self).events@.with_chunk(chunk@),
    {
        self.events.push_chunk(chunk);
    }

    /// Records that no more bytes will come.
    pub fn end_of_stream(&mut self)
        ensures
            final(self).events@ == old(self).events@.ended(),
    {
        self.events.end_of_stream();
    }

    /// Asks for the next event that carries data.
    pub fn next_event(&mut self) -> (poll: FollowPoll)
        ensures
            ({
                let (next, answer) = next_output(old(self).events@);
                &&& final(self).events@ == next
                &&& match answer {
                    PollView::Event(frame) => poll matches FollowPoll::Decode(data) && data@
                        == frame.data && frame.data.len() > 0,
                    PollView::NeedMore => poll is NeedMore,
                    PollView::End => poll is End,
                }
            }),
    {
        loop
            invariant
                next_output(self.events@) == next_output(old(self).events@),
            decreases self.events@.owed().len(),
        {
            proof {
                law_polling_delivers_what_is_owed(self.events@);
            }
            match self.events.next_event() {
                SsePoll::Event(event) => {
                    if is_eof_name(&event.event) {
                        return FollowPoll::End;
                    }
                    if !event.data.as_str().is_empty() {
                        return FollowPoll::Decode(event.data);
                    }
                },
                SsePoll::NeedMore => {
                    return FollowPoll::NeedMore;
                },
                SsePoll::End => {
                    return FollowPoll::End;
                },
            }
        }
    }
}

/// The bytes that an event adds to the output of a process: the line with a
/// line feed, where it carries a line.
pub open spec fn line_bytes(event: ProcessOutputEvent) -> Seq<u8> {
    match event.line {
        Some(line) => encode_utf8(line@).push(10u8),
        None => Seq::empty(),
    }
}

/// What an event adds to the output of a process. `data` is what the event was
/// decoded from.
pub fn follow_output(data: String, payload: Result<ProcessOutputEvent, String>) -> (res: Result<
    Option<Vec<u8>>,
    BackendError,
>)
    ensures
        match payload {
            Ok(event) => match res {
                Ok(Some(bytes)) => event.line is Some && bytes@ == line_bytes(event),
                Ok(None) => event.line is None,
                Err(_) => false,
            },
            Err(cause) => res == Err::<Option<Vec<u8>>, _>(
                BackendError::UndecodableOutputEvent { data, cause },
            ),
        },
{
    let event = match payload {
        Ok(event) => event,
        Err(cause) => {
            return Err(BackendError::UndecodableOutputEvent { data, cause });
        },
    };
    match event.line {
        Some(line) => {
            let mut bytes: Vec<u8> = slice_to_vec(line.as_str().as_bytes());
            bytes.push(10u8);
            Ok(Some(bytes))
        },
        None => Ok(None),
    }
}

/// What to do next with the input of a process.
#[derive(Debug)]
pub enum StdinStep {
    /// Wait for input.
    Read,
    /// `POST {process_url}/stdin` with these bytes.
    Send { bytes: Vec<u8> },
    /// `POST {process_url}/stdin/close`.
    Close,
    /// Nothing more.
    Finished,
}

/// What came of waiting for input.
#[derive(Debug)]
pub enum StdinRead {
    Bytes { bytes: Vec<u8> },
    Broken,
}

pub open spec fn after_read(read: StdinRead) -> StdinStep {
    match read {
        StdinRead::Bytes { bytes } => if bytes@.len() == 0 {
            StdinStep::Close
        } else {
            StdinStep::Send { bytes }
        },
        StdinRead::Broken => StdinStep::Close,
    }
}

/// Goes on once input has come. No bytes at all mean that no more will come.
pub fn stdin_read(read: StdinRead) -> (next: StdinStep)
    ensures
        next == after_read(read),
{
    match read {
        StdinRead::Bytes { bytes } => if bytes.len() == 0 {
            StdinStep::Close
        } else {
            StdinStep::Send { bytes }
        },
        StdinRead::Broken => StdinStep::Close,
    }
}

pub open spec fn after_send(status: Option<HttpStatus>) -> StdinStep {
    match status {
        Some(status) => if status.succeeded() {
            StdinStep::Read
        } else {
            StdinStep::Close
        },
        None => StdinStep::Close,
    }
}

/// Goes on once input has been sent. `status` is missing where no answer came.
pub fn stdin_sent(status: Option<HttpStatus>) -> (next: StdinStep)
    ensures
        next == after_send(status),
{
    match status {
        Some(status) => if status.is_success() {
            StdinStep::Read
        } else {
            StdinStep::Close
        },
        None => StdinStep::Close,
    }
}

/// Goes on once the input has been closed, whatever the answer.
pub fn stdin_closed() -> (next: StdinStep)
    ensures
        next == StdinStep::Finished,
{
    StdinStep::Finished
}

/// The request that a step sends.
pub fn stdin_request(process_url: &str, step: &StdinStep) -> (request: Option<ApiRequest>)
    ensures
        match step {
            StdinStep::Send { .. } => request matches Some(sent) && sent.is(
                Method::Post,
                process_url@ + "/stdin"@,
            ),
            StdinStep::Close => request matches Some(sent) && sent.is(
                Method::Post,
                process_url@ + "/stdin/close"@,
            ),
            _ => request is None,
        },
{
    match step {
        StdinStep::Send { .. } => Some(
            ApiRequest { method: Method::Post, url: concat_text(process_url, "/stdin") },
        ),
        StdinStep::Close => Some(
            ApiRequest { method: Method::Post, url: concat_text(process_url, "/stdin/close") },
        ),
        _ => None,
    }
}

/// What a look at a process calls for.
#[derive(Debug)]
pub enum WaitStep {
    /// The process is still running: pause, then look again.
    Wait,
    /// The process has exited.
    Exited(i32),
    Failed(BackendError),
}

/// What is done once a process has exited. Its exit code is known by then.
#[derive(Debug)]
pub enum ExitStep {
    /// Wait for a follower to finish, so that it can deliver what the process
    /// emitted before it exited, but no longer than `millis`. How the follower
    /// ends, or whether it does, makes no difference.
    Drain { follower: ProcessOutputStream, millis: u64, code: i32 },
    /// Report the exit code.
    Exited(i32),
}

/// What is done once a process has exited and `drained` of its followers have
/// been waited for: first the one of its output, then the one of its errors.
pub open spec fn exit_step(code: i32, drained: nat) -> ExitStep {
    if drained == 0 {
        ExitStep::Drain {
            follower: ProcessOutputStream::Stdout,
            millis: PROCESS_OUTPUT_DRAIN_MILLIS,
            code,
        }
    } else if drained == 1 {
        ExitStep::Drain {
            follower: ProcessOutputStream::Stderr,
            millis: PROCESS_OUTPUT_DRAIN_MILLIS,
            code,
        }
    } else {
        ExitStep::Exited(code)
    }
}

/// Goes on once a process has exited with `code` and `drained` of its followers
/// have been waited for.
pub fn after_exit(code: i32, drained: usize) -> (next: ExitStep)
    ensures
        next == exit_step(code, drained as nat),
{
    let millis: u64 = PROCESS_OUTPUT_DRAIN_MILLIS;
    if drained == 0 {
        ExitStep::Drain { follower: ProcessOutputStream::Stdout, millis, code }
    } else if drained == 1 {
        ExitStep::Drain { follower: ProcessOutputStream::Stderr, millis, code }
    } else {
        ExitStep::Exited(code)
    }
}

/// What the answer to a look at a process says.
pub open spec fn seen(url: String, reply: Reply<ProcessInfo>) -> Result<ProcessInfo, BackendError> {
    match reply {
        Reply::Unsent { cause } => Err(
            BackendError::Transport { activity: Activity::PollingProcess { url }, cause },
        ),
        Reply::Answered { status, body } => decoded(status, body, Operation::GetProcess),
    }
}

/// Reads the answer to a look at a process.
pub fn process_seen(url: String, reply: Reply<ProcessInfo>) -> (res: Result<
    ProcessInfo,
    BackendError,
>)
    ensures
        res == seen(url, reply),
{
    match reply {
        Reply::Unsent { cause } => Err(
            BackendError::Transport { activity: Activity::PollingProcess { url }, cause },
        ),
        Reply::Answered { status, body } => decode_json_response(
            status,
            body,
            Operation::GetProcess,
        ),
    }
}

/// Whether it can be told what a look at a process calls for.
pub open spec fn is_tellable(process: Result<ProcessInfo, BackendError>) -> bool {
    process matches Ok(info) ==> info.status == ProcessStatus::Running || has_exit_status(
        info.exit_code,
        info.signal,
    )
}

/// Tests whether it can be told what a look at a process calls for.
pub fn process_fits(process: &Result<ProcessInfo, BackendError>) -> (fits: bool)
    ensures
        fits == is_tellable(*process),
{
    match process {
        Ok(info) => info.status == ProcessStatus::Running || exit_code_fits(
            info.exit_code,
            info.signal,
        ),
        Err(_) => true,
    }
}

/// Decides what a look at a process calls for. A process that has exited
/// without a code and without a signal counts as successful.
pub fn wait_for_process_exit(process: Result<ProcessInfo, BackendError>) -> (next: WaitStep)
    requires
        is_tellable(process),
    ensures
        match process {
            Ok(info) => if info.status == ProcessStatus::Running {
                next == WaitStep::Wait
            } else {
                next matches WaitStep::Exited(code) && code == (match exit_status(
                    info.exit_code,
                    info.signal,
                ) {
                    Some(status) => status,
                    None => 0,
                })
            },
            Err(error) => next == WaitStep::Failed(error),
        },
{
    match process {
        Ok(info) => {
            if info.status == ProcessStatus::Running {
                return WaitStep::Wait;
            }
            match resolve_exit_code(info.exit_code, info.signal) {
                Some(code) => WaitStep::Exited(code),
                None => WaitStep::Exited(0),
            }
        },
        Err(error) => WaitStep::Failed(error),
    }
}

} // verus!

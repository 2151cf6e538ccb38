//! Running a command to its end.
//!
//! `POST /api/v1/processes/run` answers with an event stream: the process has
//! started, a line of its output, it has exited. The lines are collected and
//! come back as text with the exit code.
use vstd::prelude::*;

use crate::api::{ProcessOutputStream, RunProcessBody, RunProcessEvent};
use crate::error::BackendError;
use crate::handle::{
    classify_proxy_status, classify_transport_error, says_unreachable, ProxyCall, ProxyCallError,
};
use crate::http::{ApiRequest, Method, Reply};
use crate::lifecycle::reports_refusal;
use crate::sandbox::{Environment, SandboxCommand, SandboxCommandOutput, TimeSpan};
use crate::sse::{PollView, SsePoll, SseReader, SseState};
use crate::sse_laws::law_polling_delivers_what_is_owed;
use crate::text::{concat_text, texts_from};

verus! {

/// How much longer than the sandbox the caller waits for a command that runs
/// out of time, in seconds.
pub const EXEC_TIMEOUT_GRACE_SECS: u64 = 10;

/// What the code of a process that a signal ended counts from.
pub const SIGNAL_BASE: i32 = 128;

/// The exit code that callers see. A process that was ended by a signal has
/// none; as in a shell, it shows as the number of the signal above a base.
pub open spec fn exit_status(exit_code: Option<i32>, signal: Option<i32>) -> Option<int> {
    match (exit_code, signal) {
        (Some(code), _) => Some(code as int),
        (None, Some(signal)) => Some(SIGNAL_BASE + signal),
        (None, None) => None,
    }
}

/// Whether the exit code can be told.
pub open spec fn has_exit_status(exit_code: Option<i32>, signal: Option<i32>) -> bool {
    match exit_status(exit_code, signal) {
        Some(status) => status <= i32::MAX,
        None => true,
    }
}

/// Tests whether the exit code can be told: a signal may be too large.
pub fn exit_code_fits(exit_code: Option<i32>, signal: Option<i32>) -> (fits: bool)
    ensures
        fits == has_exit_status(exit_code, signal),
{
    match (exit_code, signal) {
        (None, Some(signal)) => signal <= i32::MAX - SIGNAL_BASE,
        _ => true,
    }
}

/// The exit code of a process that may have been ended by a signal.
pub fn resolve_exit_code(exit_code: Option<i32>, signal: Option<i32>) -> (code: Option<i32>)
    requires
        has_exit_status(exit_code, signal),
    ensures
        as_status(code) == exit_status(exit_code, signal),
{
    match (exit_code, signal) {
        (Some(code), _) => Some(code),
        (None, Some(signal)) => Some(SIGNAL_BASE + signal),
        (None, None) => None,
    }
}

/// An exit code as a number.
pub open spec fn as_status(code: Option<i32>) -> Option<int> {
    match code {
        Some(code) => Some(code as int),
        None => None,
    }
}

/// Lines of output as text: each line ends with a line feed.
pub open spec fn framed(lines: Seq<Seq<char>>) -> Seq<char>
    decreases lines.len(),
{
    if lines.len() == 0 {
        Seq::empty()
    } else {
        framed(lines.drop_last()) + lines.last().push('\n')
    }
}

/// Collects lines of output.
#[derive(Debug)]
pub struct OutputLines {
    pub lines: Vec<String>,
}

impl View for OutputLines {
    type V = Seq<Seq<char>>;

    open spec fn view(&self) -> Seq<Seq<char>> {
        self.lines@.map_values(|line: String| line@)
    }
}

impl OutputLines {
    pub fn new() -> (output: Self)
        ensures
            output@ == Seq::<Seq<char>>::empty(),
    {
        let output = OutputLines { lines: Vec::new() };
        assert(output@ =~= Seq::<Seq<char>>::empty());
        output
    }

    pub fn push(&mut self, line: String)
        ensures
            final(self)@ == old(self)@.push(line@),
    {
        self.lines.push(line);
        assert(self@ =~= old(self)@.push(line@));
    }

    /// The lines as text.
    pub fn into_text(self) -> (text: String)
        ensures
            text@ == framed(self@),
    {
        let mut text = String::new();
        let mut i: usize = 0;
        while i < self.lines.len()
            invariant
                i <= self.lines.len(),
                text@ == framed(self@.take(i as int)),
            decreases self.lines.len() - i,
        {
            let ghost before = text@;
            text.append(self.lines[i].as_str());
            text.append("\n");
            proof {
                reveal_strlit("\n");
                let more = self@.take(i + 1);
                assert(more.drop_last() =~= self@.take(i as int));
                assert(more.last() == self.lines@[i as int]@);
                assert(text@ =~= before + more.last().push('\n'));
            }
            i = i + 1;
        }
        assert(self@.take(i as int) =~= self@);
        text
    }
}

/// What the events of a run have told so far.
#[verifier::ext_equal]
pub struct Collected {
    pub stdout: Seq<Seq<char>>,
    pub stderr: Seq<Seq<char>>,
    /// How the process exited, once it has.
    pub exit: Option<Option<int>>,
}

impl Collected {
    pub open spec fn nothing() -> Collected {
        Collected { stdout: Seq::empty(), stderr: Seq::empty(), exit: None }
    }

    /// What is known after one more event.
    pub open spec fn with(self, event: RunProcessEvent) -> Collected {
        match event.line {
            Some(line) => if event.stream == Some(ProcessOutputStream::Stderr) {
                Collected { stderr: self.stderr.push(line@), ..self }
            } else {
                Collected { stdout: self.stdout.push(line@), ..self }
            },
            None => if event.started_at is Some {
                self
            } else {
                Collected { exit: Some(exit_status(event.exit_code, event.signal)), ..self }
            },
        }
    }
}

/// Whether an event can be taken in: the exit code that it reports, if it does
/// report one, can be told.
pub open spec fn is_acceptable(event: RunProcessEvent) -> bool {
    event.line is None && event.started_at is None ==> has_exit_status(
        event.exit_code,
        event.signal,
    )
}

/// Tests whether an event can be taken in.
pub fn event_fits(event: &RunProcessEvent) -> (fits: bool)
    ensures
        fits == is_acceptable(*event),
{
    event.line.is_some() || event.started_at.is_some() || exit_code_fits(
        event.exit_code,
        event.signal,
    )
}

/// Polls for the next event that carries data; others say nothing about a run.
pub open spec fn next_payload(state: SseState) -> (SseState, PollView)
    decreases state.owed().len(),
{
    match state.polled() {
        (next, PollView::Event(frame)) => if frame.data.len() == 0 && next.owed().len()
            < state.owed().len() {
            next_payload(next)
        } else {
            (next, PollView::Event(frame))
        },
        other => other,
    }
}

/// What a collector has to say when asked for the next event.
#[derive(Debug)]
pub enum RunPoll {
    /// An event came whose data is to be decoded.
    Decode(String),
    /// The bytes so far complete no further event.
    NeedMore,
    /// The stream is over.
    End,
}

/// What came of a run.
#[derive(Debug)]
pub struct RunOutcome {
    pub exit_code: Option<i32>,
    pub stdout: String,
    pub stderr: String,
}

/// `res` is what came of a run whose stream is over.
pub open spec fn comes_to(collected: Collected, res: Result<RunOutcome, BackendError>) -> bool {
    match collected.exit {
        Some(status) => res matches Ok(outcome) && {
            &&& as_status(outcome.exit_code) == status
            &&& outcome.stdout@ == framed(collected.stdout)
            &&& outcome.stderr@ == framed(collected.stderr)
        },
        None => res == Err::<RunOutcome, _>(BackendError::MissingExit),
    }
}

/// Collects what the events of a run tell.
#[derive(Debug)]
pub struct RunCollector {
    pub events: SseReader,
    pub stdout: OutputLines,
    pub stderr: OutputLines,
    pub exit_code: Option<i32>,
    pub saw_exit: bool,
}

impl RunCollector {
    pub open spec fn collected(self) -> Collected {
        Collected {
            stdout: self.stdout@,
            stderr: self.stderr@,
            exit: if self.saw_exit {
                Some(as_status(self.exit_code))
            } else {
                None
            },
        }
    }

    /// A collector that knows nothing yet.
    pub fn new() -> (collector: Self)
        ensures
            collector.events@ == SseState::fresh(),
            collector.collected() == Collected::nothing(),
    {
        RunCollector {
            events: SseReader::new(),
            stdout: OutputLines::new(),
            stderr: OutputLines::new(),
            exit_code: None,
            saw_exit: false,
        }
    }

    /// Takes in the next bytes of the stream.
    pub fn push_chunk(&mut self, chunk: &[u8])
        ensures
            final(self).events@ == old(self).events@.with_chunk(chunk@),
            final(self).collected() == old(self).collected(),
    {
        self.events.push_chunk(chunk);
    }

    /// Records that no more bytes will come.
    pub fn end_of_stream(&mut self)
        ensures
            final(self).events@ == old(self).events@.ended(),
            final(self).collected() == old(self).collected(),
    {
        self.events.end_of_stream();
    }

    /// Asks for the next event that carries data.
    pub fn next_event(&mut self) -> (poll: RunPoll)
        ensures
            final(self).collected() == old(self).collected(),
            ({
                let (next, answer) = next_payload(old(self).events@);
                &&& final(self).events@ == next
                &&& match answer {
                    PollView::Event(frame) => poll matches RunPoll::Decode(data) && data@
                        == frame.data && frame.data.len() > 0,
                    PollView::NeedMore => poll is NeedMore,
                    PollView::End => poll is End,
                }
            }),
    {
        loop
            invariant
                self.collected() == old(self).collected(),
                next_payload(self.events@) == next_payload(old(self).events@),
            decreases self.events@.owed().len(),
        {
            proof {
                law_polling_delivers_what_is_owed(self.events@);
            }
            match self.events.next_event() {
                SsePoll::Event(event) => {
                    if !event.data.as_str().is_empty() {
                        return RunPoll::Decode(event.data);
                    }
                },
                SsePoll::NeedMore => {
                    return RunPoll::NeedMore;
                },
                SsePoll::End => {
                    return RunPoll::End;
                },
            }
        }
    }

    /// Takes in what an event says. `data` is what the event was decoded from.
    pub fn take_event(&mut self, data: String, payload: Result<RunProcessEvent, String>) -> (res:
        Result<(), BackendError>)
        requires
            payload matches Ok(event) ==> is_acceptable(event),
        ensures
            final(self).events == old(self).events,
            match payload {
                Ok(event) => res is Ok && final(self).collected() == old(self).collected().with(
                    event,
                ),
                Err(cause) => res == Err::<(), _>(BackendError::UndecodableRunEvent { data, cause })
                    && *final(self) == *old(self),
            },
    {
        let event = match payload {
            Ok(event) => event,
            Err(cause) => {
                return Err(BackendError::UndecodableRunEvent { data, cause });
            },
        };
        match event.line {
            Some(line) => match event.stream {
                Some(ProcessOutputStream::Stderr) => self.stderr.push(line),
                Some(ProcessOutputStream::Stdout) | None => self.stdout.push(line),
            },
            None => {
                if event.started_at.is_none() {
                    self.saw_exit = true;
                    self.exit_code = resolve_exit_code(event.exit_code, event.signal);
                }
            },
        }
        Ok(())
    }

    /// What came of the run, once the stream is over. A stream without an exit
    /// leaves open whether the command has run.
    pub fn finish(self) -> (res: Result<RunOutcome, BackendError>)
        ensures
            comes_to(self.collected(), res),
    {
        if !self.saw_exit {
            return Err(BackendError::MissingExit);
        }
        Ok(
            RunOutcome {
                exit_code: self.exit_code,
                stdout: self.stdout.into_text(),
                stderr: self.stderr.into_text(),
            },
        )
    }
}

/// The command line of a process: program, arguments, environment and
/// directory. An empty directory is not passed on.
#[derive(Debug)]
pub struct CommandLine {
    pub command: String,
    pub args: Vec<String>,
    pub env: Environment,
    pub working_dir: Option<String>,
}

/// The directory that the sandbox is told to run a process in.
pub open spec fn passed_dir(cwd: String) -> Option<String> {
    if cwd@.len() == 0 {
        None
    } else {
        Some(cwd)
    }
}

pub fn command_line(cwd: &String, command: &SandboxCommand) -> (line: CommandLine)
    requires
        command.argv@.len() > 0,
    ensures
        line.command == command.argv@[0],
        line.args@ == command.argv@.skip(1),
        line.env@ == command.env@,
        line.working_dir == passed_dir(*cwd),
{
    CommandLine {
        command: command.argv[0].clone(),
        args: texts_from(&command.argv, 1),
        env: command.env.clone(),
        working_dir: if cwd.as_str().is_empty() {
            None
        } else {
            Some(cwd.clone())
        },
    }
}

/// The request that runs a command.
pub fn run_process(base_url: &str, cwd: &String, command: &SandboxCommand) -> (res: (
    ApiRequest,
    RunProcessBody,
))
    requires
        command.argv@.len() > 0,
    ensures
        res.0.is(Method::Post, base_url@ + "/api/v1/processes/run"@),
        res.1.command == command.argv@[0],
        res.1.args@ == command.argv@.skip(1),
        res.1.env@ == command.env@,
        res.1.working_dir == passed_dir(*cwd),
        res.1.timeout == command.timeout,
{
    let line = command_line(cwd, command);
    (
        ApiRequest { method: Method::Post, url: concat_text(base_url, "/api/v1/processes/run") },
        RunProcessBody {
            command: line.command,
            args: line.args,
            env: line.env,
            working_dir: line.working_dir,
            timeout: command.timeout,
        },
    )
}

/// `res` says whether a call was taken up.
pub open spec fn taken_up(
    call: ProxyCall,
    reply: Reply<()>,
    res: Result<(), ProxyCallError>,
) -> bool {
    match reply {
        Reply::Unsent { cause } => res == Err::<(), _>(
            ProxyCallError::Unavailable(
                BackendError::Transport { activity: call.activity(), cause },
            ),
        ),
        Reply::Answered { status, body } => if status.succeeded() {
            res is Ok
        } else if says_unreachable(status) {
            res matches Err(ProxyCallError::Unavailable(error)) && reports_refusal(
                error,
                call.operation(),
                status,
                body.shown(),
            )
        } else {
            res matches Err(ProxyCallError::Failed(error)) && reports_refusal(
                error,
                call.operation(),
                status,
                body.shown(),
            )
        },
    }
}

/// Reads the first part of an answer: whether the command is running now. From
/// then on it must not be sent again.
pub fn run_accepted(reply: Reply<()>) -> (res: Result<(), ProxyCallError>)
    ensures
        taken_up(ProxyCall::RunProcess, reply, res),
{
    match reply {
        Reply::Unsent { cause } => Err(classify_transport_error(cause, ProxyCall::RunProcess)),
        Reply::Answered { status, body } => {
            if status.is_success() {
                return Ok(());
            }
            Err(classify_proxy_status(status, ProxyCall::RunProcess, body.into_text()))
        },
    }
}

/// Whether the wait for the events of a run can be told.
pub open spec fn has_backstop(command: SandboxCommand) -> bool {
    command.timeout matches Some(timeout) ==> timeout.secs + EXEC_TIMEOUT_GRACE_SECS <= u64::MAX
}

/// Tests whether the wait for the events of a run can be told: a timeout may be
/// too long.
pub fn timeout_fits(command: &SandboxCommand) -> (fits: bool)
    ensures
        fits == has_backstop(*command),
{
    match command.timeout {
        Some(timeout) => timeout.secs <= u64::MAX - EXEC_TIMEOUT_GRACE_SECS,
        None => true,
    }
}

/// How long to wait for the events of a run: somewhat longer than the sandbox
/// lets the command run.
pub fn run_backstop(command: &SandboxCommand) -> (limit: Option<TimeSpan>)
    requires
        has_backstop(*command),
    ensures
        match (command.timeout, limit) {
            (Some(timeout), Some(limit)) => {
                &&& limit.secs == timeout.secs + EXEC_TIMEOUT_GRACE_SECS
                &&& limit.nanos == timeout.nanos
                &&& timeout.is_normal() ==> limit.is_normal()
            },
            (None, None) => true,
            _ => false,
        },
{
    match command.timeout {
        Some(timeout) => Some(
            TimeSpan { secs: timeout.secs + EXEC_TIMEOUT_GRACE_SECS, nanos: timeout.nanos },
        ),
        None => None,
    }
}

/// How the events of a run ended.
#[derive(Debug)]
pub enum RunEnd {
    /// The stream broke off.
    Broken { cause: String },
    /// The wait took longer than the timeout of the command allows.
    TimedOut,
    /// The collector has come to a result.
    Collected(Result<RunOutcome, BackendError>),
}

/// The command as it is shown.
pub open spec fn shown_argv(command: SandboxCommand) -> Seq<String> {
    match command.display_argv {
        Some(argv) => argv@,
        None => command.argv@,
    }
}

fn copy_shown_argv(command: &SandboxCommand) -> (argv: Vec<String>)
    ensures
        argv@ == shown_argv(*command),
{
    let argv = match &command.display_argv {
        Some(argv) => texts_from(argv, 0),
        None => texts_from(&command.argv, 0),
    };
    assert(command.argv@.skip(0) =~= command.argv@);
    assert(shown_argv(*command).skip(0) =~= shown_argv(*command));
    argv
}

/// `res` is what a command gave that was running and whose events have ended.
pub open spec fn ends_run(
    command: SandboxCommand,
    cwd: String,
    end: RunEnd,
    res: Result<SandboxCommandOutput, ProxyCallError>,
) -> bool {
    match end {
        RunEnd::Broken { cause } => res == Err::<SandboxCommandOutput, _>(
            ProxyCallError::Failed(BackendError::BrokenRunStream { cause }),
        ),
        RunEnd::TimedOut => {
            &&& res matches Err(ProxyCallError::Failed(BackendError::CommandTimedOut { secs, argv }))
            &&& command.timeout matches Some(timeout) && secs == timeout.secs
            &&& argv@ == shown_argv(command)
        },
        RunEnd::Collected(Err(error)) => res == Err::<SandboxCommandOutput, _>(
            ProxyCallError::Failed(error),
        ),
        RunEnd::Collected(Ok(outcome)) => {
            &&& res matches Ok(output)
            &&& output.ok == (outcome.exit_code == Some(0i32))
            &&& output.exit_code == outcome.exit_code
            &&& output.stdout == outcome.stdout
            &&& output.stderr == outcome.stderr
            &&& output.command@ == shown_argv(command)
            &&& output.cwd == cwd
        },
    }
}

/// What a command gave. It has run, so no failure is a reason to run it again.
pub fn run_finished(command: &SandboxCommand, cwd: String, end: RunEnd) -> (res: Result<
    SandboxCommandOutput,
    ProxyCallError,
>)
    requires
        end is TimedOut ==> command.timeout is Some,
    ensures
        ends_run(*command, cwd, end, res),
{
    match end {
        RunEnd::Broken { cause } => Err(
            ProxyCallError::Failed(BackendError::BrokenRunStream { cause }),
        ),
        RunEnd::TimedOut => {
            let secs: u64 = command.timeout.unwrap().secs;
            let argv = copy_shown_argv(command);
            Err(ProxyCallError::Failed(BackendError::CommandTimedOut { secs, argv }))
        },
        RunEnd::Collected(Err(error)) => Err(ProxyCallError::Failed(error)),
        RunEnd::Collected(Ok(outcome)) => {
            let ok = match outcome.exit_code {
                Some(code) => code == 0,
                None => false,
            };
            Ok(
                SandboxCommandOutput {
                    ok,
                    exit_code: outcome.exit_code,
                    stdout: outcome.stdout,
                    stderr: outcome.stderr,
                    command: copy_shown_argv(command),
                    cwd,
                },
            )
        },
    }
}

} // verus!

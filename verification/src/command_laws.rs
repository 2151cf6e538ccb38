//! What becomes of a command, said of the functions that decide it.
use vstd::prelude::*;

use crate::acquire_laws::{is_carried_out, tells_refusal, turns_down};
use crate::api::{
    ProcessOutputStream, RunProcessBody, RunProcessEvent, SnapshotSandboxBody,
    TensorlakeSnapshotManifest,
};
use crate::backend_laws::same_optional;
use crate::error::{Activity, BackendError, Operation};
use crate::handle::{
    classify_proxy_status, classify_transport_error, with_proxy_retry, Placement, ProxyAttempt,
    ProxyCall, ProxyCallError, Session, TensorlakeSandboxHandle, Verdict,
};
use crate::http::{ApiRequest, HttpStatus, Method, Reply};
use crate::lifecycle::{LookUp, Step, TensorlakeSandboxTarget};
use crate::run::{
    as_status, event_fits, exit_code_fits, framed, resolve_exit_code, run_accepted,
    run_backstop, run_finished, run_process, timeout_fits, Collected, OutputLines, RunCollector,
    RunEnd, RunOutcome,
};
use crate::sandbox::{
    SandboxCommand, SandboxCommandOutput, SnapshotKind, TimeSpan,
};

verus! {

/// The status says that the sandbox is not there.
pub open spec fn is_away(status: HttpStatus) -> bool {
    let code = status.number();
    code == 404 || code == 502 || code == 503 || code == 504
}

/// A first try that found the sandbox out of reach is followed by a second one
/// in the same directory, whatever made it unavailable.
pub proof fn law_a_first_try_out_of_reach_is_repeated<T>(
    attempt: ProxyAttempt,
    error: BackendError,
    res: (Verdict<T>, bool),
)
    requires
        attempt.number == 0,
        call_ensures(
            with_proxy_retry::<T>,
            (attempt, Err(ProxyCallError::Unavailable(error))),
            res,
        ),
    ensures
        res.0 matches Verdict::TryAgain(next) && next.number == 1 && next.cwd == attempt.cwd,
        res.1,
{
}

/// A later try is the last one: its error is what the caller gets, and the
/// sandbox is known to be out of reach.
pub proof fn law_a_second_try_is_the_last<T>(
    attempt: ProxyAttempt,
    error: BackendError,
    res: (Verdict<T>, bool),
)
    requires
        attempt.number >= 1,
        call_ensures(
            with_proxy_retry::<T>,
            (attempt, Err(ProxyCallError::Unavailable(error))),
            res,
        ),
    ensures
        res.0 == Verdict::<T>::Return(Err(error)),
        res.1,
{
}

/// A try that reached the sandbox is final, whether it gave a value or an error:
/// the caller gets it as it is, and the sandbox counts as reachable.
pub proof fn law_a_try_that_reached_the_sandbox_is_final<T>(
    attempt: ProxyAttempt,
    value: T,
    error: BackendError,
    done: (Verdict<T>, bool),
    failed: (Verdict<T>, bool),
)
    requires
        call_ensures(with_proxy_retry::<T>, (attempt, Ok(value)), done),
        call_ensures(
            with_proxy_retry::<T>,
            (attempt, Err(ProxyCallError::Failed(error))),
            failed,
        ),
    ensures
        done == (Verdict::<T>::Return(Ok(value)), false),
        failed == (Verdict::<T>::Return(Err(error)), false),
{
}

/// A call without an answer and a call that is answered with one of four statuses
/// did not reach the sandbox. Any other refusal did.
pub proof fn law_four_statuses_mean_out_of_reach(
    status: HttpStatus,
    call: ProxyCall,
    body: String,
    cause: String,
    refused: ProxyCallError,
    unsent: ProxyCallError,
)
    requires
        call_ensures(classify_proxy_status, (status, call, body), refused),
        call_ensures(classify_transport_error, (cause, call), unsent),
    ensures
        refused is Unavailable <==> is_away(status),
        ({
            let error = match refused {
                ProxyCallError::Unavailable(error) => error,
                ProxyCallError::Failed(error) => error,
            };
            error matches BackendError::Refused { operation, status: shown, body: kept } && {
                &&& shown == status
                &&& kept == body
                &&& call is RunProcess ==> operation is RunProcess
                &&& call is StartProcess ==> operation is StartProcess
            }
        }),
        unsent matches ProxyCallError::Unavailable(
            BackendError::Transport { activity, cause: kept },
        ) && {
            &&& kept == cause
            &&& call is RunProcess ==> activity is RunningProcess
            &&& call is StartProcess ==> activity is StartingProcess
        },
{
}

/// A command goes where the sandbox was last reached. One that is out of reach
/// is looked for first, by its name if it has one, else by its id, and is
/// neither created nor replaced.
pub proof fn law_a_command_goes_where_the_sandbox_is(
    handle: &TensorlakeSandboxHandle,
    session: &Session,
    placement: Placement,
)
    requires
        call_ensures(TensorlakeSandboxHandle::running_target, (handle, session), placement),
    ensures
        session.live ==> placement == Placement::Live(session.target),
        !session.live ==> (placement matches Placement::Unknown(Step::LookUp(look))
            && look.intent is Refresh && match handle.name {
            Some(name) => look.identifier@ == name@,
            None => look.identifier@ == session.target.sandbox_id@,
        }),
{
}

/// A command begins with a first try, in its own directory or else in that of
/// the spec, unless it has no words. Running and starting begin alike.
pub proof fn law_a_command_begins_with_a_first_try(
    handle: &TensorlakeSandboxHandle,
    command: &SandboxCommand,
    run: Result<ProxyAttempt, BackendError>,
    started: Result<ProxyAttempt, BackendError>,
)
    requires
        call_ensures(TensorlakeSandboxHandle::exec, (handle, command), run),
        call_ensures(TensorlakeSandboxHandle::start_process, (handle, command), started),
    ensures
        command.argv@.len() == 0 ==> run == Err::<ProxyAttempt, _>(BackendError::EmptyCommand),
        command.argv@.len() > 0 ==> (run matches Ok(attempt) && attempt.number == 0
            && match command.cwd {
            Some(cwd) => attempt.cwd@ == cwd@,
            None => attempt.cwd@ == handle.request.spec.default_workdir@,
        }),
        started == run,
{
}

/// Stopping suspends a sandbox that has a name, by its name, and deletes one that
/// has none, by its id. A sandbox that is not there counts as deleted, but not as
/// suspended.
pub proof fn law_stopping_keeps_only_named_sandboxes(
    handle: &TensorlakeSandboxHandle,
    target: &TensorlakeSandboxTarget,
    sent: ApiRequest,
    reply: Reply<()>,
    res: Result<(), BackendError>,
)
    requires
        call_ensures(TensorlakeSandboxHandle::stop, (handle, target), sent),
        call_ensures(TensorlakeSandboxHandle::stopped, (handle, target, reply), res),
    ensures
        handle.name matches Some(name) ==> sent.method == Method::Post && sent.url@
            =~= handle.backend.api_url@ + "/sandboxes/"@ + name@ + "/suspend"@,
        handle.name is None ==> sent.method == Method::Delete && sent.url@
            =~= handle.backend.api_url@ + "/sandboxes/"@ + target.sandbox_id@,
        is_carried_out(reply) ==> res is Ok,
        handle.name is Some ==> (res is Ok <==> is_carried_out(reply)),
        handle.name is None ==> (res is Ok <==> is_carried_out(reply)
            || crate::acquire_laws::has_status(reply, 404)),
        reply matches Reply::Unsent { cause } ==> (res matches Err(
            BackendError::Transport { activity, cause: kept },
        ) && kept == cause && match handle.name {
            Some(name) => activity == (Activity::Suspending { identifier: name }),
            None => activity == (Activity::Deleting { identifier: target.sandbox_id }),
        }),
        forall|status: HttpStatus, text: Seq<char>|
            #![trigger turns_down(reply, status, text)]
            turns_down(reply, status, text) && res is Err ==> tells_refusal(
                res->Err_0,
                if handle.name is Some {
                    Operation::SuspendSandbox
                } else {
                    Operation::DeleteSandbox
                },
                status,
                text,
            ),
{
}

/// A snapshot is taken of the sandbox where it runs, and what is kept of it is
/// its id and the name of the sandbox.
pub proof fn law_a_snapshot_keeps_id_and_name(
    handle: &TensorlakeSandboxHandle,
    target: &TensorlakeSandboxTarget,
    sent: (ApiRequest, SnapshotSandboxBody),
    snapshot_id: String,
    kept: (SnapshotKind, TensorlakeSnapshotManifest),
)
    requires
        call_ensures(TensorlakeSandboxHandle::snapshot, (handle, target), sent),
        call_ensures(TensorlakeSandboxHandle::manifest, (handle, snapshot_id), kept),
    ensures
        sent.0.method == Method::Post,
        sent.0.url@ =~= handle.backend.api_url@ + "/sandboxes/"@ + target.sandbox_id@
            + "/snapshot"@,
        sent.1.snapshot_type@ == "filesystem"@,
        kept.0 is TensorlakeSnapshot,
        kept.1.snapshot_id == snapshot_id,
        same_optional(kept.1.sandbox_name, handle.name),
{
}

/// An exit code is reported as it is. Without one, a signal shows as its number
/// above 128, and without either there is none. Nothing else than a signal that
/// is too large cannot be told.
pub proof fn law_an_exit_code_comes_before_a_signal(
    exit_code: Option<i32>,
    signal: Option<i32>,
    code: Option<i32>,
    fits: bool,
)
    requires
        call_ensures(exit_code_fits, (exit_code, signal), fits),
        fits ==> call_ensures(resolve_exit_code, (exit_code, signal), code),
    ensures
        fits <==> (exit_code is Some || signal is None || signal->0 <= i32::MAX - 128),
        fits && exit_code is Some ==> code == exit_code,
        fits && exit_code is None && signal is Some ==> (code matches Some(told) && told
            == 128 + signal->0),
        fits && exit_code is None && signal is None ==> code is None,
{
}

/// What a sandbox is told to run is the command: its words in order, its
/// variables, its timeout, and its directory unless that is empty.
pub proof fn law_a_sandbox_is_told_the_command(
    base_url: &str,
    cwd: &String,
    command: &SandboxCommand,
    sent: (ApiRequest, RunProcessBody),
)
    requires
        command.argv@.len() > 0,
        call_ensures(run_process, (base_url, cwd, command), sent),
    ensures
        sent.0.method == Method::Post,
        sent.0.url@ == base_url@ + "/api/v1/processes/run"@,
        seq![sent.1.command] + sent.1.args@ =~= command.argv@,
        sent.1.env@ == command.env@,
        sent.1.timeout == command.timeout,
        cwd@.len() == 0 <==> sent.1.working_dir is None,
        sent.1.working_dir matches Some(dir) ==> dir@ == cwd@,
{
}

/// A command is taken up exactly if it is answered with a success. It did not
/// reach the sandbox exactly if no answer came or one of four statuses did.
pub proof fn law_a_success_takes_a_command_up(reply: Reply<()>, res: Result<(), ProxyCallError>)
    requires
        call_ensures(run_accepted, (reply,), res),
    ensures
        res is Ok <==> is_carried_out(reply),
        (res matches Err(ProxyCallError::Unavailable(_))) <==> match reply {
            Reply::Unsent { .. } => true,
            Reply::Answered { status, .. } => is_away(status),
        },
        reply matches Reply::Unsent { cause } ==> res == Err::<(), _>(
            ProxyCallError::Unavailable(
                BackendError::Transport { activity: Activity::RunningProcess, cause },
            ),
        ),
        forall|status: HttpStatus, text: Seq<char>|
            #![trigger turns_down(reply, status, text)]
            turns_down(reply, status, text) ==> {
                let error = match res->Err_0 {
                    ProxyCallError::Unavailable(error) => error,
                    ProxyCallError::Failed(error) => error,
                };
                tells_refusal(error, Operation::RunProcess, status, text)
            },
{
}

/// The wait for a command outlasts its timeout by ten seconds, and a command
/// without a timeout is waited for without a limit.
pub proof fn law_the_wait_outlasts_the_timeout(
    command: &SandboxCommand,
    fits: bool,
    limit: Option<TimeSpan>,
)
    requires
        call_ensures(timeout_fits, (command,), fits),
        fits ==> call_ensures(run_backstop, (command,), limit),
    ensures
        fits <==> (command.timeout matches Some(timeout) ==> timeout.secs <= u64::MAX - 10),
        fits ==> (limit is Some <==> command.timeout is Some),
        fits && command.timeout is Some ==> {
            let (timeout, wait) = (command.timeout->0, limit->0);
            &&& wait.secs * 1_000_000_000 + wait.nanos == (timeout.secs + 10) * 1_000_000_000
                + timeout.nanos
            &&& wait.nanos == timeout.nanos
        },
{
}

/// The words that a command is shown with.
pub open spec fn are_shown(command: SandboxCommand, words: Seq<String>) -> bool {
    match command.display_argv {
        Some(shown) => words == shown@,
        None => words == command.argv@,
    }
}

/// A command that has run to its end is ok exactly if its exit code is zero. Its
/// exit code and its output are reported as they were collected, with the words
/// that it is shown with and the directory that it ran in.
pub proof fn law_a_command_is_ok_exactly_if_it_exits_with_zero(
    command: &SandboxCommand,
    cwd: String,
    outcome: RunOutcome,
    res: Result<SandboxCommandOutput, ProxyCallError>,
)
    requires
        call_ensures(run_finished, (command, cwd, RunEnd::Collected(Ok(outcome))), res),
    ensures
        res matches Ok(output) && {
            &&& output.ok <==> outcome.exit_code == Some(0i32)
            &&& output.exit_code == outcome.exit_code
            &&& output.stdout@ == outcome.stdout@
            &&& output.stderr@ == outcome.stderr@
            &&& are_shown(*command, output.command@)
            &&& output.cwd@ == cwd@
        },
{
}

/// A command whose events did not come to a result has failed, and is not tried
/// again: the stream broke off, the time ran out, or the events made no sense.
pub proof fn law_a_command_without_a_result_has_failed(
    command: &SandboxCommand,
    cwd: String,
    cause: String,
    error: BackendError,
    broken: Result<SandboxCommandOutput, ProxyCallError>,
    timed_out: Result<SandboxCommandOutput, ProxyCallError>,
    senseless: Result<SandboxCommandOutput, ProxyCallError>,
)
    requires
        command.timeout is Some,
        call_ensures(run_finished, (command, cwd, RunEnd::Broken { cause }), broken),
        call_ensures(run_finished, (command, cwd, RunEnd::TimedOut), timed_out),
        call_ensures(run_finished, (command, cwd, RunEnd::Collected(Err(error))), senseless),
    ensures
        broken == Err::<SandboxCommandOutput, _>(
            ProxyCallError::Failed(BackendError::BrokenRunStream { cause }),
        ),
        timed_out matches Err(ProxyCallError::Failed(BackendError::CommandTimedOut { secs, argv }))
            && secs == command.timeout->0.secs && are_shown(*command, argv@),
        senseless == Err::<SandboxCommandOutput, _>(ProxyCallError::Failed(error)),
{
}

/// One line of output is that line with a line feed behind it, also where it is
/// empty, and no lines are no text. With [`law_output_text_adds_up`] this fixes
/// the text of any output.
///
/// [`law_output_text_adds_up`]: crate::process_laws::law_output_text_adds_up
pub proof fn law_every_line_ends_with_a_line_feed(line: Seq<char>)
    ensures
        framed(seq![line]) =~= line.push('\n'),
        framed(Seq::empty()).len() == 0,
{
    assert(seq![line].drop_last() =~= Seq::<Seq<char>>::empty());
    assert(framed(seq![line].drop_last()) =~= Seq::empty());
}

/// The text of an output is that of its lines.
pub proof fn law_output_is_the_text_of_its_lines(output: OutputLines, text: String, i: int)
    requires
        call_ensures(OutputLines::into_text, (output,), text),
    ensures
        text@ == framed(output@),
        output@.len() == output.lines@.len(),
        0 <= i < output@.len() ==> output@[i] == output.lines@[i]@,
{
}

/// A line goes to standard error exactly if it says so, and else to standard
/// output; it changes nothing else. What is known of a run never loses a line.
pub proof fn law_a_line_goes_to_its_stream(collected: Collected, event: RunProcessEvent)
    requires
        event.line is Some,
    ensures
        ({
            let more = collected.with(event);
            let line = event.line->0@;
            &&& more.exit == collected.exit
            &&& event.stream == Some(ProcessOutputStream::Stderr) ==> more.stderr
                == collected.stderr.push(line) && more.stdout == collected.stdout
            &&& event.stream != Some(ProcessOutputStream::Stderr) ==> more.stdout
                == collected.stdout.push(line) && more.stderr == collected.stderr
        }),
{
}

/// An event without a line reports the start of the process if it says when that
/// was, and changes nothing; else it reports the exit.
pub proof fn law_an_event_without_a_line_is_a_start_or_an_exit(
    collected: Collected,
    event: RunProcessEvent,
    code: Option<i32>,
    fits: bool,
)
    requires
        event.line is None,
        call_ensures(event_fits, (&event,), fits),
        fits && event.started_at is None ==> call_ensures(
            resolve_exit_code,
            (event.exit_code, event.signal),
            code,
        ),
    ensures
        ({
            let more = collected.with(event);
            &&& more.stdout == collected.stdout && more.stderr == collected.stderr
            &&& event.started_at is Some ==> more.exit == collected.exit
            &&& fits && event.started_at is None ==> more.exit == Some(as_status(code))
        }),
        fits <==> event.started_at is Some || event.exit_code is Some || event.signal is None
            || event.signal->0 <= i32::MAX - 128,
{
}

/// An event with a line can always be taken in.
pub proof fn law_lines_can_always_be_taken_in(event: &RunProcessEvent, fits: bool)
    requires
        event.line is Some,
        call_ensures(event_fits, (event,), fits),
    ensures
        fits,
{
}

/// A run comes to a result exactly if its exit was seen; the result holds the
/// exit code and the text of the lines on both streams.
pub proof fn law_a_run_comes_to_what_was_collected(
    collector: RunCollector,
    res: Result<RunOutcome, BackendError>,
)
    requires
        call_ensures(RunCollector::finish, (collector,), res),
    ensures
        res is Ok <==> collector.saw_exit,
        res matches Ok(outcome) ==> {
            &&& outcome.exit_code == collector.exit_code
            &&& outcome.stdout@ == framed(collector.stdout@)
            &&& outcome.stderr@ == framed(collector.stderr@)
        },
        res matches Err(error) ==> error is MissingExit,
{
}

} // verus!

//! What a failure says, so that nothing that is known of it is lost.
use vstd::prelude::*;

use crate::api::SandboxStatus;
use crate::error::{debug_text, optional, Activity, BackendError, Operation};
use crate::http::HttpStatus;
use crate::sandbox::SnapshotKind;
use crate::text::{decimal, decimal_text, join_text};

verus! {

/// The text ends with `tail`.
pub open spec fn ends_in(text: Seq<char>, tail: Seq<char>) -> bool {
    tail.len() <= text.len() && text.skip(text.len() - tail.len()) =~= tail
}

/// The text begins with `head`.
pub open spec fn begins_with(text: Seq<char>, head: Seq<char>) -> bool {
    head.len() <= text.len() && text.take(head.len() as int) =~= head
}

/// A request that was turned down says which one it was, with which status, and
/// everything that the answer said.
pub proof fn law_a_refusal_is_told_in_full(
    operation: Operation,
    status: HttpStatus,
    body: String,
    name: &str,
    shown: String,
    text: String,
    cause: Option<String>,
)
    requires
        call_ensures(Operation::to_text, (operation,), name),
        call_ensures(HttpStatus::to_text, (status,), shown),
        call_ensures(
            BackendError::message,
            (&BackendError::Refused { operation, status, body },),
            text,
        ),
        call_ensures(
            BackendError::cause,
            (&BackendError::Refused { operation, status, body },),
            cause,
        ),
    ensures
        text@ =~= name@ + " failed ("@ + shown@ + "): "@ + body@,
        cause is None,
{
}

/// A status shows its code first.
pub proof fn law_a_status_shows_its_code(
    status: HttpStatus,
    code: u16,
    number: String,
    shown: String,
)
    requires
        call_ensures(HttpStatus::as_u16, (status,), code),
        call_ensures(decimal_text, (code as u64,), number),
        call_ensures(HttpStatus::to_text, (status,), shown),
    ensures
        begins_with(shown@, number@.push(' ')),
{
}

/// A body that broke off or is something else than was promised says of which
/// request it was, and why; one that is something else is shown.
pub proof fn law_a_bad_body_is_told_in_full(
    operation: Operation,
    body: String,
    why: String,
    name: &str,
    broken: String,
    senseless: String,
    broken_cause: Option<String>,
    senseless_cause: Option<String>,
)
    requires
        call_ensures(Operation::to_text, (operation,), name),
        call_ensures(
            BackendError::message,
            (&BackendError::UnreadableBody { operation, cause: why },),
            broken,
        ),
        call_ensures(
            BackendError::cause,
            (&BackendError::UnreadableBody { operation, cause: why },),
            broken_cause,
        ),
        call_ensures(
            BackendError::message,
            (&BackendError::Undecodable { operation, body, cause: why },),
            senseless,
        ),
        call_ensures(
            BackendError::cause,
            (&BackendError::Undecodable { operation, body, cause: why },),
            senseless_cause,
        ),
    ensures
        broken@ =~= "reading "@ + name@ + " response body"@,
        broken_cause matches Some(kept) && kept@ == why@,
        senseless@ =~= "decoding "@ + name@ + " response: "@ + body@,
        senseless_cause matches Some(kept) && kept@ == why@,
{
}

/// A request without an answer says what was being done, and why it failed.
pub proof fn law_a_lost_request_is_told_in_full(
    activity: Activity,
    why: String,
    doing: String,
    text: String,
    cause: Option<String>,
)
    requires
        call_ensures(Activity::to_text, (&activity,), doing),
        call_ensures(
            BackendError::message,
            (&BackendError::Transport { activity, cause: why },),
            text,
        ),
        call_ensures(
            BackendError::cause,
            (&BackendError::Transport { activity, cause: why },),
            cause,
        ),
    ensures
        text@ == doing@,
        cause matches Some(kept) && kept@ == why@,
{
}

/// What is being done to a sandbox or a process ends with what it is done to.
pub proof fn law_an_activity_says_what_it_is_about(activity: &Activity, text: String)
    requires
        call_ensures(Activity::to_text, (activity,), text),
    ensures
        match activity {
            Activity::Fetching { identifier } => text@ =~= "fetching Tensorlake sandbox "@
                + identifier@,
            Activity::Deleting { identifier } => text@ =~= "deleting Tensorlake sandbox "@
                + identifier@,
            Activity::Suspending { identifier } => text@ =~= "suspending Tensorlake sandbox "@
                + identifier@,
            Activity::Resuming { identifier } => text@ =~= "resuming Tensorlake sandbox "@
                + identifier@,
            Activity::Polling { sandbox_id } => text@ =~= "polling Tensorlake sandbox "@
                + sandbox_id@,
            Activity::Snapshotting { sandbox_id } => text@ =~= "snapshotting Tensorlake sandbox "@
                + sandbox_id@,
            Activity::PollingProcess { url } => text@ =~= "polling Tensorlake process at "@ + url@,
            Activity::FollowingOutput { url } => text@
                =~= "following Tensorlake process output at "@ + url@,
            Activity::Creating => text@ == "creating Tensorlake sandbox"@,
            Activity::RunningProcess => text@ == "Tensorlake run-process"@,
            Activity::StartingProcess => text@ == "Tensorlake start-process"@,
        },
{
}

/// Each operation is called by its own name.
pub proof fn law_operations_have_their_own_names(operation: Operation, name: &str)
    requires
        call_ensures(Operation::to_text, (operation,), name),
    ensures
        operation is GetSandbox ==> name@ == "Tensorlake get-sandbox"@,
        operation is CreateSandbox ==> name@ == "Tensorlake create-sandbox"@,
        operation is DeleteSandbox ==> name@ == "Tensorlake delete-sandbox"@,
        operation is SuspendSandbox ==> name@ == "Tensorlake suspend-sandbox"@,
        operation is ResumeSandbox ==> name@ == "Tensorlake resume-sandbox"@,
        operation is SnapshotSandbox ==> name@ == "Tensorlake snapshot-sandbox"@,
        operation is RunProcess ==> name@ == "Tensorlake run-process"@,
        operation is StartProcess ==> name@ == "Tensorlake start-process"@,
        operation is GetProcess ==> name@ == "Tensorlake get-process"@,
        operation is FollowOutput ==> name@ == "Tensorlake follow-output"@,
{
}

/// States of a sandbox and kinds of snapshots are called by their own names.
pub proof fn law_states_and_kinds_have_their_own_names(
    status: SandboxStatus,
    state: &str,
    kind: SnapshotKind,
    name: &str,
)
    requires
        call_ensures(SandboxStatus::to_text, (status,), state),
        call_ensures(SnapshotKind::to_text, (kind,), name),
    ensures
        status is Pending ==> state@ == "Pending"@,
        status is Running ==> state@ == "Running"@,
        status is Snapshotting ==> state@ == "Snapshotting"@,
        status is Suspending ==> state@ == "Suspending"@,
        status is Suspended ==> state@ == "Suspended"@,
        status is Terminated ==> state@ == "Terminated"@,
        kind is DockerImageTar ==> name@ == "DockerImageTar"@,
        kind is TensorlakeSnapshot ==> name@ == "TensorlakeSnapshot"@,
{
}

/// A failure of a sandbox names the sandbox, and tells the reason that the
/// platform gave, if it gave one.
pub proof fn law_a_sandbox_that_fails_is_named(error: &BackendError, text: String)
    requires
        call_ensures(BackendError::message, (error,), text),
    ensures
        match error {
            BackendError::Terminated { sandbox_id } => text@ =~= "Tensorlake sandbox "@
                + sandbox_id@ + " is terminated and cannot be reused"@,
            BackendError::TerminatedWhileStarting { sandbox_id, outcome: None } => text@
                =~= "Tensorlake sandbox "@ + sandbox_id@ + " terminated while starting"@,
            BackendError::TerminatedWhileStarting { sandbox_id, outcome: Some(outcome) } => text@
                =~= "Tensorlake sandbox "@ + sandbox_id@ + " terminated while starting"@ + ": "@
                + outcome@,
            BackendError::NoSandboxUrl { sandbox_id } => text@ =~= "Tensorlake sandbox "@
                + sandbox_id@ + " is running but reported no sandbox_url"@,
            BackendError::Gone { identifier } => text@ =~= "Tensorlake sandbox "@ + identifier@
                + " no longer exists"@,
            BackendError::NameConflict { name, last } => text@
                =~= "Tensorlake create-sandbox kept reporting a name conflict for "@ + debug_text(
                optional(*name),
            ) + ": "@ + last@,
            _ => true,
        },
{
}

/// A failure of which nothing more is to be told says what went wrong in words
/// of its own.
pub proof fn law_a_failure_has_words_of_its_own(error: &BackendError, text: String)
    requires
        call_ensures(BackendError::message, (error,), text),
    ensures
        error is InvalidApiKey ==> text@
            == "TENSORLAKE_API_KEY contains characters that aren't valid in an HTTP header"@,
        error is UnsupportedMounts ==> text@
            == "Tensorlake sandbox backend does not support host bind-mounts; remove conversation mounts or use a local sandbox provider"@,
        error is UnsupportedDurableFileSystems ==> text@
            == "Tensorlake sandbox backend does not support durable file systems"@,
        error is UnreadableManifest ==> text@ == "decoding TensorlakeSnapshot manifest"@,
        error is UndecodableStart ==> text@ == "decoding Tensorlake start-process response"@,
        error is EmptyCommand ==> text@ == "sandbox command requires at least one argv entry"@,
        error is BrokenRunStream ==> text@ == "Tensorlake run-process"@,
        error is MissingExit ==> text@
            == "Tensorlake run-process stream ended without an exit event; the command may have run without its result being reported"@,
        error is BrokenOutputStream ==> text@ == "reading Tensorlake event stream"@,
        error is BrokenOutputPipe ==> text@ == "writing Tensorlake process output pipe"@,
{
}

/// Every number of three digits is a status, which tells that number, and no
/// other number is one.
pub proof fn law_a_status_has_three_digits(code: u16, made: Option<HttpStatus>, told: u16)
    requires
        call_ensures(HttpStatus::new, (code,), made),
        made matches Some(status) ==> call_ensures(HttpStatus::as_u16, (status,), told),
    ensures
        made is Some <==> 100 <= code < 1000,
        made is Some ==> told == code,
{
}

/// A sandbox that did not get ready is named, with the state that it was in, the
/// three minutes that it had, and the reason that was given for the wait.
pub proof fn law_a_sandbox_that_is_late_is_named(
    sandbox_id: String,
    status: SandboxStatus,
    reason: Option<String>,
    state: &str,
    text: String,
)
    requires
        call_ensures(SandboxStatus::to_text, (status,), state),
        call_ensures(
            BackendError::message,
            (&BackendError::NotReady { sandbox_id, status, pending_reason: reason },),
            text,
        ),
    ensures
        ({
            let head = "Tensorlake sandbox "@ + sandbox_id@ + " was still "@ + state@ + " after "@;
            match reason {
                None => text@ =~= head + decimal(180) + "s"@,
                Some(why) => text@ =~= head + decimal(180) + "s"@ + " ("@ + why@ + ")"@,
            }
        }),
{
}

/// A command that ran out of time says after how many seconds, and is shown word
/// by word.
pub proof fn law_a_late_command_is_shown(
    secs: u64,
    argv: Vec<String>,
    number: String,
    space: &str,
    words: String,
    text: String,
)
    requires
        space@ == " "@,
        call_ensures(decimal_text, (secs,), number),
        call_ensures(join_text, (&argv, space), words),
        call_ensures(
            BackendError::message,
            (&BackendError::CommandTimedOut { secs, argv },),
            text,
        ),
    ensures
        text@ =~= "sandbox command timed out after "@ + number@ + "s: "@ + words@,
{
}

/// Data that made no sense is shown, and every failure that another one is behind
/// tells that one.
pub proof fn law_a_cause_is_told(error: &BackendError, text: String, told: Option<String>)
    requires
        call_ensures(BackendError::message, (error,), text),
        call_ensures(BackendError::cause, (error,), told),
    ensures
        match error {
            BackendError::UndecodableRunEvent { data, cause } => (text@
                =~= "decoding Tensorlake run-process event: "@ + data@) && (told matches Some(kept)
                && kept@ == cause@),
            BackendError::UndecodableOutputEvent { data, cause } => (text@
                =~= "decoding Tensorlake output event: "@ + data@) && (told matches Some(kept)
                && kept@ == cause@),
            BackendError::InvalidApiKey { cause } => told matches Some(kept) && kept@ == cause@,
            BackendError::UnreadableManifest { cause } => told matches Some(kept) && kept@ == cause@,
            BackendError::UndecodableStart { cause } => told matches Some(kept) && kept@ == cause@,
            BackendError::BrokenRunStream { cause } => told matches Some(kept) && ends_in(
                kept@,
                cause@,
            ),
            BackendError::BrokenOutputStream { cause } => told matches Some(kept) && kept@ == cause@,
            BackendError::BrokenOutputPipe { cause } => told matches Some(kept) && kept@ == cause@,
            BackendError::Transport { .. } => told is Some,
            BackendError::UnreadableBody { .. } => told is Some,
            BackendError::Undecodable { .. } => told is Some,
            _ => told is None,
        },
{
}

/// A snapshot of another kind says which kind it is.
pub proof fn law_a_foreign_snapshot_is_named(kind: SnapshotKind, name: &str, text: String)
    requires
        call_ensures(SnapshotKind::to_text, (kind,), name),
        call_ensures(BackendError::message, (&BackendError::ForeignSnapshot { kind },), text),
    ensures
        ends_in(text@, name@),
        begins_with(text@, "Tensorlake sandbox backend can only restore from "@),
{
    reveal_strlit("Tensorlake sandbox backend can only restore from ");
    reveal_strlit(
        "Tensorlake sandbox backend can only restore from SnapshotKind::TensorlakeSnapshot, got ",
    );
}

} // verus!
